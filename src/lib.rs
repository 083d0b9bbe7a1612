//! A modal terminal text editor engine: a line buffer, a cell grid with
//! frame-to-frame diffing, a key router with one level of pending prefix,
//! and an action executor with an undo log.

pub mod text;
pub mod buffer;
pub mod style;
pub mod render;
pub mod keys;
pub mod theme;
pub mod editor;
pub mod draw;
