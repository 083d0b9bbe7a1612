use modal_editor::draw::{CursorShape, Redraw};
use modal_editor::buffer::Buffer;
use modal_editor::editor::Editor;
use modal_editor::keys::{Action, Config, KeyAction, KeyCode, KeyPress, Mode, Modifiers};
use modal_editor::render::RenderBuffer;
use modal_editor::style::{Color, Style, StyleInfo};
use modal_editor::theme::Theme;

fn editor(contents: &str, width: usize, height: usize) -> Editor {
    let buffer = Buffer::new(Some("notes.txt".to_string()), contents.to_string());
    Editor::with_size(width, height, Config::default(), Theme::default(), buffer)
}

fn key(c: char) -> KeyPress {
    KeyPress { code: KeyCode::Char(c), modifiers: Modifiers::Plain }
}

fn named(n: &str) -> KeyPress {
    KeyPress { code: KeyCode::Named(n.to_string()), modifiers: Modifiers::Plain }
}

fn row_text(g: &RenderBuffer, y: usize) -> String {
    g.cells[y * g.width..(y + 1) * g.width].iter().map(|c| c.c).collect()
}

#[test]
fn test_draw_viewport() {
    let contents = "hello\nworld!";
    let config = Config::default();
    let theme = Theme::default();
    let buffer = Buffer::new(None, contents.to_string());
    let mut render_buffer = RenderBuffer::new(10, 10, Style::default());
    let mut editor = Editor::with_size(10, 10, config, theme, buffer);
    editor.draw_viewport(&mut render_buffer, &vec![]);
    assert_eq!(render_buffer.cells[0].c, ' ');
    assert_eq!(render_buffer.cells[1].c, '1');
    assert_eq!(render_buffer.cells[2].c, ' ');
    assert_eq!(render_buffer.cells[3].c, 'h');
    assert_eq!(render_buffer.cells[4].c, 'e');
    assert_eq!(render_buffer.cells[5].c, 'l');
    assert_eq!(render_buffer.cells[6].c, 'l');
    assert_eq!(render_buffer.cells[7].c, 'o');
    assert_eq!(render_buffer.cells[8].c, ' ');
    assert_eq!(render_buffer.cells[9].c, ' ');
}

#[test]
fn viewport_rows_gutter_and_highlight() {
    let mut e = editor("ab\ncd", 6, 5);
    let mut g = RenderBuffer::new(6, 5, Style::default());
    let red = Style { fg: Some(Color::Red), ..Style::default() };
    let blue = Style { fg: Some(Color::Blue), ..Style::default() };
    // "ab\ncd": position 1 is 'b', position 3 is 'c'; the first range wins.
    let infos = vec![
        StyleInfo { start: 1, end: 2, style: red },
        StyleInfo { start: 0, end: 5, style: blue },
    ];
    e.draw_viewport(&mut g, &infos);
    assert_eq!(row_text(&g, 0), " 1 ab ");
    assert_eq!(row_text(&g, 1), " 2 cd ");
    assert_eq!(row_text(&g, 2), "      ");
    assert_eq!(g.cells[3].style, blue);
    assert_eq!(g.cells[4].style, red);
    assert_eq!(g.cells[6 + 3].style, blue);
    assert_eq!(e.vx, 3);
}

#[test]
fn status_line_segments() {
    let mut e = editor("abc", 26, 4);
    let mut g = RenderBuffer::new(26, 4, Style::default());
    e.execute(&Action::MoveRight);
    e.draw(&mut g, &vec![]);
    let status = row_text(&g, 2);
    assert_eq!(status, " NORMAL \u{e0b0} notes.txt \u{e0b2} 2:1 ");
    let mut narrow = editor("abc", 24, 4);
    let mut g2 = RenderBuffer::new(24, 4, Style::default());
    narrow.execute(&Action::MoveRight);
    narrow.draw_statusline(&mut g2);
    assert_eq!(row_text(&g2, 2), " NORMAL \u{e0b0} notes.tx\u{e0b2} 2:1 ");
    e.execute(&Action::EnterMode(Mode::Insert));
    e.draw_statusline(&mut g);
    assert!(row_text(&g, 2).starts_with(" INSERT "));
}

#[test]
fn bounds_hold_after_motions() {
    let mut e = editor("one\ntwo\nthree", 10, 4);
    for a in [Action::MoveDown, Action::MoveDown, Action::MoveDown, Action::MoveDown, Action::PageDown, Action::MoveRight, Action::MoveRight, Action::MoveRight, Action::MoveRight, Action::MoveRight] {
        e.execute(&a);
    }
    e.check_bounds();
    let vh = 2;
    assert!(e.cy < vh);
    assert!(e.vtop + e.cy < 3);
    let line = e.buffer.get(e.vtop + e.cy).unwrap();
    assert!(e.cx < line.chars().count().max(1));
    e.execute(&Action::MoveToBottom);
    e.check_bounds();
    assert_eq!(e.vtop + e.cy, 2);
    assert_eq!(e.cx, 4);
    e.execute(&Action::MoveToTop);
    e.execute(&Action::MoveUp);
    e.check_bounds();
    assert_eq!((e.vtop, e.cy), (0, 0));
    assert_eq!(e.cx, 2);
}

#[test]
fn bounds_on_empty_buffer() {
    let mut e = editor("", 10, 4);
    e.execute(&Action::MoveDown);
    e.execute(&Action::MoveDown);
    e.execute(&Action::MoveRight);
    e.check_bounds();
    assert_eq!((e.vtop, e.cy, e.cx), (0, 0, 0));
}

#[test]
fn insert_char_then_undo_restores_line() {
    let mut e = editor("abc", 10, 5);
    e.execute(&Action::MoveRight);
    e.execute(&Action::InsertCharAtCursorPos('x'));
    assert_eq!(e.buffer.get(0), Some("axbc".to_string()));
    assert_eq!(e.cx, 2);
    assert!(matches!(e.undo_actions.last(), Some(Action::RemoveCharAt(1, 0))));
    e.execute(&Action::Undo);
    assert_eq!(e.buffer.get(0), Some("abc".to_string()));
    assert!(e.undo_actions.is_empty());
}

#[test]
fn delete_line_then_undo_restores_line_at_index() {
    let mut e = editor("a\nb\nc", 10, 5);
    e.execute(&Action::MoveDown);
    e.execute(&Action::DeleteCurrentLine);
    assert_eq!(e.buffer.lines, vec!["a", "c"]);
    assert!(matches!(e.undo_actions.last(), Some(Action::InsertLineAt(1, Some(t))) if t == "b"));
    e.execute(&Action::Undo);
    assert_eq!(e.buffer.lines, vec!["a", "b", "c"]);
}

#[test]
fn insert_session_undoes_in_one_step() {
    let mut e = editor("ab", 10, 5);
    e.execute(&Action::DeleteCharAtCursorPos);
    assert_eq!(e.buffer.get(0), Some("b".to_string()));
    assert!(e.undo_actions.is_empty());
    e.execute(&Action::EnterMode(Mode::Insert));
    for c in ['x', 'y', 'z'] {
        e.execute(&Action::InsertCharAtCursorPos(c));
    }
    assert_eq!(e.buffer.get(0), Some("xyzb".to_string()));
    assert_eq!(e.insert_undo_actions.len(), 3);
    e.execute(&Action::EnterMode(Mode::Normal));
    assert_eq!(e.undo_actions.len(), 1);
    assert!(e.insert_undo_actions.is_empty());
    e.execute(&Action::Undo);
    assert_eq!(e.buffer.get(0), Some("b".to_string()));
    assert!(e.undo_actions.is_empty());
}

#[test]
fn empty_insert_session_records_nothing() {
    let mut e = editor("ab", 10, 5);
    e.execute(&Action::EnterMode(Mode::Insert));
    e.execute(&Action::EnterMode(Mode::Normal));
    assert!(e.undo_actions.is_empty());
}

#[test]
fn line_insertions_record_deletions() {
    let mut e = editor("a\nb", 10, 5);
    e.execute(&Action::InsertLineBelowCursor);
    assert_eq!(e.buffer.lines, vec!["a", "", "b"]);
    assert_eq!((e.cy, e.cx), (1, 0));
    e.execute(&Action::InsertLineAtCursor);
    assert_eq!(e.buffer.lines, vec!["a", "", "", "b"]);
    e.execute(&Action::Undo);
    e.execute(&Action::Undo);
    assert_eq!(e.buffer.lines, vec!["a", "b"]);
}

#[test]
fn backspace_and_newline() {
    let mut e = editor("abc", 10, 5);
    e.execute(&Action::EnterMode(Mode::Insert));
    e.execute(&Action::MoveToLineEnd);
    e.execute(&Action::DeletePreviousChar);
    assert_eq!(e.buffer.get(0), Some("ac".to_string()));
    assert_eq!(e.cx, 1);
    e.execute(&Action::NewLine);
    assert_eq!(e.buffer.lines, vec!["ac", ""]);
    assert_eq!((e.cx, e.cy), (0, 1));
}

#[test]
fn scrolling_and_centering() {
    let text: Vec<String> = (1..=20).map(|i| format!("l{i}")).collect();
    let mut e = editor(&text.join("\n"), 10, 6);
    e.execute(&Action::PageDown);
    assert_eq!(e.vtop, 4);
    e.execute(&Action::PageUp);
    assert_eq!(e.vtop, 0);
    e.execute(&Action::MoveToBottom);
    assert_eq!((e.vtop, e.cy), (16, 3));
    for _ in 0..3 {
        e.execute(&Action::MoveUp);
    }
    assert_eq!(e.cy, 0);
    e.execute(&Action::MoveLineToViewportCenter);
    assert_eq!((e.vtop, e.cy), (14, 2));
    e.execute(&Action::MoveToTop);
    for _ in 0..5 {
        e.execute(&Action::MoveDown);
    }
    assert_eq!((e.vtop, e.cy), (2, 3));
}

#[test]
fn nested_keys_fire_only_in_order() {
    let mut e = editor("a\nb\nc", 10, 6);
    e.execute(&Action::MoveDown);
    let first = e.handle_event(&key('g')).unwrap();
    assert!(matches!(first, KeyAction::Nested(_)));
    assert!(!e.dispatch(first));
    assert!(e.waiting_key_action.is_some());
    let second = e.handle_event(&key('g'));
    assert!(matches!(second, Some(KeyAction::Single(Action::MoveToTop))));
    assert!(e.waiting_key_action.is_none());
    assert!(!e.dispatch(second.unwrap()));
    assert_eq!(e.cy, 0);
}

#[test]
fn unrelated_key_after_prefix_is_dropped() {
    let mut e = editor("a\nb", 10, 6);
    let first = e.handle_event(&key('d')).unwrap();
    e.dispatch(first);
    assert!(e.handle_event(&key('x')).is_none());
    assert!(e.waiting_key_action.is_none());
    assert!(matches!(e.handle_event(&key('x')), Some(KeyAction::Single(Action::DeleteCharAtCursorPos))));
}

#[test]
fn insert_mode_routing() {
    let mut e = editor("", 10, 6);
    let ka = e.handle_event(&key('i')).unwrap();
    e.dispatch(ka);
    assert_eq!(e.mode, Mode::Insert);
    assert!(matches!(e.handle_event(&key('q')), Some(KeyAction::Single(Action::InsertCharAtCursorPos('q')))));
    assert!(matches!(e.handle_event(&named("Esc")), Some(KeyAction::Single(Action::EnterMode(Mode::Normal)))));
    assert!(e.handle_event(&named("Tab")).is_none());
}

#[test]
fn bundle_stops_at_quit() {
    let mut e = editor("abc", 10, 6);
    let quit = e.dispatch(KeyAction::Multiple(vec![Action::MoveRight, Action::Quit, Action::MoveRight]));
    assert!(quit);
    assert_eq!(e.cx, 1);
    assert!(e.execute(&Action::Quit));
    assert!(!e.execute(&Action::MoveLeft));
}

#[test]
fn undo_multiple_runs_last_first() {
    let mut e = editor("abc", 10, 6);
    e.execute(&Action::UndoMultiple(vec![Action::RemoveCharAt(0, 0), Action::RemoveCharAt(2, 0)]));
    assert_eq!(e.buffer.get(0), Some("b".to_string()));
}

#[test]
fn set_waiting_key_action_makes_table_pending() {
    let mut e = editor("a\nb", 10, 6);
    let table = vec![modal_editor::keys::KeyBinding { key: "w".to_string(), action: KeyAction::Single(Action::MoveDown) }];
    e.execute(&Action::SetWaitingKeyAction(Box::new(KeyAction::Nested(table))));
    assert!(matches!(e.handle_event(&key('w')), Some(KeyAction::Single(Action::MoveDown))));
}

#[test]
fn draw_line_redraws_cursor_row_only() {
    let mut e = editor("ab\ncd", 8, 5);
    let mut g = RenderBuffer::new(8, 5, Style::default());
    e.draw_viewport(&mut g, &vec![]);
    e.execute(&Action::MoveDown);
    e.execute(&Action::InsertCharAtCursorPos('x'));
    e.execute(&Action::MoveUp);
    e.execute(&Action::InsertCharAtCursorPos('y'));
    e.execute(&Action::MoveDown);
    let green = Style { fg: Some(Color::Green), ..Style::default() };
    e.draw_line(&mut g, &vec![StyleInfo { start: 0, end: 1, style: green }]);
    assert_eq!(row_text(&g, 0), " 1 ab   ");
    assert_eq!(row_text(&g, 1), " 2 xcd  ");
    assert_eq!(g.cells[8 + 3].style, green);
    assert_eq!(g.cells[8 + 4].style, Style::default());
}

#[test]
fn cursor_shape_and_position() {
    let mut e = editor("abc", 10, 5);
    assert_eq!(e.cursor_shape(), CursorShape::UserDefault);
    e.execute(&Action::MoveRight);
    assert_eq!(e.cursor_position(), (4, 0));
    let ka = e.handle_event(&key('d')).unwrap();
    e.dispatch(ka);
    assert_eq!(e.cursor_shape(), CursorShape::Underscore);
    e.handle_event(&key('q'));
    e.execute(&Action::EnterMode(Mode::Insert));
    assert_eq!(e.cursor_shape(), CursorShape::Bar);
}

#[test]
fn recentering_keeps_cursor_line() {
    // Too few lines above: nothing moves.
    let mut e = editor("a\nb\nc\nd", 10, 6);
    e.vtop = 1;
    e.cy = 0;
    e.execute(&Action::MoveLineToViewportCenter);
    assert_eq!((e.vtop, e.cy), (1, 0));
    // Enough lines below: scrolls down, same line.
    let text: Vec<String> = (1..=10).map(|i| format!("l{i}")).collect();
    let mut e = editor(&text.join("\n"), 10, 6);
    e.cy = 3;
    e.execute(&Action::MoveLineToViewportCenter);
    assert_eq!((e.vtop, e.cy), (1, 2));
    // Too few lines below: nothing moves.
    let mut e = editor("a\nb\nc\nd", 10, 6);
    e.cy = 3;
    e.execute(&Action::MoveLineToViewportCenter);
    assert_eq!((e.vtop, e.cy), (0, 3));
}

#[test]
fn redraw_regions() {
    let mut e = editor("ab\ncd", 10, 6);
    assert_eq!(e.redraw_for(&KeyAction::Single(Action::InsertCharAtCursorPos('x'))), Redraw::Line);
    assert_eq!(e.redraw_for(&KeyAction::Single(Action::MoveRight)), Redraw::StatusLine);
    assert_eq!(e.redraw_for(&KeyAction::Single(Action::DeleteCurrentLine)), Redraw::Viewport);
    assert_eq!(e.redraw_for(&KeyAction::Single(Action::MoveUp)), Redraw::StatusLine);
    e.vtop = 1;
    assert_eq!(e.redraw_for(&KeyAction::Single(Action::MoveUp)), Redraw::Viewport);
    assert_eq!(e.redraw_after(Redraw::Line, 1), Redraw::Line);
    assert_eq!(e.redraw_after(Redraw::Line, 0), Redraw::Viewport);
}

#[test]
fn alt_key_matches_alt_binding() {
    let table = vec![modal_editor::keys::KeyBinding { key: "Alt-x".to_string(), action: KeyAction::Single(Action::Quit) }];
    let ev = KeyPress { code: KeyCode::Char('x'), modifiers: Modifiers::Alt };
    assert!(matches!(modal_editor::keys::event_to_key_action(&table, &ev), Some(KeyAction::Single(Action::Quit))));
}
