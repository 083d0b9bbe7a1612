//! Colors and display styles, and the highlighter's style ranges.

use vstd::prelude::*;

verus! {

/// A terminal color: one of the named colors, a 24-bit color, or an index
/// into the terminal's 256-color palette.
#[derive(Clone, Copy, Debug, PartialEq, Eq, Hash, Structural)]
pub enum Color {
    Reset,
    Black,
    DarkGrey,
    Red,
    DarkRed,
    Green,
    DarkGreen,
    Yellow,
    DarkYellow,
    Blue,
    DarkBlue,
    Magenta,
    DarkMagenta,
    Cyan,
    DarkCyan,
    White,
    Grey,
    Rgb { r: u8, g: u8, b: u8 },
    AnsiValue(u8),
}

/// How a cell is displayed: optional foreground and background colors and
/// two font flags.
#[derive(Clone, Copy, Debug, PartialEq, Eq, Structural)]
pub struct Style {
    pub fg: Option<Color>,
    pub bg: Option<Color>,
    pub bold: bool,
    pub italic: bool,
}

/// The style with no colors and no font flags.
pub open spec fn plain_style() -> Style {
    Style { fg: None, bg: None, bold: false, italic: false }
}

impl Default for Style {
    fn default() -> (r: Style)
        ensures
            r == plain_style(),
    {
        Style { fg: None, bg: None, bold: false, italic: false }
    }
}

/// A style over the half-open range `[start, end)` of a highlighted text.
#[derive(Clone, Copy, Debug)]
pub struct StyleInfo {
    pub start: usize,
    pub end: usize,
    pub style: Style,
}

impl StyleInfo {
    pub open spec fn spec_contains(&self, pos: int) -> bool {
        self.start <= pos < self.end
    }

    /// Whether `pos` lies in `[start, end)`.
    pub fn contains(&self, pos: usize) -> (r: bool)
        ensures
            r == self.spec_contains(pos as int),
    {
        pos >= self.start && pos < self.end
    }
}

/// The style of the first range in `infos` that holds `pos`.
pub open spec fn style_at(infos: Seq<StyleInfo>, pos: int) -> Option<Style>
    decreases infos.len(),
{
    if infos.len() == 0 {
        None
    } else if infos[0].spec_contains(pos) {
        Some(infos[0].style)
    } else {
        style_at(infos.drop_first(), pos)
    }
}

/// No range holds a position at or past the largest `usize`.
pub proof fn lemma_style_at_beyond(infos: Seq<StyleInfo>, pos: int)
    requires
        pos >= usize::MAX,
    ensures
        style_at(infos, pos) is None,
    decreases infos.len(),
{
    if infos.len() > 0 {
        lemma_style_at_beyond(infos.drop_first(), pos);
    }
}

/// The style of the first range that holds `pos`, in the order given.
pub fn determine_style_for_position(style_info: &Vec<StyleInfo>, pos: usize) -> (r: Option<Style>)
    ensures
        r == style_at(style_info@, pos as int),
{
    let mut i: usize = 0;
    proof {
        assert(style_info@.subrange(0, style_info@.len() as int) =~= style_info@);
    }
    while i < style_info.len()
        invariant
            i <= style_info@.len(),
            style_at(style_info@, pos as int) == style_at(style_info@.subrange(i as int, style_info@.len() as int), pos as int),
        decreases style_info.len() - i,
    {
        let ghost rest = style_info@.subrange(i as int, style_info@.len() as int);
        proof {
            assert(rest.drop_first() =~= style_info@.subrange(i + 1, style_info@.len() as int));
        }
        if style_info[i].contains(pos) {
            return Some(style_info[i].style);
        }
        i = i + 1;
    }
    None
}

} // verus!
