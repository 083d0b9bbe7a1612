//! Drawing the editor's frame into a render grid: the line-number gutter,
//! the highlighted text of the viewport, and the status line.

use vstd::prelude::*;
use crate::buffer::Buffer;
use crate::editor::{Editor, EditorModel, step};
use crate::keys::{Action, ActionView, Config, KeyAction, KeyActionView, Mode};
use crate::render::{Cell, RenderBuffer, cell_of, text_cells, fit, row_of, with_row, lemma_with_row};
use crate::style::{Style, StyleInfo, style_at, determine_style_for_position, lemma_style_at_beyond};
use crate::text::{
    chars_of, decimal, decimal_chars, spaces, pad_left, fit_chars, push_spaces, push_all,
    lemma_decimal_len,
};
use crate::theme::Theme;

verus! {

/// The width of the gutter's numbers for a buffer of `len` lines: one more
/// than the digits of `len`.
pub open spec fn gutter_width_of(len: nat) -> nat {
    decimal(len).len() + 1
}

/// The gutter of the row showing line number `line_no` (counted from 1) of
/// a buffer of `len` lines: the number right-aligned, or blanks past the
/// end, then one space.
pub open spec fn gutter_text(line_no: nat, len: nat) -> Seq<char> {
    let gw = gutter_width_of(len);
    (if 1 <= line_no <= len {
        pad_left(decimal(line_no), gw)
    } else {
        spaces(gw)
    }).push(' ')
}

/// The gutter's style: the theme's gutter colors, falling back to the base
/// colors.
pub open spec fn gutter_style(t: Theme) -> Style {
    Style {
        fg: if t.gutter_style.fg is Some {
            t.gutter_style.fg
        } else {
            t.style.fg
        },
        bg: if t.gutter_style.bg is Some {
            t.gutter_style.bg
        } else {
            t.style.bg
        },
        bold: false,
        italic: false,
    }
}

/// The style found for a position, or `base`.
pub open spec fn style_or(o: Option<Style>, base: Style) -> Style {
    match o {
        Some(s) => s,
        None => base,
    }
}

/// The characters of `line`, each in the style of the first range holding
/// its position `offset + i` in the highlighted text, or in `base`.
pub open spec fn styled_cells(line: Seq<char>, offset: int, infos: Seq<StyleInfo>, base: Style) -> Seq<Cell> {
    Seq::new(line.len(), |i: int| cell_of(line[i], style_or(style_at(infos, offset + i), base)))
}

/// Where row `n` of the viewport from line `top` starts in the viewport's
/// text: the lengths of the rows above, each with its newline.
pub open spec fn row_offset(ls: Seq<Seq<char>>, top: int, n: nat) -> int
    decreases n,
{
    if n == 0 {
        0
    } else {
        row_offset(ls, top, (n - 1) as nat) + ls[top + n - 1].len() + 1
    }
}

/// Row `n` of the viewport before it is fitted to the width: the gutter,
/// then the text of the line if there is one, highlighted as if it stood
/// at `offset` in the highlighted text.
pub open spec fn row_at(
    ls: Seq<Seq<char>>,
    top: usize,
    n: usize,
    offset: int,
    infos: Seq<StyleInfo>,
    t: Theme,
) -> Seq<Cell> {
    let k = top.saturating_add(n);
    text_cells(gutter_text(k.saturating_add(1) as nat, ls.len()), gutter_style(t)) + if (k as int) < ls.len() {
        styled_cells(ls[k as int], offset, infos, t.style)
    } else {
        Seq::empty()
    }
}

/// Row `n` of the viewport before it is fitted to the width, with the
/// viewport's text highlighted as a whole.
pub open spec fn viewport_row(ls: Seq<Seq<char>>, top: usize, n: usize, infos: Seq<StyleInfo>, t: Theme) -> Seq<Cell> {
    row_at(ls, top, n, row_offset(ls, top as int, n as nat), infos, t)
}

/// The mode's segment of the status line.
pub open spec fn mode_text(m: Mode) -> Seq<char> {
    match m {
        Mode::Normal => seq![' ', 'N', 'O', 'R', 'M', 'A', 'L', ' '],
        Mode::Insert => seq![' ', 'I', 'N', 'S', 'E', 'R', 'T', ' '],
    }
}

/// The file's segment of the status line, before fitting.
pub open spec fn file_text(file: Option<String>) -> Seq<char> {
    seq![' '] + match file {
        Some(f) => f@,
        None => seq!['N', 'o', ' ', 'N', 'a', 'm', 'e'],
    }
}

/// The position's segment of the status line: column and line, from 1.
pub open spec fn pos_text(m: EditorModel) -> Seq<char> {
    seq![' '] + decimal(m.cx.saturating_add(1) as nat) + seq![':'] + decimal(m.line().saturating_add(1) as nat)
        + seq![' ']
}

/// The status line before it is fitted to the width: mode, glyph, file
/// name fitted to what is left, glyph, position.
pub open spec fn status_row(m: EditorModel, file: Option<String>, t: Theme) -> Seq<Cell> {
    let s = t.statusline_style;
    let trans = Style { fg: s.outer_style.bg, bg: s.inner_style.bg, bold: false, italic: false };
    let mode = mode_text(m.mode);
    let pos = pos_text(m);
    let fw = (m.width as int - mode.len() - pos.len() - 2);
    let fw = if fw < 0 { 0nat } else { fw as nat };
    text_cells(mode, s.outer_style) + seq![cell_of(s.outer_chars@[1], trans)] + text_cells(
        fit_chars(file_text(file), fw),
        s.inner_style,
    ) + seq![cell_of(s.outer_chars@[2], trans)] + text_cells(pos, s.outer_style)
}

/// Appends the cells of `s` in `style` to `row`.
fn push_cells(row: &mut Vec<Cell>, s: &Vec<char>, style: Style)
    ensures
        final(row)@ == old(row)@ + text_cells(s@, style),
{
    let mut i: usize = 0;
    while i < s.len()
        invariant
            i <= s@.len(),
            row@ == old(row)@ + text_cells(s@.subrange(0, i as int), style),
        decreases s.len() - i,
    {
        let cell = Cell { c: s[i], style };
        proof {
            assert(cell == cell_of(s@[i as int], style));
        }
        row.push(cell);
        i = i + 1;
        proof {
            assert(row@ =~= old(row)@ + text_cells(s@.subrange(0, i as int), style));
        }
    }
    proof {
        assert(s@.subrange(0, i as int) =~= s@);
    }
}

/// The gutter of the row showing line number `line_no` of a buffer of
/// `len` lines.
pub fn gutter_chars(line_no: usize, len: usize) -> (r: Vec<char>)
    ensures
        r@ == gutter_text(line_no as nat, len as nat),
{
    proof {
        lemma_decimal_len(len as nat);
    }
    let gw = decimal_chars(len).len() + 1;
    let mut v: Vec<char> = Vec::new();
    if 1 <= line_no && line_no <= len {
        let digits = decimal_chars(line_no);
        if digits.len() < gw {
            push_spaces(&mut v, gw - digits.len());
        }
        push_all(&mut v, &digits);
        proof {
            assert(v@ =~= pad_left(decimal(line_no as nat), gw as nat));
        }
    } else {
        push_spaces(&mut v, gw);
        proof {
            assert(v@ =~= spaces(gw as nat));
        }
    }
    v.push(' ');
    v
}

/// The terminal cursor's shape.
#[derive(Clone, Copy, Debug, PartialEq, Eq, Structural)]
pub enum CursorShape {
    /// The user's own shape, in Normal mode.
    UserDefault,
    /// A steady bar, in Insert mode.
    Bar,
    /// A steady underscore, while a key table is pending.
    Underscore,
}

impl Editor {
    /// The cursor's shape: an underscore while a key table is pending, else
    /// a bar in Insert mode and the user's shape in Normal mode.
    pub fn cursor_shape(&self) -> (r: CursorShape)
        ensures
            r == if self.waiting_key_action is Some {
                CursorShape::Underscore
            } else if self.mode == Mode::Insert {
                CursorShape::Bar
            } else {
                CursorShape::UserDefault
            },
    {
        match self.waiting_key_action {
            Some(_) => CursorShape::Underscore,
            None => match self.mode {
                Mode::Normal => CursorShape::UserDefault,
                Mode::Insert => CursorShape::Bar,
            },
        }
    }

    /// Where the cursor stands on the terminal: column `vx + cx`, row `cy`.
    pub fn cursor_position(&self) -> (r: (usize, usize))
        ensures
            r == (self.vx.saturating_add(self.cx), self.cy),
    {
        (self.vx.saturating_add(self.cx), self.cy)
    }

    /// Whether `grid` has the terminal's size.
    pub open spec fn fits(&self, grid: &RenderBuffer) -> bool {
        &&& grid.width == self.size.0 as usize
        &&& grid.cells@.len() == grid.width * (self.size.1 as usize)
    }

    /// The width of the gutter's numbers: one more than the digits of the
    /// line count.
    pub fn gutter_width(&self) -> (r: usize)
        ensures
            r == gutter_width_of(self@.lines.len()),
    {
        proof {
            lemma_decimal_len(self.buffer@.len());
        }
        decimal_chars(self.buffer.len()).len() + 1
    }

    /// The gutter's style: the theme's gutter colors, falling back to the
    /// base colors.
    pub fn gutter_style(&self) -> (r: Style)
        ensures
            r == gutter_style(self.theme),
    {
        Style {
            fg: if self.theme.gutter_style.fg.is_some() {
                self.theme.gutter_style.fg
            } else {
                self.theme.style.fg
            },
            bg: if self.theme.gutter_style.bg.is_some() {
                self.theme.gutter_style.bg
            } else {
                self.theme.style.bg
            },
            bold: false,
            italic: false,
        }
    }

    /// Row `n` of the viewport, before it is fitted to the width, with its
    /// text highlighted as if it stood at `off` in the highlighted text;
    /// `offset` is `off` saturated to a `usize`.
    fn build_row(&self, n: usize, offset: usize, Ghost(off): Ghost<int>, infos: &Vec<StyleInfo>) -> (r: Vec<Cell>)
        requires
            offset == if off < usize::MAX {
                off
            } else {
                usize::MAX as int
            },
        ensures
            r@ == row_at(self@.lines, self.vtop, n, off, infos@, self.theme),
    {
        let k = self.vtop.saturating_add(n);
        let gutter = gutter_chars(k.saturating_add(1), self.buffer.len());
        let mut row: Vec<Cell> = Vec::new();
        push_cells(&mut row, &gutter, self.gutter_style());
        proof {
            assert(row@ =~= text_cells(
                gutter_text(k.saturating_add(1) as nat, self@.lines.len()),
                gutter_style(self.theme),
            ));
        }
        let ghost before = row@;
        let ghost top = self.vtop as int;
        let ghost ls = self@.lines;
        if let Some(line) = self.buffer.get(k) {
            let cs = chars_of(line.as_str());
            let base = self.theme.style;
            let mut i: usize = 0;
            while i < cs.len()
                invariant
                    i <= cs@.len(),
                    cs@ == ls[top + n],
                    offset == if off < usize::MAX {
                        off
                    } else {
                        usize::MAX as int
                    },
                    row@ == before + styled_cells(cs@.subrange(0, i as int), off, infos@, base),
                decreases cs.len() - i,
            {
                let pos = offset.saturating_add(i);
                let st = determine_style_for_position(infos, pos);
                let style = match st {
                    Some(s) => s,
                    None => base,
                };
                proof {
                    if off + i >= usize::MAX {
                        lemma_style_at_beyond(infos@, pos as int);
                        lemma_style_at_beyond(infos@, off + i);
                    }
                    assert(style == style_or(style_at(infos@, off + i), base));
                }
                let cell = Cell { c: cs[i], style };
                proof {
                    assert(cell == cell_of(cs@[i as int], style));
                }
                row.push(cell);
                i = i + 1;
                proof {
                    assert(row@ =~= before + styled_cells(cs@.subrange(0, i as int), off, infos@, base));
                }
            }
            proof {
                assert(cs@.subrange(0, i as int) =~= cs@);
            }
        } else {
            proof {
                assert(row@ =~= before + Seq::<Cell>::empty());
            }
        }
        row
    }

    /// Draws every row of the viewport: the gutter, then the line's text in
    /// the style of the first highlight range holding each character's
    /// position in the viewport's text (`infos`), or in the base style; the
    /// rest of the row is blank. The text offset follows the gutter's width.
    pub fn draw_viewport(&mut self, grid: &mut RenderBuffer, infos: &Vec<StyleInfo>)
        requires
            old(self).fits(old(grid)),
        ensures
            final(self)@ == old(self)@,
            final(self).config == old(self).config,
            final(self).theme == old(self).theme,
            final(self).size == old(self).size,
            final(self).buffer.file == old(self).buffer.file,
            final(self).vx == gutter_width_of(old(self)@.lines.len()) + 1,
            final(self).fits(final(grid)),
            final(grid).height == old(grid).height,
            forall|n: int|
                0 <= n < old(self)@.height ==> #[trigger] row_of(final(grid).cells@, final(grid).width as nat, n)
                    == fit(
                    viewport_row(old(self)@.lines, old(self).vtop, n as usize, infos@, old(self).theme),
                    final(grid).width as nat,
                    old(self).theme.style,
                ),
            forall|n: int|
                old(self)@.height <= n < old(self).size.1 ==> #[trigger] row_of(
                    final(grid).cells@,
                    final(grid).width as nat,
                    n,
                ) == row_of(old(grid).cells@, old(grid).width as nat, n),
    {
        let blen = self.buffer.len();
        proof {
            lemma_decimal_len(self@.lines.len());
        }
        self.vx = self.gutter_width() + 1;
        let vh = self.vheight();
        let w = grid.width;
        let rows = self.size.1 as usize;
        let ghost ls = self@.lines;
        let ghost top = self.vtop as int;
        let ghost w_n = w as nat;
        let base = self.theme.style;
        let mut offset: usize = 0;
        let mut n: usize = 0;
        while n < vh
            invariant
                n <= vh,
                vh == old(self)@.height,
                vh <= rows,
                rows == self.size.1 as usize,
                self@ == old(self)@,
                self.theme == old(self).theme,
                self.size == old(self).size,
                self.vtop == old(self).vtop,
                ls == self@.lines,
                ls.len() == blen,
                top == self.vtop as int,
                w == grid.width,
                w_n == w as nat,
                base == self.theme.style,
                grid.width == old(grid).width,
                grid.height == old(grid).height,
                grid.cells@.len() == w * rows,
                top + n <= ls.len() ==> offset == if row_offset(ls, top, n as nat) < usize::MAX {
                    row_offset(ls, top, n as nat)
                } else {
                    usize::MAX as int
                },
                forall|j: int|
                    0 <= j < n ==> #[trigger] row_of(grid.cells@, w_n, j) == fit(
                        viewport_row(ls, self.vtop, j as usize, infos@, self.theme),
                        w_n,
                        base,
                    ),
                forall|j: int|
                    n <= j < rows ==> #[trigger] row_of(grid.cells@, w_n, j) == row_of(
                        old(grid).cells@,
                        w_n,
                        j,
                    ),
            decreases vh - n,
        {
            let ghost off = if top + n <= ls.len() {
                row_offset(ls, top, n as nat)
            } else {
                offset as int
            };
            let row = self.build_row(n, offset, Ghost(off), infos);
            let ghost prev = grid.cells@;
            proof {
                assert((n + 1) * w <= rows * w) by (nonlinear_arith)
                    requires
                        n < rows,
                ;
                assert(rows * w == w * rows) by (nonlinear_arith);
            }
            grid.set_row(n, &row, base);
            proof {
                let fr = fit(row@, w_n, base);
                assert(fr.len() == w_n);
                lemma_with_row(prev, w_n, n as int, fr, n as int);
                assert forall|j: int| 0 <= j < rows implies #[trigger] row_of(grid.cells@, w_n, j) == if j
                    == n {
                    fr
                } else {
                    row_of(prev, w_n, j)
                } by {
                    assert((j + 1) * w <= rows * w) by (nonlinear_arith)
                        requires
                            j < rows,
                    ;
                    lemma_with_row(prev, w_n, n as int, fr, j);
                }
            }
            if let Some(line) = self.buffer.get(self.vtop.saturating_add(n)) {
                let len = chars_of(line.as_str()).len();
                proof {
                    assert(top + n < ls.len());
                    assert(len == ls[top + n].len());
                    assert(row_offset(ls, top, (n + 1) as nat) == row_offset(ls, top, n as nat) + ls[top
                        + n].len() + 1);
                }
                offset = offset.saturating_add(len).saturating_add(1);
            }
            n = n + 1;
        }
    }

    /// Redraws the cursor's row alone, after an edit within the line; the
    /// highlight ranges are over that line's text. Does nothing while the
    /// cursor's row is outside the viewport.
    pub fn draw_line(&self, grid: &mut RenderBuffer, infos: &Vec<StyleInfo>)
        requires
            self.fits(old(grid)),
        ensures
            self.fits(final(grid)),
            final(grid).height == old(grid).height,
            self.cy < self@.height ==> row_of(final(grid).cells@, final(grid).width as nat, self.cy as int)
                == fit(
                row_at(self@.lines, self.vtop, self.cy, 0, infos@, self.theme),
                final(grid).width as nat,
                self.theme.style,
            ),
            forall|n: int|
                0 <= n < self.size.1 && n != self.cy ==> #[trigger] row_of(
                    final(grid).cells@,
                    final(grid).width as nat,
                    n,
                ) == row_of(old(grid).cells@, old(grid).width as nat, n),
    {
        if self.cy >= self.vheight() {
            return;
        }
        let row = self.build_row(self.cy, 0, Ghost(0), infos);
        let y = self.cy;
        let w = grid.width;
        let rows = self.size.1 as usize;
        let ghost prev = grid.cells@;
        let ghost w_n = w as nat;
        proof {
            assert((y + 1) * w <= rows * w) by (nonlinear_arith)
                requires
                    y < rows,
            ;
            assert(rows * w == w * rows) by (nonlinear_arith);
        }
        grid.set_row(y, &row, self.theme.style);
        proof {
            let fr = fit(row@, w_n, self.theme.style);
            lemma_with_row(prev, w_n, y as int, fr, y as int);
            assert forall|j: int| 0 <= j < rows && j != y implies #[trigger] row_of(grid.cells@, w_n, j)
                == row_of(prev, w_n, j) by {
                assert((j + 1) * w <= rows * w) by (nonlinear_arith)
                    requires
                        j < rows,
                ;
                lemma_with_row(prev, w_n, y as int, fr, j);
            }
        }
    }

    /// The status line's text segments: mode, file name, position.
    fn status_parts(&self) -> (r: (Vec<char>, Vec<char>, Vec<char>))
        ensures
            r.0@ == mode_text(self@.mode),
            r.1@ == file_text(self.buffer.file),
            r.2@ == pos_text(self@),
    {
        let mut mode: Vec<char> = Vec::new();
        mode.push(' ');
        if self.is_insert() {
            mode.push('I');
            mode.push('N');
            mode.push('S');
            mode.push('E');
            mode.push('R');
            mode.push('T');
        } else {
            mode.push('N');
            mode.push('O');
            mode.push('R');
            mode.push('M');
            mode.push('A');
            mode.push('L');
        }
        mode.push(' ');
        let mut file: Vec<char> = Vec::new();
        file.push(' ');
        match &self.buffer.file {
            Some(f) => {
                let cs = chars_of(f.as_str());
                push_all(&mut file, &cs);
            },
            None => {
                file.push('N');
                file.push('o');
                file.push(' ');
                file.push('N');
                file.push('a');
                file.push('m');
                file.push('e');
            },
        }
        let mut pos: Vec<char> = Vec::new();
        pos.push(' ');
        let col = decimal_chars(self.cx.saturating_add(1));
        push_all(&mut pos, &col);
        pos.push(':');
        let line = decimal_chars(self.buffer_line().saturating_add(1));
        push_all(&mut pos, &line);
        pos.push(' ');
        proof {
            assert(mode@ =~= mode_text(self@.mode));
            assert(file@ =~= file_text(self.buffer.file));
            assert(pos@ =~= pos_text(self@));
        }
        (mode, file, pos)
    }

    /// The status line's cells, before they are fitted to the width.
    pub fn status_cells(&self) -> (r: Vec<Cell>)
        ensures
            r@ == status_row(self@, self.buffer.file, self.theme),
    {
        let (mode, file, pos) = self.status_parts();
        let st = self.theme.statusline_style;
        let trans = Style { fg: st.outer_style.bg, bg: st.inner_style.bg, bold: false, italic: false };
        let w = self.vwidth();
        let need = mode.len().saturating_add(pos.len()).saturating_add(2);
        let fw: usize = if w >= need {
            w - need
        } else {
            0
        };
        let mut fitted: Vec<char> = Vec::new();
        let mut i: usize = 0;
        while i < fw
            invariant
                i <= fw,
                fitted@ == fit_chars(file@, fw as nat).subrange(0, i as int),
            decreases fw - i,
        {
            let c = if i < file.len() {
                file[i]
            } else {
                ' '
            };
            fitted.push(c);
            i = i + 1;
            proof {
                assert(fitted@ =~= fit_chars(file@, fw as nat).subrange(0, i as int));
            }
        }
        proof {
            assert(fitted@ =~= fit_chars(file@, fw as nat));
        }
        let mut row: Vec<Cell> = Vec::new();
        push_cells(&mut row, &mode, st.outer_style);
        let g1 = Cell { c: st.outer_chars[1], style: trans };
        proof {
            assert(g1 == cell_of(st.outer_chars@[1], trans));
        }
        row.push(g1);
        push_cells(&mut row, &fitted, st.inner_style);
        let g2 = Cell { c: st.outer_chars[2], style: trans };
        proof {
            assert(g2 == cell_of(st.outer_chars@[2], trans));
        }
        row.push(g2);
        push_cells(&mut row, &pos, st.outer_style);
        proof {
            assert(row@ =~= status_row(self@, self.buffer.file, self.theme));
        }
        row
    }

    /// Draws the status line on the row below the viewport: mode, file name
    /// and position in their segments, fitted to the width.
    pub fn draw_statusline(&self, grid: &mut RenderBuffer)
        requires
            self.fits(old(grid)),
            self.size.1 >= 2,
        ensures
            self.fits(final(grid)),
            final(grid).height == old(grid).height,
            row_of(final(grid).cells@, final(grid).width as nat, self.size.1 - 2) == fit(
                status_row(self@, self.buffer.file, self.theme),
                final(grid).width as nat,
                self.theme.style,
            ),
            forall|n: int|
                0 <= n < self.size.1 && n != self.size.1 - 2 ==> #[trigger] row_of(
                    final(grid).cells@,
                    final(grid).width as nat,
                    n,
                ) == row_of(old(grid).cells@, old(grid).width as nat, n),
    {
        let row = self.status_cells();
        let y = self.size.1 as usize - 2;
        let w = grid.width;
        let rows = self.size.1 as usize;
        let ghost prev = grid.cells@;
        let ghost w_n = w as nat;
        proof {
            assert((y + 1) * w <= rows * w) by (nonlinear_arith)
                requires
                    y < rows,
            ;
            assert(rows * w == w * rows) by (nonlinear_arith);
        }
        grid.set_row(y, &row, self.theme.style);
        proof {
            let fr = fit(row@, w_n, self.theme.style);
            lemma_with_row(prev, w_n, y as int, fr, y as int);
            assert forall|j: int| 0 <= j < rows && j != y implies #[trigger] row_of(grid.cells@, w_n, j)
                == row_of(prev, w_n, j) by {
                assert((j + 1) * w <= rows * w) by (nonlinear_arith)
                    requires
                        j < rows,
                ;
                lemma_with_row(prev, w_n, y as int, fr, j);
            }
        }
    }

    /// Draws the whole frame: the viewport's rows and the status line.
    pub fn draw(&mut self, grid: &mut RenderBuffer, infos: &Vec<StyleInfo>)
        requires
            old(self).fits(old(grid)),
            old(self).size.1 >= 2,
        ensures
            final(self)@ == old(self)@,
            final(self).config == old(self).config,
            final(self).theme == old(self).theme,
            final(self).size == old(self).size,
            final(self).buffer.file == old(self).buffer.file,
            final(self).fits(final(grid)),
            forall|n: int|
                0 <= n < old(self)@.height ==> #[trigger] row_of(final(grid).cells@, final(grid).width as nat, n)
                    == fit(
                    viewport_row(old(self)@.lines, old(self).vtop, n as usize, infos@, old(self).theme),
                    final(grid).width as nat,
                    old(self).theme.style,
                ),
            row_of(final(grid).cells@, final(grid).width as nat, old(self).size.1 - 2) == fit(
                status_row(old(self)@, old(self).buffer.file, old(self).theme),
                final(grid).width as nat,
                old(self).theme.style,
            ),
    {
        self.draw_viewport(grid, infos);
        self.draw_statusline(grid);
    }
}

impl Editor {
    /// A fresh editor of the given terminal size over `buffer`: Normal mode,
    /// cursor and viewport at the top, nothing pending, empty undo lists,
    /// and the text offset just after the gutter.
    pub fn with_size(width: usize, height: usize, config: Config, theme: Theme, buffer: Buffer) -> (r: Editor)
        ensures
            r.size == (width as u16, height as u16),
            r.buffer == buffer,
            r.config == config,
            r.theme == theme,
            r.vtop == 0,
            r.vleft == 0,
            r.cx == 0,
            r.cy == 0,
            r.vx == gutter_width_of(buffer@.len()) + 1,
            r.mode == Mode::Normal,
            r.waiting_key_action is None,
            r.undo_actions@.len() == 0,
            r.insert_undo_actions@.len() == 0,
            crate::editor::undo_log_ok(r@),
    {
        let len = buffer.len();
        proof {
            lemma_decimal_len(len as nat);
        }
        let vx = decimal_chars(len).len() + 2;
        Editor {
            config,
            theme,
            buffer,
            size: (width as u16, height as u16),
            vtop: 0,
            vleft: 0,
            cx: 0,
            cy: 0,
            vx,
            mode: Mode::Normal,
            waiting_key_action: None,
            undo_actions: Vec::new(),
            insert_undo_actions: Vec::new(),
        }
    }
}

/// What must be redrawn after an action: the status line alone, also the
/// cursor's row, or the whole viewport.
#[derive(Clone, Copy, Debug, PartialEq, Eq, Structural)]
pub enum Redraw {
    StatusLine,
    Line,
    Viewport,
}

/// What must be redrawn after action `a` in state `m`: the cursor's row for
/// an edit within its line, the viewport for a scroll or any other change
/// of lines, the status line alone for the rest.
pub open spec fn redraw_of(m: EditorModel, a: ActionView) -> Redraw {
    match a {
        ActionView::InsertCharAtCursorPos(_) => Redraw::Line,
        ActionView::DeleteCharAtCursorPos => Redraw::Line,
        ActionView::DeletePreviousChar => Redraw::Line,
        ActionView::MoveUp => if m.cy == 0 && m.vtop > 0 {
            Redraw::Viewport
        } else {
            Redraw::StatusLine
        },
        ActionView::MoveDown => if m.cy.saturating_add(1) >= m.height {
            Redraw::Viewport
        } else {
            Redraw::StatusLine
        },
        ActionView::MoveLeft => Redraw::StatusLine,
        ActionView::MoveRight => Redraw::StatusLine,
        ActionView::MoveToLineStart => Redraw::StatusLine,
        ActionView::MoveToLineEnd => Redraw::StatusLine,
        ActionView::EnterMode(_) => Redraw::StatusLine,
        ActionView::SetWaitingKeyAction(_) => Redraw::StatusLine,
        ActionView::Quit => Redraw::StatusLine,
        _ => Redraw::Viewport,
    }
}

/// An action said to change only the status line leaves the lines and the
/// viewport as they were; one said to change the cursor's row changes no
/// other line and leaves the viewport and the cursor's row in place.
pub proof fn lemma_redraw_sound(m: EditorModel, a: ActionView)
    ensures
        redraw_of(m, a) == Redraw::StatusLine ==> step(m, a).lines == m.lines && step(m, a).vtop
            == m.vtop,
        redraw_of(m, a) == Redraw::Line ==> {
            let r = step(m, a);
            &&& r.vtop == m.vtop
            &&& r.cy == m.cy
            &&& r.lines.len() == m.lines.len()
            &&& forall|i: int|
                0 <= i < m.lines.len() && i != m.line() ==> #[trigger] r.lines[i] == m.lines[i]
        },
{
}

impl Editor {
    /// What must be redrawn after executing `ka` from the current state:
    /// one action as [`redraw_of`] says, the viewport after several, the
    /// status line alone for a pending table.
    pub fn redraw_for(&self, ka: &KeyAction) -> (r: Redraw)
        ensures
            r == match ka@ {
                KeyActionView::Single(a) => redraw_of(self@, a),
                KeyActionView::Multiple(_) => Redraw::Viewport,
                KeyActionView::Nested(_) => Redraw::StatusLine,
            },
    {
        match ka {
            KeyAction::Single(a) => match a {
                Action::InsertCharAtCursorPos(_) => Redraw::Line,
                Action::DeleteCharAtCursorPos => Redraw::Line,
                Action::DeletePreviousChar => Redraw::Line,
                Action::MoveUp => if self.cy == 0 && self.vtop > 0 {
                    Redraw::Viewport
                } else {
                    Redraw::StatusLine
                },
                Action::MoveDown => if self.cy.saturating_add(1) >= self.vheight() {
                    Redraw::Viewport
                } else {
                    Redraw::StatusLine
                },
                Action::MoveLeft => Redraw::StatusLine,
                Action::MoveRight => Redraw::StatusLine,
                Action::MoveToLineStart => Redraw::StatusLine,
                Action::MoveToLineEnd => Redraw::StatusLine,
                Action::EnterMode(_) => Redraw::StatusLine,
                Action::SetWaitingKeyAction(_) => Redraw::StatusLine,
                Action::Quit => Redraw::StatusLine,
                _ => Redraw::Viewport,
            },
            KeyAction::Multiple(_) => Redraw::Viewport,
            KeyAction::Nested(_) => Redraw::StatusLine,
        }
    }

    /// `planned`, widened to the whole viewport where the viewport scrolled
    /// since `vtop_before` (bounds clamping may scroll it).
    pub fn redraw_after(&self, planned: Redraw, vtop_before: usize) -> (r: Redraw)
        ensures
            r == if self.vtop != vtop_before {
                Redraw::Viewport
            } else {
                planned
            },
    {
        if self.vtop != vtop_before {
            Redraw::Viewport
        } else {
            planned
        }
    }
}

} // verus!
