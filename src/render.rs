//! The render grid: a width×height matrix of styled characters, and the
//! changes between two frames.

use vstd::prelude::*;
use crate::style::Style;
use crate::text::chars_of;

verus! {

/// One cell of the grid: a character and its style.
#[derive(Clone, Copy, Debug, PartialEq, Eq, Structural)]
pub struct Cell {
    pub c: char,
    pub style: Style,
}

/// A cell that differs from the previous frame, at column `x` and row `y`.
#[derive(Clone, Copy, Debug)]
pub struct Change {
    pub x: usize,
    pub y: usize,
    pub cell: Cell,
}

/// `width * height` cells in row-major order.
#[derive(Debug)]
pub struct RenderBuffer {
    pub cells: Vec<Cell>,
    pub width: usize,
    pub height: usize,
}

/// The cell holding `c` in `style`.
pub open spec fn cell_of(c: char, style: Style) -> Cell {
    Cell { c, style }
}

/// `n` blank cells in `style`.
pub open spec fn blank_cells(n: nat, style: Style) -> Seq<Cell> {
    Seq::new(n, |i: int| Cell { c: ' ', style })
}

/// The characters of `s`, each in `style`.
pub open spec fn text_cells(s: Seq<char>, style: Style) -> Seq<Cell> {
    Seq::new(s.len(), |i: int| cell_of(s[i], style))
}

/// One row of contents: its characters, then blanks up to `width`.
pub open spec fn padded_row(l: Seq<char>, width: nat, style: Style) -> Seq<Cell> {
    text_cells(l, style) + blank_cells(
        if l.len() < width {
            (width - l.len()) as nat
        } else {
            0
        },
        style,
    )
}

/// The rows of `ls`, each padded to `width`, one after the other.
pub open spec fn padded_rows(ls: Seq<Seq<char>>, width: nat, style: Style) -> Seq<Cell>
    decreases ls.len(),
{
    if ls.len() == 0 {
        Seq::empty()
    } else {
        padded_rows(ls.drop_last(), width, style) + padded_row(ls.last(), width, style)
    }
}

/// `r` cut or padded with blanks in `fill` to exactly `width` cells.
pub open spec fn fit(r: Seq<Cell>, width: nat, fill: Style) -> Seq<Cell> {
    if r.len() >= width {
        r.subrange(0, width as int)
    } else {
        r + blank_cells((width - r.len()) as nat, fill)
    }
}

/// Row `y` of a grid of the given width.
pub open spec fn row_of(cells: Seq<Cell>, width: nat, y: int) -> Seq<Cell> {
    cells.subrange(y * width, y * width + width)
}

/// `cells` with row `y` replaced by `row`.
pub open spec fn with_row(cells: Seq<Cell>, width: nat, y: int, row: Seq<Cell>) -> Seq<Cell> {
    cells.subrange(0, y * width) + row + cells.subrange(y * width + width, cells.len() as int)
}

/// Replacing one row leaves the other rows as they were.
pub proof fn lemma_with_row(cells: Seq<Cell>, width: nat, y: int, row: Seq<Cell>, z: int)
    requires
        0 <= y,
        0 <= z,
        (y + 1) * width <= cells.len(),
        (z + 1) * width <= cells.len(),
        row.len() == width,
    ensures
        with_row(cells, width, y, row).len() == cells.len(),
        row_of(with_row(cells, width, y, row), width, y) == row,
        z != y ==> row_of(with_row(cells, width, y, row), width, z) == row_of(cells, width, z),
{
    let r = with_row(cells, width, y, row);
    assert((y + 1) * width == y * width + width) by (nonlinear_arith);
    assert((z + 1) * width == z * width + width) by (nonlinear_arith);
    assert(row_of(r, width, y) =~= row);
    if z < y {
        assert(z * width + width <= y * width) by (nonlinear_arith)
            requires
                z < y,
        ;
        assert(row_of(r, width, z) =~= row_of(cells, width, z));
    } else if z > y {
        assert(y * width + width <= z * width) by (nonlinear_arith)
            requires
                y < z,
        ;
        assert(row_of(r, width, z) =~= row_of(cells, width, z));
    }
}

/// `cells` with the characters of `s` written in `style` from index `pos`.
pub open spec fn write_run(cells: Seq<Cell>, pos: int, s: Seq<char>, style: Style) -> Seq<Cell> {
    Seq::new(
        cells.len(),
        |i: int|
            if pos <= i < pos + s.len() {
                cell_of(s[i - pos], style)
            } else {
                cells[i]
            },
    )
}

/// The changes among the first `n` cells: each cell of `cur` that differs
/// from the cell of `prev` at the same index, in index order.
pub open spec fn changes_upto(cur: Seq<Cell>, prev: Seq<Cell>, width: nat, n: int) -> Seq<Change>
    decreases n,
{
    if n <= 0 {
        Seq::empty()
    } else {
        let rest = changes_upto(cur, prev, width, n - 1);
        if cur[n - 1] != prev[n - 1] {
            rest.push(Change {
                x: ((n - 1) % (width as int)) as usize,
                y: ((n - 1) / (width as int)) as usize,
                cell: cur[n - 1],
            })
        } else {
            rest
        }
    }
}

impl Clone for RenderBuffer {
    fn clone(&self) -> (r: Self)
        ensures
            r.cells@ == self.cells@,
            r.width == self.width,
            r.height == self.height,
    {
        let mut cells: Vec<Cell> = Vec::new();
        let mut i: usize = 0;
        while i < self.cells.len()
            invariant
                i <= self.cells@.len(),
                cells@ == self.cells@.subrange(0, i as int),
            decreases self.cells.len() - i,
        {
            cells.push(self.cells[i]);
            i = i + 1;
            proof {
                assert(cells@ =~= self.cells@.subrange(0, i as int));
            }
        }
        proof {
            assert(cells@ =~= self.cells@);
        }
        RenderBuffer { cells, width: self.width, height: self.height }
    }
}

/// Whether a style command must come before each cell when the cells are
/// written in order, starting in style `start`: exactly where a cell's style
/// differs from the one before it.
pub open spec fn switch_points(cells: Seq<Cell>, start: Style) -> Seq<bool> {
    Seq::new(
        cells.len(),
        |i: int|
            cells[i].style != if i == 0 {
                start
            } else {
                cells[i - 1].style
            },
    )
}

/// For a full redraw: whether a style command must come before each cell
/// (see [`switch_points`]).
pub fn style_switches(cells: &Vec<Cell>, start: Style) -> (r: Vec<bool>)
    ensures
        r@ == switch_points(cells@, start),
{
    let mut r: Vec<bool> = Vec::new();
    let mut current = start;
    let mut i: usize = 0;
    while i < cells.len()
        invariant
            i <= cells@.len(),
            r@ == switch_points(cells@, start).subrange(0, i as int),
            current == if i == 0 {
                start
            } else {
                cells@[i - 1].style
            },
        decreases cells.len() - i,
    {
        let s = cells[i].style;
        r.push(s != current);
        current = s;
        i = i + 1;
        proof {
            assert(r@ =~= switch_points(cells@, start).subrange(0, i as int));
        }
    }
    proof {
        assert(r@ =~= switch_points(cells@, start));
    }
    r
}

impl RenderBuffer {
    /// The changes from `prev` to `self`, in row-major order.
    pub open spec fn spec_diff(&self, prev: &RenderBuffer) -> Seq<Change> {
        changes_upto(self.cells@, prev.cells@, self.width as nat, self.cells@.len() as int)
    }

    /// A grid whose rows are `contents`, each padded with blanks to `width`.
    pub fn new_with_contents(width: usize, height: usize, style: Style, contents: Vec<String>) -> (r: Self)
        ensures
            r.cells@ == padded_rows(contents@.map_values(|s: String| s@), width as nat, style),
            r.width == width,
            r.height == height,
    {
        let ghost ls = contents@.map_values(|s: String| s@);
        let mut cells: Vec<Cell> = Vec::new();
        let mut k: usize = 0;
        while k < contents.len()
            invariant
                k <= contents@.len(),
                ls == contents@.map_values(|s: String| s@),
                cells@ == padded_rows(ls.subrange(0, k as int), width as nat, style),
            decreases contents.len() - k,
        {
            proof {
                assert(ls.subrange(0, k + 1).drop_last() =~= ls.subrange(0, k as int));
            }
            let ghost before = cells@;
            let cs = chars_of(contents[k].as_str());
            let mut i: usize = 0;
            proof {
                assert(before + text_cells(cs@.subrange(0, 0), style) =~= before);
            }
            while i < cs.len()
                invariant
                    i <= cs@.len(),
                    cs@ == ls[k as int],
                    cells@ == before + text_cells(cs@.subrange(0, i as int), style),
                decreases cs.len() - i,
            {
                let cell = Cell { c: cs[i], style };
                proof {
                    assert(cell == cell_of(cs@[i as int], style));
                    assert(cs@.subrange(0, i + 1)[i as int] == cs@[i as int]);
                }
                cells.push(cell);
                proof {
                    assert(cells@ =~= before + text_cells(cs@.subrange(0, i + 1), style));
                }
                i = i + 1;
            }
            proof {
                assert(cs@.subrange(0, i as int) =~= cs@);
            }
            let ghost mid = cells@;
            let pad: usize = if cs.len() < width {
                width - cs.len()
            } else {
                0
            };
            let mut j: usize = 0;
            proof {
                assert(mid + blank_cells(0, style) =~= mid);
            }
            while j < pad
                invariant
                    j <= pad,
                    cells@ == mid + blank_cells(j as nat, style),
                decreases pad - j,
            {
                cells.push(Cell { c: ' ', style });
                proof {
                    assert(blank_cells((j + 1) as nat, style) =~= blank_cells(j as nat, style).push(
                        Cell { c: ' ', style },
                    ));
                }
                j = j + 1;
            }
            proof {
                assert(cells@ =~= before + padded_row(ls[k as int], width as nat, style));
            }
            k = k + 1;
        }
        proof {
            assert(ls.subrange(0, k as int) =~= ls);
        }
        RenderBuffer { cells, width, height }
    }

    /// A grid of blank cells in `default_style`.
    pub fn new(width: usize, height: usize, default_style: Style) -> (r: Self)
        requires
            width * height <= usize::MAX,
        ensures
            r.cells@ == blank_cells((width * height) as nat, default_style),
            r.width == width,
            r.height == height,
    {
        let n: usize = width * height;
        let cells = vec![Cell { c: ' ', style: default_style }; n];
        proof {
            assert(cells@ =~= blank_cells(n as nat, default_style));
        }
        RenderBuffer { cells, width, height }
    }

    /// Writes `c` in `style` at column `x` of row `y`.
    pub fn set_char(&mut self, x: usize, y: usize, c: char, style: &Style)
        requires
            y * old(self).width + x < old(self).cells@.len(),
        ensures
            final(self).width == old(self).width,
            final(self).height == old(self).height,
            final(self).cells@ == old(self).cells@.update(
                y * old(self).width + x,
                Cell { c, style: *style },
            ),
    {
        let n = self.cells.len();
        proof {
            assert(y * self.width + x < n);
        }
        let pos: usize = y * self.width + x;
        self.cells.set(pos, Cell { c, style: *style });
    }

    /// Writes the characters of `s` in `style`, one cell each, from column
    /// `x` of row `y` on.
    pub fn set_text(&mut self, x: usize, y: usize, s: &str, style: &Style)
        requires
            y * old(self).width + x + s@.len() <= old(self).cells@.len(),
        ensures
            final(self).width == old(self).width,
            final(self).height == old(self).height,
            final(self).cells@ == write_run(old(self).cells@, y * old(self).width + x, s@, *style),
            forall|i: int|
                0 <= i < s@.len() ==> #[trigger] final(self).cells@[y * old(self).width + x + i]
                    == (Cell { c: s@[i], style: *style }),
    {
        let n = self.cells.len();
        proof {
            assert(y * self.width + x <= n);
        }
        let pos: usize = y * self.width + x;
        let cs = chars_of(s);
        proof {
            assert(write_run(old(self).cells@, pos as int, s@.subrange(0, 0), *style) =~= self.cells@);
        }
        let mut i: usize = 0;
        while i < cs.len()
            invariant
                pos + cs@.len() <= n,
                n == self.cells@.len(),
                pos == y * old(self).width + x,
                cs@ == s@,
                i <= cs@.len(),
                self.width == old(self).width,
                self.height == old(self).height,
                self.cells@ == write_run(old(self).cells@, pos as int, s@.subrange(0, i as int), *style),
            decreases cs.len() - i,
        {
            let cell = Cell { c: cs[i], style: *style };
            proof {
                assert(cell == cell_of(cs@[i as int], *style));
                assert(s@.subrange(0, i + 1)[i as int] == cs@[i as int]);
            }
            self.cells.set(pos + i, cell);
            proof {
                assert(self.cells@ =~= write_run(old(self).cells@, pos as int, s@.subrange(0, i + 1), *style));
            }
            i = i + 1;
        }
        proof {
            assert(s@.subrange(0, i as int) =~= s@);
            assert forall|k: int| 0 <= k < s@.len() implies #[trigger] self.cells@[pos + k] == (Cell {
                c: s@[k],
                style: *style,
            }) by {
                assert(write_run(old(self).cells@, pos as int, s@, *style)[pos + k] == (Cell {
                    c: s@[k],
                    style: *style,
                }));
            }
        }
    }

    /// Replaces row `y` with `row`, cut or padded with blanks in `fill` to the
    /// grid's width.
    pub fn set_row(&mut self, y: usize, row: &Vec<Cell>, fill: Style)
        requires
            (y + 1) * old(self).width <= old(self).cells@.len(),
        ensures
            final(self).width == old(self).width,
            final(self).height == old(self).height,
            final(self).cells@ == with_row(
                old(self).cells@,
                old(self).width as nat,
                y as int,
                fit(row@, old(self).width as nat, fill),
            ),
    {
        let n = self.cells.len();
        let w = self.width;
        proof {
            assert((y + 1) * w == y * w + w) by (nonlinear_arith);
        }
        let start: usize = y * w;
        let ghost target = fit(row@, w as nat, fill);
        let mut i: usize = 0;
        while i < w
            invariant
                n == self.cells@.len(),
                start + w <= n,
                start == y * w,
                w == self.width,
                i <= w,
                target == fit(row@, w as nat, fill),
                self.width == old(self).width,
                self.height == old(self).height,
                self.cells@.len() == old(self).cells@.len(),
                forall|k: int| 0 <= k < i ==> #[trigger] self.cells@[start + k] == target[k],
                forall|k: int|
                    0 <= k < n && !(start <= k < start + i) ==> #[trigger] self.cells@[k]
                        == old(self).cells@[k],
            decreases w - i,
        {
            let cell = if i < row.len() {
                row[i]
            } else {
                Cell { c: ' ', style: fill }
            };
            self.cells.set(start + i, cell);
            i = i + 1;
        }
        proof {
            let expected = with_row(old(self).cells@, w as nat, y as int, target);
            assert(target.len() == w);
            assert(expected.len() == n);
            assert forall|k: int| 0 <= k < n implies self.cells@[k] == expected[k] by {
                if start <= k < start + w {
                    let j = k - start;
                    assert(self.cells@[start + j] == target[j]);
                }
            }
            assert(self.cells@ =~= expected);
        }
    }

    /// The cells of `self` that differ from those of `prev`, in row-major
    /// order, each with its column and row.
    pub fn diff(&self, prev: &RenderBuffer) -> (r: Vec<Change>)
        requires
            self.cells@.len() == prev.cells@.len(),
            self.cells@.len() > 0 ==> self.width > 0,
        ensures
            r@ == self.spec_diff(prev),
    {
        let mut changes: Vec<Change> = Vec::new();
        let mut pos: usize = 0;
        while pos < self.cells.len()
            invariant
                self.cells@.len() == prev.cells@.len(),
                self.cells@.len() > 0 ==> self.width > 0,
                pos <= self.cells@.len(),
                changes@ == changes_upto(self.cells@, prev.cells@, self.width as nat, pos as int),
            decreases self.cells.len() - pos,
        {
            if self.cells[pos] != prev.cells[pos] {
                let y = pos / self.width;
                let x = pos % self.width;
                changes.push(Change { x, y, cell: self.cells[pos] });
            }
            pos = pos + 1;
        }
        changes
    }
}

/// A grid diffed against itself has no changes.
pub proof fn lemma_diff_self_empty(g: RenderBuffer)
    ensures
        g.spec_diff(&g) == Seq::<Change>::empty(),
{
    lemma_changes_equal_prefix(g.cells@, g.cells@, g.width as nat, g.cells@.len() as int);
}

proof fn lemma_changes_equal_prefix(cur: Seq<Cell>, prev: Seq<Cell>, width: nat, n: int)
    requires
        n <= cur.len(),
        n <= prev.len(),
        forall|i: int| 0 <= i < n ==> cur[i] == prev[i],
    ensures
        changes_upto(cur, prev, width, n) == Seq::<Change>::empty(),
    decreases n,
{
    if n > 0 {
        lemma_changes_equal_prefix(cur, prev, width, n - 1);
    }
}

/// Two grids of one size that differ in exactly the cell at index `p` have
/// exactly one change: that cell of the new grid, at its column and row.
pub proof fn lemma_diff_single_cell(cur: RenderBuffer, prev: RenderBuffer, p: int)
    requires
        cur.cells@.len() == prev.cells@.len(),
        cur.width > 0,
        0 <= p < cur.cells@.len(),
        cur.cells@[p] != prev.cells@[p],
        forall|i: int| 0 <= i < cur.cells@.len() && i != p ==> cur.cells@[i] == prev.cells@[i],
    ensures
        cur.spec_diff(&prev) == seq![
            Change {
                x: (p % (cur.width as int)) as usize,
                y: (p / (cur.width as int)) as usize,
                cell: cur.cells@[p],
            },
        ],
{
    let (c, q, w) = (cur.cells@, prev.cells@, cur.width as nat);
    lemma_changes_equal_prefix(c, q, w, p);
    lemma_changes_equal_suffix(c, q, w, p + 1, c.len() as int);
    assert(changes_upto(c, q, w, p + 1) =~= seq![
        Change { x: (p % (w as int)) as usize, y: (p / (w as int)) as usize, cell: c[p] },
    ]);
}

/// Two grids of one size that differ in exactly the cell at column `x`
/// (inside the width) of row `y` have exactly one change: at `(x, y)`, with
/// the new grid's character and style.
pub proof fn lemma_diff_single_cell_at(cur: RenderBuffer, prev: RenderBuffer, x: usize, y: usize)
    requires
        cur.cells@.len() == prev.cells@.len(),
        x < cur.width,
        y * cur.width + x < cur.cells@.len(),
        cur.cells@[y * cur.width + x] != prev.cells@[y * cur.width + x],
        forall|i: int|
            0 <= i < cur.cells@.len() && i != y * cur.width + x ==> cur.cells@[i] == prev.cells@[i],
    ensures
        cur.spec_diff(&prev) == seq![Change { x, y, cell: cur.cells@[y * cur.width + x] }],
{
    let p = y * cur.width + x;
    lemma_diff_single_cell(cur, prev, p);
    vstd::arithmetic::div_mod::lemma_fundamental_div_mod_converse(
        p,
        cur.width as int,
        y as int,
        x as int,
    );
}

proof fn lemma_changes_equal_suffix(cur: Seq<Cell>, prev: Seq<Cell>, width: nat, m: int, n: int)
    requires
        0 <= m <= n <= cur.len(),
        n <= prev.len(),
        forall|i: int| m <= i < n ==> cur[i] == prev[i],
    ensures
        changes_upto(cur, prev, width, n) == changes_upto(cur, prev, width, m),
    decreases n - m,
{
    if n > m {
        lemma_changes_equal_suffix(cur, prev, width, m, n - 1);
    }
}

} // verus!
