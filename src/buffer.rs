//! The line store: an ordered sequence of text lines with character- and
//! line-level edits, and viewport slicing.

use vstd::prelude::*;
use crate::text::{chars_of, string_of};

verus! {

/// Removes one trailing carriage return, if there is one.
pub open spec fn strip_cr(l: Seq<char>) -> Seq<char> {
    if l.len() > 0 && l.last() == '\r' {
        l.drop_last()
    } else {
        l
    }
}

/// Scans `s` from the left: the lines that a newline has closed so far (each
/// without its terminator) and the characters of the line still open.
pub open spec fn split_scan(s: Seq<char>) -> (Seq<Seq<char>>, Seq<char>)
    decreases s.len(),
{
    if s.len() == 0 {
        (Seq::empty(), Seq::empty())
    } else {
        let (done, cur) = split_scan(s.drop_last());
        if s.last() == '\n' {
            (done.push(strip_cr(cur)), Seq::empty())
        } else {
            (done, cur.push(s.last()))
        }
    }
}

/// The lines of `s`: split at `\n` or `\r\n`; a final line terminator is
/// optional, and an empty text has no lines.
pub open spec fn lines_of(s: Seq<char>) -> Seq<Seq<char>> {
    let (done, cur) = split_scan(s);
    if cur.len() == 0 {
        done
    } else {
        done.push(cur)
    }
}

/// The lines joined with a newline between each two.
pub open spec fn join_lines(ls: Seq<Seq<char>>) -> Seq<char>
    decreases ls.len(),
{
    if ls.len() == 0 {
        Seq::empty()
    } else if ls.len() == 1 {
        ls[0]
    } else {
        join_lines(ls.drop_last()) + seq!['\n'] + ls.last()
    }
}

/// The characters of each string.
pub open spec fn string_views(v: Seq<String>) -> Seq<Seq<char>> {
    v.map_values(|s: String| s@)
}

/// The end (exclusive) of the viewport of `height` lines from `top` over
/// `len` lines.
pub open spec fn viewport_end(top: int, height: int, len: int) -> int {
    if top + height < len {
        top + height
    } else {
        len
    }
}

/// The text shown in a viewport of `height` lines starting at line `top`.
pub open spec fn viewport_of(ls: Seq<Seq<char>>, top: int, height: int) -> Seq<char> {
    if top >= ls.len() {
        Seq::empty()
    } else {
        join_lines(ls.subrange(top, viewport_end(top, height, ls.len() as int)))
    }
}

/// `ls` with `c` inserted before character `x` of line `y`, where that line
/// exists and is at least `x` long; otherwise `ls`.
pub open spec fn insert_char(ls: Seq<Seq<char>>, x: int, y: int, c: char) -> Seq<Seq<char>> {
    if 0 <= y < ls.len() && 0 <= x <= ls[y].len() {
        ls.update(y, ls[y].insert(x, c))
    } else {
        ls
    }
}

/// `ls` without character `x` of line `y`, where there is such a character;
/// otherwise `ls`.
pub open spec fn remove_char(ls: Seq<Seq<char>>, x: int, y: int) -> Seq<Seq<char>> {
    if 0 <= y < ls.len() && 0 <= x < ls[y].len() {
        ls.update(y, ls[y].remove(x))
    } else {
        ls
    }
}

/// `ls` with line `t` inserted before line `i` (appended where `i` is the
/// length); `ls` where `i` is past the end.
pub open spec fn insert_line(ls: Seq<Seq<char>>, i: int, t: Seq<char>) -> Seq<Seq<char>> {
    if 0 <= i <= ls.len() {
        ls.insert(i, t)
    } else {
        ls
    }
}

/// `ls` without line `i`; `ls` where there is no such line.
pub open spec fn remove_line(ls: Seq<Seq<char>>, i: int) -> Seq<Seq<char>> {
    if 0 <= i < ls.len() {
        ls.remove(i)
    } else {
        ls
    }
}

pub struct Buffer {
    pub file: Option<String>,
    pub lines: Vec<String>,
}

impl View for Buffer {
    type V = Seq<Seq<char>>;

    open spec fn view(&self) -> Seq<Seq<char>> {
        string_views(self.lines@)
    }
}

impl Buffer {
    /// Splits `contents` into lines; an empty text gives no lines.
    pub fn new(file: Option<String>, contents: String) -> (r: Self)
        ensures
            r@ == lines_of(contents@),
            r.file == file,
    {
        let cs = chars_of(contents.as_str());
        let mut lines: Vec<String> = Vec::new();
        let mut cur: Vec<char> = Vec::new();
        let mut i: usize = 0;
        while i < cs.len()
            invariant
                i <= cs.len(),
                cs@ == contents@,
                (string_views(lines@), cur@) == split_scan(cs@.subrange(0, i as int)),
            decreases cs.len() - i,
        {
            let c = cs[i];
            proof {
                assert(cs@.subrange(0, i + 1).drop_last() =~= cs@.subrange(0, i as int));
            }
            if c == '\n' {
                if cur.len() > 0 && cur[cur.len() - 1] == '\r' {
                    cur.pop();
                }
                let ghost before = string_views(lines@);
                lines.push(string_of(&cur));
                proof {
                    assert(string_views(lines@) =~= before.push(strip_cr(split_scan(cs@.subrange(0, i as int)).1)));
                }
                cur = Vec::new();
            } else {
                cur.push(c);
            }
            i = i + 1;
        }
        proof {
            assert(cs@.subrange(0, i as int) =~= cs@);
        }
        if cur.len() > 0 {
            let ghost before = string_views(lines@);
            lines.push(string_of(&cur));
            proof {
                assert(string_views(lines@) =~= before.push(cur@));
            }
        }
        Buffer { file, lines }
    }

    /// The line at `line`, or `None` past the end.
    pub fn get(&self, line: usize) -> (r: Option<String>)
        ensures
            r.is_some() == (line < self@.len()),
            r.is_some() ==> r.unwrap()@ == self@[line as int],
    {
        if line < self.lines.len() {
            return Some(self.lines[line].clone());
        }
        None
    }

    /// The number of lines.
    pub fn len(&self) -> (r: usize)
        ensures
            r == self@.len(),
    {
        self.lines.len()
    }

    /// Inserts `c` before character `x` of line `y`; does nothing where line
    /// `y` does not exist or is shorter than `x`.
    pub fn insert(&mut self, x: usize, y: usize, c: char)
        ensures
            final(self).file == old(self).file,
            final(self)@ == insert_char(old(self)@, x as int, y as int, c),
    {
        if y < self.lines.len() {
            let mut cs = chars_of(self.lines[y].as_str());
            if x <= cs.len() {
                cs.insert(x, c);
                let s = string_of(&cs);
                self.lines.set(y, s);
                proof {
                    assert(self@ =~= old(self)@.update(y as int, old(self)@[y as int].insert(x as int, c)));
                }
            }
        }
    }

    /// Inserts a line holding `content` before line `line`; `line == len()`
    /// appends, and a larger index does nothing.
    pub fn insert_line(&mut self, line: usize, content: String)
        ensures
            final(self).file == old(self).file,
            final(self)@ == insert_line(old(self)@, line as int, content@),
    {
        if line <= self.lines.len() {
            self.lines.insert(line, content);
            proof {
                assert(self@ =~= old(self)@.insert(line as int, content@));
            }
        }
    }

    /// Removes character `x` of line `y`; does nothing where there is no
    /// such character.
    pub fn remove(&mut self, x: usize, y: usize)
        ensures
            final(self).file == old(self).file,
            final(self)@ == remove_char(old(self)@, x as int, y as int),
    {
        if y < self.lines.len() {
            let mut cs = chars_of(self.lines[y].as_str());
            if x < cs.len() {
                cs.remove(x);
                let s = string_of(&cs);
                self.lines.set(y, s);
                proof {
                    assert(self@ =~= old(self)@.update(y as int, old(self)@[y as int].remove(x as int)));
                }
            }
        }
    }

    /// Removes line `line`; does nothing past the end.
    pub fn remove_line(&mut self, line: usize)
        ensures
            final(self).file == old(self).file,
            final(self)@ == remove_line(old(self)@, line as int),
    {
        if self.len() > line {
            self.lines.remove(line);
            proof {
                assert(self@ =~= old(self)@.remove(line as int));
            }
        }
    }

    /// The lines `[vtop, min(vtop + vheight, len()))` joined with newlines.
    pub fn viewport(&self, vtop: usize, vheight: usize) -> (r: String)
        ensures
            r@ == viewport_of(self@, vtop as int, vheight as int),
    {
        let mut out = String::new();
        if vtop >= self.lines.len() {
            return out;
        }
        let end: usize = if vheight < self.lines.len() - vtop {
            vtop + vheight
        } else {
            self.lines.len()
        };
        let mut i: usize = vtop;
        while i < end
            invariant
                vtop < self@.len(),
                end == viewport_end(vtop as int, vheight as int, self@.len() as int),
                vtop <= i <= end,
                out@ == join_lines(self@.subrange(vtop as int, i as int)),
            decreases end - i,
        {
            let ghost prev = self@.subrange(vtop as int, i as int);
            proof {
                assert(self@.subrange(vtop as int, i + 1).drop_last() =~= prev);
            }
            if i > vtop {
                proof {
                    reveal_strlit("\n");
                }
                out.append("\n");
            } else {
                proof {
                    assert(prev.len() == 0);
                }
            }
            out.append(self.lines[i].as_str());
            proof {
                let next = self@.subrange(vtop as int, i + 1);
                if i > vtop {
                    assert(out@ =~= join_lines(next));
                } else {
                    assert(out@ =~= join_lines(next));
                }
            }
            i = i + 1;
        }
        out
    }
}

} // verus!
