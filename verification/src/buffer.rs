//! A text buffer with cursor tracking, independent of any UI framework.
//!
//! The buffer holds lines of text and a cursor given as a character column
//! and a line row; editing keeps the cursor inside the text.

use vstd::prelude::*;

verus! {

use vstd::string::StrSliceExecFns;
use crate::text::{str_chars, chars_string};
use crate::currency::strs_view;
use crate::unit::{spec_join, join_parts};

/// Lines of text with a cursor.
#[derive(Debug)]
pub struct TextBuffer {
    /// The lines of text.
    pub lines: Vec<String>,
    /// Cursor column, as a character index.
    pub cursor_x: usize,
    /// Cursor row, as a line index.
    pub cursor_y: usize,
    /// True once the buffer has unsaved changes.
    pub dirty: bool,
}

/// The lines of a text: split on `\n`, a carriage return that ends a line
/// dropped, a nonempty tail kept.
pub open spec fn spec_split_lines(
    s: Seq<char>,
    i: int,
    cur: Seq<char>,
    acc: Seq<Seq<char>>,
) -> Seq<Seq<char>>
    decreases s.len() - i,
{
    if i < 0 || i >= s.len() {
        if cur.len() > 0 {
            acc.push(cur)
        } else {
            acc
        }
    } else if s[i] == '\n' {
        spec_split_lines(s, i + 1, Seq::empty(), acc.push(cur))
    } else if s[i] == '\r' && i + 1 < s.len() && s[i + 1] == '\n' {
        spec_split_lines(s, i + 1, cur, acc)
    } else {
        spec_split_lines(s, i + 1, cur.push(s[i]), acc)
    }
}

/// The lines a buffer starts from: the split lines, or one empty line for
/// empty content.
pub open spec fn spec_content_lines(s: Seq<char>) -> Seq<Seq<char>> {
    let l = spec_split_lines(s, 0, Seq::empty(), Seq::empty());
    if l.len() == 0 {
        seq![Seq::<char>::empty()]
    } else {
        l
    }
}

/// A column clamped to a line length.
pub open spec fn clamp_col(x: int, len: int) -> int {
    if x > len {
        len
    } else {
        x
    }
}

impl TextBuffer {
    /// At least one line, the cursor on a line and at or before its end.
    pub open spec fn wf(self) -> bool {
        &&& self.lines@.len() >= 1
        &&& self.cursor_y < self.lines@.len()
        &&& self.cursor_x <= self.lines@[self.cursor_y as int]@.len()
    }

    /// One empty line, the cursor at its start.
    pub fn new() -> (r: TextBuffer)
        ensures
            r.wf(),
            r.lines@.len() == 1,
            r.lines@[0]@ == Seq::<char>::empty(),
            r.cursor_x == 0,
            r.cursor_y == 0,
            !r.dirty,
    {
        let mut lines: Vec<String> = Vec::new();
        lines.push(String::new());
        TextBuffer { lines, cursor_x: 0, cursor_y: 0, dirty: false }
    }

    /// A buffer over the lines of the given text (separated by `\n`), or
    /// one empty line for empty content; the cursor starts at the origin.
    #[verifier::loop_isolation(false)]
    pub fn from_content(content: &str) -> (r: TextBuffer)
        ensures
            r.wf(),
            r.cursor_x == 0,
            r.cursor_y == 0,
            !r.dirty,
            strs_view(r.lines@) == spec_content_lines(content@),
    {
        let v = str_chars(content);
        let n = v.len();
        let mut lines: Vec<String> = Vec::new();
        let mut cur: Vec<char> = Vec::new();
        let mut i: usize = 0;
        proof {
            assert(strs_view(lines@) =~= Seq::<Seq<char>>::empty());
            assert(cur@ =~= Seq::<char>::empty());
        }
        while i < n
            invariant
                i <= n,
                n == v@.len(),
                spec_split_lines(v@, 0, Seq::empty(), Seq::empty()) == spec_split_lines(
                    v@,
                    i as int,
                    cur@,
                    strs_view(lines@),
                ),
            decreases n - i,
        {
            let c = v[i];
            if c == '\n' {
                let ghost l0 = strs_view(lines@);
                let ghost c0 = cur@;
                lines.push(chars_string(cur.as_slice()));
                cur = Vec::new();
                proof {
                    assert(strs_view(lines@) =~= l0.push(c0));
                    assert(cur@ =~= Seq::<char>::empty());
                }
            } else if c != '\r' || !(i + 1 < n && v[i + 1] == '\n') {
                // only a carriage return that ends a line is dropped
                cur.push(c);
            }
            i = i + 1;
        }
        if cur.len() > 0 {
            let ghost l0 = strs_view(lines@);
            let ghost c0 = cur@;
            lines.push(chars_string(cur.as_slice()));
            proof {
                assert(strs_view(lines@) =~= l0.push(c0));
            }
        }
        if lines.len() == 0 {
            lines.push(String::new());
            proof {
                assert(strs_view(lines@) =~= seq![Seq::<char>::empty()]);
            }
        }
        TextBuffer { lines, cursor_x: 0, cursor_y: 0, dirty: false }
    }

    /// The line under the cursor.
    pub fn current_line(&self) -> (r: &str)
        requires
            self.cursor_y < self.lines@.len(),
        ensures
            r@ == self.lines@[self.cursor_y as int]@,
    {
        self.lines[self.cursor_y].as_str()
    }

    /// The character count of the line under the cursor.
    pub fn current_line_len(&self) -> (r: usize)
        requires
            self.cursor_y < self.lines@.len(),
        ensures
            r == self.lines@[self.cursor_y as int]@.len(),
    {
        self.lines[self.cursor_y].as_str().unicode_len()
    }

    /// How many lines the buffer holds.
    pub fn line_count(&self) -> (r: usize)
        ensures
            r == self.lines@.len(),
    {
        self.lines.len()
    }

    /// The whole content, lines joined by `\n`.
    pub fn content(&self) -> (r: String)
        requires
            self.wf(),
        ensures
            r@ == spec_join(strs_view(self.lines@), seq!['\n']),
    {
        join_parts(&self.lines, '\n')
    }

    /// Insert a character at the cursor and move the cursor past it.
    pub fn insert_char(&mut self, c: char)
        requires
            old(self).wf(),
        ensures
            final (self).wf(),
            final (self).lines@.len() == old(self).lines@.len(),
            final (self).cursor_y == old(self).cursor_y,
            final (self).cursor_x == old(self).cursor_x + 1,
            final (self).lines@[final (self).cursor_y as int]@ == old(self).lines@[old(
                self,
            ).cursor_y as int]@.insert(old(self).cursor_x as int, c),
            forall|j: int|
                0 <= j < old(self).lines@.len() && j != old(self).cursor_y ==> (#[trigger] final (
                self).lines@[j]) == old(self).lines@[j],
            final (self).dirty,
    {
        let y = self.cursor_y;
        let x = self.cursor_x;
        let chars = str_chars(self.lines[y].as_str());
        let mut rebuilt: Vec<char> = Vec::new();
        let mut i: usize = 0;
        while i < x
            invariant
                i <= x,
                x <= chars@.len(),
                rebuilt@ == chars@.subrange(0, i as int),
            decreases x - i,
        {
            rebuilt.push(chars[i]);
            proof {
                assert(rebuilt@ =~= chars@.subrange(0, i + 1 as int));
            }
            i = i + 1;
        }
        rebuilt.push(c);
        let mut j: usize = x;
        while j < chars.len()
            invariant
                x <= j <= chars@.len(),
                rebuilt@ == chars@.subrange(0, x as int).push(c) + chars@.subrange(
                    x as int,
                    j as int,
                ),
            decreases chars@.len() - j,
        {
            rebuilt.push(chars[j]);
            proof {
                assert(rebuilt@ =~= chars@.subrange(0, x as int).push(c) + chars@.subrange(
                    x as int,
                    j + 1 as int,
                ));
            }
            j = j + 1;
        }
        let new_len = rebuilt.len();
        proof {
            assert(x < new_len);
        }
        let line = chars_string(rebuilt.as_slice());
        self.lines.set(y, line);
        self.cursor_x = x + 1;
        self.dirty = true;
        proof {
            assert(final (self).lines@[y as int]@ =~= old(self).lines@[y as int]@.insert(
                x as int,
                c,
            ));
        }
    }

    /// Delete the character before the cursor (backspace); at a line start
    /// the line joins its predecessor.
    pub fn delete_char(&mut self)
        requires
            old(self).wf(),
        ensures
            final (self).wf(),
            old(self).cursor_x > 0 ==> {
                &&& final (self).lines@.len() == old(self).lines@.len()
                &&& final (self).cursor_y == old(self).cursor_y
                &&& final (self).cursor_x == old(self).cursor_x - 1
                &&& final (self).lines@[old(self).cursor_y as int]@ == old(self).lines@[old(
                    self,
                ).cursor_y as int]@.remove(old(self).cursor_x - 1)
                &&& (forall|j: int|
                    0 <= j < old(self).lines@.len() && j != old(self).cursor_y ==> (
                    #[trigger] final (self).lines@[j]) == old(self).lines@[j])
            },
            old(self).cursor_x == 0 && old(self).cursor_y > 0 ==> {
                &&& final (self).lines@.len() == old(self).lines@.len() - 1
                &&& final (self).cursor_y == old(self).cursor_y - 1
                &&& final (self).cursor_x == old(self).lines@[old(self).cursor_y - 1]@.len()
                &&& final (self).lines@[old(self).cursor_y - 1]@ == old(self).lines@[old(
                    self,
                ).cursor_y - 1]@ + old(self).lines@[old(self).cursor_y as int]@
            },
            old(self).cursor_x == 0 && old(self).cursor_y == 0 ==> *final (self) == *old(self),
    {
        if self.cursor_x > 0 {
            let y = self.cursor_y;
            let x = self.cursor_x;
            let chars = str_chars(self.lines[y].as_str());
            let removed = remove_char_at(&chars, x - 1);
            let line = chars_string(removed.as_slice());
            self.lines.set(y, line);
            self.cursor_x = x - 1;
            self.dirty = true;
        } else if self.cursor_y > 0 {
            let y = self.cursor_y;
            let current = self.lines.remove(y);
            let prev_len = self.lines[y - 1].as_str().unicode_len();
            let mut joined = self.lines[y - 1].clone();
            joined.append(current.as_str());
            self.lines.set(y - 1, joined);
            self.cursor_y = y - 1;
            self.cursor_x = prev_len;
            self.dirty = true;
        }
    }

    /// Delete the character at the cursor (delete); at a line end the next
    /// line joins this one.
    pub fn delete_char_forward(&mut self)
        requires
            old(self).wf(),
        ensures
            final (self).wf(),
            final (self).cursor_x == old(self).cursor_x,
            final (self).cursor_y == old(self).cursor_y,
            old(self).cursor_x < old(self).lines@[old(self).cursor_y as int]@.len() ==> {
                &&& final (self).lines@.len() == old(self).lines@.len()
                &&& final (self).lines@[old(self).cursor_y as int]@ == old(self).lines@[old(
                    self,
                ).cursor_y as int]@.remove(old(self).cursor_x as int)
                &&& (forall|j: int|
                    0 <= j < old(self).lines@.len() && j != old(self).cursor_y ==> (
                    #[trigger] final (self).lines@[j]) == old(self).lines@[j])
            },
            old(self).cursor_x == old(self).lines@[old(self).cursor_y as int]@.len() && old(
                self,
            ).cursor_y + 1 < old(self).lines@.len() ==> {
                &&& final (self).lines@.len() == old(self).lines@.len() - 1
                &&& final (self).lines@[old(self).cursor_y as int]@ == old(self).lines@[old(
                    self,
                ).cursor_y as int]@ + old(self).lines@[old(self).cursor_y + 1]@
            },
            old(self).cursor_x == old(self).lines@[old(self).cursor_y as int]@.len() && old(
                self,
            ).cursor_y + 1 == old(self).lines@.len() ==> *final (self) == *old(self),
    {
        let line_len = self.current_line_len();
        if self.cursor_x < line_len {
            let y = self.cursor_y;
            let x = self.cursor_x;
            let chars = str_chars(self.lines[y].as_str());
            let removed = remove_char_at(&chars, x);
            let line = chars_string(removed.as_slice());
            self.lines.set(y, line);
            self.dirty = true;
        } else if self.cursor_y < self.lines.len() - 1 {
            let y = self.cursor_y;
            let next = self.lines.remove(y + 1);
            let mut joined = self.lines[y].clone();
            joined.append(next.as_str());
            self.lines.set(y, joined);
            self.dirty = true;
        }
    }

    /// Delete the whole current line (the only line just empties).
    pub fn delete_line(&mut self)
        requires
            old(self).wf(),
        ensures
            final (self).wf(),
            final (self).dirty,
            old(self).lines@.len() > 1 ==> {
                &&& final (self).lines@ == old(self).lines@.remove(old(self).cursor_y as int)
                &&& final (self).cursor_y == (if old(self).cursor_y < old(self).lines@.len() - 1 {
                    old(self).cursor_y as int
                } else {
                    old(self).lines@.len() - 2
                })
                &&& final (self).cursor_x == clamp_col(
                    old(self).cursor_x as int,
                    final (self).lines@[final (self).cursor_y as int]@.len() as int,
                )
            },
            old(self).lines@.len() == 1 ==> {
                &&& final (self).lines@.len() == 1
                &&& final (self).lines@[0]@ == Seq::<char>::empty()
                &&& final (self).cursor_y == 0
                &&& final (self).cursor_x == 0
            },
    {
        if self.lines.len() > 1 {
            let y = self.cursor_y;
            let _ = self.lines.remove(y);
            if self.cursor_y >= self.lines.len() {
                self.cursor_y = self.lines.len() - 1;
            }
        } else {
            self.lines.set(0, String::new());
        }
        let len = self.current_line_len();
        if self.cursor_x > len {
            self.cursor_x = len;
        }
        self.dirty = true;
    }

    /// Split the current line at the cursor; the cursor moves to the start
    /// of the new line.
    pub fn new_line(&mut self)
        requires
            old(self).wf(),
        ensures
            final (self).wf(),
            final (self).lines@.len() == old(self).lines@.len() + 1,
            final (self).cursor_x == 0,
            final (self).cursor_y == old(self).cursor_y + 1,
            final (self).dirty,
            final (self).lines@[old(self).cursor_y as int]@ == old(self).lines@[old(
                self,
            ).cursor_y as int]@.take(old(self).cursor_x as int),
            final (self).lines@[old(self).cursor_y + 1]@ == old(self).lines@[old(
                self,
            ).cursor_y as int]@.skip(old(self).cursor_x as int),
            forall|j: int|
                0 <= j < old(self).cursor_y ==> (#[trigger] final (self).lines@[j]) == old(
                    self,
                ).lines@[j],
            forall|j: int|
                old(self).cursor_y + 1 < j < final (self).lines@.len() ==> (#[trigger] final (
                self).lines@[j]) == old(self).lines@[j - 1],
    {
        let y = self.cursor_y;
        let x = self.cursor_x;
        let chars = str_chars(self.lines[y].as_str());
        let mut head: Vec<char> = Vec::new();
        let mut i: usize = 0;
        while i < x
            invariant
                i <= x,
                x <= chars@.len(),
                head@ == chars@.subrange(0, i as int),
            decreases x - i,
        {
            head.push(chars[i]);
            proof {
                assert(head@ =~= chars@.subrange(0, i + 1 as int));
            }
            i = i + 1;
        }
        let mut tail: Vec<char> = Vec::new();
        let mut j: usize = x;
        while j < chars.len()
            invariant
                x <= j <= chars@.len(),
                tail@ == chars@.subrange(x as int, j as int),
            decreases chars@.len() - j,
        {
            tail.push(chars[j]);
            proof {
                assert(tail@ =~= chars@.subrange(x as int, j + 1 as int));
            }
            j = j + 1;
        }
        proof {
            assert(head@ =~= chars@.take(x as int));
            assert(tail@ =~= chars@.skip(x as int));
        }
        self.lines.set(y, chars_string(head.as_slice()));
        let yn = self.lines.len();
        proof {
            assert(y < yn);
        }
        self.lines.insert(y + 1, chars_string(tail.as_slice()));
        self.cursor_y = y + 1;
        self.cursor_x = 0;
        self.dirty = true;
    }

    /// Move the cursor up one line, clamping the column.
    pub fn move_up(&mut self)
        requires
            old(self).wf(),
        ensures
            final (self).wf(),
            final (self).lines@ == old(self).lines@,
            old(self).cursor_y > 0 ==> final (self).cursor_y == old(self).cursor_y - 1 && final (
            self).cursor_x == clamp_col(
                old(self).cursor_x as int,
                old(self).lines@[old(self).cursor_y - 1]@.len() as int,
            ),
            old(self).cursor_y == 0 ==> *final (self) == *old(self),
    {
        if self.cursor_y > 0 {
            self.cursor_y = self.cursor_y - 1;
            let len = self.current_line_len();
            if self.cursor_x > len {
                self.cursor_x = len;
            }
        }
    }

    /// Move the cursor down one line, clamping the column.
    pub fn move_down(&mut self)
        requires
            old(self).wf(),
        ensures
            final (self).wf(),
            final (self).lines@ == old(self).lines@,
            old(self).cursor_y < old(self).lines@.len() - 1 ==> final (self).cursor_y == old(
                self,
            ).cursor_y + 1 && final (self).cursor_x == clamp_col(
                old(self).cursor_x as int,
                old(self).lines@[old(self).cursor_y + 1]@.len() as int,
            ),
            old(self).cursor_y == old(self).lines@.len() - 1 ==> *final (self) == *old(self),
    {
        if self.cursor_y < self.lines.len() - 1 {
            self.cursor_y = self.cursor_y + 1;
            let len = self.current_line_len();
            if self.cursor_x > len {
                self.cursor_x = len;
            }
        }
    }

    /// Move the cursor left, wrapping to the end of the previous line.
    pub fn move_left(&mut self)
        requires
            old(self).wf(),
        ensures
            final (self).wf(),
            final (self).lines@ == old(self).lines@,
            old(self).cursor_x > 0 ==> final (self).cursor_x == old(self).cursor_x - 1 && final (
            self).cursor_y == old(self).cursor_y,
            old(self).cursor_x == 0 && old(self).cursor_y > 0 ==> final (self).cursor_y == old(
                self,
            ).cursor_y - 1 && final (self).cursor_x == old(self).lines@[old(
                self,
            ).cursor_y - 1]@.len(),
            old(self).cursor_x == 0 && old(self).cursor_y == 0 ==> *final (self) == *old(self),
    {
        if self.cursor_x > 0 {
            self.cursor_x = self.cursor_x - 1;
        } else if self.cursor_y > 0 {
            self.cursor_y = self.cursor_y - 1;
            self.cursor_x = self.current_line_len();
        }
    }

    /// Move the cursor right, wrapping to the start of the next line.
    pub fn move_right(&mut self)
        requires
            old(self).wf(),
        ensures
            final (self).wf(),
            final (self).lines@ == old(self).lines@,
            old(self).cursor_x < old(self).lines@[old(self).cursor_y as int]@.len() ==> final (
            self).cursor_x == old(self).cursor_x + 1 && final (self).cursor_y == old(
                self,
            ).cursor_y,
            old(self).cursor_x == old(self).lines@[old(self).cursor_y as int]@.len() && old(
                self,
            ).cursor_y < old(self).lines@.len() - 1 ==> final (self).cursor_y == old(
                self,
            ).cursor_y + 1 && final (self).cursor_x == 0,
            old(self).cursor_x == old(self).lines@[old(self).cursor_y as int]@.len() && old(
                self,
            ).cursor_y == old(self).lines@.len() - 1 ==> *final (self) == *old(self),
    {
        let line_len = self.current_line_len();
        if self.cursor_x < line_len {
            self.cursor_x = self.cursor_x + 1;
        } else if self.cursor_y < self.lines.len() - 1 {
            self.cursor_y = self.cursor_y + 1;
            self.cursor_x = 0;
        }
    }

    /// Move the cursor to the start of the line.
    pub fn move_to_line_start(&mut self)
        requires
            old(self).wf(),
        ensures
            final (self).wf(),
            final (self).lines@ == old(self).lines@,
            final (self).cursor_x == 0,
            final (self).cursor_y == old(self).cursor_y,
    {
        self.cursor_x = 0;
    }

    /// Move the cursor to the end of the line.
    pub fn move_to_line_end(&mut self)
        requires
            old(self).wf(),
        ensures
            final (self).wf(),
            final (self).lines@ == old(self).lines@,
            final (self).cursor_x == final (self).lines@[final (self).cursor_y as int]@.len(),
            final (self).cursor_y == old(self).cursor_y,
    {
        self.cursor_x = self.current_line_len();
    }

    /// Move the cursor to the first line, clamping the column.
    pub fn move_to_first_line(&mut self)
        requires
            old(self).wf(),
        ensures
            final (self).wf(),
            final (self).lines@ == old(self).lines@,
            final (self).cursor_y == 0,
            final (self).cursor_x == clamp_col(
                old(self).cursor_x as int,
                old(self).lines@[0]@.len() as int,
            ),
    {
        self.cursor_y = 0;
        let len = self.current_line_len();
        if self.cursor_x > len {
            self.cursor_x = len;
        }
    }

    /// Move the cursor to the last line, clamping the column.
    pub fn move_to_last_line(&mut self)
        requires
            old(self).wf(),
        ensures
            final (self).wf(),
            final (self).lines@ == old(self).lines@,
            final (self).cursor_y == final (self).lines@.len() - 1,
            final (self).cursor_x == clamp_col(
                old(self).cursor_x as int,
                old(self).lines@[old(self).lines@.len() - 1]@.len() as int,
            ),
    {
        self.cursor_y = self.lines.len() - 1;
        let len = self.current_line_len();
        if self.cursor_x > len {
            self.cursor_x = len;
        }
    }
}

/// The characters with the one at the index removed.
fn remove_char_at(chars: &Vec<char>, idx: usize) -> (r: Vec<char>)
    requires
        idx < chars@.len(),
    ensures
        r@ == chars@.remove(idx as int),
{
    let mut out: Vec<char> = Vec::new();
    let n = chars.len();
    let mut i: usize = 0;
    while i < n
        invariant
            i <= n,
            n == chars@.len(),
            idx < n,
            out@ == if i <= idx {
                chars@.subrange(0, i as int)
            } else {
                chars@.subrange(0, idx as int) + chars@.subrange(idx + 1, i as int)
            },
        decreases n - i,
    {
        if i != idx {
            out.push(chars[i]);
        }
        proof {
            if i + 1 <= idx {
                assert(out@ =~= chars@.subrange(0, i + 1 as int));
            } else if i == idx {
                assert(out@ =~= chars@.subrange(0, idx as int) + chars@.subrange(
                    idx + 1,
                    i + 1 as int,
                ));
            } else {
                assert(out@ =~= chars@.subrange(0, idx as int) + chars@.subrange(
                    idx + 1,
                    i + 1 as int,
                ));
            }
        }
        i = i + 1;
    }
    proof {
        assert(out@ =~= chars@.remove(idx as int));
    }
    out
}

} // verus!
