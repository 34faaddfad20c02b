//! A view of a buffer on a terminal: which lines show, where the cursor is,
//! and the edits made through it.

use vstd::prelude::*;
use vstd::view::View as _;

use crate::buffer::{joined_lines, split_lines, texts, Buffer, Line};
use crate::cursor::{Cursor, Direction};
use crate::iota::utils::{
    chars_before, decimal, lemma_chars_before, lemma_step, lemma_utf8_size_concat, lemma_utf8_size_insert,
    lemma_utf8_size_remove, lemma_utf8_size_split, push_decimal, string_push, string_push_str, utf8_len,
    utf8_size,
};

verus! {

/// The number of lines kept between the cursor and the top or bottom of the
/// view when it scrolls.
pub open spec fn threshold() -> int {
    5
}

/// The line shown at the top after moving it `n` lines (down for positive
/// `n`, up for negative `n`, stopping at the first line).
pub open spec fn moved_top(top: int, n: int) -> int {
    if n > 0 {
        top + n
    } else if n < 0 {
        if top + n >= 0 {
            top + n
        } else {
            0
        }
    } else {
        top
    }
}

/// A View is an abstract Window (into a Buffer).
///
/// It draws a portion of a Buffer to the screen, and keeps the cursor, whose
/// line is a copy of the buffer's line it is on.
pub struct View {
    pub buffer: Buffer,
    pub top_line_num: usize,
    pub cursor: Cursor,
}

/// The UTF-8 bytes of each line fit a `usize`.
pub open spec fn lines_fit(lines: Seq<Line>) -> bool {
    forall|i: int| 0 <= i < lines.len() ==> #[trigger] utf8_size(lines[i].data@) <= usize::MAX
}

/// The texts of some lines are as many as the lines, and each is its line's data.
proof fn lemma_texts(lines: Seq<crate::buffer::Line>)
    ensures
        texts(lines).len() == lines.len(),
        forall|i: int| 0 <= i < lines.len() ==> #[trigger] texts(lines)[i] == lines[i].data@,
{
}

/// Joining two lines whose bytes together fit a `usize` keeps every line's
/// bytes within a `usize`.
proof fn lemma_joined_fit(before: Seq<Line>, after: Seq<Line>, n: int)
    requires
        1 <= n < before.len(),
        lines_fit(before),
        texts(after) == joined_lines(texts(before), n),
        utf8_size(before[n - 1].data@) + utf8_size(before[n].data@) <= usize::MAX,
    ensures
        lines_fit(after),
{
    lemma_texts(before);
    lemma_texts(after);
    let t = texts(before);
    assert forall|i: int| 0 <= i < after.len() implies #[trigger] utf8_size(after[i].data@) <= usize::MAX by {
        assert(after[i].data@ == joined_lines(t, n)[i]);
        if i < n - 1 {
            assert(joined_lines(t, n)[i] == t[i]);
        } else if i == n - 1 {
            assert(joined_lines(t, n)[i] == t[n - 1] + t[n]);
            lemma_utf8_size_concat(t[n - 1], t[n]);
        } else {
            assert(joined_lines(t, n)[i] == t[i + 1]);
        }
    }
}

/// Splitting a line keeps every line's bytes within a `usize`.
proof fn lemma_split_fit(before: Seq<Line>, after: Seq<Line>, k: int, n: int)
    requires
        0 <= n < before.len(),
        0 <= k <= before[n].data@.len(),
        lines_fit(before),
        texts(after) == split_lines(texts(before), k, n),
    ensures
        lines_fit(after),
{
    lemma_texts(before);
    lemma_texts(after);
    let t = texts(before);
    lemma_utf8_size_split(t[n], k);
    assert forall|i: int| 0 <= i < after.len() implies #[trigger] utf8_size(after[i].data@) <= usize::MAX by {
        assert(after[i].data@ == split_lines(t, k, n)[i]);
        if i < n {
            assert(split_lines(t, k, n)[i] == t[i]);
        } else if i == n {
            assert(split_lines(t, k, n)[i] == t[n].take(k));
        } else if i == n + 1 {
            assert(split_lines(t, k, n)[i] == t[n].skip(k));
        } else {
            assert(split_lines(t, k, n)[i] == t[i - 1]);
        }
    }
}

impl View {
    /// The cursor is on a line of the buffer, holds that line's text, and
    /// stands within it (its offset counts bytes); the bytes of each line fit a
    /// `usize`, and the numbers of lines stay small enough to count with signed
    /// integers.
    pub open spec fn wf(&self) -> bool {
        &&& self.cursor.line is Some
        &&& self.cursor.linenum < self.buffer.lines@.len()
        &&& self.cursor.text() == self.buffer.lines@[self.cursor.linenum as int].data@
        &&& self.cursor.offset <= self.cursor.byte_len()
        &&& lines_fit(self.buffer.lines@)
        &&& self.buffer.lines@.len() + 16 <= isize::MAX / 2
        &&& self.top_line_num <= isize::MAX / 2
    }

    /// A view of a buffer with lines, its cursor at the start of the first line.
    pub fn new(buffer: Buffer) -> (r: View)
        requires
            buffer.lines@.len() > 0,
            buffer.lines@.len() + 16 <= isize::MAX / 2,
            lines_fit(buffer.lines@),
        ensures
            r.wf(),
            r.buffer == buffer,
            r.top_line_num == 0,
            r.cursor.offset == 0,
            r.cursor.linenum == 0,
    {
        let mut cursor = Cursor::new();
        cursor.set_line(Some(buffer.lines[0].duplicate()));
        View { buffer: buffer, top_line_num: 0, cursor: cursor }
    }

    /// Get the height of the view in which content can be drawn
    ///
    /// Excludes the status bar height
    pub fn get_internal_height(&self, term_height: usize) -> (r: usize)
        requires
            term_height >= 2,
        ensures
            r == term_height - 2,
    {
        term_height - 2
    }

    /// The lines to draw, each with the screen line it goes on: the lines from
    /// the top line on, as many as fit above the status bar.
    pub fn draw(&self, term_height: usize) -> (rows: Vec<(usize, Vec<char>)>)
        requires
            term_height >= 2,
            self.top_line_num <= self.buffer.lines@.len(),
        ensures
            rows@.len() == (if self.buffer.lines@.len() - self.top_line_num <= term_height - 1 {
                self.buffer.lines@.len() - self.top_line_num
            } else {
                term_height - 1
            }),
            forall|i: int|
                0 <= i < rows@.len() ==> #[trigger] rows@[i].0 == i && rows@[i].1@ == self.buffer.lines@[self.top_line_num
                    + i].data@,
    {
        let height = self.get_internal_height(term_height);
        let num_lines = self.buffer.lines.len();
        let mut rows: Vec<(usize, Vec<char>)> = Vec::new();
        let mut index: usize = 0;
        while self.top_line_num + index < num_lines && index <= height
            invariant
                num_lines == self.buffer.lines@.len(),
                self.top_line_num <= num_lines,
                height == term_height - 2,
                index <= num_lines - self.top_line_num,
                index <= height + 1,
                rows@.len() == index,
                forall|i: int|
                    0 <= i < index ==> #[trigger] rows@[i].0 == i && rows@[i].1@
                        == self.buffer.lines@[self.top_line_num + i].data@,
            decreases num_lines - self.top_line_num - index,
        {
            let line = self.buffer.lines[self.top_line_num + index].duplicate();
            rows.push((index, line.data));
            index = index + 1;
        }
        proof {
            assert forall|i: int| 0 <= i < rows@.len() implies #[trigger] rows@[i].0 == i && rows@[i].1@
                == self.buffer.lines@[self.top_line_num + i].data@ by {
                assert(i < index);
            }
        }
        rows
    }

    /// The status line and the screen line it goes on: the buffer's status,
    /// the cursor's place, the top line and the height of the view.
    pub fn draw_status(&self, term_height: usize) -> (r: (usize, String))
        requires
            self.wf(),
            term_height >= 2,
        ensures
            r.0 == term_height - 1,
            r.1@ == self.buffer.file_path@ + ", lines: "@ + decimal(self.buffer.lines@.len()) + seq![' ']
                + seq!['('] + decimal(self.cursor.offset as nat) + seq![',', ' '] + decimal(
                self.cursor.linenum as nat,
            ) + seq![')'] + seq![' '] + decimal(self.top_line_num as nat) + seq![' '] + decimal(
                (term_height - 2) as nat,
            ),
    {
        let buffer_status = self.buffer.get_status_text();
        let cursor_status = self.cursor.get_status_text();
        let mut status_text = buffer_status;
        string_push(&mut status_text, ' ');
        string_push_str(&mut status_text, cursor_status.as_str());
        string_push(&mut status_text, ' ');
        push_decimal(&mut status_text, self.top_line_num);
        string_push(&mut status_text, ' ');
        push_decimal(&mut status_text, self.get_internal_height(term_height));
        proof {
            assert(status_text@ =~= self.buffer.file_path@ + ", lines: "@ + decimal(self.buffer.lines@.len())
                + seq![' '] + seq!['('] + decimal(self.cursor.offset as nat) + seq![',', ' '] + decimal(
                self.cursor.linenum as nat,
            ) + seq![')'] + seq![' '] + decimal(self.top_line_num as nat) + seq![' '] + decimal(
                (term_height - 2) as nat,
            ));
        }
        (term_height - 1, status_text)
    }

    /// Where the cursor shows: its offset, and its line counted from the top line.
    pub fn draw_cursor(&self) -> (r: (usize, usize))
        requires
            self.wf(),
            self.top_line_num <= self.cursor.linenum,
        ensures
            r == (self.cursor.offset, (self.cursor.linenum - self.top_line_num) as usize),
    {
        let offset = self.cursor.get_offset();
        let linenum = self.cursor.get_linenum();
        (offset, linenum - self.top_line_num)
    }

    /// Moves the cursor a line up or down, or a char left or right.
    pub fn move_cursor(&mut self, direction: Direction, term_height: usize)
        requires
            old(self).wf(),
            term_height >= 2,
            direction == Direction::Up ==> old(self).cursor.linenum >= 1,
        ensures
            final(self).wf(),
            final(self).buffer == old(self).buffer,
            direction == Direction::Left ==> final(self).cursor.linenum == old(self).cursor.linenum
                && final(self).top_line_num == old(self).top_line_num && final(self).cursor.offset == (
            if old(self).cursor.offset > 0 {
                old(self).cursor.offset - 1
            } else {
                0
            }),
            direction == Direction::Right ==> final(self).cursor.linenum == old(self).cursor.linenum
                && final(self).top_line_num == old(self).top_line_num && final(self).cursor.offset == (
            if old(self).cursor.byte_len() > old(self).cursor.offset {
                old(self).cursor.offset + 1
            } else {
                old(self).cursor.offset as int
            }),
            direction == Direction::Up ==> final(self).cursor.linenum == old(self).cursor.linenum - 1
                && final(self).cursor.offset == (if old(self).cursor.offset > utf8_size(
                old(self).buffer.lines@[old(self).cursor.linenum - 1].data@,
            ) {
                utf8_size(old(self).buffer.lines@[old(self).cursor.linenum - 1].data@) as usize
            } else {
                old(self).cursor.offset
            }),
            direction == Direction::Down ==> final(self).cursor.linenum == (
            if old(self).cursor.linenum + 1 < old(self).buffer.lines@.len() {
                old(self).cursor.linenum + 1
            } else {
                old(self).cursor.linenum as int
            }),
            direction == Direction::Up ==> final(self).top_line_num == (if old(self).cursor.linenum - 1
                - old(self).top_line_num < threshold() {
                moved_top(
                    old(self).top_line_num as int,
                    old(self).cursor.linenum - 1 - old(self).top_line_num - threshold(),
                )
            } else {
                old(self).top_line_num as int
            }),
            direction == Direction::Down && old(self).cursor.linenum + 1 < old(self).buffer.lines@.len()
                ==> {
                let next = old(self).cursor.linenum + 1;
                let off = next - old(self).top_line_num;
                &&& final(self).cursor.offset == (if old(self).cursor.offset
                    > utf8_size(old(self).buffer.lines@[next].data@) {
                    utf8_size(old(self).buffer.lines@[next].data@) as usize
                } else {
                    old(self).cursor.offset
                })
                &&& final(self).top_line_num == (if off >= term_height - 2 - threshold() {
                    moved_top(old(self).top_line_num as int, off - (term_height - 2 - threshold()) + 1)
                } else {
                    old(self).top_line_num as int
                })
            },
            direction == Direction::Down && old(self).cursor.linenum + 1 >= old(self).buffer.lines@.len()
                ==> *final(self) == *old(self),
    {
        match direction {
            Direction::Up => {
                self.move_cursor_up();
            },
            Direction::Down => {
                self.move_cursor_down(term_height);
            },
            Direction::Right => {
                self.cursor.move_right();
            },
            Direction::Left => {
                self.cursor.move_left();
            },
        }
    }

    /// Moves the cursor to the line above, keeping its offset where the line
    /// is long enough; the view scrolls up when the cursor comes within the
    /// threshold of the top.
    pub fn move_cursor_up(&mut self)
        requires
            old(self).cursor.line is Some,
            1 <= old(self).cursor.linenum <= old(self).buffer.lines@.len(),
            lines_fit(old(self).buffer.lines@),
            old(self).buffer.lines@.len() + 16 <= isize::MAX / 2,
            old(self).top_line_num <= isize::MAX / 2,
        ensures
            final(self).wf(),
            final(self).buffer == old(self).buffer,
            final(self).cursor.linenum == old(self).cursor.linenum - 1,
            final(self).cursor.offset == (if old(self).cursor.offset > utf8_size(
                old(self).buffer.lines@[old(self).cursor.linenum - 1].data@,
            ) {
                utf8_size(old(self).buffer.lines@[old(self).cursor.linenum - 1].data@) as usize
            } else {
                old(self).cursor.offset
            }),
            final(self).top_line_num == (if old(self).cursor.linenum - 1 - old(self).top_line_num < threshold() {
                moved_top(
                    old(self).top_line_num as int,
                    old(self).cursor.linenum - 1 - old(self).top_line_num - threshold(),
                )
            } else {
                old(self).top_line_num as int
            }),
    {
        let cursor_linenum = self.cursor.get_linenum();
        let prev_linenum = cursor_linenum - 1;
        let num_lines = self.buffer.lines.len() - 1;
        if prev_linenum > num_lines {
            return;
        }
        self.cursor.set_line(Some(self.buffer.lines[prev_linenum].duplicate()));
        self.cursor.linenum = prev_linenum;
        let cursor_linenum = self.cursor.get_linenum() as i128;
        let cursor_offset = cursor_linenum - self.top_line_num as i128;
        let threshold: i128 = 5;
        if cursor_offset < threshold {
            self.move_top_line_n_times((cursor_offset - threshold) as isize);
        }
    }

    /// Moves the cursor to the line below, keeping its offset where the line
    /// is long enough; the view scrolls down when the cursor comes within the
    /// threshold of the bottom. On the last line nothing changes.
    pub fn move_cursor_down(&mut self, term_height: usize)
        requires
            old(self).wf(),
            term_height >= 2,
        ensures
            final(self).wf(),
            final(self).buffer == old(self).buffer,
            old(self).cursor.linenum + 1 >= old(self).buffer.lines@.len() ==> *final(self) == *old(self),
            old(self).cursor.linenum + 1 < old(self).buffer.lines@.len() ==> {
                let next = old(self).cursor.linenum + 1;
                let off = next - old(self).top_line_num;
                let height = term_height - 2;
                &&& final(self).cursor.linenum == next
                &&& final(self).cursor.offset == (if old(self).cursor.offset
                    > utf8_size(old(self).buffer.lines@[next].data@) {
                    utf8_size(old(self).buffer.lines@[next].data@) as usize
                } else {
                    old(self).cursor.offset
                })
                &&& final(self).top_line_num == (if off >= height - threshold() {
                    moved_top(old(self).top_line_num as int, off - (height - threshold()) + 1)
                } else {
                    old(self).top_line_num as int
                })
            },
    {
        let cursor_linenum = self.cursor.get_linenum();
        let next_linenum = cursor_linenum + 1;
        let num_lines = self.buffer.lines.len() - 1;
        if next_linenum > num_lines {
            return;
        }
        self.cursor.set_line(Some(self.buffer.lines[next_linenum].duplicate()));
        self.cursor.linenum = next_linenum;
        let cursor_linenum = self.cursor.get_linenum() as i128;
        let cursor_offset = cursor_linenum - self.top_line_num as i128;
        let height = self.get_internal_height(term_height) as i128;
        let threshold: i128 = 5;
        if cursor_offset >= (height - threshold) {
            let times = cursor_offset - (height - threshold) + 1;
            self.move_top_line_n_times(times as isize);
        }
    }

    /// Moves the top line `num_times` lines: down when positive, up when
    /// negative, stopping at the first line.
    fn move_top_line_n_times(&mut self, num_times: isize)
        requires
            num_times > 0 ==> old(self).top_line_num + num_times <= usize::MAX,
        ensures
            final(self).top_line_num == moved_top(old(self).top_line_num as int, num_times as int),
            final(self).buffer == old(self).buffer,
            final(self).cursor == old(self).cursor,
    {
        let n0 = num_times;
        let mut n = num_times;
        if n == 0 {
            return;
        }
        // moving down
        if n > 0 {
            while n > 0
                invariant
                    0 <= n <= n0,
                    n0 == num_times,
                    old(self).top_line_num + n0 <= usize::MAX,
                    self.top_line_num == old(self).top_line_num + (n0 - n),
                    self.buffer == old(self).buffer,
                    self.cursor == old(self).cursor,
                decreases n,
            {
                self.top_line_num = self.top_line_num + 1;
                n = n - 1;
            }
            return;
        }
        // moving up
        while n < 0
            invariant
                n0 <= n <= 0,
                n0 < 0,
                n0 == num_times,
                self.top_line_num == old(self).top_line_num - (n - n0),
                self.buffer == old(self).buffer,
                self.cursor == old(self).cursor,
            decreases -n,
        {
            if self.top_line_num == 0 {
                return;
            }
            self.top_line_num = self.top_line_num - 1;
            n = n + 1;
        }
    }

    /// Deletes the char that starts one byte before the cursor (left) or at it
    /// (right). At the start of a line, deleting left joins the line to the one
    /// above and the cursor goes to where they meet; at the end of a line,
    /// deleting right joins the next line to it.
    pub fn delete_char(&mut self, direction: Direction)
        requires
            old(self).wf(),
            !(old(self).cursor.offset == 0 && direction == Direction::Left && old(self).cursor.linenum
                == 0),
            !(old(self).cursor.offset == old(self).cursor.byte_len() && direction == Direction::Right
                && old(self).cursor.linenum + 1 == old(self).buffer.lines@.len()),
            ({
                let n = old(self).cursor.linenum as int;
                let off = old(self).cursor.offset as int;
                let t = texts(old(self).buffer.lines@);
                &&& direction == Direction::Left && off == 0 && n >= 1 ==> utf8_size(t[n - 1]) + utf8_size(t[n])
                    <= usize::MAX
                &&& direction == Direction::Right && off == utf8_size(t[n]) && n + 1 < t.len() ==> utf8_size(
                    t[n],
                ) + utf8_size(t[n + 1]) <= usize::MAX
                &&& direction == Direction::Left && off > 0 ==> chars_before(t[n], off - 1) is Some
                &&& direction == Direction::Right && off < utf8_size(t[n]) ==> chars_before(t[n], off) is Some
            }),
        ensures
            final(self).wf(),
            ({
                let n = old(self).cursor.linenum as int;
                let off = old(self).cursor.offset as int;
                let t = texts(old(self).buffer.lines@);
                if off == 0 && direction == Direction::Left {
                    &&& texts(final(self).buffer.lines@) == joined_lines(t, n)
                    &&& final(self).cursor.linenum == n - 1
                    &&& final(self).cursor.offset == utf8_size(t[n - 1])
                } else if off == utf8_size(t[n]) && direction == Direction::Right {
                    &&& texts(final(self).buffer.lines@) == joined_lines(t, n + 1)
                    &&& final(self).cursor.linenum == n
                    &&& final(self).cursor.offset == off
                } else if direction == Direction::Left {
                    &&& texts(final(self).buffer.lines@) == t.update(n, t[n].remove(chars_before(t[n], off - 1)->0))
                    &&& final(self).cursor.linenum == n
                    &&& final(self).cursor.offset == off - 1
                } else if direction == Direction::Right {
                    &&& texts(final(self).buffer.lines@) == t.update(n, t[n].remove(chars_before(t[n], off)->0))
                    &&& final(self).cursor.linenum == n
                    &&& final(self).cursor.offset == off
                } else {
                    &&& texts(final(self).buffer.lines@) == t
                    &&& final(self).cursor.linenum == n
                    &&& final(self).cursor.offset == off
                }
            }),
    {
        let ghost t = texts(self.buffer.lines@);
        proof {
            lemma_texts(old(self).buffer.lines@);
        }
        let (offset, line_num) = self.cursor.get_position();
        if offset == 0 && direction.is_left() {
            let prev_len = self.buffer.lines[line_num - 1].len();
            let (joined_at, _) = self.buffer.join_line_with_previous(offset, line_num);
            proof {
                lemma_texts(self.buffer.lines@);
                assert(self.buffer.lines@.len() == old(self).buffer.lines@.len() - 1);
                assert(joined_lines(t, line_num as int)[line_num - 1] == t[line_num - 1] + t[line_num as int]);
                assert(self.buffer.lines@[line_num - 1].data@ == t[line_num - 1] + t[line_num as int]);
                lemma_joined_fit(old(self).buffer.lines@, self.buffer.lines@, line_num as int);
                lemma_utf8_size_concat(t[line_num - 1], t[line_num as int]);
            }
            self.move_cursor_up();
            proof {
                assert(texts(self.buffer.lines@)[line_num - 1] == t[line_num - 1] + t[line_num as int]);
                assert(joined_at == prev_len);
                assert(utf8_size(t[line_num - 1]) == prev_len);
            }
            self.cursor.set_offset(joined_at);
            return;
        }
        let line_len = self.cursor.get_line_length();
        if offset == line_len && direction.is_right() {
            let _ = self.buffer.join_line_with_previous(offset, line_num + 1);
            proof {
                lemma_texts(self.buffer.lines@);
                assert(self.buffer.lines@.len() == old(self).buffer.lines@.len() - 1);
                assert(joined_lines(t, line_num + 1)[line_num as int] == t[line_num as int] + t[line_num + 1]);
                assert(self.buffer.lines@[line_num as int].data@ == t[line_num as int] + t[line_num + 1]);
                lemma_joined_fit(old(self).buffer.lines@, self.buffer.lines@, line_num + 1);
                lemma_utf8_size_concat(t[line_num as int], t[line_num + 1]);
            }
            self.cursor.set_line(Some(self.buffer.lines[line_num].duplicate()));
            return;
        }
        let ghost c0 = self.cursor.text();
        match direction {
            Direction::Left => self.cursor.delete_backward_char(),
            Direction::Right => self.cursor.delete_forward_char(),
            _ => {},
        }
        proof {
            assert(c0.take(c0.len() as int) =~= c0);
            if direction == Direction::Left {
                lemma_chars_before(c0, offset - 1, 0);
                lemma_step(c0, chars_before(c0, offset - 1)->0);
                lemma_utf8_size_remove(c0, chars_before(c0, offset - 1)->0);
            } else if direction == Direction::Right {
                lemma_chars_before(c0, offset as int, 0);
                lemma_step(c0, chars_before(c0, offset as int)->0);
                lemma_utf8_size_remove(c0, chars_before(c0, offset as int)->0);
            }
        }
        self.sync_line();
        proof {
            assert(texts(self.buffer.lines@) =~= t.update(line_num as int, self.cursor.text()));
        }
    }

    /// Writes the cursor's copy of its line back into the buffer.
    fn sync_line(&mut self)
        requires
            old(self).cursor.line is Some,
            old(self).cursor.linenum < old(self).buffer.lines@.len(),
            old(self).cursor.offset <= old(self).cursor.byte_len(),
            old(self).cursor.byte_len() <= usize::MAX,
            forall|i: int|
                0 <= i < old(self).buffer.lines@.len() && i != old(self).cursor.linenum ==> #[trigger] utf8_size(
                    old(self).buffer.lines@[i].data@,
                ) <= usize::MAX,
            old(self).buffer.lines@.len() + 16 <= isize::MAX / 2,
            old(self).top_line_num <= isize::MAX / 2,
        ensures
            final(self).wf(),
            final(self).cursor == old(self).cursor,
            final(self).top_line_num == old(self).top_line_num,
            final(self).buffer.file_path == old(self).buffer.file_path,
            final(self).buffer.lines@.len() == old(self).buffer.lines@.len(),
            texts(final(self).buffer.lines@) == texts(old(self).buffer.lines@).update(
                old(self).cursor.linenum as int,
                old(self).cursor.text(),
            ),
    {
        let line = self.cursor.get_line().duplicate();
        let n = self.cursor.linenum;
        self.buffer.lines.set(n, line);
        proof {
            assert(texts(self.buffer.lines@) =~= texts(old(self).buffer.lines@).update(
                n as int,
                old(self).cursor.text(),
            ));
        }
    }

    /// Inserts a char where the cursor is, which falls between two chars.
    pub fn insert_char(&mut self, ch: char)
        requires
            old(self).wf(),
            chars_before(old(self).cursor.text(), old(self).cursor.offset as int) is Some,
            old(self).cursor.byte_len() + utf8_len(ch) <= usize::MAX,
        ensures
            final(self).wf(),
            texts(final(self).buffer.lines@) == texts(old(self).buffer.lines@).update(
                old(self).cursor.linenum as int,
                old(self).cursor.text().insert(old(self).cursor.char_index(old(self).cursor.offset as int), ch),
            ),
            final(self).cursor.linenum == old(self).cursor.linenum,
            final(self).cursor.offset == old(self).cursor.offset + 1,
            final(self).top_line_num == old(self).top_line_num,
    {
        let ghost c0 = self.cursor.text();
        self.cursor.insert_char(ch);
        proof {
            lemma_chars_before(c0, old(self).cursor.offset as int, 0);
            lemma_utf8_size_insert(c0, chars_before(c0, old(self).cursor.offset as int)->0, ch);
        }
        self.sync_line();
    }

    /// Splits the cursor's line at the cursor, which falls between two chars,
    /// and moves the cursor to the start of the new line below.
    pub fn insert_line(&mut self, term_height: usize)
        requires
            old(self).wf(),
            term_height >= 2,
            old(self).buffer.lines@.len() + 17 <= isize::MAX / 2,
            chars_before(old(self).cursor.text(), old(self).cursor.offset as int) is Some,
        ensures
            final(self).wf(),
            texts(final(self).buffer.lines@) == split_lines(
                texts(old(self).buffer.lines@),
                old(self).cursor.char_index(old(self).cursor.offset as int),
                old(self).cursor.linenum as int,
            ),
            final(self).cursor.linenum == old(self).cursor.linenum + 1,
            final(self).cursor.offset == 0,
    {
        let (offset, line_num) = self.cursor.get_position();
        let _ = self.buffer.insert_line(offset, line_num);
        proof {
            lemma_texts(self.buffer.lines@);
            lemma_texts(old(self).buffer.lines@);
            assert(self.buffer.lines@.len() == old(self).buffer.lines@.len() + 1);
            let c0 = old(self).cursor.text();
            lemma_chars_before(c0, offset as int, 0);
            lemma_split_fit(old(self).buffer.lines@, self.buffer.lines@, chars_before(c0, offset as int)->0, line_num as int);
        }
        self.cursor.set_line(Some(self.buffer.lines[line_num].duplicate()));
        self.move_cursor_down(term_height);
        self.cursor.set_offset(0);
    }
}

} // verus!
