//! A cursor on a line of text, and the edits made at it.

use vstd::prelude::*;

use super::log::{Change, EntryView, Transaction};
use super::utils::{
    char_utf8_len, lemma_step, chars_before, chars_before_offset, decimal, lemma_chars_before, lemma_utf8_size_prefix,
    push_decimal, spec_str_width, str_width, utf8_len, utf8_size, utf8_size_of,
};

verus! {

/// A direction to move in.
#[derive(Copy, Clone, Debug, PartialEq, Eq, Structural)]
pub enum Direction {
    Up,
    Down,
    Left,
    Right,
}

impl Direction {
    pub fn is_right(&self) -> (r: bool)
        ensures
            r == (*self == Direction::Right),
    {
        match *self {
            Direction::Right => true,
            _ => false,
        }
    }

    pub fn is_left(&self) -> (r: bool)
        ensures
            r == (*self == Direction::Left),
    {
        match *self {
            Direction::Left => true,
            _ => false,
        }
    }
}

/// Where a cursor stands: a line number and an offset in the line.
#[derive(Copy, Clone, PartialEq, Eq, Debug, Structural)]
pub struct CursorData {
    /// The current line number of the cursor
    pub linenum: usize,
    /// The current offset of the cursor
    pub offset: usize,
}

/// A line of text with its number. Its length, and a cursor's offset in it,
/// count the bytes of its UTF-8 encoding.
pub struct Line {
    pub data: Vec<char>,
    pub linenum: usize,
}

impl Line {
    /// Create a new line instance
    pub fn new(data: Vec<char>, linenum: usize) -> (r: Line)
        ensures
            r.data@ == data@,
            r.linenum == linenum,
    {
        Line { data, linenum }
    }

    /// Get the length of the current line: the number of bytes of its text.
    pub fn len(&self) -> (r: usize)
        requires
            utf8_size(self.data@) <= usize::MAX,
        ensures
            r == utf8_size(self.data@),
    {
        utf8_size_of(&self.data)
    }
}

/// A cursor on a line. Its offset counts bytes and may lie past the end of the
/// line; it then acts as if it were at the end.
pub struct Cursor {
    /// The number of bytes the cursor is along the line.
    pub offset: usize,
    /// The line the cursor is on.
    pub line: Line,
}

impl Cursor {
    /// The line the cursor is on.
    pub open spec fn line_view(&self) -> Seq<char> {
        self.line.data@
    }

    /// The number of the line the cursor is on.
    pub open spec fn linenum_view(&self) -> usize {
        self.line.linenum
    }

    /// The number of bytes of the line.
    pub open spec fn byte_len(&self) -> int {
        utf8_size(self.line_view()) as int
    }

    /// The byte length of the line fits a `usize`.
    pub open spec fn fits(&self) -> bool {
        self.byte_len() <= usize::MAX
    }

    /// The offset the cursor acts at: its offset, or the end of the line when that is nearer.
    pub open spec fn spec_offset(&self) -> usize {
        if self.byte_len() < self.offset {
            self.byte_len() as usize
        } else {
            self.offset
        }
    }

    /// The cursor acts at a place between two chars (or at either end).
    pub open spec fn on_boundary(&self) -> bool {
        chars_before(self.line_view(), self.spec_offset() as int) is Some
    }

    /// The number of chars before the place the cursor acts at.
    pub open spec fn char_at(&self) -> int {
        chars_before(self.line_view(), self.spec_offset() as int)->0
    }

    /// Create a new cursor instance
    pub fn new(line: Line, offset: usize) -> (r: Cursor)
        ensures
            r.line_view() == line.data@,
            r.linenum_view() == line.linenum,
            r.offset == offset,
    {
        Cursor { offset: offset, line: line }
    }

    pub fn get_position(&self) -> (r: CursorData)
        requires
            self.fits(),
        ensures
            r == (CursorData { linenum: self.linenum_view(), offset: self.spec_offset() }),
    {
        CursorData { linenum: self.get_linenum(), offset: self.get_offset() }
    }

    pub fn get_linenum(&self) -> (r: usize)
        ensures
            r == self.linenum_view(),
    {
        self.line.linenum
    }

    pub fn get_offset(&self) -> (r: usize)
        requires
            self.fits(),
        ensures
            r == self.spec_offset(),
    {
        let len = self.line.len();
        if len < self.offset {
            len
        } else {
            self.offset
        }
    }

    pub fn get_actual_offset(&self) -> (r: usize)
        ensures
            r == self.offset,
    {
        self.offset
    }

    /// The column the cursor shows at: the width of the line up to it, tabs 4 wide.
    pub fn get_visible_offset(&self) -> (r: usize)
        requires
            self.fits(),
            self.on_boundary(),
            self.line_view().len() * 259 <= usize::MAX,
        ensures
            r == spec_str_width(self.line_view().take(self.char_at()), false, 4),
    {
        let off = self.get_offset();
        let k = match chars_before_offset(&self.line.data, off) {
            Some(k) => k,
            None => 0,
        };
        proof {
            lemma_chars_before(self.line_view(), off as int, 0);
        }
        let mut prefix: Vec<char> = Vec::new();
        let mut i: usize = 0;
        while i < k
            invariant
                k == self.char_at(),
                k <= self.line_view().len(),
                i <= k,
                prefix@ == self.line_view().take(i as int),
            decreases k - i,
        {
            prefix.push(self.line.data[i]);
            i = i + 1;
            proof {
                assert(prefix@ =~= self.line_view().take(i as int));
            }
        }
        str_width(prefix.as_slice(), false, 4)
    }

    pub fn set_offset(&mut self, offset: usize)
        ensures
            final(self).offset == offset,
            final(self).line_view() == old(self).line_view(),
            final(self).linenum_view() == old(self).linenum_view(),
    {
        self.offset = offset;
    }

    /// Moves the cursor forward one character: by the number of bytes of the
    /// char at it, so that it lands between two chars again.
    pub fn inc_offset(&mut self)
        requires
            old(self).fits(),
            old(self).on_boundary(),
            old(self).spec_offset() < old(self).byte_len(),
        ensures
            final(self).offset == old(self).spec_offset() + utf8_len(old(self).line_view()[old(self).char_at()]),
            chars_before(final(self).line_view(), final(self).offset as int) == Some(old(self).char_at() + 1),
            final(self).line_view() == old(self).line_view(),
            final(self).linenum_view() == old(self).linenum_view(),
    {
        let off = self.get_offset();
        let k = match chars_before_offset(&self.line.data, off) {
            Some(k) => k,
            None => 0,
        };
        proof {
            let s = self.line_view();
            lemma_chars_before(s, off as int, 0);
            assert(s.take(s.len() as int) =~= s);
            if k == s.len() {
                assert(false);
            }
            lemma_step(s, k as int);
        }
        let next = off + char_utf8_len(self.line.data[k]);
        self.set_offset(next);
    }

    /// Moves the cursor back one character: by the number of bytes of the
    /// char before it, so that it lands between two chars again.
    pub fn dec_offset(&mut self)
        requires
            old(self).fits(),
            old(self).on_boundary(),
            old(self).spec_offset() > 0,
        ensures
            final(self).offset == old(self).spec_offset() - utf8_len(old(self).line_view()[old(self).char_at() - 1]),
            chars_before(final(self).line_view(), final(self).offset as int) == Some(old(self).char_at() - 1),
            final(self).line_view() == old(self).line_view(),
            final(self).linenum_view() == old(self).linenum_view(),
    {
        let off = self.get_offset();
        let k = match chars_before_offset(&self.line.data, off) {
            Some(k) => k,
            None => 1,
        };
        proof {
            let s = self.line_view();
            lemma_chars_before(s, off as int, 0);
            assert(s.take(0) =~= Seq::<char>::empty());
            lemma_step(s, k - 1);
        }
        let prev = off - char_utf8_len(self.line.data[k - 1]);
        self.set_offset(prev);
    }

    pub fn get_line(&self) -> (r: &Line)
        ensures
            r.data@ == self.line_view(),
            r.linenum == self.linenum_view(),
    {
        &self.line
    }

    pub fn get_line_mut(&mut self) -> (r: &mut Line)
        ensures
            r.data@ == old(self).line_view(),
            r.linenum == old(self).linenum_view(),
            final(self).line_view() == final(r).data@,
            final(self).linenum_view() == final(r).linenum,
            final(self).offset == old(self).offset,
    {
        &mut self.line
    }

    /// The number of bytes of the line.
    pub fn get_line_length(&self) -> (r: usize)
        requires
            self.fits(),
        ensures
            r == self.byte_len(),
    {
        self.line.len()
    }

    /// Deletes the char before the cursor, moving it back over that char (at
    /// the start of the line the char at the cursor goes instead).
    pub fn delete_backward_char(&mut self, transaction: &mut Transaction)
        requires
            old(self).fits(),
            old(self).on_boundary(),
            old(self).spec_offset() > 0 || old(self).byte_len() > 0,
        ensures
            ({
                let k = old(self).char_at();
                let at = if old(self).spec_offset() > 0 { k - 1 } else { 0 };
                let pos = if old(self).spec_offset() > 0 {
                    old(self).spec_offset() - utf8_len(old(self).line_view()[k - 1])
                } else {
                    0
                };
                &&& final(self).line_view() == old(self).line_view().remove(at)
                &&& final(self).offset == pos
                &&& final(self).linenum_view() == old(self).linenum_view()
                &&& final(transaction)@ == (EntryView {
                    init_point: old(transaction)@.init_point,
                    end_point: pos as usize,
                    changes: old(transaction)@.changes.push(Change::Remove(pos as usize, old(self).line_view()[at])),
                })
            }),
    {
        proof {
            let s = self.line_view();
            lemma_chars_before(s, self.spec_offset() as int, 0);
            assert(s.take(0) =~= Seq::<char>::empty());
        }
        self.move_left();
        proof {
            let s = self.line_view();
            if old(self).spec_offset() > 0 {
                lemma_step(s, old(self).char_at() - 1);
            } else {
                lemma_chars_before(s, 0, 0);
                if s.len() == 0 {
                    assert(s.take(s.len() as int) =~= s);
                }
            }
        }
        self.delete_forward_char(transaction);
    }

    /// Deletes the char at the cursor.
    pub fn delete_forward_char(&mut self, transaction: &mut Transaction)
        requires
            old(self).fits(),
            old(self).on_boundary(),
            old(self).spec_offset() < old(self).byte_len(),
        ensures
            ({
                let off = old(self).spec_offset();
                let k = old(self).char_at();
                &&& final(self).line_view() == old(self).line_view().remove(k)
                &&& final(self).offset == old(self).offset
                &&& final(self).linenum_view() == old(self).linenum_view()
                &&& final(transaction)@ == (EntryView {
                    init_point: old(transaction)@.init_point,
                    end_point: off,
                    changes: old(transaction)@.changes.push(Change::Remove(off, old(self).line_view()[k])),
                })
            }),
    {
        let offset = self.get_offset();
        let k = match chars_before_offset(&self.line.data, offset) {
            Some(k) => k,
            None => 0,
        };
        proof {
            let s = self.line_view();
            lemma_chars_before(s, offset as int, 0);
            assert(s.take(s.len() as int) =~= s);
        }
        let ch = self.line.data.remove(k);
        transaction.log(Change::Remove(offset, ch), offset);
    }

    /// Inserts a char at the cursor, moving it past the char. An offset past
    /// the end of the line is kept unless it falls inside the inserted char.
    pub fn insert_char(&mut self, transaction: &mut Transaction, ch: char)
        requires
            old(self).byte_len() + utf8_len(ch) <= usize::MAX,
            old(self).on_boundary(),
            !(old(self).byte_len() < old(self).offset < old(self).byte_len() + utf8_len(ch)),
        ensures
            ({
                let off = old(self).spec_offset();
                &&& final(self).line_view() == old(self).line_view().insert(old(self).char_at(), ch)
                &&& final(self).offset == (if old(self).offset <= old(self).byte_len() {
                    off + utf8_len(ch)
                } else {
                    old(self).offset as int
                })
                &&& final(self).linenum_view() == old(self).linenum_view()
                &&& final(transaction)@ == (EntryView {
                    init_point: old(transaction)@.init_point,
                    end_point: off,
                    changes: old(transaction)@.changes.push(Change::Insert(off, ch)),
                })
            }),
    {
        let offset = self.get_offset();
        let k = match chars_before_offset(&self.line.data, offset) {
            Some(k) => k,
            None => 0,
        };
        let ghost s = self.line_view();
        proof {
            lemma_chars_before(s, offset as int, 0);
        }
        self.line.data.insert(k, ch);
        proof {
            let t = self.line_view();
            assert(t.take(k as int) =~= s.take(k as int));
            assert(t.take(k + 1).drop_last() =~= s.take(k as int));
            assert(t.skip(k as int + 1) =~= s.skip(k as int));
            assert(t =~= t.take(k + 1) + t.skip(k + 1));
            assert(s =~= s.take(k as int) + s.skip(k as int));
            super::utils::lemma_utf8_size_concat(t.take(k + 1), t.skip(k + 1));
            super::utils::lemma_utf8_size_concat(s.take(k as int), s.skip(k as int));
            lemma_step(t, k as int);
        }
        self.move_right();
        transaction.log(Change::Insert(offset, ch), offset);
    }

    /// Moves right by a char, unless at the end of the line.
    pub fn move_right(&mut self)
        requires
            old(self).fits(),
            old(self).on_boundary(),
        ensures
            final(self).offset == (if old(self).spec_offset() < old(self).byte_len() {
                old(self).spec_offset() + utf8_len(old(self).line_view()[old(self).char_at()])
            } else {
                old(self).offset as int
            }),
            final(self).line_view() == old(self).line_view(),
            final(self).linenum_view() == old(self).linenum_view(),
    {
        let line_len = self.line.len();
        let current_offset = self.get_offset();
        if line_len > current_offset {
            self.inc_offset();
        }
    }

    /// Moves left by a char, unless at the start of the line.
    pub fn move_left(&mut self)
        requires
            old(self).fits(),
            old(self).on_boundary(),
        ensures
            final(self).offset == (if old(self).spec_offset() > 0 {
                old(self).spec_offset() - utf8_len(old(self).line_view()[old(self).char_at() - 1])
            } else {
                old(self).offset as int
            }),
            old(self).spec_offset() > 0 ==> chars_before(final(self).line_view(), final(self).offset as int)
                == Some(old(self).char_at() - 1),
            final(self).line_view() == old(self).line_view(),
            final(self).linenum_view() == old(self).linenum_view(),
    {
        let current_offset = self.get_offset();
        if current_offset > 0 {
            self.dec_offset();
        }
    }

    /// The position as `(column, line)`, both counted from 1.
    pub fn get_status_text(&self) -> (r: String)
        requires
            self.fits(),
            self.spec_offset() < usize::MAX,
            self.linenum_view() < usize::MAX,
        ensures
            r@ == seq!['('] + decimal((self.spec_offset() + 1) as nat) + seq![',', ' '] + decimal(
                (self.linenum_view() + 1) as nat,
            ) + seq![')'],
    {
        let data = self.get_position();
        let mut s = String::new();
        super::utils::string_push(&mut s, '(');
        push_decimal(&mut s, data.offset + 1);
        super::utils::string_push(&mut s, ',');
        super::utils::string_push(&mut s, ' ');
        push_decimal(&mut s, data.linenum + 1);
        super::utils::string_push(&mut s, ')');
        proof {
            assert(s@ =~= seq!['('] + decimal((self.spec_offset() + 1) as nat) + seq![',', ' '] + decimal(
                (self.linenum_view() + 1) as nat,
            ) + seq![')']);
        }
        s
    }
}

} // verus!
