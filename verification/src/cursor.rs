//! A cursor on a line of a buffer: where on the line it is, and the edits
//! made there.

use vstd::prelude::*;

use crate::buffer::Line;
use crate::iota::utils::{
    chars_before, chars_before_offset, decimal, lemma_chars_before, lemma_utf8_size_prefix,
    push_decimal, string_push, string_push_str, utf8_len, utf8_size,
};

verus! {

/// A direction to move in.
#[derive(Copy, Clone, Debug, PartialEq, Eq, Structural)]
pub enum Direction {
    Up,
    Down,
    Left,
    Right,
}

impl Direction {
    pub fn is_right(&self) -> (r: bool)
        ensures
            r == (*self == Direction::Right),
    {
        match *self {
            Direction::Right => true,
            _ => false,
        }
    }

    pub fn is_left(&self) -> (r: bool)
        ensures
            r == (*self == Direction::Left),
    {
        match *self {
            Direction::Left => true,
            _ => false,
        }
    }
}

/// A cursor: its offset on its line, in bytes, the line (once it has one),
/// and the number of that line in the buffer.
pub struct Cursor {
    pub offset: usize,
    pub line: Option<Line>,
    pub linenum: usize,
}

impl Cursor {
    /// The text of the cursor's line.
    pub open spec fn text(&self) -> Seq<char> {
        self.line->0.data@
    }

    /// The number of bytes of the cursor's line.
    pub open spec fn byte_len(&self) -> int {
        utf8_size(self.text()) as int
    }

    /// The number of chars before the byte offset `b` of the cursor's line.
    pub open spec fn char_index(&self, b: int) -> int {
        chars_before(self.text(), b)->0
    }

    /// Create a new cursor instance
    pub fn new() -> (r: Cursor)
        ensures
            r.offset == 0,
            r.line is None,
            r.linenum == 0,
    {
        Cursor { offset: 0, line: None, linenum: 0 }
    }

    /// The offset and the number of the line.
    pub fn get_position(&self) -> (r: (usize, usize))
        requires
            self.line is Some,
        ensures
            r == (self.offset, self.linenum),
    {
        (self.offset, self.get_linenum())
    }

    pub fn get_linenum(&self) -> (r: usize)
        requires
            self.line is Some,
        ensures
            r == self.linenum,
    {
        self.linenum
    }

    pub fn get_offset(&self) -> (r: usize)
        ensures
            r == self.offset,
    {
        self.offset
    }

    pub fn set_offset(&mut self, offset: usize)
        ensures
            final(self).offset == offset,
            final(self).line == old(self).line,
            final(self).linenum == old(self).linenum,
    {
        self.offset = offset;
    }

    /// Puts the cursor on a line; an offset past the end of the line moves
    /// back to the end.
    pub fn set_line(&mut self, line: Option<Line>)
        requires
            line is Some,
            utf8_size(line->0.data@) <= usize::MAX,
        ensures
            final(self).line == line,
            final(self).linenum == old(self).linenum,
            final(self).offset == (if old(self).offset > utf8_size(line->0.data@) {
                utf8_size(line->0.data@) as usize
            } else {
                old(self).offset
            }),
    {
        self.line = line;
        // check that the current offset is longer than the length of the line
        let offset = self.get_offset();
        let line_length = self.get_line().len();
        if offset > line_length {
            self.set_offset(line_length);
        }
    }

    pub fn get_line(&self) -> (r: &Line)
        requires
            self.line is Some,
        ensures
            *r == self.line->0,
    {
        self.line.as_ref().unwrap()
    }

    /// The number of bytes of the cursor's line.
    pub fn get_line_length(&self) -> (r: usize)
        requires
            self.line is Some,
            self.byte_len() <= usize::MAX,
        ensures
            r == self.byte_len(),
    {
        self.get_line().len()
    }

    /// Deletes the char that starts one byte before the cursor, and moves back
    /// one byte.
    pub fn delete_backward_char(&mut self)
        requires
            old(self).line is Some,
            old(self).byte_len() <= usize::MAX,
            1 <= old(self).offset <= old(self).byte_len(),
            chars_before(old(self).text(), old(self).offset - 1) is Some,
        ensures
            final(self).line is Some,
            final(self).text() == old(self).text().remove(old(self).char_index(old(self).offset - 1)),
            final(self).offset == old(self).offset - 1,
            final(self).linenum == old(self).linenum,
    {
        let offset = self.get_offset();
        if let Some(line) = &mut self.line {
            let k = match chars_before_offset(&line.data, offset - 1) {
                Some(k) => k,
                None => 0,
            };
            proof {
                let t = line.data@;
                lemma_chars_before(t, offset - 1, 0);
                assert(t.take(t.len() as int) =~= t);
            }
            let _ = line.data.remove(k);
        }
        self.set_offset(offset - 1);
    }

    /// Deletes the char that starts at the cursor.
    pub fn delete_forward_char(&mut self)
        requires
            old(self).line is Some,
            old(self).byte_len() <= usize::MAX,
            old(self).offset < old(self).byte_len(),
            chars_before(old(self).text(), old(self).offset as int) is Some,
        ensures
            final(self).line is Some,
            final(self).text() == old(self).text().remove(old(self).char_index(old(self).offset as int)),
            final(self).offset == old(self).offset,
            final(self).linenum == old(self).linenum,
    {
        let offset = self.get_offset();
        if let Some(line) = &mut self.line {
            let k = match chars_before_offset(&line.data, offset) {
                Some(k) => k,
                None => 0,
            };
            proof {
                let t = line.data@;
                lemma_chars_before(t, offset as int, 0);
                assert(t.take(t.len() as int) =~= t);
            }
            let _ = line.data.remove(k);
        }
        self.set_offset(offset);
    }

    /// Inserts a char where the cursor is, and moves one byte on.
    pub fn insert_char(&mut self, ch: char)
        requires
            old(self).line is Some,
            old(self).byte_len() + utf8_len(ch) <= usize::MAX,
            chars_before(old(self).text(), old(self).offset as int) is Some,
        ensures
            final(self).line is Some,
            final(self).text() == old(self).text().insert(old(self).char_index(old(self).offset as int), ch),
            final(self).offset == old(self).offset + 1,
            final(self).linenum == old(self).linenum,
    {
        let offset = self.get_offset();
        proof {
            let t = self.text();
            lemma_chars_before(t, offset as int, 0);
            lemma_utf8_size_prefix(t, self.char_index(offset as int), t.len() as int);
            assert(t.take(t.len() as int) =~= t);
        }
        if let Some(line) = &mut self.line {
            let k = match chars_before_offset(&line.data, offset) {
                Some(k) => k,
                None => 0,
            };
            proof {
                lemma_chars_before(line.data@, offset as int, 0);
            }
            line.data.insert(k, ch);
        }
        self.set_offset(offset + 1)
    }

    /// Moves right by a byte, unless at the end of the line.
    pub fn move_right(&mut self)
        requires
            old(self).line is Some,
            old(self).byte_len() <= usize::MAX,
        ensures
            final(self).offset == (if old(self).byte_len() > old(self).offset {
                old(self).offset + 1
            } else {
                old(self).offset as int
            }),
            final(self).line == old(self).line,
            final(self).linenum == old(self).linenum,
    {
        let line_len = self.get_line().len();
        let current_offset = self.get_offset();
        if line_len > current_offset {
            self.set_offset(current_offset + 1);
        }
    }

    /// Moves left by a byte, unless at the start of the line.
    pub fn move_left(&mut self)
        ensures
            final(self).offset == (if old(self).offset > 0 {
                old(self).offset - 1
            } else {
                0
            }),
            final(self).line == old(self).line,
            final(self).linenum == old(self).linenum,
    {
        let current_offset = self.get_offset();
        if current_offset > 0 {
            self.set_offset(current_offset - 1);
        }
    }

    /// The place of the cursor as `(offset, line)`.
    pub fn get_status_text(&self) -> (r: String)
        requires
            self.line is Some,
        ensures
            r@ == seq!['('] + decimal(self.offset as nat) + seq![',', ' '] + decimal(
                self.linenum as nat,
            ) + seq![')'],
    {
        let (offset, line_num) = self.get_position();
        let mut s = String::new();
        string_push(&mut s, '(');
        push_decimal(&mut s, offset);
        string_push_str(&mut s, ", ");
        push_decimal(&mut s, line_num);
        string_push(&mut s, ')');
        proof {
            reveal_strlit(", ");
            assert(s@ =~= seq!['('] + decimal(self.offset as nat) + seq![',', ' '] + decimal(
                self.linenum as nat,
            ) + seq![')']);
        }
        s
    }
}

} // verus!
