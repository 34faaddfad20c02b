//! A buffer of lines with a cursor that moves by a step at a time.

use vstd::prelude::*;

pub mod keyboard;
pub mod lib;

verus! {

/// A direction to move in.
#[derive(Copy, Clone, Debug, PartialEq, Eq, Structural)]
pub enum Direction {
    Up,
    Down,
    Left,
    Right,
}

/// What the editor does after an event: go on, or stop.
#[derive(Copy, Clone, Debug, PartialEq, Eq, Structural)]
pub enum Response {
    Continue,
    Quit,
}

/// A line of text.
pub struct Line {
    pub data: String,
}

/// A buffer of lines, with a cursor.
pub struct Buffer {
    pub lines: Vec<Line>,
    pub active: bool,
    pub num_lines: isize,
    pub cursor_x: isize,
    pub cursor_y: isize,
}

impl Buffer {
    /// An empty buffer, not active, with its cursor at the origin.
    pub fn new() -> (r: Buffer)
        ensures
            r.lines@.len() == 0,
            !r.active,
            r.num_lines == 0,
            r.cursor_x == 0,
            r.cursor_y == 0,
    {
        Buffer { lines: Vec::new(), active: false, num_lines: 0, cursor_x: 0, cursor_y: 0 }
    }

    /// A buffer holding the lines of a file, as read.
    pub fn new_from_file(lines: Vec<String>) -> (r: Buffer)
        ensures
            r.lines@.len() == lines@.len(),
            forall|i: int| 0 <= i < lines@.len() ==> #[trigger] r.lines@[i].data@ == lines@[i]@,
            !r.active,
            r.num_lines == 0,
            r.cursor_x == 0,
            r.cursor_y == 0,
    {
        let mut new_buffer = Buffer::new();
        let mut i: usize = 0;
        while i < lines.len()
            invariant
                i <= lines@.len(),
                new_buffer.lines@.len() == i,
                forall|k: int| 0 <= k < i ==> #[trigger] new_buffer.lines@[k].data@ == lines@[k]@,
                !new_buffer.active,
                new_buffer.num_lines == 0,
                new_buffer.cursor_x == 0,
                new_buffer.cursor_y == 0,
            decreases lines@.len() - i,
        {
            new_buffer.lines.push(Line { data: lines[i].clone() });
            i = i + 1;
        }
        new_buffer
    }

    /// Moves the cursor. Whatever the direction, the cursor goes up a line:
    /// the first arm of the match binds any direction.
    pub fn move_cursor(&mut self, direction: Direction)
        requires
            old(self).cursor_y > isize::MIN,
        ensures
            final(self).cursor_y == old(self).cursor_y - 1,
            final(self).cursor_x == old(self).cursor_x,
            final(self).lines == old(self).lines,
            final(self).active == old(self).active,
            final(self).num_lines == old(self).num_lines,
    {
        match direction {
            _up => self.cursor_y = self.cursor_y - 1,
        }
    }
}

} // verus!
