//! Iteration over the lines of a buffer's text.

use gapbuffer::GapBuffer;
use vstd::prelude::*;

use super::buffer::{gap_contents, gap_index};

verus! {

/// The position of the first newline at or after `i`, or the length of the text
/// when there is none.
pub open spec fn first_nl_from(t: Seq<u8>, i: int) -> int
    decreases t.len() - i,
{
    if i >= t.len() {
        t.len() as int
    } else if t[i] == 10 {
        i
    } else {
        first_nl_from(t, i + 1)
    }
}

/// The lines of a text from position `tail` on, each with its newline except the last.
pub struct Lines<'a> {
    pub buffer: &'a GapBuffer<u8>,
    pub tail: usize,
    pub head: usize,
}

impl<'a> Lines<'a> {
    /// The next line: from `tail` through the next newline, or to the end of the
    /// text; `None` once the text is used up.
    pub fn next(&mut self) -> (r: Option<Vec<u8>>)
        requires
            old(self).tail <= old(self).head,
            old(self).head == gap_contents(*old(self).buffer).len() + 1,
        ensures
            final(self).buffer == old(self).buffer,
            final(self).head == old(self).head,
            final(self).tail <= final(self).head,
            old(self).tail == old(self).head ==> r is None && final(self).tail == old(self).tail,
            old(self).tail < old(self).head ==> {
                let t = gap_contents(*old(self).buffer);
                let e = first_nl_from(t, old(self).tail as int);
                &&& final(self).tail == e + 1
                &&& r matches Some(v) && v@ == t.subrange(
                    old(self).tail as int,
                    if e + 1 == old(self).head {
                        e
                    } else {
                        e + 1
                    },
                )
            },
    {
        if self.tail == self.head {
            return None;
        }
        let ghost t = gap_contents(*self.buffer);
        let old_tail = self.tail;
        let mut i = old_tail;
        while i + 1 != self.head && gap_index(self.buffer, i) != 10
            invariant
                t == gap_contents(*self.buffer),
                self.head == t.len() + 1,
                old_tail <= i <= t.len(),
                first_nl_from(t, old_tail as int) == first_nl_from(t, i as int),
            decreases t.len() - i,
        {
            i = i + 1;
        }
        self.tail = i + 1;
        let stop = if self.tail == self.head {
            self.tail - 1
        } else {
            self.tail
        };
        let mut v: Vec<u8> = Vec::new();
        let mut j = old_tail;
        while j < stop
            invariant
                t == gap_contents(*self.buffer),
                old_tail <= j <= stop,
                stop <= t.len(),
                v@ == t.subrange(old_tail as int, j as int),
            decreases stop - j,
        {
            v.push(gap_index(self.buffer, j));
            j = j + 1;
            proof {
                assert(v@ =~= t.subrange(old_tail as int, j as int));
            }
        }
        Some(v)
    }

    /// An upper bound on the number of lines left: at least one, at most `head`.
    pub fn size_hint(&self) -> (r: (usize, Option<usize>))
        ensures
            r == (1usize, Some(self.head)),
    {
        (1, Some(self.head))
    }
}

} // verus!
