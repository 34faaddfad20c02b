//! Lexers that split source text into tokens for highlighting.

use vstd::prelude::*;

use super::utils::data_from_str;

pub mod lexer;
mod python;
mod rust;

/// The lexers of the languages that are known.
pub mod langs;

verus! {

/// The char at `pos` of `chars` with its index, if there is one.
pub open spec fn spec_peek(chars: Seq<char>, pos: int) -> Option<(usize, char)> {
    if 0 <= pos < chars.len() {
        Some((pos as usize, chars[pos]))
    } else {
        None
    }
}

/// A stream over the chars of a text that can look one char ahead; each char
/// comes with its index in the text.
pub struct CharStream {
    /// The chars of the text.
    pub chars: Vec<char>,
    /// The index of the next char to come.
    pub pos: usize,
}

impl CharStream {
    /// The next char has an index within the text, or the stream is at its end.
    pub open spec fn wf(&self) -> bool {
        self.pos <= self.chars@.len()
    }

    /// A stream at the first char of `text`.
    pub fn new(text: &str) -> (r: CharStream)
        ensures
            r.chars@ == text@,
            r.pos == 0,
            r.wf(),
    {
        CharStream { chars: data_from_str(text), pos: 0 }
    }

    /// The next char and its index, without moving past it.
    pub fn peek(&self) -> (r: Option<(usize, char)>)
        requires
            self.wf(),
        ensures
            r == spec_peek(self.chars@, self.pos as int),
    {
        if self.pos < self.chars.len() {
            Some((self.pos, self.chars[self.pos]))
        } else {
            None
        }
    }

    /// The next char and its index; the stream moves past it.
    pub fn next(&mut self) -> (r: Option<(usize, char)>)
        requires
            old(self).wf(),
        ensures
            r == spec_peek(old(self).chars@, old(self).pos as int),
            final(self).chars@ == old(self).chars@,
            final(self).pos == (if r is Some { old(self).pos + 1 } else { old(self).pos as int }),
            final(self).wf(),
    {
        if self.pos < self.chars.len() {
            let c = self.chars[self.pos];
            let i = self.pos;
            self.pos = self.pos + 1;
            Some((i, c))
        } else {
            None
        }
    }
}

/// Whether the next char of the stream is `ch`.
pub fn next_is(iter: &CharStream, ch: char) -> (r: bool)
    requires
        iter.wf(),
    ensures
        r == (iter.pos < iter.chars@.len() && iter.chars@[iter.pos as int] == ch),
{
    if let Some((_, c)) = iter.peek() {
        if c == ch {
            true
        } else {
            false
        }
    } else {
        false
    }
}

/// The index of the first newline at or after `pos`, or the end of the text.
pub open spec fn line_end(chars: Seq<char>, pos: int) -> int
    decreases chars.len() - pos,
{
    if pos < 0 || pos >= chars.len() {
        chars.len() as int
    } else if chars[pos] == '\n' {
        pos
    } else {
        line_end(chars, pos + 1)
    }
}

/// `line_end` lies between `pos` and the end of the text, and no newline comes before it.
pub proof fn lemma_line_end(chars: Seq<char>, pos: int)
    requires
        0 <= pos <= chars.len(),
    ensures
        pos <= line_end(chars, pos) <= chars.len(),
        forall|i: int| pos <= i < line_end(chars, pos) ==> chars[i] != '\n',
        line_end(chars, pos) < chars.len() ==> chars[line_end(chars, pos)] == '\n',
    decreases chars.len() - pos,
{
    if pos < chars.len() && chars[pos] != '\n' {
        lemma_line_end(chars, pos + 1);
    }
}

/// A prefix followed by the chars of a text from `start` to `p`, with the
/// char at `p` pushed, runs from `start` to `p + 1`.
pub proof fn lemma_push_next(prefix: Seq<char>, chars: Seq<char>, start: int, p: int)
    requires
        0 <= start <= p < chars.len(),
    ensures
        (prefix + chars.subrange(start, p)).push(chars[p]) == prefix + chars.subrange(start, p + 1),
{
    assert((prefix + chars.subrange(start, p)).push(chars[p]) =~= prefix + chars.subrange(start, p + 1));
}

/// Pushes the chars of the stream up to the next newline (or the end) onto `s`.
pub fn take_rest_of_line(iter: &mut CharStream, s: &mut String)
    requires
        old(iter).wf(),
    ensures
        final(iter).wf(),
        final(iter).chars@ == old(iter).chars@,
        final(iter).pos == line_end(old(iter).chars@, old(iter).pos as int),
        final(s)@ == old(s)@ + old(iter).chars@.subrange(
            old(iter).pos as int,
            line_end(old(iter).chars@, old(iter).pos as int),
        ),
{
    let ghost start = iter.pos as int;
    let ghost chars = iter.chars@;
    proof {
        lemma_line_end(chars, start);
    }
    while iter.pos < iter.chars.len() && iter.chars[iter.pos] != '\n'
        invariant
            iter.wf(),
            iter.chars@ == chars,
            0 <= start <= iter.pos <= line_end(chars, start),
            line_end(chars, iter.pos as int) == line_end(chars, start),
            s@ == old(s)@ + chars.subrange(start, iter.pos as int),
        decreases iter.chars@.len() - iter.pos,
    {
        let c = iter.chars[iter.pos];
        let ghost p = iter.pos as int;
        iter.pos = iter.pos + 1;
        super::utils::string_push(s, c);
        proof {
            assert(line_end(chars, p) == line_end(chars, p + 1));
            lemma_line_end(chars, p + 1);
            lemma_push_next(old(s)@, chars, start, p);
        }
    }
}

} // verus!
