//! A buffer of text kept as a list of lines, with the file it came from.

use vstd::prelude::*;

use crate::iota::utils::{
    chars_before, chars_before_offset, decimal, lemma_chars_before,
    push_decimal, string_push_str, utf8_size, utf8_size_of,
};

verus! {

/// A line of text. Its length counts the bytes of its UTF-8 encoding.
pub struct Line {
    pub data: Vec<char>,
}

impl Line {
    /// Create a new line instance
    pub fn new(data: Vec<char>) -> (r: Line)
        ensures
            r.data@ == data@,
    {
        Line { data: data }
    }

    /// Get the length of the current line: the number of bytes of its text.
    pub fn len(&self) -> (r: usize)
        requires
            utf8_size(self.data@) <= usize::MAX,
        ensures
            r == utf8_size(self.data@),
    {
        utf8_size_of(&self.data)
    }

    /// A copy of the line.
    pub fn duplicate(&self) -> (r: Line)
        ensures
            r.data@ == self.data@,
    {
        let mut data: Vec<char> = Vec::new();
        let mut i: usize = 0;
        while i < self.data.len()
            invariant
                i <= self.data@.len(),
                data@ == self.data@.take(i as int),
            decreases self.data@.len() - i,
        {
            data.push(self.data[i]);
            i = i + 1;
            proof {
                assert(data@ =~= self.data@.take(i as int));
            }
        }
        proof {
            assert(self.data@.take(self.data@.len() as int) =~= self.data@);
        }
        Line { data: data }
    }
}

/// The text of each of some lines.
pub open spec fn texts(lines: Seq<Line>) -> Seq<Seq<char>> {
    lines.map_values(|l: Line| l.data@)
}

/// The lines after `insert_line(offset, n)`: line `n` is cut at `offset`, and
/// what followed the cut becomes a new line below it.
pub open spec fn split_lines(lines: Seq<Seq<char>>, offset: int, n: int) -> Seq<Seq<char>> {
    lines.take(n) + seq![lines[n].take(offset), lines[n].skip(offset)] + lines.skip(n + 1)
}

/// The lines after `join_line_with_previous(_, n)`: line `n` is appended to
/// line `n - 1`, and removed.
pub open spec fn joined_lines(lines: Seq<Seq<char>>, n: int) -> Seq<Seq<char>> {
    lines.take(n - 1) + seq![lines[n - 1] + lines[n]] + lines.skip(n + 1)
}

/// A buffer of lines, with the path of the file it came from.
pub struct Buffer {
    pub file_path: String,
    pub lines: Vec<Line>,
}

impl Buffer {
    /// Create a new buffer instance
    pub fn new() -> (r: Buffer)
        ensures
            r.file_path@ == Seq::<char>::empty(),
            r.lines@.len() == 0,
    {
        Buffer { file_path: String::new(), lines: Vec::new() }
    }

    /// A buffer for the file at `path`, made from the file's lines as read
    /// with their line ends: each line loses its last char.
    pub fn new_from_file(path: &str, file_lines: Vec<Vec<char>>) -> (r: Buffer)
        ensures
            r.file_path@ == path@,
            r.lines@.len() == file_lines@.len(),
            forall|i: int|
                0 <= i < file_lines@.len() ==> #[trigger] r.lines@[i].data@ == (if file_lines@[i]@.len()
                    > 0 {
                    file_lines@[i]@.drop_last()
                } else {
                    file_lines@[i]@
                }),
    {
        let mut buffer = Buffer::new();
        buffer.file_path = path.to_string();
        let mut i: usize = 0;
        while i < file_lines.len()
            invariant
                i <= file_lines@.len(),
                buffer.file_path@ == path@,
                buffer.lines@.len() == i,
                forall|k: int|
                    0 <= k < i ==> #[trigger] buffer.lines@[k].data@ == (if file_lines@[k]@.len() > 0 {
                        file_lines@[k]@.drop_last()
                    } else {
                        file_lines@[k]@
                    }),
            decreases file_lines@.len() - i,
        {
            let mut data = Line::new(Vec::new());
            let mut j: usize = 0;
            let src = &file_lines[i];
            let stop = if src.len() > 0 {
                src.len() - 1
            } else {
                0
            };
            while j < stop
                invariant
                    j <= stop,
                    stop <= src@.len(),
                    data.data@ == src@.take(j as int),
                decreases stop - j,
            {
                data.data.push(src[j]);
                j = j + 1;
                proof {
                    assert(data.data@ =~= src@.take(j as int));
                }
            }
            proof {
                if src@.len() > 0 {
                    assert(src@.take(stop as int) =~= src@.drop_last());
                } else {
                    assert(src@.take(0) =~= src@);
                }
            }
            buffer.lines.push(data);
            i = i + 1;
        }
        buffer
    }

    /// The path of the file and how many lines there are.
    pub fn get_status_text(&self) -> (r: String)
        ensures
            r@ == self.file_path@ + ", lines: "@ + decimal(self.lines@.len()),
    {
        let mut s = self.file_path.clone();
        string_push_str(&mut s, ", lines: ");
        push_decimal(&mut s, self.lines.len());
        s
    }

    /// Splits line `line_num` at the byte offset `offset`, which falls between
    /// two chars: the line keeps what comes before the offset, and what comes
    /// after becomes a new line below it. Gives back the place of the start of
    /// the new line.
    pub fn insert_line(&mut self, offset: usize, line_num: usize) -> (r: (usize, usize))
        requires
            line_num < old(self).lines@.len(),
            utf8_size(old(self).lines@[line_num as int].data@) <= usize::MAX,
            chars_before(old(self).lines@[line_num as int].data@, offset as int) is Some,
        ensures
            texts(final(self).lines@) == split_lines(
                texts(old(self).lines@),
                chars_before(old(self).lines@[line_num as int].data@, offset as int)->0,
                line_num as int,
            ),
            final(self).file_path == old(self).file_path,
            r == (0usize, (line_num + 1) as usize),
    {
        let ghost t = texts(self.lines@);
        let at = match chars_before_offset(&self.lines[line_num].data, offset) {
            Some(k) => k,
            None => 0,
        };
        proof {
            lemma_chars_before(self.lines@[line_num as int].data@, offset as int, 0);
        }
        // split the current line at the cursor position
        let _total = self.lines.len();
        let bits = self.split_line(at, line_num);
        let line_num2 = line_num + 1;
        let ghost before = self.lines@;
        let first = Line::new(bits.0);
        let second = Line::new(bits.1);
        self.lines.set(line_num, first);
        self.lines.insert(line_num2, second);
        proof {
            assert(texts(self.lines@) =~= split_lines(t, at as int, line_num as int));
        }
        (0, line_num2)
    }

    /// Join the line identified by `line_num` with the one at `line_num - 1 `.
    /// Gives back where the joined text starts: at the old end of the line
    /// before, in bytes. When there is no line before, nothing changes.
    pub fn join_line_with_previous(&mut self, offset: usize, line_num: usize) -> (r: (usize, usize))
        requires
            line_num >= 1,
            line_num - 1 < old(self).lines@.len() ==> line_num < old(self).lines@.len() && utf8_size(
                old(self).lines@[line_num - 1].data@,
            ) <= usize::MAX,
        ensures
            final(self).file_path == old(self).file_path,
            line_num - 1 >= old(self).lines@.len() ==> texts(final(self).lines@) == texts(
                old(self).lines@,
            ) && r == (offset, line_num),
            line_num - 1 < old(self).lines@.len() ==> texts(final(self).lines@) == joined_lines(
                texts(old(self).lines@),
                line_num as int,
            ) && r == (utf8_size(old(self).lines@[line_num - 1].data@) as usize, (line_num - 1) as usize),
    {
        let ghost t = texts(self.lines@);
        if line_num - 1 >= self.lines.len() {
            return (offset, line_num);
        }
        let line_bytes = self.lines[line_num - 1].len();
        let line_len = self.lines[line_num - 1].data.len();
        let mut new_data: Vec<char> = Vec::new();
        let mut i: usize = 0;
        while i < line_len
            invariant
                self.lines@ == old(self).lines@,
                1 <= line_num < self.lines@.len(),
                line_len == self.lines@[line_num - 1].data@.len(),
                i <= line_len,
                new_data@ == self.lines@[line_num - 1].data@.take(i as int),
            decreases line_len - i,
        {
            new_data.push(self.lines[line_num - 1].data[i]);
            i = i + 1;
            proof {
                assert(new_data@ =~= self.lines@[line_num - 1].data@.take(i as int));
            }
        }
        let cur_len = self.lines[line_num].data.len();
        let mut j: usize = 0;
        while j < cur_len
            invariant
                self.lines@ == old(self).lines@,
                1 <= line_num < self.lines@.len(),
                line_len == self.lines@[line_num - 1].data@.len(),
                cur_len == self.lines@[line_num as int].data@.len(),
                j <= cur_len,
                new_data@ == self.lines@[line_num - 1].data@ + self.lines@[line_num as int].data@.take(
                    j as int,
                ),
            decreases cur_len - j,
        {
            new_data.push(self.lines[line_num].data[j]);
            j = j + 1;
            proof {
                assert(new_data@ =~= self.lines@[line_num - 1].data@ + self.lines@[line_num as int].data@.take(
                    j as int,
                ));
            }
        }
        proof {
            assert(self.lines@[line_num - 1].data@.take(line_len as int) =~= self.lines@[line_num
                - 1].data@);
            assert(self.lines@[line_num as int].data@.take(cur_len as int) =~= self.lines@[line_num as int].data@);
        }
        self.lines.set(line_num - 1, Line::new(new_data));
        let _ = self.lines.remove(line_num);
        proof {
            assert(texts(self.lines@) =~= joined_lines(t, line_num as int));
        }
        (line_bytes, line_num - 1)
    }

    /// The text of line `line_num`, cut at `offset`.
    fn split_line(&mut self, offset: usize, line_num: usize) -> (r: (Vec<char>, Vec<char>))
        requires
            line_num < old(self).lines@.len(),
            offset <= old(self).lines@[line_num as int].data@.len(),
        ensures
            *final(self) == *old(self),
            r.0@ == old(self).lines@[line_num as int].data@.take(offset as int),
            r.1@ == old(self).lines@[line_num as int].data@.skip(offset as int),
    {
        let line = self.get_line_at(line_num);
        let data = match line {
            Some(l) => &l.data,
            None => {
                return (Vec::new(), Vec::new());
            },
        };
        let mut old_data: Vec<char> = Vec::new();
        let mut new_data: Vec<char> = Vec::new();
        let mut i: usize = 0;
        while i < data.len()
            invariant
                data@ == old(self).lines@[line_num as int].data@,
                offset <= data@.len(),
                i <= data@.len(),
                old_data@ == data@.take(if i < offset { i as int } else { offset as int }),
                new_data@ == (if i <= offset { Seq::<char>::empty() } else { data@.subrange(offset as int, i as int) }),
            decreases data@.len() - i,
        {
            if i < offset {
                old_data.push(data[i]);
            } else {
                new_data.push(data[i]);
            }
            i = i + 1;
            proof {
                assert(old_data@ =~= data@.take(if i < offset { i as int } else { offset as int }));
                assert(new_data@ =~= (if i <= offset { Seq::<char>::empty() } else { data@.subrange(offset as int, i as int) }));
            }
        }
        proof {
            assert(new_data@ =~= data@.skip(offset as int));
        }
        (old_data, new_data)
    }

    /// The line at `line_num`, if there is one.
    fn get_line_at(&self, line_num: usize) -> (r: Option<&Line>)
        requires
            self.lines@.len() > 0,
        ensures
            line_num < self.lines@.len() ==> r == Some(&self.lines@[line_num as int]),
            line_num >= self.lines@.len() ==> r is None,
    {
        let num_lines = self.lines.len() - 1;
        if line_num > num_lines {
            return None;
        }
        Some(&self.lines[line_num])
    }
}

/// Joining the new line back onto the line it was split from, at a byte offset
/// that falls between two chars, gives back the lines there were, and the
/// split line ends at that byte offset.
pub proof fn law_join_undoes_split(lines: Seq<Seq<char>>, byte_offset: int, n: int)
    requires
        0 <= n < lines.len(),
        chars_before(lines[n], byte_offset) is Some,
    ensures
        joined_lines(split_lines(lines, chars_before(lines[n], byte_offset)->0, n), n + 1) == lines,
        utf8_size(split_lines(lines, chars_before(lines[n], byte_offset)->0, n)[n]) == byte_offset,
{
    let offset = chars_before(lines[n], byte_offset)->0;
    lemma_chars_before(lines[n], byte_offset, 0);
    let s = split_lines(lines, offset, n);
    assert(s[n] == lines[n].take(offset));
    assert(s[n + 1] == lines[n].skip(offset));
    assert(lines[n].take(offset) + lines[n].skip(offset) =~= lines[n]);
    assert(s.take(n) =~= lines.take(n));
    assert(s.skip(n + 2) =~= lines.skip(n + 1));
    assert(joined_lines(s, n + 1) =~= lines);
}

} // verus!
