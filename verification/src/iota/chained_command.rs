//! Chained commands typed at the command prompt, such as `w`, `q`, `wq` or a
//! line number to jump to.

use vstd::prelude::*;
use vstd::std_specs::cmp::PartialEqSpec;
use vstd::string::StringSliceAdditionalSpecFns;

use super::command::{Action, BuilderArgs, Command, Instruction};
use super::buffer::Mark;
use super::textobject::{Anchor, Kind, Offset, TextObject};

verus! {

/// Current chainable commands
#[derive(Copy, Clone, PartialEq, Eq, Debug, Structural)]
pub enum ChainableCmds {
    Quit,
    Write,
}

/// Holds our chained command structure
pub struct ChainedCmdBuilder {
    quit: bool,
    save: bool,
    line_j: Option<usize>,
}

/// Parses our input
pub struct ChainedCmdParser<'a> {
    buffer: &'a [u8],
    len: usize,
    pos: usize,
    is_arg: bool,
}

/// The bytes of `quit`.
pub open spec fn quit_word() -> Seq<u8> {
    seq![113u8, 117u8, 105u8, 116u8]
}

/// The bytes of `write`.
pub open spec fn write_word() -> Seq<u8> {
    seq![119u8, 114u8, 105u8, 116u8, 101u8]
}

/// Where the parser stands after it looks for the long form `word` of a command
/// found at `pos`: the long form is skipped when the command opens the input;
/// `None` where the lookup fails (the input is long enough for `word` but `pos`
/// lies beyond it).
pub open spec fn cmd_skip(buf: Seq<u8>, len: int, pos: int, word: Seq<u8>) -> Option<int> {
    if len >= word.len() {
        if pos > word.len() {
            None
        } else if pos == 0 && buf.subrange(0, word.len() as int) == word {
            Some(word.len() - 1)
        } else {
            Some(pos)
        }
    } else {
        Some(pos)
    }
}

pub open spec fn is_digit_byte(b: u8) -> bool {
    48 <= b <= 57
}

pub open spec fn all_digits(s: Seq<u8>) -> bool {
    forall|i: int| 0 <= i < s.len() ==> is_digit_byte(#[trigger] s[i])
}

/// The number the decimal digits `s` write.
pub open spec fn digits_value(s: Seq<u8>) -> int
    decreases s.len(),
{
    if s.len() == 0 {
        0
    } else {
        digits_value(s.drop_last()) * 10 + (s.last() - 48)
    }
}

/// The state (quit, save, line) after parsing `buf` from `pos` on, with `len`
/// the last index; `None` where parsing fails: an unknown byte (the parser stops
/// making progress there), a line number that is not all digits to the end or
/// does not fit a `usize`, or a failed lookup of a long command name.
pub open spec fn parse_from(buf: Seq<u8>, len: int, pos: int, quit: bool, save: bool, line: Option<usize>) -> Option<(bool, bool, Option<usize>)>
    decreases len + 1 - pos,
{
    if pos > len || pos < 0 {
        Some((quit, save, line))
    } else if buf[pos] == 113 {
        if pos < len {
            match cmd_skip(buf, len, pos, quit_word()) {
                Some(np) => if np >= pos {
                    parse_from(buf, len, np + 1, true, save, line)
                } else {
                    None
                },
                None => None,
            }
        } else {
            parse_from(buf, len, pos + 1, true, save, line)
        }
    } else if buf[pos] == 119 {
        if pos < len {
            match cmd_skip(buf, len, pos, write_word()) {
                Some(np) => if np >= pos {
                    parse_from(buf, len, np + 1, quit, true, line)
                } else {
                    None
                },
                None => None,
            }
        } else {
            parse_from(buf, len, pos + 1, quit, true, line)
        }
    } else if is_digit_byte(buf[pos]) {
        let rest = buf.subrange(pos, len + 1);
        if all_digits(rest) && digits_value(rest) <= usize::MAX {
            Some((quit, save, Some(digits_value(rest) as usize)))
        } else {
            None
        }
    } else if buf[pos] == 32 {
        parse_from(buf, len, pos + 1, quit, save, line)
    } else {
        None
    }
}

/// The index of the first space at or after `pos`, or `len` when there is none.
pub open spec fn first_space_or_end(buf: Seq<u8>, len: int, pos: int) -> int
    decreases len - pos,
{
    if pos >= len || buf[pos] == 32 {
        pos
    } else {
        first_space_or_end(buf, len, pos + 1)
    }
}

proof fn lemma_digits_no_space(buf: Seq<u8>, len: int, pos: int)
    requires
        0 <= pos <= len < buf.len(),
        all_digits(buf.subrange(pos, len + 1)),
    ensures
        first_space_or_end(buf, len, pos) == len,
    decreases len - pos,
{
    assert(buf.subrange(pos, len + 1)[0] == buf[pos]);
    if pos < len {
        assert forall|i: int| 0 <= i < buf.subrange(pos + 1, len + 1).len() implies is_digit_byte(
            #[trigger] buf.subrange(pos + 1, len + 1)[i],
        ) by {
            assert(buf.subrange(pos + 1, len + 1)[i] == buf.subrange(pos, len + 1)[i + 1]);
        }
        lemma_digits_no_space(buf, len, pos + 1);
    }
}

proof fn lemma_digits_prefix(s: Seq<u8>, i: int)
    requires
        all_digits(s),
        0 <= i <= s.len(),
    ensures
        0 <= digits_value(s.take(i)) <= digits_value(s),
    decreases s.len(),
{
    if i == s.len() {
        assert(s.take(i) =~= s);
        lemma_digits_nonneg(s);
    } else {
        lemma_digits_prefix(s.drop_last(), i);
        assert(s.drop_last().take(i) =~= s.take(i));
        lemma_digits_nonneg(s.drop_last());
    }
}

proof fn lemma_digits_nonneg(s: Seq<u8>)
    requires
        all_digits(s),
    ensures
        digits_value(s) >= 0,
    decreases s.len(),
{
    if s.len() > 0 {
        lemma_digits_nonneg(s.drop_last());
    }
}

/// The number written by the digits `buf[start..stop)`.
fn parse_digits(buf: &[u8], start: usize, stop: usize) -> (r: usize)
    requires
        start <= stop <= buf@.len(),
        all_digits(buf@.subrange(start as int, stop as int)),
        digits_value(buf@.subrange(start as int, stop as int)) <= usize::MAX,
    ensures
        r == digits_value(buf@.subrange(start as int, stop as int)),
{
    let ghost s = buf@.subrange(start as int, stop as int);
    let mut value: usize = 0;
    let mut i = start;
    while i < stop
        invariant
            start <= i <= stop <= buf@.len(),
            s == buf@.subrange(start as int, stop as int),
            all_digits(s),
            digits_value(s) <= usize::MAX,
            value == digits_value(s.take(i - start)),
        decreases stop - i,
    {
        proof {
            lemma_digits_prefix(s, i - start + 1);
            assert(s.take(i - start + 1).drop_last() =~= s.take(i - start));
            assert(s[i - start] == buf@[i as int]);
        }
        value = value * 10 + (buf[i] - 48) as usize;
        i = i + 1;
    }
    proof {
        assert(s.take(stop - start) =~= s);
    }
    value
}

/// A safe version of memcmp: the two slices hold equal elements.
fn memeq<T: PartialEq>(a: &[T], b: &[T]) -> (r: bool)
    ensures
        T::obeys_eq_spec() ==> (r <==> a@.len() == b@.len() && forall|i: int|
            0 <= i < a@.len() ==> (#[trigger] a@[i]).eq_spec(&b@[i])),
{
    if a.len() != b.len() {
        return false;
    }
    let mut i: usize = 0;
    while i < a.len()
        invariant
            a@.len() == b@.len(),
            i <= a@.len(),
            T::obeys_eq_spec() ==> forall|j: int| 0 <= j < i ==> (#[trigger] a@[j]).eq_spec(&b@[j]),
        decreases a@.len() - i,
    {
        if a[i] != b[i] {
            return false;
        }
        i = i + 1;
    }
    true
}

impl ChainedCmdBuilder {
    /// The commands asked for so far: quit, save, and a line to go to.
    pub closed spec fn state(&self) -> (bool, bool, Option<usize>) {
        (self.quit, self.save, self.line_j)
    }

    pub fn new() -> (r: ChainedCmdBuilder)
        ensures
            r.state() == (false, false, None::<usize>),
    {
        ChainedCmdBuilder { quit: false, save: false, line_j: None }
    }

    /// Parses a chainable command
    pub fn parse(&mut self, cmd: &str) -> (r: Vec<Command>)
        requires
            cmd.spec_bytes().len() >= 1,
            parse_from(
                cmd.spec_bytes(),
                cmd.spec_bytes().len() - 1,
                0,
                old(self).state().0,
                old(self).state().1,
                old(self).state().2,
            ) is Some,
        ensures
            final(self).state() == parse_from(
                cmd.spec_bytes(),
                cmd.spec_bytes().len() - 1,
                0,
                old(self).state().0,
                old(self).state().1,
                old(self).state().2,
            )->0,
            built_commands(final(self).state(), r@),
    {
        let mut parser = ChainedCmdParser::new(cmd);
        let ghost buf = cmd.spec_bytes();
        let ghost len = buf.len() - 1;
        let ghost target = parse_from(buf, len, 0, self.quit, self.save, self.line_j);
        while parser.pos <= parser.len
            invariant
                parser.buffer@ == buf,
                parser.len == len,
                buf.len() == len + 1,
                target is Some,
                target == parse_from(buf, len, parser.pos as int, self.quit, self.save, self.line_j),
            decreases len + 1 - parser.pos,
        {
            let b = parser.buffer[parser.pos];
            if b == 113 {
                // our command is quit
                self.quit = true;
                if parser.pos < parser.len {
                    parser.cmd(ChainableCmds::Quit);
                }
            } else if b == 119 {
                // Our command is write
                self.save = true;
                if parser.pos < parser.len {
                    parser.cmd(ChainableCmds::Write);
                }
            } else if 48 <= b && b <= 57 {
                let ghost p0 = parser.pos as int;
                proof {
                    lemma_digits_no_space(buf, len, p0);
                }
                let (start, stop) = parser.arg();
                let line_j = parse_digits(parser.buffer, start, stop + 1);
                // This should always be set
                self.line_j = Some(line_j);
            } else if b == 32 {
                // Arg is coming, this will be useful in the future
                parser.is_arg = true;
            } else {
                proof {
                    assert(false);
                }
            }
            parser.is_arg = false;
            parser.pos = parser.pos + 1;
        }
        self.build_commands()
    }

    /// Builds our final vec of commands
    fn build_commands(&mut self) -> (r: Vec<Command>)
        ensures
            final(self).state() == old(self).state(),
            built_commands(old(self).state(), r@),
    {
        let mut res: Vec<Command> = Vec::new();
        if let Some(line) = self.line_j {
            res.push(
                Command::move_cursor(
                    Some(BuilderArgs::new().with_kind(Kind::Line(Anchor::Start)).with_offset(Offset::Absolute(line))),
                ),
            );
        }
        if self.save {
            res.push(Command::save_buffer(None));
        }
        if self.quit {
            res.push(Command::exit_editor(None));
        }
        if res.len() == 0 {
            res.push(Command::noop(None));
        }
        res
    }
}

/// The commands built from the state (quit, save, line): a move to the start of
/// the line, a save, an exit, in this order and each where asked for, or a
/// single command that does nothing when none was.
pub open spec fn built_commands(st: (bool, bool, Option<usize>), r: Seq<Command>) -> bool {
    let (quit, save, line) = st;
    let i_save: int = if line is Some { 1 } else { 0 };
    let i_quit: int = i_save + if save { 1int } else { 0 };
    let n: int = i_quit + if quit { 1int } else { 0 };
    &&& r.len() == (if n == 0 { 1 } else { n })
    &&& line matches Some(l) ==> r[0].number == 1 && r[0].action == Action::Instruction(
        Instruction::SetMark(Mark::Cursor(0)),
    ) && r[0].object == Some(TextObject { kind: Kind::Line(Anchor::Start), offset: Offset::Absolute(l) })
    &&& save ==> r[i_save] == plain_command(Instruction::SaveBuffer)
    &&& quit ==> r[i_quit] == plain_command(Instruction::ExitEditor)
    &&& n == 0 ==> r[0] == plain_command(Instruction::Nothing)
}

/// The command that runs `i` with the number 0 and no object.
pub open spec fn plain_command(i: Instruction) -> Command {
    Command { number: 0, action: Action::Instruction(i), object: None }
}

impl<'a> ChainedCmdParser<'a> {
    /// The bytes being parsed, the last index, and the position reached.
    pub closed spec fn parser_view(&self) -> (Seq<u8>, usize, usize) {
        (self.buffer@, self.len, self.pos)
    }

    /// Whether an argument is being read.
    pub closed spec fn reading_arg(&self) -> bool {
        self.is_arg
    }

    pub fn new(cmd: &'a str) -> (r: ChainedCmdParser<'a>)
        requires
            cmd.spec_bytes().len() >= 1,
        ensures
            r.parser_view().0 == cmd.spec_bytes(),
            r.parser_view().1 + 1 == cmd.spec_bytes().len(),
            r.parser_view().2 == 0,
            !r.reading_arg(),
    {
        let buffer = cmd.as_bytes();
        ChainedCmdParser { buffer, len: buffer.len() - 1, pos: 0, is_arg: false }
    }

    // This is a little hokey, but basically checks if
    // our command is long and moves our position
    fn cmd(&mut self, cmd: ChainableCmds)
        requires
            old(self).pos < old(self).len,
            old(self).buffer@.len() == old(self).len + 1,
            cmd_skip(
                old(self).buffer@,
                old(self).len as int,
                old(self).pos as int,
                if cmd == ChainableCmds::Quit { quit_word() } else { write_word() },
            ) is Some,
        ensures
            final(self).buffer == old(self).buffer,
            final(self).len == old(self).len,
            final(self).is_arg == old(self).is_arg,
            final(self).pos == cmd_skip(
                old(self).buffer@,
                old(self).len as int,
                old(self).pos as int,
                if cmd == ChainableCmds::Quit { quit_word() } else { write_word() },
            )->0,
    {
        let l_cmd: Vec<u8> = match cmd {
            ChainableCmds::Quit => vec![113u8, 117u8, 105u8, 116u8],
            ChainableCmds::Write => vec![119u8, 114u8, 105u8, 116u8, 101u8],
        };
        let ghost word = l_cmd@;
        proof {
            if cmd == ChainableCmds::Quit {
                assert(word =~= quit_word());
            } else {
                assert(word =~= write_word());
            }
        }
        if self.len >= l_cmd.len() {
            let mut sub: Vec<u8> = Vec::new();
            let mut i = self.pos;
            while i < l_cmd.len()
                invariant
                    self.pos <= l_cmd@.len(),
                    self.pos <= i <= l_cmd@.len(),
                    l_cmd@.len() <= self.len < self.buffer@.len(),
                    sub@ == self.buffer@.subrange(self.pos as int, i as int),
                decreases l_cmd@.len() - i,
            {
                sub.push(self.buffer[i]);
                i = i + 1;
                proof {
                    assert(sub@ =~= self.buffer@.subrange(self.pos as int, i as int));
                }
            }
            if memeq(sub.as_slice(), l_cmd.as_slice()) {
                proof {
                    assert(sub@ =~= word);
                    assert(self.pos == 0);
                }
                self.pos = self.pos + l_cmd.len() - 1;
            } else {
                proof {
                    if self.pos == 0 {
                        assert(sub@ != word);
                        assert(self.buffer@.subrange(0, word.len() as int) == sub@);
                    }
                }
            }
        }
    }

    // Parses an arg from a chainable command: from the position up to the next
    // space, or to the end; returns where it starts and where it stops.
    fn arg(&mut self) -> (r: (usize, usize))
        requires
            old(self).pos <= old(self).len,
            old(self).buffer@.len() == old(self).len + 1,
        ensures
            final(self).buffer == old(self).buffer,
            final(self).len == old(self).len,
            final(self).is_arg == old(self).is_arg,
            r.0 == old(self).pos,
            r.1 == final(self).pos,
            final(self).pos == first_space_or_end(old(self).buffer@, old(self).len as int, old(self).pos as int),
    {
        let start = self.pos;
        while self.buffer[self.pos] != 32
            invariant
                start <= self.pos <= self.len,
                self.buffer@.len() == self.len + 1,
                self.buffer == old(self).buffer,
                self.len == old(self).len,
                self.is_arg == old(self).is_arg,
                start == old(self).pos,
                first_space_or_end(self.buffer@, self.len as int, start as int) == first_space_or_end(
                    self.buffer@,
                    self.len as int,
                    self.pos as int,
                ),
            ensures
                self.pos == first_space_or_end(self.buffer@, self.len as int, start as int),
                start <= self.pos <= self.len,
                self.buffer == old(self).buffer,
                self.len == old(self).len,
                self.is_arg == old(self).is_arg,
            decreases self.len - self.pos,
        {
            if self.pos + 1 > self.len {
                break;
            }
            self.pos = self.pos + 1;
        }
        (start, self.pos)
    }
}

} // verus!
