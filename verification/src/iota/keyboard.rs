//! Keys, as the editor sees them, and how terminal key codes map onto them.

use vstd::prelude::*;

verus! {

/// A key press.
#[derive(Copy, Clone, PartialEq, Eq, Hash, Debug, Structural)]
pub enum Key {
    Tab,
    Enter,
    Esc,
    Backspace,
    Right,
    Left,
    Down,
    Up,
    Delete,
    Home,
    End,
    CtrlLeft,
    CtrlRight,
    CtrlUp,
    CtrlDown,
    Char(char),
    Ctrl(char),
}

/// The key that a special terminal key code stands for.
pub open spec fn spec_from_special_code(code: u16) -> Option<Key> {
    if code == 1 {
        Some(Key::Ctrl('a'))
    } else if code == 2 {
        Some(Key::Ctrl('b'))
    } else if code == 3 {
        Some(Key::Ctrl('c'))
    } else if code == 4 {
        Some(Key::Ctrl('d'))
    } else if code == 5 {
        Some(Key::Ctrl('e'))
    } else if code == 6 {
        Some(Key::Ctrl('f'))
    } else if code == 7 {
        Some(Key::Ctrl('g'))
    } else if code == 8 {
        Some(Key::Ctrl('h'))
    } else if code == 9 {
        Some(Key::Tab)
    } else if code == 13 {
        Some(Key::Enter)
    } else if code == 14 {
        Some(Key::Ctrl('n'))
    } else if code == 16 {
        Some(Key::Ctrl('p'))
    } else if code == 17 {
        Some(Key::Ctrl('q'))
    } else if code == 18 {
        Some(Key::Ctrl('r'))
    } else if code == 19 {
        Some(Key::Ctrl('s'))
    } else if code == 20 {
        Some(Key::Ctrl('t'))
    } else if code == 21 {
        Some(Key::Ctrl('u'))
    } else if code == 22 {
        Some(Key::Ctrl('v'))
    } else if code == 23 {
        Some(Key::Ctrl('w'))
    } else if code == 24 {
        Some(Key::Ctrl('x'))
    } else if code == 25 {
        Some(Key::Ctrl('y'))
    } else if code == 26 {
        Some(Key::Ctrl('z'))
    } else if code == 27 {
        Some(Key::Esc)
    } else if code == 32 {
        Some(Key::Char(' '))
    } else if code == 127 {
        Some(Key::Backspace)
    } else if code == 65514 {
        Some(Key::Right)
    } else if code == 65515 {
        Some(Key::Left)
    } else if code == 65516 {
        Some(Key::Down)
    } else if code == 65517 {
        Some(Key::Up)
    } else if code == 65520 {
        Some(Key::End)
    } else if code == 65521 {
        Some(Key::Home)
    } else if code == 65522 {
        Some(Key::Delete)
    } else {
        None
    }
}

/// The terminal's key code for a key, as the terminal library (termbox)
/// defines its key constants: the special keys count down from `0xffff`, the
/// Ctrl letters are the control bytes, and Tab, Enter, Esc, space and
/// Backspace are their ASCII codes.
pub open spec fn terminal_code(k: Key) -> Option<u16> {
    match k {
        Key::Right => Some((0xffff - 21) as u16),
        Key::Left => Some((0xffff - 20) as u16),
        Key::Down => Some((0xffff - 19) as u16),
        Key::Up => Some((0xffff - 18) as u16),
        Key::End => Some((0xffff - 15) as u16),
        Key::Home => Some((0xffff - 14) as u16),
        Key::Delete => Some((0xffff - 13) as u16),
        Key::Tab => Some(0x09),
        Key::Enter => Some(0x0d),
        Key::Esc => Some(0x1b),
        Key::Backspace => Some(0x7f),
        Key::Char(' ') => Some(0x20),
        Key::Ctrl(c) => if ('a' <= c <= 'h') || c == 'n' || ('p' <= c <= 'z') {
            Some((c as u32 - 0x60) as u16)
        } else {
            None
        },
        _ => None,
    }
}

/// Each key the terminal has a code for decodes from that code: the code of
/// the down arrow gives `Down`, that of the up arrow `Up`, and so on.
pub proof fn law_special_codes_decode_to_their_keys(k: Key)
    requires
        terminal_code(k) is Some,
    ensures
        spec_from_special_code(terminal_code(k)->0) == Some(k),
{
}

/// The escape sequences that name the Ctrl-arrow keys.
pub open spec fn spec_chord_key(chord: Seq<char>) -> Option<Key> {
    if chord == seq!['\x1b', '[', '1', ';', '5', 'A'] {
        Some(Key::CtrlUp)
    } else if chord == seq!['\x1b', '[', '1', ';', '5', 'B'] {
        Some(Key::CtrlDown)
    } else if chord == seq!['\x1b', '[', '1', ';', '5', 'C'] {
        Some(Key::CtrlRight)
    } else if chord == seq!['\x1b', '[', '1', ';', '5', 'D'] {
        Some(Key::CtrlLeft)
    } else {
        None
    }
}

/// A valid Unicode scalar value.
pub open spec fn is_scalar_value(ch: u32) -> bool {
    ch <= 0x10ffff && !(0xd800 <= ch <= 0xdfff)
}

/// `char::from_u32`: the char with the given code, if the code is a Unicode scalar value.
#[verifier::external_body]
pub(crate) fn char_from_u32(ch: u32) -> (r: Option<char>)
    ensures
        r is Some <==> is_scalar_value(ch),
        r matches Some(c) ==> c as u32 == ch,
{
    std::char::from_u32(ch)
}

fn chord_is(chord: &Vec<char>, last: char) -> (r: bool)
    ensures
        r == (chord@ == seq!['\x1b', '[', '1', ';', '5', last]),
{
    let r = chord.len() == 6 && chord[0] == '\x1b' && chord[1] == '[' && chord[2] == '1' && chord[3] == ';'
        && chord[4] == '5' && chord[5] == last;
    proof {
        if r {
            assert(chord@ =~= seq!['\x1b', '[', '1', ';', '5', last]);
        }
    }
    r
}

impl Key {
    /// The key a special terminal key code stands for, if any.
    pub fn from_special_code(code: u16) -> (r: Option<Key>)
        ensures
            r == spec_from_special_code(code),
    {
        match code {
            1 => Some(Key::Ctrl('a')),
            2 => Some(Key::Ctrl('b')),
            3 => Some(Key::Ctrl('c')),
            4 => Some(Key::Ctrl('d')),
            5 => Some(Key::Ctrl('e')),
            6 => Some(Key::Ctrl('f')),
            7 => Some(Key::Ctrl('g')),
            8 => Some(Key::Ctrl('h')),
            9 => Some(Key::Tab),
            13 => Some(Key::Enter),
            14 => Some(Key::Ctrl('n')),
            16 => Some(Key::Ctrl('p')),
            17 => Some(Key::Ctrl('q')),
            18 => Some(Key::Ctrl('r')),
            19 => Some(Key::Ctrl('s')),
            20 => Some(Key::Ctrl('t')),
            21 => Some(Key::Ctrl('u')),
            22 => Some(Key::Ctrl('v')),
            23 => Some(Key::Ctrl('w')),
            24 => Some(Key::Ctrl('x')),
            25 => Some(Key::Ctrl('y')),
            26 => Some(Key::Ctrl('z')),
            27 => Some(Key::Esc),
            32 => Some(Key::Char(' ')),
            127 => Some(Key::Backspace),
            65514 => Some(Key::Right),
            65515 => Some(Key::Left),
            65516 => Some(Key::Down),
            65517 => Some(Key::Up),
            65520 => Some(Key::End),
            65521 => Some(Key::Home),
            65522 => Some(Key::Delete),
            _ => None,
        }
    }

    /// The key for an escape chord (the chars read after a key code `start`):
    /// a Ctrl-arrow key for its escape sequence, else the key of the code itself.
    pub fn from_chord_chars(chord: &Vec<char>, start: u16) -> (r: Option<Key>)
        ensures
            r == (match spec_chord_key(chord@) {
                Some(k) => Some(k),
                None => spec_from_special_code(start),
            }),
    {
        if chord_is(chord, 'A') {
            Some(Key::CtrlUp)
        } else if chord_is(chord, 'B') {
            Some(Key::CtrlDown)
        } else if chord_is(chord, 'C') {
            Some(Key::CtrlRight)
        } else if chord_is(chord, 'D') {
            Some(Key::CtrlLeft)
        } else {
            Key::from_special_code(start)
        }
    }

    /// The key for a raw terminal key event: code 0 carries a char, code 0x1b
    /// starts an escape chord (whose chars are `chord`), any other code is special.
    pub fn from_event_parts(k: u16, ch: u32, chord: &Vec<char>) -> (r: Option<Key>)
        ensures
            k == 0 ==> (r is Some <==> is_scalar_value(ch)) && (r matches Some(key) ==> key
                matches Key::Char(c) && c as u32 == ch),
            k == 0x1b ==> r == (match spec_chord_key(chord@) {
                Some(key) => Some(key),
                None => spec_from_special_code(k),
            }),
            k != 0 && k != 0x1b ==> r == spec_from_special_code(k),
    {
        if k == 0 {
            match char_from_u32(ch) {
                Some(c) => Some(Key::Char(c)),
                None => None,
            }
        } else if k == 0x1b {
            Key::from_chord_chars(chord, 0x1b)
        } else {
            Key::from_special_code(k)
        }
    }
}

} // verus!
