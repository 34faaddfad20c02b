//! Keys read from the terminal, by their key codes.

use vstd::prelude::*;

verus! {

/// A key of the keyboard.
#[derive(Copy, Clone, Debug, PartialEq, Eq, Structural)]
pub enum Key {
    Unknown,
    Enter,
    CtrlQ,
    CtrlS,
    Esc,
    Space,
    Backspace,
    Right,
    Left,
    Down,
    Up,
    Delete,
}

/// The key code of a key.
pub open spec fn code_of(k: Key) -> u64 {
    match k {
        Key::Unknown => 0,
        Key::Enter => 13,
        Key::CtrlQ => 17,
        Key::CtrlS => 19,
        Key::Esc => 27,
        Key::Space => 32,
        Key::Backspace => 127,
        Key::Right => 65514,
        Key::Left => 65515,
        Key::Down => 65516,
        Key::Up => 65517,
        Key::Delete => 65522,
    }
}

/// The key that a key code stands for.
pub open spec fn key_of_code(n: u64) -> Option<Key> {
    if n == 0 {
        Some(Key::Unknown)
    } else if n == 13 {
        Some(Key::Enter)
    } else if n == 17 {
        Some(Key::CtrlQ)
    } else if n == 19 {
        Some(Key::CtrlS)
    } else if n == 27 {
        Some(Key::Esc)
    } else if n == 32 {
        Some(Key::Space)
    } else if n == 127 {
        Some(Key::Backspace)
    } else if n == 65514 {
        Some(Key::Right)
    } else if n == 65515 {
        Some(Key::Left)
    } else if n == 65516 {
        Some(Key::Down)
    } else if n == 65517 {
        Some(Key::Up)
    } else if n == 65522 {
        Some(Key::Delete)
    } else {
        None
    }
}

/// Every key is found again from its key code, and a code names a key only
/// when it is that key's code.
pub proof fn law_code_round_trip(k: Key, n: u64)
    ensures
        key_of_code(code_of(k)) == Some(k),
        key_of_code(n) == Some(k) ==> n == code_of(k),
{
}

impl Key {
    /// The key code of the key.
    pub fn code(&self) -> (r: u64)
        ensures
            r == code_of(*self),
    {
        match *self {
            Key::Unknown => 0,
            Key::Enter => 13,
            Key::CtrlQ => 17,
            Key::CtrlS => 19,
            Key::Esc => 27,
            Key::Space => 32,
            Key::Backspace => 127,
            Key::Right => 65514,
            Key::Left => 65515,
            Key::Down => 65516,
            Key::Up => 65517,
            Key::Delete => 65522,
        }
    }

    /// The key that a key code stands for.
    pub fn from_u64(n: u64) -> (r: Option<Key>)
        ensures
            r == key_of_code(n),
    {
        match n {
            0 => Some(Key::Unknown),
            13 => Some(Key::Enter),
            17 => Some(Key::CtrlQ),
            19 => Some(Key::CtrlS),
            27 => Some(Key::Esc),
            32 => Some(Key::Space),
            127 => Some(Key::Backspace),
            65514 => Some(Key::Right),
            65515 => Some(Key::Left),
            65516 => Some(Key::Down),
            65517 => Some(Key::Up),
            65522 => Some(Key::Delete),
            _ => None,
        }
    }

    /// The key that a key code stands for, the code taken as its 64 bits.
    pub fn from_i64(n: i64) -> (r: Option<Key>)
        ensures
            r == key_of_code(n as u64),
    {
        Key::from_u64(n as u64)
    }

    /// The key that a key code stands for, the code taken as its 64 bits.
    pub fn from_int(n: isize) -> (r: Option<Key>)
        ensures
            r == key_of_code(n as u64),
    {
        Key::from_u64(n as u64)
    }

    /// The key that a key code stands for.
    pub fn from_u16(n: u16) -> (r: Option<Key>)
        ensures
            r == key_of_code(n as u64),
    {
        Key::from_u64(n as u64)
    }
}

} // verus!
