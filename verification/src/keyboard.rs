//! Keys read from the terminal, by their key codes.

use vstd::prelude::*;

verus! {

/// A key of the keyboard.
#[derive(Copy, Clone, Debug, PartialEq, Eq, Structural)]
pub enum Key {
    Enter,
    Down,
}

/// The key that a key code stands for.
pub open spec fn key_of_code(n: u64) -> Option<Key> {
    if n == 13 {
        Some(Key::Enter)
    } else if n == 1073741905 {
        Some(Key::Down)
    } else {
        None
    }
}

impl Key {
    /// The key code of the key.
    pub fn code(&self) -> (r: u64)
        ensures
            key_of_code(r) == Some(*self),
    {
        match *self {
            Key::Enter => 13,
            Key::Down => 1073741905,
        }
    }

    /// The key that a key code stands for.
    pub fn from_u64(n: u64) -> (r: Option<Key>)
        ensures
            r == key_of_code(n),
    {
        match n {
            13 => Some(Key::Enter),
            1073741905 => Some(Key::Down),
            _ => None,
        }
    }

    /// The key that a key code stands for, the code taken as its 64 bits.
    pub fn from_i64(n: i64) -> (r: Option<Key>)
        ensures
            r == key_of_code(n as u64),
    {
        Key::from_u64(n as u64)
    }

    /// The key that a key code stands for, the code taken as its 64 bits.
    pub fn from_int(n: isize) -> (r: Option<Key>)
        ensures
            r == key_of_code(n as u64),
    {
        Key::from_u64(n as u64)
    }
}

/// Every key is found again from its key code.
pub proof fn law_code_round_trip(k: Key)
    ensures
        key_of_code(match k {
            Key::Enter => 13u64,
            Key::Down => 1073741905u64,
        }) == Some(k),
{
}

} // verus!
