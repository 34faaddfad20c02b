//! The concept of Iota's modes are taken from Vi.
//!
//! A mode is a mechanism for interpreting key events and converting them into
//! commands which the Editor will interpret.

use vstd::prelude::*;

use super::command::{BuilderArgs, BuilderEvent};
use super::keyboard::Key;
use super::keymap::{CommandInfo, Trie};
use super::textobject::{Kind, Offset};

pub mod emacs;
pub mod insert;
pub mod normal;
pub mod standard;

pub use self::emacs::EmacsMode;
pub use self::insert::InsertMode;
pub use self::normal::NormalMode;
pub use self::standard::StandardMode;

verus! {

/// The modes the editor can be switched to.
#[derive(Copy, Clone, PartialEq, Eq, Debug, Structural)]
pub enum ModeType {
    Insert,
    Normal,
}

/// Arguments with nothing set.
pub open spec fn no_args() -> BuilderArgs {
    BuilderArgs {
        char_args: None,
        number: None,
        str_args: None,
        mode_args: None,
        overlay_args: None,
        kind: None,
        offset: None,
    }
}

/// The arguments of a motion or deletion: a kind of object and an offset.
pub open spec fn motion_args(kind: Kind, offset: Offset) -> BuilderArgs {
    BuilderArgs { kind: Some(kind), offset: Some(offset), ..no_args() }
}

/// The arguments of an insertion of `c`.
pub open spec fn char_args(c: char) -> BuilderArgs {
    BuilderArgs { char_args: Some(c), ..no_args() }
}

/// `t` is a leaf binding the named command with the given arguments.
pub open spec fn leaf_is(t: Option<Trie>, name: Seq<char>, args: Option<BuilderArgs>) -> bool {
    t matches Some(Trie::Leaf(i)) && i.command_name@ == name && i.args == args
}

/// The kind and offset of the motion a key leads to, when it leads to a leaf
/// that moves the cursor.
pub open spec fn motion_of(t: Option<Trie>) -> Option<(Kind, Offset)> {
    match t {
        Some(Trie::Leaf(i)) => if i.command_name@ == "buffer::move_cursor"@ && (i.args matches Some(a)
            && a.kind is Some && a.offset is Some) {
            Some((i.args->0.kind->0, i.args->0.offset->0))
        } else {
            None
        },
        _ => None,
    }
}

/// The command that inserts the char `c`.
pub open spec fn is_insert_char_info(i: CommandInfo, c: char) -> bool {
    i.command_name@ == "buffer::insert_char"@ && i.args == Some(char_args(c))
}

/// A command info with the given name and arguments.
pub(crate) fn info(name: &str, args: Option<BuilderArgs>) -> (r: CommandInfo)
    ensures
        r.command_name@ == name@,
        r.args == args,
{
    CommandInfo { command_name: name.to_string(), args }
}

/// The command that inserts the char `c`.
pub(crate) fn insert_char_info(c: char) -> (r: CommandInfo)
    ensures
        is_insert_char_info(r, c),
{
    info("buffer::insert_char", Some(BuilderArgs::new().with_char_arg(c)))
}

/// A mode turns keys into commands for the Editor.
pub trait Mode {
    /// The mode can take `key` without failing.
    spec fn accepts(&self, key: Key) -> bool;

    /// Given a Key, return a Command for the Editor to interpret
    fn handle_key_event(&mut self, key: Key) -> BuilderEvent
        requires
            old(self).accepts(key),
    ;
}

} // verus!
