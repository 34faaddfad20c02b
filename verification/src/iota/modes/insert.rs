//! `InsertMode` mimics Vi's Insert mode.

use vstd::prelude::*;

use super::super::command::{BuilderArgs, BuilderEvent};
use super::super::keyboard::Key;
use super::super::keymap::{children, key_code, key_step, spec_lookup_key, KeyMap, KeyMapState};
use super::{info, insert_char_info, is_insert_char_info, leaf_is, no_args, Mode, ModeType};

verus! {

/// The bindings of insert mode: Esc goes back to normal mode, and no other key
/// is bound.
pub open spec fn insert_keymap_ok(km: KeyMap) -> bool {
    &&& leaf_is(
        spec_lookup_key(km.root_view(), Key::Esc),
        "editor::set_mode"@,
        Some(BuilderArgs { mode_args: Some(ModeType::Normal), ..no_args() }),
    )
    &&& children(km.root_view()).dom() == set![key_code(Key::Esc)]
}

/// `InsertMode` mimics Vi's Insert mode.
pub struct InsertMode {
    keymap: KeyMap,
}

impl InsertMode {
    /// The key map of the mode.
    pub closed spec fn keymap_view(&self) -> KeyMap {
        self.keymap
    }

    /// Create a new instance of `InsertMode`
    pub fn new() -> (r: InsertMode)
        ensures
            insert_keymap_ok(r.keymap_view()),
            r.keymap_view().path_view() == Seq::<Key>::empty(),
    {
        InsertMode { keymap: InsertMode::key_defaults() }
    }

    /// Creates a `KeyMap` with default `InsertMode` key bindings
    fn key_defaults() -> (keymap: KeyMap)
        ensures
            insert_keymap_ok(keymap),
            keymap.path_view() == Seq::<Key>::empty(),
    {
        let mut keymap = KeyMap::new();
        keymap.bind_key(Key::Esc, info("editor::set_mode", Some(BuilderArgs::new().with_mode(ModeType::Normal))));
        proof {
            assert(children(keymap.root_view()).dom() =~= set![key_code(Key::Esc)]);
        }
        keymap
    }
}

/// What insert mode does with `key`: a char is typed and the mode stays as
/// it is; any other key goes through the key map.
pub open spec fn insert_handles(before: InsertMode, after: InsertMode, key: Key, r: BuilderEvent) -> bool {
    &&& key is Char ==> (r matches BuilderEvent::Complete(i) && is_insert_char_info(i, key->Char_0)) && after
        == before
    &&& !(key is Char) ==> exists|s: KeyMapState|
        {
            &&& #[trigger] key_step(before.keymap_view(), after.keymap_view(), key, s)
            &&& match s {
                KeyMapState::Match(c) => r == BuilderEvent::Complete(c),
                _ => r is Incomplete,
            }
        }
}

impl Mode for InsertMode {
    /// Every key is taken.
    open spec fn accepts(&self, key: Key) -> bool {
        true
    }

    /// A char is inserted; any other key goes through the key map.
    fn handle_key_event(&mut self, key: Key) -> (r: BuilderEvent)
        ensures
            insert_handles(*old(self), *final(self), key, r),
    {
        if let Key::Char(c) = key {
            BuilderEvent::Complete(insert_char_info(c))
        } else {
            let res = self.keymap.check_key(key);
            let ghost s = res;
            let r = if let KeyMapState::Match(c) = res {
                BuilderEvent::Complete(c)
            } else {
                BuilderEvent::Incomplete
            };
            proof {
                assert(key_step(old(self).keymap_view(), self.keymap_view(), key, s));
            }
            r
        }
    }
}

} // verus!
