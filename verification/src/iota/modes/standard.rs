//! Standard mode is Iota's default mode.

use vstd::prelude::*;

use super::super::buffer::Mark;
use super::super::command::{BuilderArgs, BuilderEvent};
use super::super::keyboard::Key;
use super::super::keymap::{
    children, key_code, key_step, law_bound_lookup, lemma_same_first_child, spec_lookup_key,
    spec_lookup_keys, KeyMap, KeyMapState,
};
use super::super::textobject::{Anchor, Kind, Offset};
use super::{info, insert_char_info, is_insert_char_info, leaf_is, motion_args, motion_of, Mode};

verus! {

/// The bindings of standard mode, key by key.
pub open spec fn standard_keymap_ok(km: KeyMap) -> bool {
    let root = km.root_view();
    let c0 = Mark::Cursor(0);
    &&& leaf_is(spec_lookup_keys(root, seq![Key::Ctrl('q'), Key::Ctrl('c')]), "editor::quit"@, None)
    &&& spec_lookup_key(root, Key::Ctrl('q')) matches Some(t) && t is Node
        && children(t).dom() == set![key_code(Key::Ctrl('c'))]
    &&& children(root).dom() == standard_bound_codes()
    &&& leaf_is(spec_lookup_key(root, Key::Ctrl('s')), "editor::save_buffer"@, None)
    &&& leaf_is(spec_lookup_key(root, Key::Up), "buffer::move_cursor"@, Some(motion_args(Kind::Line(Anchor::Same), Offset::Backward(1, c0))))
    &&& leaf_is(spec_lookup_key(root, Key::Down), "buffer::move_cursor"@, Some(motion_args(Kind::Line(Anchor::Same), Offset::Forward(1, c0))))
    &&& leaf_is(spec_lookup_key(root, Key::Left), "buffer::move_cursor"@, Some(motion_args(Kind::Char, Offset::Backward(1, c0))))
    &&& leaf_is(spec_lookup_key(root, Key::Right), "buffer::move_cursor"@, Some(motion_args(Kind::Char, Offset::Forward(1, c0))))
    &&& leaf_is(spec_lookup_key(root, Key::CtrlRight), "buffer::move_cursor"@, Some(motion_args(Kind::Word(Anchor::Start), Offset::Forward(1, c0))))
    &&& leaf_is(spec_lookup_key(root, Key::CtrlLeft), "buffer::move_cursor"@, Some(motion_args(Kind::Word(Anchor::Start), Offset::Backward(1, c0))))
    &&& leaf_is(spec_lookup_key(root, Key::End), "buffer::move_cursor"@, Some(motion_args(Kind::Line(Anchor::End), Offset::Forward(0, c0))))
    &&& leaf_is(spec_lookup_key(root, Key::Home), "buffer::move_cursor"@, Some(motion_args(Kind::Line(Anchor::End), Offset::Backward(0, c0))))
    &&& leaf_is(spec_lookup_key(root, Key::Tab), "buffer::insert_tab"@, None)
    &&& leaf_is(spec_lookup_key(root, Key::Enter), "buffer::insert_char"@, Some(super::char_args('\n')))
    &&& leaf_is(spec_lookup_key(root, Key::Backspace), "buffer::delete_char"@, Some(motion_args(Kind::Char, Offset::Forward(1, c0))))
    &&& leaf_is(spec_lookup_key(root, Key::Ctrl('z')), "editor::undo"@, None)
    &&& leaf_is(spec_lookup_key(root, Key::Ctrl('r')), "editor::redo"@, None)
}

/// The codes of the first keys that standard mode binds: no other key starts a
/// binding.
pub open spec fn standard_bound_codes() -> Set<u64> {
    set![
        key_code(Key::Ctrl('q')),
        key_code(Key::Ctrl('s')),
        key_code(Key::Up),
        key_code(Key::Down),
        key_code(Key::Left),
        key_code(Key::Right),
        key_code(Key::CtrlRight),
        key_code(Key::CtrlLeft),
        key_code(Key::End),
        key_code(Key::Home),
        key_code(Key::Tab),
        key_code(Key::Enter),
        key_code(Key::Backspace),
        key_code(Key::Ctrl('z')),
        key_code(Key::Ctrl('r')),
    ]
}

/// In standard mode the arrow keys move the cursor their way: Right one char
/// forward and Left one char backward, Down one line forward and Up one line
/// backward, keeping the column.
pub proof fn law_standard_arrows_go_their_way(km: KeyMap)
    requires
        standard_keymap_ok(km),
    ensures
        ({
            let root = km.root_view();
            let c0 = Mark::Cursor(0);
            &&& motion_of(spec_lookup_key(root, Key::Right)) == Some((Kind::Char, Offset::Forward(1, c0)))
            &&& motion_of(spec_lookup_key(root, Key::Left)) == Some((Kind::Char, Offset::Backward(1, c0)))
            &&& motion_of(spec_lookup_key(root, Key::Down)) == Some(
                (Kind::Line(Anchor::Same), Offset::Forward(1, c0)),
            )
            &&& motion_of(spec_lookup_key(root, Key::Up)) == Some(
                (Kind::Line(Anchor::Same), Offset::Backward(1, c0)),
            )
        }),
{
}

/// Standard mode uses non-vi-like keybindings.
///
/// Standard mode allows Iota to be used in a non-modal way, similar to mainstream
/// editors like Atom or Sublime.
pub struct StandardMode {
    keymap: KeyMap,
    match_in_progress: bool,
}

impl StandardMode {
    /// The key map of the mode.
    pub closed spec fn keymap_view(&self) -> KeyMap {
        self.keymap
    }

    /// Whether the last key started a key sequence that is not complete yet.
    pub closed spec fn in_progress(&self) -> bool {
        self.match_in_progress
    }

    /// Create a new instance of StandardMode
    pub fn new() -> (r: StandardMode)
        ensures
            standard_keymap_ok(r.keymap_view()),
            r.keymap_view().path_view() == Seq::<Key>::empty(),
            !r.in_progress(),
    {
        StandardMode { keymap: StandardMode::key_defaults(), match_in_progress: false }
    }

    /// Creates a KeyMap with default StandardMode key bindings
    fn key_defaults() -> (keymap: KeyMap)
        ensures
            standard_keymap_ok(keymap),
            keymap.path_view() == Seq::<Key>::empty(),
    {
        let mut keymap = KeyMap::new();
        let c0 = Mark::Cursor(0);
        let ghost qc = seq![Key::Ctrl('q'), Key::Ctrl('c')];
        let ghost r0 = keymap.root_view();
        // Editor Commands
        let quit_keys = vec![Key::Ctrl('q'), Key::Ctrl('c')];
        let quit_info = info("editor::quit", None);
        let ghost v1 = quit_info;
        keymap.bind_keys(quit_keys.as_slice(), quit_info);
        let ghost r1 = keymap.root_view();
        proof {
            assert(quit_keys@ =~= qc);
            assert(qc.drop_first() =~= seq![Key::Ctrl('c')]);
            law_bound_lookup(r0, r1, qc, v1, 2);
            assert(qc.take(2) =~= qc);
        }
        keymap.bind_key(Key::Ctrl('s'), info("editor::save_buffer", None));
        // Cursor movement
        keymap.bind_key(Key::Up, info("buffer::move_cursor", Some(BuilderArgs::new().with_kind(Kind::Line(Anchor::Same)).with_offset(Offset::Backward(1, c0)))));
        keymap.bind_key(Key::Down, info("buffer::move_cursor", Some(BuilderArgs::new().with_kind(Kind::Line(Anchor::Same)).with_offset(Offset::Forward(1, c0)))));
        keymap.bind_key(Key::Left, info("buffer::move_cursor", Some(BuilderArgs::new().with_kind(Kind::Char).with_offset(Offset::Backward(1, c0)))));
        keymap.bind_key(Key::Right, info("buffer::move_cursor", Some(BuilderArgs::new().with_kind(Kind::Char).with_offset(Offset::Forward(1, c0)))));
        keymap.bind_key(Key::CtrlRight, info("buffer::move_cursor", Some(BuilderArgs::new().with_kind(Kind::Word(Anchor::Start)).with_offset(Offset::Forward(1, c0)))));
        keymap.bind_key(Key::CtrlLeft, info("buffer::move_cursor", Some(BuilderArgs::new().with_kind(Kind::Word(Anchor::Start)).with_offset(Offset::Backward(1, c0)))));
        keymap.bind_key(Key::End, info("buffer::move_cursor", Some(BuilderArgs::new().with_kind(Kind::Line(Anchor::End)).with_offset(Offset::Forward(0, c0)))));
        keymap.bind_key(Key::Home, info("buffer::move_cursor", Some(BuilderArgs::new().with_kind(Kind::Line(Anchor::End)).with_offset(Offset::Backward(0, c0)))));
        // Editing
        keymap.bind_key(Key::Tab, info("buffer::insert_tab", None));
        keymap.bind_key(Key::Enter, info("buffer::insert_char", Some(BuilderArgs::new().with_char_arg('\n'))));
        keymap.bind_key(Key::Backspace, info("buffer::delete_char", Some(BuilderArgs::new().with_kind(Kind::Char).with_offset(Offset::Backward(1, c0)))));
        keymap.bind_key(Key::Backspace, info("buffer::delete_char", Some(BuilderArgs::new().with_kind(Kind::Char).with_offset(Offset::Forward(1, c0)))));
        // History
        keymap.bind_key(Key::Ctrl('z'), info("editor::undo", None));
        keymap.bind_key(Key::Ctrl('r'), info("editor::redo", None));
        proof {
            let r = keymap.root_view();
            lemma_same_first_child(r1, r, qc);
            assert(children(r).dom() =~= standard_bound_codes());
        }
        keymap
    }

    /// Checks a Key against the internal keymap
    ///
    /// - If there is a direct match, return the completed BuilderEvent
    /// - If there is a partial match, set match_in_progress to true which
    ///   indicates that the next key should check against the keymap too,
    ///   rather than possibly being inserted into the buffer.
    /// - If there is no match of any kind, return Incomplete
    fn check_key(&mut self, key: Key) -> (r: BuilderEvent)
        ensures
            mode_key_step(*old(self), *final(self), key, r),
    {
        let res = self.keymap.check_key(key);
        let ghost s = res;
        let ghost km = self.keymap;
        let r = match res {
            KeyMapState::Match(c) => {
                self.match_in_progress = false;
                BuilderEvent::Complete(c)
            },
            KeyMapState::Continue => {
                self.match_in_progress = true;
                BuilderEvent::Incomplete
            },
            KeyMapState::NoMatch => {
                self.match_in_progress = false;
                BuilderEvent::Incomplete
            },
        };
        proof {
            assert(key_step(old(self).keymap_view(), self.keymap_view(), key, s));
        }
        r
    }
}

/// What checking `key` against the key map of the mode does: a binding reached
/// completes its command, a partial sequence puts the mode in progress.
pub open spec fn mode_key_step(before: StandardMode, after: StandardMode, key: Key, r: BuilderEvent) -> bool {
    exists|s: KeyMapState|
        {
            &&& #[trigger] key_step(before.keymap_view(), after.keymap_view(), key, s)
            &&& match s {
                KeyMapState::Match(c) => r == BuilderEvent::Complete(c) && !after.in_progress(),
                KeyMapState::Continue => r is Incomplete && after.in_progress(),
                KeyMapState::NoMatch => r is Incomplete && !after.in_progress(),
            }
        }
}

/// What standard mode does with `key`: in the middle of a key sequence, or
/// for a key that is not a char, the key map decides; otherwise the char is
/// typed and the mode stays as it is.
pub open spec fn standard_handles(before: StandardMode, after: StandardMode, key: Key, r: BuilderEvent) -> bool {
    &&& before.in_progress() || !(key is Char) ==> mode_key_step(before, after, key, r)
    &&& !before.in_progress() && key is Char ==> (r matches BuilderEvent::Complete(i) && is_insert_char_info(
        i,
        key->Char_0,
    )) && after == before
}

impl Mode for StandardMode {
    /// Every key is taken.
    open spec fn accepts(&self, key: Key) -> bool {
        true
    }

    /// Given a key, pass it through the StandardMode KeyMap and return the associated Command, if any.
    /// If no match is found, treat it as an InsertChar command.
    fn handle_key_event(&mut self, key: Key) -> (r: BuilderEvent)
        ensures
            standard_handles(*old(self), *final(self), key, r),
    {
        if self.match_in_progress {
            return self.check_key(key);
        }
        if let Key::Char(c) = key {
            BuilderEvent::Complete(insert_char_info(c))
        } else {
            self.check_key(key)
        }
    }
}

impl Default for StandardMode {
    fn default() -> (r: Self)
        ensures
            standard_keymap_ok(r.keymap_view()),
            r.keymap_view().path_view() == Seq::<Key>::empty(),
            !r.in_progress(),
    {
        Self::new()
    }
}

} // verus!
