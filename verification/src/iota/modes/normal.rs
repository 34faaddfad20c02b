//! `NormalMode` mimics Vi's Normal mode.

use vstd::prelude::*;

use super::super::buffer::Mark;
use super::super::command::{BuilderArgs, BuilderEvent};
use super::super::keyboard::Key;
use super::super::keymap::{
    children, key_code, key_step, spec_lookup_key, CommandInfo, KeyMap, KeyMapState,
};
use super::super::overlay::OverlayType;
use super::super::textobject::{Anchor, Kind, Offset};
use super::{info, leaf_is, motion_args, motion_of, no_args, Mode, ModeType};

verus! {

/// The bindings of normal mode, key by key.
pub open spec fn normal_keymap_ok(km: KeyMap) -> bool {
    let root = km.root_view();
    let c0 = Mark::Cursor(0);
    &&& leaf_is(spec_lookup_key(root, Key::Char('h')), "buffer::move_cursor"@, Some(motion_args(Kind::Char, Offset::Backward(1, c0))))
    &&& leaf_is(spec_lookup_key(root, Key::Char('j')), "buffer::move_cursor"@, Some(motion_args(Kind::Line(Anchor::Same), Offset::Forward(1, c0))))
    &&& leaf_is(spec_lookup_key(root, Key::Char('k')), "buffer::move_cursor"@, Some(motion_args(Kind::Line(Anchor::Same), Offset::Backward(1, c0))))
    &&& leaf_is(spec_lookup_key(root, Key::Char('l')), "buffer::move_cursor"@, Some(motion_args(Kind::Char, Offset::Forward(1, c0))))
    &&& leaf_is(spec_lookup_key(root, Key::Char('w')), "buffer::move_cursor"@, Some(motion_args(Kind::Word(Anchor::Start), Offset::Forward(1, c0))))
    &&& leaf_is(spec_lookup_key(root, Key::Char('b')), "buffer::move_cursor"@, Some(motion_args(Kind::Word(Anchor::Start), Offset::Backward(1, c0))))
    &&& leaf_is(spec_lookup_key(root, Key::Char('$')), "buffer::move_cursor"@, Some(motion_args(Kind::Line(Anchor::End), Offset::Forward(0, c0))))
    &&& leaf_is(spec_lookup_key(root, Key::Char('0')), "buffer::move_cursor"@, Some(motion_args(Kind::Line(Anchor::End), Offset::Backward(0, c0))))
    &&& leaf_is(spec_lookup_key(root, Key::Char('u')), "editor::undo"@, None)
    &&& leaf_is(spec_lookup_key(root, Key::Ctrl('r')), "editor::redo"@, None)
    &&& leaf_is(spec_lookup_key(root, Key::Char('i')), "editor::set_overlay"@, Some(BuilderArgs { overlay_args: Some(OverlayType::CommandPrompt), ..no_args() }))
    &&& children(root).dom() == normal_bound_codes()
}

/// The codes of the keys that normal mode binds: no other key is bound.
pub open spec fn normal_bound_codes() -> Set<u64> {
    set![
        key_code(Key::Char('h')),
        key_code(Key::Char('j')),
        key_code(Key::Char('k')),
        key_code(Key::Char('l')),
        key_code(Key::Char('w')),
        key_code(Key::Char('b')),
        key_code(Key::Char('$')),
        key_code(Key::Char('0')),
        key_code(Key::Char('u')),
        key_code(Key::Ctrl('r')),
        key_code(Key::Char('i')),
    ]
}

/// Normal mode moves as vi does: 'l' goes one char right (forward) and 'h'
/// one char left (backward); 'j' goes one line down (forward) and 'k' one line
/// up (backward), keeping the column. Each pair moves the cursor in opposite
/// directions by the same amount.
pub proof fn law_normal_motions_go_their_way(km: KeyMap)
    requires
        normal_keymap_ok(km),
    ensures
        ({
            let root = km.root_view();
            let c0 = Mark::Cursor(0);
            &&& motion_of(spec_lookup_key(root, Key::Char('l'))) == Some((Kind::Char, Offset::Forward(1, c0)))
            &&& motion_of(spec_lookup_key(root, Key::Char('h'))) == Some((Kind::Char, Offset::Backward(1, c0)))
            &&& motion_of(spec_lookup_key(root, Key::Char('j'))) == Some(
                (Kind::Line(Anchor::Same), Offset::Forward(1, c0)),
            )
            &&& motion_of(spec_lookup_key(root, Key::Char('k'))) == Some(
                (Kind::Line(Anchor::Same), Offset::Backward(1, c0)),
            )
        }),
{
}

/// The decimal digits.
pub open spec fn is_digit(c: char) -> bool {
    '0' <= c <= '9'
}

/// `NormalMode` mimics Vi's Normal mode.
pub struct NormalMode {
    keymap: KeyMap,
    number: Option<i32>,
    reading_number: bool,
}

impl NormalMode {
    /// The key map of the mode.
    pub closed spec fn keymap_view(&self) -> KeyMap {
        self.keymap
    }

    /// The repeat count typed so far, if any.
    pub closed spec fn number_view(&self) -> Option<i32> {
        self.number
    }

    /// Whether digits typed now extend the repeat count.
    pub closed spec fn reading_view(&self) -> bool {
        self.reading_number
    }

    /// Create a new instance of `NormalMode`
    pub fn new() -> (r: NormalMode)
        ensures
            normal_keymap_ok(r.keymap_view()),
            r.keymap_view().path_view() == Seq::<Key>::empty(),
            r.number_view() is None,
            !r.reading_view(),
    {
        NormalMode { keymap: NormalMode::key_defaults(), number: None, reading_number: false }
    }

    /// Whether the mode can take `key`: a digit is taken only while the repeat
    /// count it makes fits an `i32`.
    pub fn accepts_key(&self, key: Key) -> (r: bool)
        ensures
            r == self.accepts(key),
    {
        if let Key::Char(c) = key {
            if '0' <= c && c <= '9' && (self.reading_number || c != '0') {
                let n = (c as u32 - '0' as u32) as i64;
                return match self.number {
                    Some(cur) => cur >= 0 && (cur as i64) * 10 + n <= i32::MAX as i64,
                    None => true,
                };
            }
        }
        true
    }

    /// Creates a `KeyMap` with default `NormalMode` key bindings
    fn key_defaults() -> (keymap: KeyMap)
        ensures
            normal_keymap_ok(keymap),
            keymap.path_view() == Seq::<Key>::empty(),
    {
        let mut keymap = KeyMap::new();
        let c0 = Mark::Cursor(0);
        // movement
        keymap.bind_key(Key::Char('h'), info("buffer::move_cursor", Some(BuilderArgs::new().with_kind(Kind::Char).with_offset(Offset::Backward(1, c0)))));
        keymap.bind_key(Key::Char('j'), info("buffer::move_cursor", Some(BuilderArgs::new().with_kind(Kind::Line(Anchor::Same)).with_offset(Offset::Forward(1, c0)))));
        keymap.bind_key(Key::Char('k'), info("buffer::move_cursor", Some(BuilderArgs::new().with_kind(Kind::Line(Anchor::Same)).with_offset(Offset::Backward(1, c0)))));
        keymap.bind_key(Key::Char('l'), info("buffer::move_cursor", Some(BuilderArgs::new().with_kind(Kind::Char).with_offset(Offset::Forward(1, c0)))));
        keymap.bind_key(Key::Char('w'), info("buffer::move_cursor", Some(BuilderArgs::new().with_kind(Kind::Word(Anchor::Start)).with_offset(Offset::Forward(1, c0)))));
        keymap.bind_key(Key::Char('b'), info("buffer::move_cursor", Some(BuilderArgs::new().with_kind(Kind::Word(Anchor::Start)).with_offset(Offset::Backward(1, c0)))));
        keymap.bind_key(Key::Char('$'), info("buffer::move_cursor", Some(BuilderArgs::new().with_kind(Kind::Line(Anchor::End)).with_offset(Offset::Forward(0, c0)))));
        keymap.bind_key(Key::Char('0'), info("buffer::move_cursor", Some(BuilderArgs::new().with_kind(Kind::Line(Anchor::End)).with_offset(Offset::Backward(0, c0)))));
        // actions
        keymap.bind_key(Key::Char('u'), info("editor::undo", None));
        keymap.bind_key(Key::Ctrl('r'), info("editor::redo", None));
        keymap.bind_key(Key::Char('i'), info("editor::set_mode", Some(BuilderArgs::new().with_mode(ModeType::Insert))));
        keymap.bind_key(Key::Char('i'), info("editor::set_overlay", Some(BuilderArgs::new().with_overlay(OverlayType::CommandPrompt))));
        proof {
            assert(children(keymap.root_view()).dom() =~= normal_bound_codes());
        }
        keymap
    }
}

/// `key` is a digit that extends (or starts) the repeat count: '0' only does
/// while a count is being read, since it is bound on its own.
pub open spec fn extends_number(m: NormalMode, key: Key) -> bool {
    key matches Key::Char(c) && is_digit(c) && (m.reading_view() || c != '0')
}

/// The repeat count once the digit `c` is typed.
pub open spec fn next_number(n: Option<i32>, c: char) -> int {
    match n {
        Some(cur) => cur * 10 + (c as int - '0' as int),
        None => c as int - '0' as int,
    }
}

/// `c` with the repeat count `n` added to its arguments (a command without
/// arguments is kept as it is).
pub open spec fn with_count(c: CommandInfo, n: Option<i32>, out: CommandInfo) -> bool {
    match (n, c.args) {
        (Some(num), Some(a)) => out.command_name == c.command_name && out.args == Some(
            BuilderArgs { number: Some(num), ..a },
        ),
        _ => out == c,
    }
}

/// What normal mode does with `key`: a digit extends the repeat count;
/// other keys go through the key map, and a command found there carries the
/// count typed before it.
pub open spec fn normal_handles(before: NormalMode, after: NormalMode, key: Key, r: BuilderEvent) -> bool {
    &&& extends_number(before, key) ==> {
        &&& r is Incomplete
        &&& after.reading_view()
        &&& after.number_view() == Some(next_number(before.number_view(), key->Char_0) as i32)
        &&& after.keymap_view() == before.keymap_view()
    }
    &&& !extends_number(before, key) ==> {
        &&& after.reading_view() == (before.reading_view() && !(key is Char))
        &&& exists|s: KeyMapState|
            {
                &&& #[trigger] key_step(before.keymap_view(), after.keymap_view(), key, s)
                &&& match s {
                    KeyMapState::Match(c) => r matches BuilderEvent::Complete(out) && with_count(
                        c,
                        before.number_view(),
                        out,
                    ) && after.number_view() is None,
                    _ => r is Incomplete && after.number_view() == before.number_view(),
                }
            }
    }
}

impl Mode for NormalMode {
    /// A digit is taken only while the repeat count it makes fits an `i32`.
    open spec fn accepts(&self, key: Key) -> bool {
        extends_number(*self, key) ==> {
            &&& 0 <= next_number(self.number_view(), key->Char_0) <= i32::MAX
            &&& self.number_view() matches Some(cur) ==> cur >= 0
        }
    }

    /// Digits build up a repeat count; other keys go through the key map, and a
    /// command found there carries the count typed before it.
    fn handle_key_event(&mut self, key: Key) -> (r: BuilderEvent)
        ensures
            normal_handles(*old(self), *final(self), key, r),
    {
        if let Key::Char(c) = key {
            // '0' might be bound (start of line), and cannot be the start of a number sequence
            if '0' <= c && c <= '9' && (self.reading_number || c != '0') {
                let n = (c as u32 - '0' as u32) as i32;
                self.reading_number = true;
                if let Some(current) = self.number {
                    self.number = Some((current * 10) + n);
                } else {
                    self.number = Some(n);
                }
                return BuilderEvent::Incomplete;
            } else if self.reading_number {
                self.reading_number = false;
            }
        }
        let res = self.keymap.check_key(key);
        let ghost s = res;
        let r = match res {
            KeyMapState::Match(c) => {
                let mut c = c;
                if let Some(num) = self.number {
                    match c.args {
                        Some(args) => {
                            c.args = Some(args.with_number(num));
                        },
                        None => {},
                    }
                }
                self.number = None;
                BuilderEvent::Complete(c)
            },
            _ => BuilderEvent::Incomplete,
        };
        proof {
            assert(key_step(old(self).keymap_view(), self.keymap_view(), key, s));
        }
        r
    }
}

impl Default for NormalMode {
    fn default() -> (r: Self)
        ensures
            normal_keymap_ok(r.keymap_view()),
            r.keymap_view().path_view() == Seq::<Key>::empty(),
            r.number_view() is None,
            !r.reading_view(),
    {
        Self::new()
    }
}

} // verus!
