//! Emacs mode uses Emacs-like keybindings.

use vstd::prelude::*;

use super::super::command::BuilderEvent;
use super::super::keyboard::Key;
use super::super::keymap::{
    bound, children, key_code, key_step, law_bound_lookup, lemma_bind_other_key, lemma_pair_bind_keeps, lemma_same_first_child,
    spec_lookup_key, spec_lookup_keys, KeyMap, KeyMapState, Trie,
};
use super::{info, insert_char_info, is_insert_char_info, leaf_is, Mode};

verus! {

/// The bindings of emacs mode, key by key and sequence by sequence.
pub open spec fn emacs_keymap_ok(km: KeyMap) -> bool {
    let root = km.root_view();
    &&& leaf_is(spec_lookup_keys(root, seq![Key::Ctrl('x'), Key::Ctrl('c')]), "editor::exit"@, None)
    &&& leaf_is(spec_lookup_keys(root, seq![Key::Ctrl('x'), Key::Ctrl('s')]), "editor::save_buffer"@, None)
    &&& leaf_is(spec_lookup_keys(root, seq![Key::Ctrl('x'), Key::Ctrl('b')]), "editor::switch_to_last_buffer"@, None)
    &&& emacs_single_keys_ok(root)
    &&& spec_lookup_key(root, Key::Ctrl('x')) matches Some(t) && t is Node
        && children(t).dom() == set![key_code(Key::Ctrl('c')), key_code(Key::Ctrl('s')), key_code(Key::Ctrl('b'))]
    &&& children(root).dom() == emacs_single_codes().insert(key_code(Key::Ctrl('x')))
}

/// The codes of the keys that emacs mode binds on their own.
pub open spec fn emacs_single_codes() -> Set<u64> {
    set![
        key_code(Key::Up),
        key_code(Key::Down),
        key_code(Key::Left),
        key_code(Key::Right),
        key_code(Key::Ctrl('p')),
        key_code(Key::Ctrl('n')),
        key_code(Key::Ctrl('f')),
        key_code(Key::Ctrl('b')),
        key_code(Key::Ctrl('e')),
        key_code(Key::Ctrl('a')),
        key_code(Key::Tab),
        key_code(Key::Enter),
        key_code(Key::Backspace),
        key_code(Key::Delete),
        key_code(Key::Ctrl('h')),
        key_code(Key::Ctrl('d')),
    ]
}

/// The single-key bindings of emacs mode.
pub open spec fn emacs_single_keys_ok(root: Trie) -> bool {
    &&& leaf_is(spec_lookup_key(root, Key::Up), "buffer::move_cursor_backward_line"@, None)
    &&& leaf_is(spec_lookup_key(root, Key::Down), "buffer::move_cursor_forward_line"@, None)
    &&& leaf_is(spec_lookup_key(root, Key::Left), "buffer::move_cursor_backward_char"@, None)
    &&& leaf_is(spec_lookup_key(root, Key::Right), "buffer::move_cursor_forward_char"@, None)
    &&& leaf_is(spec_lookup_key(root, Key::Ctrl('p')), "buffer::move_cursor_backward_line"@, None)
    &&& leaf_is(spec_lookup_key(root, Key::Ctrl('n')), "buffer::move_cursor_forward_line"@, None)
    &&& leaf_is(spec_lookup_key(root, Key::Ctrl('f')), "buffer::move_cursor_forward_char"@, None)
    &&& leaf_is(spec_lookup_key(root, Key::Ctrl('b')), "buffer::move_cursor_backward_char"@, None)
    &&& leaf_is(spec_lookup_key(root, Key::Ctrl('e')), "buffer::move_cursor_line_end"@, None)
    &&& leaf_is(spec_lookup_key(root, Key::Ctrl('a')), "buffer::move_cursor_line_start"@, None)
    &&& leaf_is(spec_lookup_key(root, Key::Tab), "buffer::insert_tab"@, None)
    &&& leaf_is(spec_lookup_key(root, Key::Enter), "buffer::insert_newline"@, None)
    &&& leaf_is(spec_lookup_key(root, Key::Backspace), "buffer::delete_backward_char"@, None)
    &&& leaf_is(spec_lookup_key(root, Key::Delete), "buffer::delete_forward_char"@, None)
    &&& leaf_is(spec_lookup_key(root, Key::Ctrl('h')), "buffer::delete_backward_char"@, None)
    &&& leaf_is(spec_lookup_key(root, Key::Ctrl('d')), "buffer::delete_forward_char"@, None)
}

/// In emacs mode the moving keys go their way: Right and Ctrl-f one char
/// forward, Left and Ctrl-b one char backward, Down and Ctrl-n one line
/// forward, Up and Ctrl-p one line backward.
pub proof fn law_emacs_moves_go_their_way(km: KeyMap)
    requires
        emacs_keymap_ok(km),
    ensures
        ({
            let root = km.root_view();
            &&& leaf_is(spec_lookup_key(root, Key::Right), "buffer::move_cursor_forward_char"@, None)
            &&& leaf_is(spec_lookup_key(root, Key::Ctrl('f')), "buffer::move_cursor_forward_char"@, None)
            &&& leaf_is(spec_lookup_key(root, Key::Left), "buffer::move_cursor_backward_char"@, None)
            &&& leaf_is(spec_lookup_key(root, Key::Ctrl('b')), "buffer::move_cursor_backward_char"@, None)
            &&& leaf_is(spec_lookup_key(root, Key::Down), "buffer::move_cursor_forward_line"@, None)
            &&& leaf_is(spec_lookup_key(root, Key::Ctrl('n')), "buffer::move_cursor_forward_line"@, None)
            &&& leaf_is(spec_lookup_key(root, Key::Up), "buffer::move_cursor_backward_line"@, None)
            &&& leaf_is(spec_lookup_key(root, Key::Ctrl('p')), "buffer::move_cursor_backward_line"@, None)
        }),
{
}

fn bind_single_keys(keymap: &mut KeyMap)
    requires
        old(keymap).root_view() is Node,
    ensures
        emacs_single_keys_ok(final(keymap).root_view()),
        spec_lookup_key(final(keymap).root_view(), Key::Ctrl('x')) == spec_lookup_key(old(keymap).root_view(), Key::Ctrl('x')),
        children(final(keymap).root_view()).dom() == children(old(keymap).root_view()).dom() + emacs_single_codes(),
        final(keymap).path_view() == old(keymap).path_view(),
{
    let ghost r0 = keymap.root_view();
    // Cursor movement
    keymap.bind_key(Key::Up, info("buffer::move_cursor_backward_line", None));
    keymap.bind_key(Key::Down, info("buffer::move_cursor_forward_line", None));
    keymap.bind_key(Key::Left, info("buffer::move_cursor_backward_char", None));
    keymap.bind_key(Key::Right, info("buffer::move_cursor_forward_char", None));
    keymap.bind_key(Key::Ctrl('p'), info("buffer::move_cursor_backward_line", None));
    keymap.bind_key(Key::Ctrl('n'), info("buffer::move_cursor_forward_line", None));
    keymap.bind_key(Key::Ctrl('f'), info("buffer::move_cursor_forward_char", None));
    keymap.bind_key(Key::Ctrl('b'), info("buffer::move_cursor_backward_char", None));
    keymap.bind_key(Key::Ctrl('e'), info("buffer::move_cursor_line_end", None));
    keymap.bind_key(Key::Ctrl('a'), info("buffer::move_cursor_line_start", None));
    // Editing
    keymap.bind_key(Key::Tab, info("buffer::insert_tab", None));
    keymap.bind_key(Key::Enter, info("buffer::insert_newline", None));
    keymap.bind_key(Key::Backspace, info("buffer::delete_backward_char", None));
    keymap.bind_key(Key::Delete, info("buffer::delete_forward_char", None));
    keymap.bind_key(Key::Ctrl('h'), info("buffer::delete_backward_char", None));
    keymap.bind_key(Key::Ctrl('d'), info("buffer::delete_forward_char", None));
    proof {
        assert(children(keymap.root_view()).dom() =~= children(r0).dom() + emacs_single_codes());
    }
}

/// Emacs mode uses Emacs-like keybindings.
pub struct EmacsMode {
    keymap: KeyMap,
    match_in_progress: bool,
}

impl EmacsMode {
    /// The key map of the mode.
    pub closed spec fn keymap_view(&self) -> KeyMap {
        self.keymap
    }

    /// Whether the last key started a key sequence that is not complete yet.
    pub closed spec fn in_progress(&self) -> bool {
        self.match_in_progress
    }

    /// Create a new instance of EmacsMode
    pub fn new() -> (r: EmacsMode)
        ensures
            emacs_keymap_ok(r.keymap_view()),
            r.keymap_view().path_view() == Seq::<Key>::empty(),
            !r.in_progress(),
    {
        EmacsMode { keymap: EmacsMode::key_defaults(), match_in_progress: false }
    }

    /// Creates a KeyMap with default EmacsMode key bindings
    fn key_defaults() -> (keymap: KeyMap)
        ensures
            emacs_keymap_ok(keymap),
            keymap.path_view() == Seq::<Key>::empty(),
    {
        let mut keymap = KeyMap::new();
        let ghost xc = seq![Key::Ctrl('x'), Key::Ctrl('c')];
        let ghost xs = seq![Key::Ctrl('x'), Key::Ctrl('s')];
        let ghost xb = seq![Key::Ctrl('x'), Key::Ctrl('b')];
        // Editor Commands
        let exit_keys = vec![Key::Ctrl('x'), Key::Ctrl('c')];
        let ghost r0 = keymap.root_view();
        let exit_info = info("editor::exit", None);
        let ghost v1 = exit_info;
        keymap.bind_keys(exit_keys.as_slice(), exit_info);
        let ghost r1 = keymap.root_view();
        proof {
            assert(exit_keys@ =~= xc);
            law_bound_lookup(r0, r1, xc, v1, 2);
            assert(xc.take(2) =~= xc);
            law_bound_lookup(r0, r1, xc, v1, 1);
            assert(xc.take(1) =~= seq![Key::Ctrl('x')]);
        }
        let save_keys = vec![Key::Ctrl('x'), Key::Ctrl('s')];
        let save_info = info("editor::save_buffer", None);
        let ghost v2 = save_info;
        keymap.bind_keys(save_keys.as_slice(), save_info);
        let ghost r2 = keymap.root_view();
        proof {
            assert(save_keys@ =~= xs);
            lemma_pair_bind_keeps(r1, r2, xs, v2, xc);
            law_bound_lookup(r1, r2, xs, v2, 2);
            assert(xs.take(2) =~= xs);
            law_bound_lookup(r1, r2, xs, v2, 1);
            assert(xs.take(1) =~= seq![Key::Ctrl('x')]);
        }
        bind_single_keys(&mut keymap);
        let ghost r3 = keymap.root_view();
        proof {
            lemma_same_first_child(r2, r3, xc);
            lemma_same_first_child(r2, r3, xs);
        }
        let switch_keys = vec![Key::Ctrl('x'), Key::Ctrl('b')];
        let switch_info = info("editor::switch_to_last_buffer", None);
        let ghost v4 = switch_info;
        keymap.bind_keys(switch_keys.as_slice(), switch_info);
        let ghost r4 = keymap.root_view();
        proof {
            assert(switch_keys@ =~= xb);
            lemma_pair_bind_keeps(r3, r4, xb, v4, xc);
            lemma_pair_bind_keeps(r3, r4, xb, v4, xs);
            law_bound_lookup(r3, r4, xb, v4, 2);
            assert(xb.take(2) =~= xb);
            lemma_bind_other_key(r3, r4, xb, v4, Key::Up);
            lemma_bind_other_key(r3, r4, xb, v4, Key::Down);
            lemma_bind_other_key(r3, r4, xb, v4, Key::Left);
            lemma_bind_other_key(r3, r4, xb, v4, Key::Right);
            lemma_bind_other_key(r3, r4, xb, v4, Key::Ctrl('p'));
            lemma_bind_other_key(r3, r4, xb, v4, Key::Ctrl('n'));
            lemma_bind_other_key(r3, r4, xb, v4, Key::Ctrl('f'));
            lemma_bind_other_key(r3, r4, xb, v4, Key::Ctrl('b'));
            lemma_bind_other_key(r3, r4, xb, v4, Key::Ctrl('e'));
            lemma_bind_other_key(r3, r4, xb, v4, Key::Ctrl('a'));
            lemma_bind_other_key(r3, r4, xb, v4, Key::Tab);
            lemma_bind_other_key(r3, r4, xb, v4, Key::Enter);
            lemma_bind_other_key(r3, r4, xb, v4, Key::Backspace);
            lemma_bind_other_key(r3, r4, xb, v4, Key::Delete);
            lemma_bind_other_key(r3, r4, xb, v4, Key::Ctrl('h'));
            lemma_bind_other_key(r3, r4, xb, v4, Key::Ctrl('d'));
            let cx = key_code(Key::Ctrl('x'));
            assert(children(r2).dom() =~= set![cx]);
            assert(children(r4).dom() =~= emacs_single_codes().insert(cx));
            assert(children(children(r1)[cx]).dom() =~= set![key_code(Key::Ctrl('c'))]);
            assert(xs.drop_first() =~= seq![Key::Ctrl('s')]);
            assert(xb.drop_first() =~= seq![Key::Ctrl('b')]);
            assert(children(r1).contains_key(cx));
            assert(bound(children(r1)[cx], children(r2)[cx], xs.drop_first(), v2));
            assert(children(r3)[cx] == children(r2)[cx]);
            assert(children(r3).contains_key(cx));
            assert(bound(children(r3)[cx], children(r4)[cx], xb.drop_first(), v4));
            assert(children(children(r2)[cx]).dom() =~= set![key_code(Key::Ctrl('c')), key_code(Key::Ctrl('s'))]);
            assert(children(children(r4)[cx]).dom() =~= set![key_code(Key::Ctrl('c')), key_code(Key::Ctrl('s')), key_code(Key::Ctrl('b'))]);
        }
        keymap
    }

    /// Checks a Key against the internal keymap: a match completes its command,
    /// a partial match sets `match_in_progress` so that the next key goes to the
    /// key map too, anything else is incomplete.
    fn check_key(&mut self, key: Key) -> (r: BuilderEvent)
        ensures
            emacs_key_step(*old(self), *final(self), key, r),
    {
        let res = self.keymap.check_key(key);
        let ghost s = res;
        let r = match res {
            KeyMapState::Match(c) => {
                self.match_in_progress = false;
                BuilderEvent::Complete(c)
            },
            KeyMapState::Continue => {
                self.match_in_progress = true;
                BuilderEvent::Incomplete
            },
            KeyMapState::NoMatch => {
                self.match_in_progress = false;
                BuilderEvent::Incomplete
            },
        };
        proof {
            assert(key_step(old(self).keymap_view(), self.keymap_view(), key, s));
        }
        r
    }
}

/// What checking `key` against the key map of the mode does.
/// What emacs mode does with `key`: in the middle of a key sequence, or for a
/// key that is not a char, the key map decides; otherwise the char is typed
/// and the mode stays as it is.
pub open spec fn emacs_handles(before: EmacsMode, after: EmacsMode, key: Key, r: BuilderEvent) -> bool {
    &&& before.in_progress() || !(key is Char) ==> emacs_key_step(before, after, key, r)
    &&& !before.in_progress() && key is Char ==> (r matches BuilderEvent::Complete(i) && is_insert_char_info(
        i,
        key->Char_0,
    )) && after == before
}

pub open spec fn emacs_key_step(before: EmacsMode, after: EmacsMode, key: Key, r: BuilderEvent) -> bool {
    exists|s: KeyMapState|
        {
            &&& #[trigger] key_step(before.keymap_view(), after.keymap_view(), key, s)
            &&& match s {
                KeyMapState::Match(c) => r == BuilderEvent::Complete(c) && !after.in_progress(),
                KeyMapState::Continue => r is Incomplete && after.in_progress(),
                KeyMapState::NoMatch => r is Incomplete && !after.in_progress(),
            }
        }
}

impl Mode for EmacsMode {
    /// Every key is taken.
    open spec fn accepts(&self, key: Key) -> bool {
        true
    }

    /// Given a key, pass it through the EmacsMode KeyMap and return the associated Command, if any.
    /// If no match is found, treat it as an InsertChar command.
    fn handle_key_event(&mut self, key: Key) -> (r: BuilderEvent)
        ensures
            emacs_handles(*old(self), *final(self), key, r),
    {
        if self.match_in_progress {
            return self.check_key(key);
        }
        if let Key::Char(c) = key {
            BuilderEvent::Complete(insert_char_info(c))
        } else {
            self.check_key(key)
        }
    }
}

impl Default for EmacsMode {
    fn default() -> (r: Self)
        ensures
            emacs_keymap_ok(r.keymap_view()),
            r.keymap_view().path_view() == Seq::<Key>::empty(),
            !r.in_progress(),
    {
        Self::new()
    }
}

} // verus!
