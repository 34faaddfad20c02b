//! Maps from sequences of keys to the commands they are bound to.

use std::collections::HashMap;

use vstd::prelude::*;

use super::command::BuilderArgs;
use super::keyboard::Key;

verus! {

broadcast use vstd::std_specs::hash::group_hash_axioms;

/// A command name with the arguments to build it from.
pub struct CommandInfo {
    pub command_name: String,
    pub args: Option<BuilderArgs>,
}

impl CommandInfo {
    /// `other` names the same command with the same arguments.
    pub open spec fn same_as(self, other: CommandInfo) -> bool {
        &&& self.command_name@ == other.command_name@
        &&& match (self.args, other.args) {
            (Some(a), Some(b)) => a.same_as(b),
            (None, None) => true,
            _ => false,
        }
    }

    /// A copy of this command info.
    pub fn duplicate(&self) -> (r: CommandInfo)
        ensures
            r.same_as(*self),
    {
        let args = match &self.args {
            Some(a) => Some(a.duplicate()),
            None => None,
        };
        CommandInfo { command_name: self.command_name.clone(), args }
    }
}

/// The code under which a trie node keeps the child for a key: distinct keys
/// have distinct codes.
pub open spec fn key_code(k: Key) -> u64 {
    match k {
        Key::Tab => 0,
        Key::Enter => 1,
        Key::Esc => 2,
        Key::Backspace => 3,
        Key::Right => 4,
        Key::Left => 5,
        Key::Down => 6,
        Key::Up => 7,
        Key::Delete => 8,
        Key::Home => 9,
        Key::End => 10,
        Key::CtrlLeft => 11,
        Key::CtrlRight => 12,
        Key::CtrlUp => 13,
        Key::CtrlDown => 14,
        Key::Char(c) => (16 + 2 * (c as int)) as u64,
        Key::Ctrl(c) => (17 + 2 * (c as int)) as u64,
    }
}

fn code_of(k: Key) -> (r: u64)
    ensures
        r == key_code(k),
{
    match k {
        Key::Tab => 0,
        Key::Enter => 1,
        Key::Esc => 2,
        Key::Backspace => 3,
        Key::Right => 4,
        Key::Left => 5,
        Key::Down => 6,
        Key::Up => 7,
        Key::Delete => 8,
        Key::Home => 9,
        Key::End => 10,
        Key::CtrlLeft => 11,
        Key::CtrlRight => 12,
        Key::CtrlUp => 13,
        Key::CtrlDown => 14,
        Key::Char(c) => 16 + 2 * (c as u32 as u64),
        Key::Ctrl(c) => 17 + 2 * (c as u32 as u64),
    }
}

/// Different keys have different codes.
pub proof fn lemma_key_code_injective(a: Key, b: Key)
    ensures
        key_code(a) == key_code(b) ==> a == b,
{
}

/// A trie of key sequences: a leaf holds the command a sequence is bound to.
pub enum Trie {
    Leaf(CommandInfo),
    Node(HashMap<u64, Trie>),
}

/// The children of a trie node, by key code (a leaf has none).
pub open spec fn children(t: Trie) -> Map<u64, Trie> {
    match t {
        Trie::Node(m) => m@,
        Trie::Leaf(_) => Map::empty(),
    }
}

/// The child of `t` for `key`.
pub open spec fn spec_lookup_key(t: Trie, key: Key) -> Option<Trie> {
    match t {
        Trie::Leaf(_) => None,
        Trie::Node(m) => if m@.contains_key(key_code(key)) {
            Some(m@[key_code(key)])
        } else {
            None
        },
    }
}

/// Following `keys` down from `t`: stops at the first leaf met, fails where a
/// key has no child.
pub open spec fn spec_lookup_keys(t: Trie, keys: Seq<Key>) -> Option<Trie>
    decreases keys.len(),
{
    if keys.len() == 0 {
        Some(t)
    } else {
        match spec_lookup_key(t, keys[0]) {
            Some(n) => if n is Leaf {
                Some(n)
            } else {
                spec_lookup_keys(n, keys.drop_first())
            },
            None => None,
        }
    }
}

/// `n` is what binding `keys` to `v` makes of an empty node.
pub open spec fn bound_fresh(n: Trie, keys: Seq<Key>, v: CommandInfo) -> bool
    decreases keys.len(),
{
    if keys.len() == 0 {
        n is Node && children(n) == Map::<u64, Trie>::empty()
    } else if keys.len() == 1 {
        n is Node && children(n) == Map::<u64, Trie>::empty().insert(key_code(keys[0]), Trie::Leaf(v))
    } else {
        let c = key_code(keys[0]);
        &&& n is Node
        &&& children(n).dom() == Set::<u64>::empty().insert(c)
        &&& bound_fresh(children(n)[c], keys.drop_first(), v)
    }
}

/// `n` is what binding `keys` to `v` makes of `o` (a leaf on the way is first
/// turned into an empty node; other children are kept).
pub open spec fn bound(o: Trie, n: Trie, keys: Seq<Key>, v: CommandInfo) -> bool
    decreases keys.len(),
{
    if keys.len() == 0 {
        n == o
    } else if keys.len() == 1 {
        n is Node && children(n) == children(o).insert(key_code(keys[0]), Trie::Leaf(v))
    } else {
        let c = key_code(keys[0]);
        &&& n is Node
        &&& children(n).contains_key(c)
        &&& children(n) == children(o).insert(c, children(n)[c])
        &&& if children(o).contains_key(c) {
            bound(children(o)[c], children(n)[c], keys.drop_first(), v)
        } else {
            bound_fresh(children(n)[c], keys.drop_first(), v)
        }
    }
}

proof fn lemma_bound_empty_is_fresh(o: Trie, n: Trie, keys: Seq<Key>, v: CommandInfo)
    requires
        o is Node,
        children(o) == Map::<u64, Trie>::empty(),
        bound(o, n, keys, v),
    ensures
        bound_fresh(n, keys, v),
    decreases keys.len(),
{
    if keys.len() > 1 {
        let c = key_code(keys[0]);
        assert(children(n).dom() =~= Set::<u64>::empty().insert(c));
    }
}

proof fn lemma_fresh_lookup(n: Trie, keys: Seq<Key>, v: CommandInfo, i: int)
    requires
        bound_fresh(n, keys, v),
        0 <= i <= keys.len(),
        keys.len() > 0,
    ensures
        i < keys.len() ==> (spec_lookup_keys(n, keys.take(i)) matches Some(t) && t is Node),
        i == keys.len() ==> spec_lookup_keys(n, keys.take(i)) == Some(Trie::Leaf(v)),
    decreases keys.len(),
{
    if i == 0 {
        assert(keys.take(0) =~= Seq::<Key>::empty());
    } else {
        let c = key_code(keys[0]);
        assert(keys.take(i)[0] == keys[0]);
        if keys.len() > 1 {
            lemma_fresh_lookup(children(n)[c], keys.drop_first(), v, i - 1);
            assert(keys.take(i).drop_first() =~= keys.drop_first().take(i - 1));
            assert(children(n).contains_key(c));
        }
    }
}

/// Once `keys` is bound to `v`, every proper prefix of `keys` leads to a node and
/// `keys` itself leads to the leaf holding `v`.
pub proof fn law_bound_lookup(o: Trie, n: Trie, keys: Seq<Key>, v: CommandInfo, i: int)
    requires
        bound(o, n, keys, v),
        0 <= i <= keys.len(),
        keys.len() > 0,
    ensures
        i < keys.len() ==> (spec_lookup_keys(n, keys.take(i)) matches Some(t) && t is Node),
        i == keys.len() ==> spec_lookup_keys(n, keys.take(i)) == Some(Trie::Leaf(v)),
    decreases keys.len(),
{
    if i == 0 {
        assert(keys.take(0) =~= Seq::<Key>::empty());
    } else {
        let c = key_code(keys[0]);
        assert(keys.take(i)[0] == keys[0]);
        if keys.len() > 1 {
            assert(keys.take(i).drop_first() =~= keys.drop_first().take(i - 1));
            if children(o).contains_key(c) {
                law_bound_lookup(children(o)[c], children(n)[c], keys.drop_first(), v, i - 1);
            } else {
                lemma_fresh_lookup(children(n)[c], keys.drop_first(), v, i - 1);
            }
        }
    }
}

/// Two tries with the same child for the first key of `keys` lead `keys` to
/// the same place.
pub proof fn lemma_same_first_child(o: Trie, n: Trie, keys: Seq<Key>)
    requires
        keys.len() > 0,
        spec_lookup_key(n, keys[0]) == spec_lookup_key(o, keys[0]),
    ensures
        spec_lookup_keys(n, keys) == spec_lookup_keys(o, keys),
{
}

/// Binding a key sequence leaves the child of any other first key as it was.
pub proof fn lemma_bind_other_key(o: Trie, n: Trie, keys: Seq<Key>, v: CommandInfo, k: Key)
    requires
        bound(o, n, keys, v),
        keys.len() > 0,
        k != keys[0],
    ensures
        spec_lookup_key(n, k) == spec_lookup_key(o, k),
{
    lemma_key_code_injective(k, keys[0]);
}

/// Binding a two-key sequence leaves another bound two-key sequence with the
/// same first key as it was.
pub proof fn lemma_pair_bind_keeps(o: Trie, n: Trie, keys: Seq<Key>, v: CommandInfo, other: Seq<Key>)
    requires
        bound(o, n, keys, v),
        keys.len() == 2,
        other.len() == 2,
        other[0] == keys[0],
        other[1] != keys[1],
        spec_lookup_key(o, keys[0]) matches Some(t) && t is Node,
    ensures
        spec_lookup_keys(n, other) == spec_lookup_keys(o, other),
{
    let c = key_code(keys[0]);
    lemma_key_code_injective(other[1], keys[1]);
    assert(keys.drop_first() =~= seq![keys[1]]);
    let rest = other.drop_first();
    assert(rest =~= seq![other[1]]);
    assert(rest.drop_first() =~= Seq::<Key>::empty());
    let so = children(o)[c];
    let sn = children(n)[c];
    assert(children(o).contains_key(c));
    assert(bound(so, sn, keys.drop_first(), v));
    assert(keys.drop_first()[0] == keys[1]);
    assert(key_code(other[1]) != key_code(keys[1]));
    assert(children(sn) == children(so).insert(key_code(keys[1]), Trie::Leaf(v)));
    assert(spec_lookup_key(sn, other[1]) == spec_lookup_key(so, other[1]));
    assert(spec_lookup_keys(sn, rest) == spec_lookup_keys(so, rest));
}

impl Trie {
    /// An empty node.
    pub fn new() -> (r: Trie)
        ensures
            r is Node,
            children(r) == Map::<u64, Trie>::empty(),
    {
        Trie::Node(HashMap::new())
    }

    /// The child for `key`, if any.
    pub fn lookup_key(&self, key: Key) -> (r: Option<&Trie>)
        ensures
            r == (match spec_lookup_key(*self, key) {
                Some(t) => Some(&t),
                None => None,
            }),
    {
        match self {
            Trie::Leaf(_) => None,
            Trie::Node(map) => map.get(&code_of(key)),
        }
    }

    /// Where following `keys` from this trie leads.
    pub fn lookup_keys(&self, keys: &[Key]) -> (r: Option<&Trie>)
        ensures
            r == (match spec_lookup_keys(*self, keys@) {
                Some(t) => Some(&t),
                None => None,
            }),
    {
        let mut current = self;
        let mut i: usize = 0;
        proof {
            assert(keys@.skip(0) =~= keys@);
        }
        while i < keys.len()
            invariant
                i <= keys@.len(),
                spec_lookup_keys(*self, keys@) == spec_lookup_keys(*current, keys@.skip(i as int)),
            decreases keys@.len() - i,
        {
            let ghost rest = keys@.skip(i as int);
            proof {
                assert(rest[0] == keys@[i as int]);
                assert(rest.drop_first() =~= keys@.skip(i + 1));
            }
            match current.lookup_key(keys[i]) {
                Some(node) => {
                    match node {
                        Trie::Leaf(_) => {
                            return Some(node);
                        },
                        Trie::Node(_) => {
                            current = node;
                        },
                    }
                },
                None => {
                    return None;
                },
            }
            i = i + 1;
        }
        proof {
            assert(keys@.skip(i as int) =~= Seq::<Key>::empty());
        }
        Some(current)
    }

    /// Bind `key` to `value` (a leaf becomes an empty node first).
    pub fn bind_key(&mut self, key: Key, value: CommandInfo)
        ensures
            bound(*old(self), *final(self), seq![key], value),
    {
        if let Trie::Leaf(_) = self {
            *self = Trie::new();
        }
        match self {
            Trie::Node(map) => {
                map.insert(code_of(key), Trie::Leaf(value));
            },
            Trie::Leaf(_) => {},
        }
    }

    fn bind_keys_from(&mut self, keys: &[Key], start: usize, value: CommandInfo)
        requires
            start <= keys@.len(),
        ensures
            bound(*old(self), *final(self), keys@.skip(start as int), value),
        decreases keys@.len() - start,
    {
        let ghost ks = keys@.skip(start as int);
        let len = keys.len() - start;
        if len == 1 {
            proof {
                assert(ks =~= seq![keys@[start as int]]);
            }
            self.bind_key(keys[start], value);
        } else if len > 1 {
            proof {
                assert(ks[0] == keys@[start as int]);
                assert(ks.drop_first() =~= keys@.skip(start + 1));
            }
            if let Trie::Leaf(_) = self {
                *self = Trie::new();
            }
            let ghost o2 = *self;
            match self {
                Trie::Node(map) => {
                    let code = code_of(keys[start]);
                    let sub = map.remove(&code);
                    let mut node = match sub {
                        Some(n) => n,
                        None => Trie::new(),
                    };
                    let ghost before = node;
                    node.bind_keys_from(keys, start + 1, value);
                    proof {
                        if sub is None {
                            lemma_bound_empty_is_fresh(before, node, keys@.skip(start + 1), value);
                        }
                    }
                    map.insert(code, node);
                },
                Trie::Leaf(_) => {},
            }
            proof {
                assert(children(*self) =~= children(o2).insert(key_code(ks[0]), children(*self)[key_code(ks[0])]));
            }
        } else {
            proof {
                assert(ks =~= Seq::<Key>::empty());
            }
        }
    }

    /// Bind the key sequence `keys` to `value`.
    pub fn bind_keys(&mut self, keys: &[Key], value: CommandInfo)
        ensures
            bound(*old(self), *final(self), keys@, value),
    {
        proof {
            assert(keys@.skip(0) =~= keys@);
        }
        self.bind_keys_from(keys, 0, value);
    }
}

/// The state of a key map after a key.
pub enum KeyMapState {
    /// found a match
    Match(CommandInfo),
    /// needs another key to disambiguate
    Continue,
    /// no match
    NoMatch,
}

/// What eating `key` does to a key map: the keys eaten so far, with `key`,
/// either reach a binding (which is returned, and the path starts afresh), or a
/// node (more keys are needed), or nothing (the path starts afresh).
pub open spec fn key_step(before: KeyMap, after: KeyMap, key: Key, r: KeyMapState) -> bool {
    let p = before.path_view().push(key);
    &&& after.root_view() == before.root_view()
    &&& if r is Continue {
        after.state_view() is Continue
    } else {
        after.state_view() is NoMatch
    }
    &&& match spec_lookup_keys(before.root_view(), p) {
        Some(Trie::Leaf(v)) => r matches KeyMapState::Match(c) && c.same_as(v) && after.path_view()
            == Seq::<Key>::empty(),
        Some(Trie::Node(_)) => r is Continue && after.path_view() == p,
        None => r is NoMatch && after.path_view() == Seq::<Key>::empty(),
    }
}

/// Map sequences of `Key`s to values
pub struct KeyMap {
    root: Trie,
    state: KeyMapState,
    path: Vec<Key>,
}

impl KeyMap {
    /// The bindings of the key map.
    pub closed spec fn root_view(&self) -> Trie {
        self.root
    }

    /// The keys eaten so far towards a binding.
    pub closed spec fn path_view(&self) -> Seq<Key> {
        self.path@
    }

    /// Where the last key left the key map: part way into a sequence
    /// (`Continue`), or not (`NoMatch`, also after a completed match).
    pub closed spec fn state_view(&self) -> KeyMapState {
        self.state
    }

    /// An empty key map.
    pub fn new() -> (r: KeyMap)
        ensures
            r.root_view() is Node,
            children(r.root_view()) == Map::<u64, Trie>::empty(),
            r.path_view() == Seq::<Key>::empty(),
            r.state_view() is NoMatch,
    {
        KeyMap { root: Trie::new(), state: KeyMapState::NoMatch, path: Vec::new() }
    }

    /// Eat one keypress, return the new state
    pub fn check_key(&mut self, key: Key) -> (r: KeyMapState)
        ensures
            key_step(*old(self), *final(self), key, r),
    {
        self.path.push(key);
        let ret_val = match self.root.lookup_keys(self.path.as_slice()) {
            Some(n) => {
                match n {
                    Trie::Leaf(value) => KeyMapState::Match(value.duplicate()),
                    Trie::Node(_) => KeyMapState::Continue,
                }
            },
            None => {
                KeyMapState::NoMatch
            },
        };
        match ret_val {
            KeyMapState::Continue => {
                self.state = KeyMapState::Continue;
                KeyMapState::Continue
            },
            other => {
                self.path.clear();
                self.state = KeyMapState::NoMatch;
                other
            },
        }
    }

    /// Insert or overwrite a key-sequence binding
    pub fn bind_keys(&mut self, keys: &[Key], value: CommandInfo)
        ensures
            bound(old(self).root_view(), final(self).root_view(), keys@, value),
            final(self).path_view() == old(self).path_view(),
            final(self).state_view() == old(self).state_view(),
    {
        self.root.bind_keys(keys, value);
    }

    /// Insert or overwrite a key binding
    pub fn bind_key(&mut self, key: Key, value: CommandInfo)
        ensures
            bound(old(self).root_view(), final(self).root_view(), seq![key], value),
            final(self).path_view() == old(self).path_view(),
            final(self).state_view() == old(self).state_view(),
    {
        self.root.bind_key(key, value);
    }
}

} // verus!
