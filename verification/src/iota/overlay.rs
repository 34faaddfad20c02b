//! Overlays: prompts drawn over the view that take the keys while they are open.

use vstd::prelude::*;

use super::command::BuilderEvent;
use super::frontends::{Frontend, Screen};
use super::keyboard::Key;
use super::keymap::CommandInfo;
use super::uibuf::{with_char_colors, Cell, CharColor, UIBuffer};
use vstd::utf8::encode_utf8;
use super::utils::{char_unicode_width, data_from_str, string_pop, string_push, unicode_width};

verus! {

/// The kinds of overlay.
#[derive(Copy, Clone, Debug, PartialEq, Eq, Structural)]
pub enum OverlayType {
    CommandPrompt,
}

/// Whether `a` comes before `b` in the order of strings: char by char, and a
/// proper prefix first.
pub open spec fn seq_less(a: Seq<char>, b: Seq<char>) -> bool
    decreases a.len(),
{
    if a.len() == 0 {
        b.len() > 0
    } else if b.len() == 0 {
        false
    } else if a[0] != b[0] {
        a[0] < b[0]
    } else {
        seq_less(a.drop_first(), b.drop_first())
    }
}

/// The order of strings is strict.
pub proof fn lemma_seq_less_irreflexive(a: Seq<char>)
    ensures
        !seq_less(a, a),
    decreases a.len(),
{
    if a.len() > 0 {
        lemma_seq_less_irreflexive(a.drop_first());
    }
}

/// The order of strings is transitive.
pub proof fn lemma_seq_less_transitive(a: Seq<char>, b: Seq<char>, c: Seq<char>)
    requires
        seq_less(a, b),
        seq_less(b, c),
    ensures
        seq_less(a, c),
    decreases a.len(),
{
    if a.len() > 0 && b.len() > 0 && c.len() > 0 && a[0] == b[0] && b[0] == c[0] {
        lemma_seq_less_transitive(a.drop_first(), b.drop_first(), c.drop_first());
    }
}

/// Two different strings are ordered one way or the other.
pub proof fn lemma_seq_less_total(a: Seq<char>, b: Seq<char>)
    requires
        a != b,
    ensures
        seq_less(a, b) || seq_less(b, a),
    decreases a.len(),
{
    if a.len() > 0 && b.len() > 0 && a[0] == b[0] {
        if a.drop_first() == b.drop_first() {
            assert(a =~= seq![a[0]] + a.drop_first());
            assert(b =~= seq![b[0]] + b.drop_first());
        }
        lemma_seq_less_total(a.drop_first(), b.drop_first());
    } else if a.len() == 0 && b.len() == 0 {
        assert(a =~= b);
    }
}

/// Whether the string `a` comes before `b`.
fn str_less(a: &String, b: &String) -> (r: bool)
    ensures
        r == seq_less(a@, b@),
{
    let x = data_from_str(a.as_str());
    let y = data_from_str(b.as_str());
    let mut i: usize = 0;
    proof {
        assert(a@.skip(0) =~= a@);
        assert(b@.skip(0) =~= b@);
    }
    while i < x.len() && i < y.len() && x[i] == y[i]
        invariant
            x@ == a@,
            y@ == b@,
            i <= x@.len(),
            i <= y@.len(),
            seq_less(a@, b@) == seq_less(a@.skip(i as int), b@.skip(i as int)),
        decreases x@.len() - i,
    {
        proof {
            assert(a@.skip(i as int).drop_first() =~= a@.skip(i + 1));
            assert(b@.skip(i as int).drop_first() =~= b@.skip(i + 1));
        }
        i = i + 1;
    }
    if i == x.len() {
        i < y.len()
    } else if i == y.len() {
        false
    } else {
        x[i] < y[i]
    }
}

/// Whether `prefix` is a prefix of `s`.
pub open spec fn is_prefix(prefix: Seq<char>, s: Seq<char>) -> bool {
    prefix.len() <= s.len() && s.take(prefix.len() as int) == prefix
}

/// Whether the string `s` starts with `prefix`.
fn starts_with(s: &String, prefix: &String) -> (r: bool)
    ensures
        r == is_prefix(prefix@, s@),
{
    let x = data_from_str(s.as_str());
    let p = data_from_str(prefix.as_str());
    if p.len() > x.len() {
        return false;
    }
    let mut i: usize = 0;
    while i < p.len()
        invariant
            x@ == s@,
            p@ == prefix@,
            p@.len() <= x@.len(),
            i <= p@.len(),
            forall|k: int| 0 <= k < i ==> x@[k] == p@[k],
        decreases p@.len() - i,
    {
        if x[i] != p[i] {
            proof {
                assert(s@.take(prefix@.len() as int)[i as int] != prefix@[i as int]);
            }
            return false;
        }
        i = i + 1;
    }
    proof {
        assert(s@.take(prefix@.len() as int) =~= prefix@);
    }
    true
}

/// `s` with `x` put before the first item that comes before it in the order
/// of strings, so that a list in descending order stays so.
pub open spec fn insert_desc(s: Seq<Seq<char>>, x: Seq<char>) -> Seq<Seq<char>>
    decreases s.len(),
{
    if s.len() == 0 {
        seq![x]
    } else if seq_less(s[0], x) {
        seq![x] + s
    } else {
        seq![s[0]] + insert_desc(s.drop_first(), x)
    }
}

/// The names of the first `n` commands that start with `data`, in
/// descending order.
pub open spec fn matching_names(cmds: Seq<(String, CommandInfo)>, data: Seq<char>, n: int) -> Seq<
    Seq<char>,
>
    decreases n,
{
    if n <= 0 {
        seq![]
    } else if is_prefix(data, cmds[n - 1].0@) {
        insert_desc(matching_names(cmds, data, n - 1), cmds[n - 1].0@)
    } else {
        matching_names(cmds, data, n - 1)
    }
}

/// The names of the commands that start with `data`, in descending order.
pub open spec fn filtered_names(cmds: Seq<(String, CommandInfo)>, data: Seq<char>) -> Seq<Seq<char>> {
    matching_names(cmds, data, cmds.len() as int)
}

/// A list of names in strictly descending order.
pub open spec fn descending(s: Seq<Seq<char>>) -> bool {
    forall|i: int, j: int| 0 <= i < j < s.len() ==> seq_less(#[trigger] s[j], #[trigger] s[i])
}

/// Inserting a name the list lacks keeps a descending list descending and
/// adds just that name.
proof fn lemma_insert_desc(s: Seq<Seq<char>>, x: Seq<char>)
    requires
        descending(s),
        !s.contains(x),
    ensures
        descending(insert_desc(s, x)),
        insert_desc(s, x).len() == s.len() + 1,
        forall|y: Seq<char>| #[trigger] insert_desc(s, x).contains(y) <==> (s.contains(y) || y == x),
    decreases s.len(),
{
    if s.len() == 0 {
        assert(insert_desc(s, x) =~= seq![x]);
        assert forall|y: Seq<char>| #[trigger] insert_desc(s, x).contains(y) <==> (s.contains(y) || y
            == x) by {
            if insert_desc(s, x).contains(y) {
                assert(insert_desc(s, x)[0] == x);
            }
            if y == x {
                assert(insert_desc(s, x)[0] == x);
            }
        }
    } else if seq_less(s[0], x) {
        let r = seq![x] + s;
        assert(insert_desc(s, x) == r);
        assert forall|i: int, j: int| 0 <= i < j < r.len() implies seq_less(#[trigger] r[j], #[trigger] r[i]) by {
            if i == 0 {
                if j > 1 {
                    assert(seq_less(s[j - 1], s[0]));
                    lemma_seq_less_transitive(s[j - 1], s[0], x);
                }
            } else {
                assert(r[i] == s[i - 1] && r[j] == s[j - 1]);
            }
        }
        assert forall|y: Seq<char>| #[trigger] r.contains(y) <==> (s.contains(y) || y == x) by {
            if r.contains(y) {
                let k = choose|k: int| 0 <= k < r.len() && r[k] == y;
                if k > 0 {
                    assert(s[k - 1] == y);
                }
            }
            if s.contains(y) {
                let k = choose|k: int| 0 <= k < s.len() && s[k] == y;
                assert(r[k + 1] == y);
            }
            if y == x {
                assert(r[0] == y);
            }
        }
    } else {
        let t = s.drop_first();
        assert forall|i: int, j: int| 0 <= i < j < t.len() implies seq_less(#[trigger] t[j], #[trigger] t[i]) by {
            assert(t[i] == s[i + 1] && t[j] == s[j + 1]);
        }
        assert(!t.contains(x)) by {
            if t.contains(x) {
                let k = choose|k: int| 0 <= k < t.len() && t[k] == x;
                assert(s[k + 1] == x);
            }
        }
        lemma_insert_desc(t, x);
        let it = insert_desc(t, x);
        let r = seq![s[0]] + it;
        assert(insert_desc(s, x) == r);
        assert(s[0] != x) by {
            if s[0] == x {
                assert(s.contains(x));
            }
        }
        lemma_seq_less_total(s[0], x);
        assert forall|i: int, j: int| 0 <= i < j < r.len() implies seq_less(#[trigger] r[j], #[trigger] r[i]) by {
            if i == 0 {
                assert(r[j] == it[j - 1]);
                assert(it.contains(it[j - 1]));
                if it[j - 1] == x {
                } else {
                    assert(t.contains(it[j - 1]));
                    let k = choose|k: int| 0 <= k < t.len() && t[k] == it[j - 1];
                    assert(s[k + 1] == t[k]);
                    assert(seq_less(s[k + 1], s[0]));
                }
            } else {
                assert(r[i] == it[i - 1] && r[j] == it[j - 1]);
            }
        }
        assert forall|y: Seq<char>| #[trigger] r.contains(y) <==> (s.contains(y) || y == x) by {
            if r.contains(y) {
                let k = choose|k: int| 0 <= k < r.len() && r[k] == y;
                if k == 0 {
                    assert(s[0] == y);
                } else {
                    assert(it[k - 1] == y);
                    assert(it.contains(y));
                    if t.contains(y) {
                        let m = choose|m: int| 0 <= m < t.len() && t[m] == y;
                        assert(s[m + 1] == y);
                    }
                }
            }
            if s.contains(y) {
                let k = choose|k: int| 0 <= k < s.len() && s[k] == y;
                if k == 0 {
                    assert(r[0] == y);
                } else {
                    assert(t[k - 1] == y);
                    assert(t.contains(y));
                    assert(it.contains(y));
                    let m = choose|m: int| 0 <= m < it.len() && it[m] == y;
                    assert(r[m + 1] == y);
                }
            }
            if y == x {
                assert(it.contains(x));
                let m = choose|m: int| 0 <= m < it.len() && it[m] == x;
                assert(r[m + 1] == x);
            }
        }
    }
}

/// The names of a list of commands are all different.
pub open spec fn names_unique(cmds: Seq<(String, CommandInfo)>) -> bool {
    forall|i: int, j: int| 0 <= i < j < cmds.len() ==> (#[trigger] cmds[i]).0@ != (#[trigger] cmds[j]).0@
}

/// The matching names are in strictly descending order, and are the names of
/// the matching commands.
proof fn lemma_matching_names(cmds: Seq<(String, CommandInfo)>, data: Seq<char>, n: int)
    requires
        names_unique(cmds),
        0 <= n <= cmds.len(),
    ensures
        descending(matching_names(cmds, data, n)),
        forall|y: Seq<char>| #[trigger] matching_names(cmds, data, n).contains(y) <==> exists|k: int|
            0 <= k < n && #[trigger] cmds[k].0@ == y && is_prefix(data, y),
    decreases n,
{
    if n > 0 {
        lemma_matching_names(cmds, data, n - 1);
        let prev = matching_names(cmds, data, n - 1);
        let x = cmds[n - 1].0@;
        if is_prefix(data, x) {
            assert(!prev.contains(x)) by {
                if prev.contains(x) {
                    let k = choose|k: int| 0 <= k < n - 1 && #[trigger] cmds[k].0@ == x && is_prefix(data, x);
                    assert(cmds[k].0@ != cmds[n - 1].0@);
                }
            }
            lemma_insert_desc(prev, x);
        }
        assert forall|y: Seq<char>| #[trigger] matching_names(cmds, data, n).contains(y) <==> exists|
            k: int,
        | 0 <= k < n && #[trigger] cmds[k].0@ == y && is_prefix(data, y) by {
            if exists|k: int| 0 <= k < n && #[trigger] cmds[k].0@ == y && is_prefix(data, y) {
                let k = choose|k: int| 0 <= k < n && #[trigger] cmds[k].0@ == y && is_prefix(data, y);
                if k < n - 1 {
                    assert(prev.contains(y));
                }
            }
            if prev.contains(y) {
                let k = choose|k: int| 0 <= k < n - 1 && #[trigger] cmds[k].0@ == y && is_prefix(data, y);
                assert(0 <= k < n && cmds[k].0@ == y);
            }
        }
    }
}

/// The completion list of a prompt is in strictly descending order and holds
/// just the names of the commands that start with what was typed.
pub proof fn law_filtered_names(cmds: Seq<(String, CommandInfo)>, data: Seq<char>)
    requires
        names_unique(cmds),
    ensures
        descending(filtered_names(cmds, data)),
        forall|y: Seq<char>| #[trigger] filtered_names(cmds, data).contains(y) <==> exists|k: int|
            0 <= k < cmds.len() && #[trigger] cmds[k].0@ == y && is_prefix(data, y),
{
    lemma_matching_names(cmds, data, cmds.len() as int);
}

/// `insert_desc` puts `x` at the first place whose item comes before it.
proof fn lemma_insert_desc_at(s: Seq<Seq<char>>, x: Seq<char>, i: int)
    requires
        0 <= i <= s.len(),
        forall|k: int| 0 <= k < i ==> !seq_less(#[trigger] s[k], x),
        i < s.len() ==> seq_less(s[i], x),
    ensures
        insert_desc(s, x) == s.insert(i, x),
    decreases s.len(),
{
    if s.len() == 0 {
        assert(s.insert(i, x) =~= seq![x]);
    } else if i == 0 {
        assert(s.insert(0, x) =~= seq![x] + s);
    } else {
        let t = s.drop_first();
        assert forall|k: int| 0 <= k < i - 1 implies !seq_less(#[trigger] t[k], x) by {
            assert(t[k] == s[k + 1]);
        }
        if i < s.len() {
            assert(t[i - 1] == s[i]);
        }
        lemma_insert_desc_at(t, x, i - 1);
        assert(s.insert(i, x) =~= seq![s[0]] + t.insert(i - 1, x));
    }
}

/// The views of some strings.
#[verifier::opaque]
pub open spec fn string_views(ss: Seq<String>) -> Seq<Seq<char>> {
    ss.map_values(|s: String| s@)
}

proof fn lemma_string_views_insert(ss: Seq<String>, i: int, s: String)
    requires
        0 <= i <= ss.len(),
    ensures
        string_views(ss.insert(i, s)) == string_views(ss).insert(i, s@),
{
    reveal(string_views);
    assert(string_views(ss.insert(i, s)) =~= string_views(ss).insert(i, s@));
}

proof fn lemma_string_views_index(ss: Seq<String>, i: int)
    requires
        0 <= i < ss.len(),
    ensures
        string_views(ss).len() == ss.len(),
        string_views(ss)[i] == ss[i]@,
{
    reveal(string_views);
}

/// A prompt at the bottom of the screen where a command is typed by name,
/// with a list of the names that complete what was typed.
pub struct CommandPrompt {
    /// The column of the cursor: one past the prefix and the width of what was typed.
    pub cursor_x: usize,
    /// What was typed.
    pub data: String,
    /// What the prompt shows before what was typed.
    pub prefix: String,
    /// The commands by name.
    pub commands: Vec<(String, CommandInfo)>,
    /// The place in the completion list that is selected, counted from 1; 0
    /// when none is.
    pub selected_index: usize,
}

/// A char that is one column wide and one byte long.
pub open spec fn is_printable_ascii(c: char) -> bool {
    0x20 <= c < 0x7f
}

/// The columns a typed char takes: one for printable ASCII, else its Unicode
/// width (none for a char without one).
pub open spec fn column_width(c: char) -> int {
    if is_printable_ascii(c) {
        1
    } else {
        match unicode_width(c) {
            Some(w) => w as int,
            None => 0,
        }
    }
}

/// The width of the chars typed into a prompt.
pub open spec fn typed_width(s: Seq<char>) -> int
    decreases s.len(),
{
    if s.len() == 0 {
        0
    } else {
        typed_width(s.drop_last()) + column_width(s.last())
    }
}

proof fn lemma_typed_width_nonneg(s: Seq<char>)
    ensures
        typed_width(s) >= 0,
    decreases s.len(),
{
    if s.len() > 0 {
        lemma_typed_width_nonneg(s.drop_last());
    }
}

proof fn lemma_typed_width_ascii(s: Seq<char>)
    requires
        forall|k: int| 0 <= k < s.len() ==> is_printable_ascii(#[trigger] s[k]),
    ensures
        typed_width(s) == s.len(),
    decreases s.len(),
{
    if s.len() > 0 {
        assert forall|k: int| 0 <= k < s.drop_last().len() implies is_printable_ascii(
            #[trigger] s.drop_last()[k],
        ) by {
            assert(s.drop_last()[k] == s[k]);
        }
        lemma_typed_width_ascii(s.drop_last());
        assert(is_printable_ascii(s[s.len() - 1]));
    }
}

/// The name a command prompt's key event completes to when it has none.
pub open spec fn noop_name() -> Seq<char> {
    "editor::noop"@
}

impl CommandPrompt {
    /// The prompt's parts agree: command names are printable ASCII, short
    /// enough to count, and different from each other; the prefix is `:`;
    /// and the cursor stands just past what was typed.
    pub open spec fn wf(&self) -> bool {
        &&& names_unique(self.commands@)
        &&& forall|i: int, k: int|
            0 <= i < self.commands@.len() && 0 <= k < self.commands@[i].0@.len()
                ==> is_printable_ascii(#[trigger] self.commands@[i].0@[k])
        &&& forall|i: int| 0 <= i < self.commands@.len() ==> (#[trigger] self.commands@[i]).0@.len() < usize::MAX
        &&& self.prefix@ == seq![':']
        &&& self.cursor_x == 1 + typed_width(self.data@)
    }

    /// The names that complete what was typed, in descending order.
    pub open spec fn completions(&self) -> Seq<Seq<char>> {
        filtered_names(self.commands@, self.data@)
    }

    /// The command that is named exactly what was typed, if there is one.
    pub open spec fn typed_command(&self) -> Option<CommandInfo> {
        if exists|i: int| 0 <= i < self.commands@.len() && #[trigger] self.commands@[i].0@ == self.data@ {
            let i = choose|i: int| 0 <= i < self.commands@.len() && #[trigger] self.commands@[i].0@ == self.data@;
            Some(self.commands@[i].1)
        } else {
            None
        }
    }

    /// A prompt `:` with nothing typed, for the commands `quit` and `write`.
    pub fn new() -> (r: CommandPrompt)
        ensures
            r.wf(),
            r.cursor_x == 1,
            r.data@ == Seq::<char>::empty(),
            r.selected_index == 0,
            r.commands@.len() == 2,
            r.commands@[0].0@ == "quit"@,
            r.commands@[0].1.command_name@ == "editor::quit"@,
            r.commands@[0].1.args is None,
            r.commands@[1].0@ == "write"@,
            r.commands@[1].1.command_name@ == "editor::save_buffer"@,
            r.commands@[1].1.args is None,
    {
        let mut commands: Vec<(String, CommandInfo)> = Vec::new();
        commands.push(
            (
                "quit".to_string(),
                CommandInfo { command_name: "editor::quit".to_string(), args: None },
            ),
        );
        commands.push(
            (
                "write".to_string(),
                CommandInfo { command_name: "editor::save_buffer".to_string(), args: None },
            ),
        );
        let mut prefix = String::new();
        string_push(&mut prefix, ':');
        let data = String::new();
        proof {
            reveal_strlit("quit");
            reveal_strlit("write");
            assert(commands@[0].0@ != commands@[1].0@) by {
                assert(commands@[0].0@[0] != commands@[1].0@[0]);
            }
            assert(typed_width(data@) == 0);
            assert(prefix@ =~= seq![':']);
        }
        CommandPrompt {
            cursor_x: 1,
            data: data,
            prefix: prefix,
            commands: commands,
            selected_index: 0,
        }
    }

    /// Whether the prompt can take `key`: a typed char must leave the cursor
    /// column countable, and Tab needs the selection to be in the list.
    pub fn accepts_key(&self, key: Key) -> (r: bool)
        requires
            self.wf(),
        ensures
            r == self.accepts(key),
    {
        match key {
            Key::Char(_) => self.cursor_x <= usize::MAX - 255,
            Key::Tab => {
                let n = self.get_filtered_command_names().len();
                proof {
                    reveal(string_views);
                }
                self.selected_index <= n
            },
            _ => true,
        }
    }

    /// The names of the commands that start with what was typed, in
    /// descending order.
    pub fn get_filtered_command_names(&self) -> (r: Vec<String>)
        ensures
            string_views(r@) == self.completions(),
    {
        let mut keys: Vec<String> = Vec::new();
        let mut n: usize = 0;
        proof {
            reveal(string_views);
            assert(string_views(keys@) =~= Seq::<Seq<char>>::empty());
        }
        while n < self.commands.len()
            invariant
                n <= self.commands@.len(),
                string_views(keys@) == matching_names(self.commands@, self.data@, n as int),
            decreases self.commands@.len() - n,
        {
            let name = &self.commands[n].0;
            if starts_with(name, &self.data) {
                let ghost s = string_views(keys@);
                let mut i: usize = 0;
                while i < keys.len() && !str_less(&keys[i], name)
                    invariant
                        i <= keys@.len(),
                        s == string_views(keys@),
                        forall|k: int| 0 <= k < i ==> !seq_less(#[trigger] s[k], name@),
                    decreases keys@.len() - i,
                {
                    proof {
                        lemma_string_views_index(keys@, i as int);
                    }
                    i = i + 1;
                }
                proof {
                    if i < keys@.len() {
                        lemma_string_views_index(keys@, i as int);
                    }
                    reveal(string_views);
                    lemma_insert_desc_at(s, name@, i as int);
                }
                let ghost before = keys@;
                let copy = name.clone();
                keys.insert(i, copy);
                proof {
                    lemma_string_views_insert(before, i as int, copy);
                }
            }
            n = n + 1;
        }
        keys
    }
}

/// An overlay takes the keys while it is open, and is drawn over the view.
pub trait Overlay {
    /// The overlay is in a state where it can take `key`.
    spec fn accepts(&self, key: Key) -> bool;

    /// Draws the overlay onto the screen's grid.
    fn draw(&self, uibuf: &mut UIBuffer)
        requires
            old(uibuf).wf(),
        ensures
            final(uibuf).wf(),
            final(uibuf).width == old(uibuf).width,
            final(uibuf).height == old(uibuf).height,
    ;

    /// Places the frontend's cursor in the overlay.
    fn draw_cursor<F: Frontend>(&mut self, screen: &mut Screen<F>);

    /// Takes a key; says whether a command was chosen.
    fn handle_key_event(&mut self, key: Key) -> (r: BuilderEvent)
        requires
            old(self).accepts(key),
    ;
}

/// Writes a char into the grid where the grid has a cell for it.
fn put(uibuf: &mut UIBuffer, x: usize, y: usize, ch: char, fg: CharColor, bg: CharColor)
    requires
        old(uibuf).wf(),
    ensures
        final(uibuf).wf(),
        final(uibuf).width == old(uibuf).width,
        final(uibuf).height == old(uibuf).height,
        forall|j: int, i: int|
            0 <= j < old(uibuf).height && 0 <= i < old(uibuf).width ==> #[trigger] final(uibuf).cell(
                i,
                j,
            ) == (if i == x && j == y {
                with_char_colors(old(uibuf).cell(i, j), ch, fg, bg)
            } else {
                old(uibuf).cell(i, j)
            }),
{
    if x < uibuf.width && y < uibuf.height {
        uibuf.update_cell(x, y, ch, fg, bg);
    }
}

/// The width of the completion box: the length in bytes of the longest
/// name (a name too long to count is passed over), and at least 20.
pub open spec fn box_width(names: Seq<Seq<char>>) -> int
    decreases names.len(),
{
    if names.len() == 0 {
        20
    } else {
        let m = box_width(names.drop_last());
        let l = (encode_utf8(names.last()).len() as usize) as int;
        if l > m && l <= usize::MAX - 2 {
            l
        } else {
            m
        }
    }
}

/// The char a name shows at place `i` of its box line: its own char, then blanks.
pub open spec fn box_char(name: Seq<char>, i: int) -> char {
    if i < name.len() {
        name[i]
    } else {
        ' '
    }
}

/// The colours of completion `i` (counted from 1): red behind the selected one.
pub open spec fn box_colors(selected: usize, i: int) -> (CharColor, CharColor) {
    if i == selected {
        (CharColor::White, CharColor::Red)
    } else {
        (CharColor::White, CharColor::Black)
    }
}

/// Column `x` of the box line of completion `i` (counted from 1), over the
/// cell `c`: a bar on each side of the name, the name padded to `max`.
pub open spec fn box_row_cell(names: Seq<Seq<char>>, selected: usize, max: int, i: int, c: Cell, x: int) -> Cell {
    if x == 0 || x == max + 1 {
        with_char_colors(c, '│', CharColor::White, CharColor::Black)
    } else if 1 <= x <= max {
        with_char_colors(c, box_char(names[i - 1], x - 1), box_colors(selected, i).0, box_colors(selected, i).1)
    } else {
        c
    }
}

/// What a prompt draws at column `x` of line `y` over the cell `c`, with `h`
/// the bottom line: the completions stand on the lines above it, the first
/// just above, as many as there are lines for; a border tops the box where
/// there is a line for it; the bottom line shows the prefix and what was
/// typed.
pub open spec fn prompt_cell(p: CommandPrompt, c: Cell, h: int, x: int, y: int) -> Cell {
    let names = p.completions();
    let max = box_width(names);
    let n = if names.len() <= h {
        names.len() as int
    } else {
        h
    };
    let offset = p.prefix@.len();
    if y == h {
        if x < offset {
            with_char_colors(c, p.prefix@[x], CharColor::White, CharColor::Black)
        } else if x < offset + p.data@.len() {
            with_char_colors(c, p.data@[x - offset], CharColor::White, CharColor::Black)
        } else {
            c
        }
    } else if h - n <= y < h {
        box_row_cell(names, p.selected_index, max, h - y, c, x)
    } else if y == h - n - 1 {
        if x == 0 {
            with_char_colors(c, '╭', CharColor::White, CharColor::Black)
        } else if 1 <= x <= max {
            with_char_colors(c, '─', CharColor::White, CharColor::Black)
        } else if x == max + 1 {
            with_char_colors(c, '╮', CharColor::White, CharColor::Black)
        } else {
            c
        }
    } else {
        c
    }
}

/// What the command prompt does with `key` (see its `handle_key_event`).
pub open spec fn prompt_handles(before: CommandPrompt, after: CommandPrompt, key: Key, r: BuilderEvent) -> bool {
    &&& after.wf()
    &&& after.commands@ == before.commands@
    &&& after.prefix@ == before.prefix@
    &&& match key {
        Key::Esc => r matches BuilderEvent::Complete(info) && info.command_name@ == noop_name()
            && info.args is None && after == before,
        Key::Enter => (match before.typed_command() {
            Some(info) => r matches BuilderEvent::Complete(got) && got.same_as(info),
            None => r is Incomplete,
        }) && after.data@ == before.data@ && after.selected_index
            == before.selected_index && after.cursor_x == before.cursor_x,
        Key::Up => r is Incomplete && after.data@ == before.data@
            && after.cursor_x == before.cursor_x && after.selected_index == (
        if before.selected_index < before.completions().len() {
            before.selected_index + 1
        } else {
            before.selected_index as int
        }),
        Key::Down => r is Incomplete && after.data@ == before.data@
            && after.cursor_x == before.cursor_x && after.selected_index == (
        if before.selected_index > 0 {
            before.selected_index - 1
        } else {
            0
        }),
        Key::Tab => r is Incomplete && after.selected_index == before.selected_index
            && (if before.selected_index > 0 {
            after.data@ == before.completions()[before.selected_index - 1]
        } else {
            after.data@ == before.data@ && after.cursor_x == before.cursor_x
        }),
        Key::Char(c) => r is Incomplete && after.selected_index == before.selected_index
            && after.data@ == (if unicode_width(c) is Some {
            before.data@.push(c)
        } else {
            before.data@
        }),
        Key::Backspace => r is Incomplete && after.selected_index
            == before.selected_index && after.data@ == (if before.data@.len() > 0 {
            before.data@.drop_last()
        } else {
            before.data@
        }),
        _ => r is Incomplete && after.data@ == before.data@
            && after.selected_index == before.selected_index && after.cursor_x
            == before.cursor_x,
    }
}

impl Overlay for CommandPrompt {
    open spec fn accepts(&self, key: Key) -> bool {
        &&& self.wf()
        &&& key is Char ==> self.cursor_x + 255 <= usize::MAX
        &&& key is Tab ==> self.selected_index <= self.completions().len()
    }

    /// Draws the completion list above the bottom line, the selected name
    /// highlighted, and the prefix and what was typed on the bottom line.
    fn draw(&self, uibuf: &mut UIBuffer)
        ensures
            forall|y: int, x: int|
                0 <= y < old(uibuf).height && 0 <= x < old(uibuf).width ==> #[trigger] final(uibuf).cell(
                    x,
                    y,
                ) == prompt_cell(*self, old(uibuf).cell(x, y), old(uibuf).height - 1, x, y),
    {
        if uibuf.height == 0 {
            return;
        }
        let height = uibuf.height - 1;
        let prefix = data_from_str(self.prefix.as_str());
        let offset = prefix.len();
        let keys = self.get_filtered_command_names();
        let ghost names = self.completions();
        let ghost u0 = *uibuf;

        // find the longest command in the resulting list
        let mut max: usize = 20;
        let mut k: usize = 0;
        while k < keys.len()
            invariant
                k <= keys@.len(),
                string_views(keys@) == names,
                max == box_width(names.take(k as int)),
                max <= usize::MAX - 2,
            decreases keys@.len() - k,
        {
            proof {
                lemma_string_views_index(keys@, k as int);
                assert(names.take(k + 1).drop_last() =~= names.take(k as int));
            }
            let len = keys[k].as_str().len();
            if len > max && len <= usize::MAX - 2 {
                max = len;
            }
            k = k + 1;
        }
        proof {
            reveal(string_views);
            assert(names.take(keys@.len() as int) =~= names);
        }
        // draw the command completion list
        let mut index: usize = 1;
        while index <= keys.len() && index <= height
            invariant
                uibuf.wf(),
                uibuf.width == u0.width,
                uibuf.height == u0.height,
                height == uibuf.height - 1,
                u0 == *old(uibuf),
                string_views(keys@) == names,
                names == self.completions(),
                max == box_width(names),
                max <= usize::MAX - 2,
                1 <= index <= keys@.len() + 1,
                index <= height + 1,
                forall|y: int, x: int|
                    0 <= y < uibuf.height && 0 <= x < uibuf.width ==> #[trigger] uibuf.cell(x, y) == (if height
                        - index < y < height {
                        box_row_cell(names, self.selected_index, max as int, height - y, u0.cell(x, y), x)
                    } else {
                        u0.cell(x, y)
                    }),
            decreases keys@.len() + 1 - index,
        {
            let y = height - index;
            put(uibuf, 0, y, '│', CharColor::White, CharColor::Black);
            put(uibuf, max + 1, y, '│', CharColor::White, CharColor::Black);
            let (fg, bg) = if index == self.selected_index {
                (CharColor::White, CharColor::Red)
            } else {
                (CharColor::White, CharColor::Black)
            };
            proof {
                lemma_string_views_index(keys@, index - 1);
            }
            let key = data_from_str(keys[index - 1].as_str());
            let mut x: usize = 0;
            while x < max
                invariant
                    uibuf.wf(),
                    uibuf.width == u0.width,
                    uibuf.height == u0.height,
                    height == uibuf.height - 1,
                    y == height - index,
                    1 <= index <= keys@.len(),
                    index <= height,
                    string_views(keys@) == names,
                    key@ == names[index - 1],
                    (fg, bg) == box_colors(self.selected_index, index as int),
                    max <= usize::MAX - 2,
                    x <= max,
                    forall|j: int, i: int|
                        0 <= j < uibuf.height && 0 <= i < uibuf.width ==> #[trigger] uibuf.cell(i, j) == (if height
                            - index < j < height {
                            box_row_cell(names, self.selected_index, max as int, height - j, u0.cell(i, j), i)
                        } else if j == y {
                            if i == 0 || i == max + 1 {
                                with_char_colors(u0.cell(i, j), '│', CharColor::White, CharColor::Black)
                            } else if 1 <= i <= x {
                                with_char_colors(u0.cell(i, j), box_char(key@, i - 1), fg, bg)
                            } else {
                                u0.cell(i, j)
                            }
                        } else {
                            u0.cell(i, j)
                        }),
                decreases max - x,
            {
                if x < key.len() {
                    put(uibuf, x + 1, y, key[x], fg, bg);
                } else {
                    put(uibuf, x + 1, y, ' ', fg, bg);
                }
                x = x + 1;
            }
            index = index + 1;
        }
        let ghost n: int = index - 1;
        if index <= height {
            let y = height - index;
            put(uibuf, 0, y, '╭', CharColor::White, CharColor::Black);
            let mut x: usize = 1;
            while x < max + 1
                invariant
                    uibuf.wf(),
                    uibuf.width == u0.width,
                    uibuf.height == u0.height,
                    height == uibuf.height - 1,
                    y == height - index,
                    index == n + 1,
                    max <= usize::MAX - 2,
                    1 <= x <= max + 1,
                    forall|j: int, i: int|
                        0 <= j < uibuf.height && 0 <= i < uibuf.width ==> #[trigger] uibuf.cell(i, j) == (if height
                            - index < j < height {
                            box_row_cell(names, self.selected_index, max as int, height - j, u0.cell(i, j), i)
                        } else if j == y {
                            if i == 0 {
                                with_char_colors(u0.cell(i, j), '╭', CharColor::White, CharColor::Black)
                            } else if 1 <= i < x {
                                with_char_colors(u0.cell(i, j), '─', CharColor::White, CharColor::Black)
                            } else {
                                u0.cell(i, j)
                            }
                        } else {
                            u0.cell(i, j)
                        }),
                decreases max + 1 - x,
            {
                put(uibuf, x, y, '─', CharColor::White, CharColor::Black);
                x = x + 1;
            }
            put(uibuf, max + 1, y, '╮', CharColor::White, CharColor::Black);
        }
        let ghost u1 = *uibuf;
        proof {
            assert(n == (if names.len() <= height { names.len() as int } else { height as int }));
            assert forall|y: int, x: int|
                0 <= y < u0.height && 0 <= x < u0.width && y != height implies #[trigger] u1.cell(x, y)
                    == prompt_cell(*self, u0.cell(x, y), height as int, x, y) by {
            }
        }
        // draw the given prefix
        let mut i: usize = 0;
        while i < offset
            invariant
                uibuf.wf(),
                uibuf.width == u0.width,
                uibuf.height == u0.height,
                height == uibuf.height - 1,
                prefix@ == self.prefix@,
                offset == prefix@.len(),
                i <= offset,
                forall|y: int, x: int|
                    0 <= y < uibuf.height && 0 <= x < uibuf.width && y != height ==> #[trigger] uibuf.cell(x, y)
                        == u1.cell(x, y),
                forall|x: int|
                    0 <= x < uibuf.width ==> #[trigger] uibuf.cell(x, height as int) == (if x < i {
                        with_char_colors(u1.cell(x, height as int), prefix@[x], CharColor::White, CharColor::Black)
                    } else {
                        u1.cell(x, height as int)
                    }),
            decreases offset - i,
        {
            put(uibuf, i, height, prefix[i], CharColor::White, CharColor::Black);
            i = i + 1;
        }
        // draw the overlay data
        let data = data_from_str(self.data.as_str());
        let mut i: usize = 0;
        while i < data.len()
            invariant
                uibuf.wf(),
                uibuf.width == u0.width,
                uibuf.height == u0.height,
                height == uibuf.height - 1,
                prefix@ == self.prefix@,
                data@ == self.data@,
                offset == prefix@.len(),
                i <= data@.len(),
                forall|y: int, x: int|
                    0 <= y < uibuf.height && 0 <= x < uibuf.width && y != height ==> #[trigger] uibuf.cell(x, y)
                        == u1.cell(x, y),
                forall|x: int|
                    0 <= x < uibuf.width ==> #[trigger] uibuf.cell(x, height as int) == (if x < offset {
                        with_char_colors(u1.cell(x, height as int), prefix@[x], CharColor::White, CharColor::Black)
                    } else if x < offset + i {
                        with_char_colors(
                            u1.cell(x, height as int),
                            data@[x - offset],
                            CharColor::White,
                            CharColor::Black,
                        )
                    } else {
                        u1.cell(x, height as int)
                    }),
            decreases data@.len() - i,
        {
            if offset <= usize::MAX - i {
                put(uibuf, i + offset, height, data[i], CharColor::White, CharColor::Black);
            }
            i = i + 1;
        }
        proof {
            assert forall|y: int, x: int|
                0 <= y < u0.height && 0 <= x < u0.width implies #[trigger] uibuf.cell(x, y)
                    == prompt_cell(*self, u0.cell(x, y), height as int, x, y) by {
                if y == height {
                    assert(u1.cell(x, y) == u0.cell(x, y));
                }
            }
        }
    }

    /// Places the frontend's cursor just past what was typed, on the bottom line.
    fn draw_cursor<F: Frontend>(&mut self, screen: &mut Screen<F>)
        ensures
            *final(self) == *old(self),
            final(screen).drawn() == old(screen).drawn(),
            final(screen).placed().len() == old(screen).placed().len() + 1,
            final(screen).placed().drop_last() == old(screen).placed(),
            final(screen).placed().last().0 == old(self).cursor_x as isize,
    {
        let h = screen.window_height();
        let height = if h > 0 {
            h - 1
        } else {
            0
        };
        screen.draw_cursor(self.cursor_x as isize, height as isize);
    }

    /// Esc closes the prompt with no command; Enter chooses the command named
    /// what was typed (or waits for more when none is); Up and Down move the
    /// selection in the completion list; Tab takes the selected name as what
    /// was typed; a char with a width is typed, Backspace takes the last
    /// char back; other keys do nothing.
    fn handle_key_event(&mut self, key: Key) -> (r: BuilderEvent)
        ensures
            prompt_handles(*old(self), *final(self), key, r),
    {
        match key {
            Key::Esc => {
                return BuilderEvent::Complete(
                    CommandInfo { command_name: "editor::noop".to_string(), args: None },
                );
            },
            Key::Backspace => {
                let ghost before = self.data@;
                if let Some(c) = string_pop(&mut self.data) {
                    proof {
                        assert(before.drop_last().push(c) =~= before);
                        assert(before.drop_last() == self.data@);
                        assert(typed_width(before) == typed_width(self.data@) + column_width(c));
                        lemma_typed_width_nonneg(self.data@);
                    }
                    if let Some(width) = char_unicode_width(c) {
                        self.cursor_x = self.cursor_x - width;
                    }
                }
            },
            Key::Enter => {
                let mut i: usize = 0;
                while i < self.commands.len()
                    invariant
                        i <= self.commands@.len(),
                        *self == *old(self),
                        old(self).wf(),
                        key is Enter,
                        forall|k: int| 0 <= k < i ==> (#[trigger] self.commands@[k]).0@ != self.data@,
                    decreases self.commands@.len() - i,
                {
                    if self.commands[i].0 == self.data {
                        proof {
                            let j = choose|j: int| 0 <= j < self.commands@.len() && #[trigger] self.commands@[j].0@ == self.data@;
                            if j != i {
                                assert(names_unique(self.commands@));
                                if j < i {
                                    assert(self.commands@[j].0@ != self.commands@[i as int].0@);
                                } else {
                                    assert(self.commands@[i as int].0@ != self.commands@[j].0@);
                                }
                            }
                            assert(j == i);
                            assert(old(self).typed_command() == Some(self.commands@[i as int].1));
                        }
                        return BuilderEvent::Complete(self.commands[i].1.duplicate());
                    }
                    i = i + 1;
                }
                return BuilderEvent::Incomplete;
            },
            Key::Up => {
                let max = self.get_filtered_command_names().len();
                proof {
                    reveal(string_views);
                }
                if self.selected_index < max {
                    self.selected_index = self.selected_index + 1;
                }
            },
            Key::Down => {
                if self.selected_index > 0 {
                    self.selected_index = self.selected_index - 1;
                }
            },
            Key::Tab => {
                if self.selected_index > 0 {
                    let keys = self.get_filtered_command_names();
                    proof {
                        reveal(string_views);
                        lemma_string_views_index(keys@, self.selected_index - 1);
                        law_filtered_names(self.commands@, self.data@);
                        let name = self.completions()[self.selected_index - 1];
                        assert(self.completions().contains(name));
                        let k = choose|k: int| 0 <= k < self.commands@.len() && #[trigger] self.commands@[k].0@ == name && is_prefix(self.data@, name);
                        assert forall|m: int| 0 <= m < name.len() implies is_printable_ascii(#[trigger] name[m]) by {
                            assert(is_printable_ascii(self.commands@[k].0@[m]));
                        }
                        lemma_typed_width_ascii(name);
                    }
                    let command = keys[self.selected_index - 1].clone();
                    self.data = command;
                    let text = self.data.as_str();
                    proof {
                        assert(text@ == self.data@);
                        assert(vstd::string::is_ascii(text));
                        vstd::string::is_ascii_spec_bytes(text);
                    }
                    self.cursor_x = text.len() + 1;
                }
            },
            Key::Char(c) => {
                if let Some(width) = char_unicode_width(c) {
                    let ghost before = self.data@;
                    string_push(&mut self.data, c);
                    proof {
                        assert(self.data@.drop_last() =~= before);
                        assert(typed_width(self.data@) == typed_width(before) + column_width(c));
                        lemma_typed_width_nonneg(before);
                    }
                    self.cursor_x = self.cursor_x + width;
                }
            },
            _ => {},
        }
        return BuilderEvent::Incomplete;
    }
}

} // verus!
