//! The text buffer: a gap buffer of bytes, a table of named marks into it, and
//! an undo/redo log of the edits made to it.

use std::collections::HashMap;

use gapbuffer::GapBuffer;
use vstd::prelude::*;

use super::iterators::Lines;
use super::log::{reverse_changes, Change, EntryView, Log, LogEntry, LogView};
use super::textobject::{Anchor, Kind, Offset, TextObject};
use super::utils::string_push_str;

verus! {

broadcast use vstd::std_specs::hash::group_hash_axioms;

// ---------------------------------------------------------------------------
// The gap buffer of the `gapbuffer` crate, and the contracts assumed of its methods.
// ---------------------------------------------------------------------------

#[verifier::external_type_specification]
#[verifier::external_body]
#[verifier::reject_recursive_types(T)]
pub struct ExGapBuffer<T>(GapBuffer<T>);

/// The bytes a gap buffer holds, front to back.
pub uninterp spec fn gap_contents(b: GapBuffer<u8>) -> Seq<u8>;

/// `GapBuffer::new`: an empty gap buffer.
#[verifier::external_body]
pub(crate) fn gap_new() -> (b: GapBuffer<u8>)
    ensures
        gap_contents(b) == Seq::<u8>::empty(),
{
    GapBuffer::new()
}

/// `GapBuffer::len`: the number of bytes held.
#[verifier::external_body]
pub(crate) fn gap_len(b: &GapBuffer<u8>) -> (r: usize)
    ensures
        r == gap_contents(*b).len(),
{
    b.len()
}

/// `GapBuffer` indexing (`Index::index`): the byte at position `i`; it panics past the end.
#[verifier::external_body]
pub(crate) fn gap_index(b: &GapBuffer<u8>, i: usize) -> (r: u8)
    requires
        i < gap_contents(*b).len(),
    ensures
        r == gap_contents(*b)[i as int],
{
    b[i]
}

/// `GapBuffer::insert`: puts `t` at position `i`, shifting the rest right; it
/// panics when `i` is past the end.
#[verifier::external_body]
pub(crate) fn gap_insert(b: &mut GapBuffer<u8>, i: usize, t: u8)
    requires
        i <= gap_contents(*old(b)).len(),
    ensures
        gap_contents(*final(b)) == gap_contents(*old(b)).insert(i as int, t),
{
    b.insert(i, t)
}

/// `GapBuffer::remove`: takes out and returns the byte at `i`, or returns `None`
/// and changes nothing when `i` is past the end.
#[verifier::external_body]
pub(crate) fn gap_remove(b: &mut GapBuffer<u8>, i: usize) -> (r: Option<u8>)
    ensures
        i < gap_contents(*old(b)).len() ==> r == Some(gap_contents(*old(b))[i as int])
            && gap_contents(*final(b)) == gap_contents(*old(b)).remove(i as int),
        i >= gap_contents(*old(b)).len() ==> r is None && gap_contents(*final(b)) == gap_contents(
            *old(b),
        ),
{
    b.remove(i)
}

/// `GapBuffer::extend` on an empty gap buffer: afterwards it holds `bytes`.
/// Only the empty case is claimed: on a buffer that already holds bytes the
/// crate's `extend` appends after the gap without moving the gap past them, so
/// the result is not the old contents followed by the new ones.
#[verifier::external_body]
pub(crate) fn gap_extend(b: &mut GapBuffer<u8>, bytes: &[u8])
    requires
        gap_contents(*old(b)).len() == 0,
    ensures
        gap_contents(*final(b)) == gap_contents(*old(b)) + bytes@,
{
    b.extend(bytes.iter().cloned())
}

// ---------------------------------------------------------------------------
// Marks
// ---------------------------------------------------------------------------

/// A position in the text: its index, the index where its line starts, and
/// the number of that line (from 0).
#[derive(PartialEq, Eq, Structural, Debug, Clone, Copy)]
pub struct MarkPosition {
    pub absolute: usize,
    absolute_line_start: usize,
    line_number: usize,
}

/// The position with the given index, line start and line number.
pub closed spec fn mark_pos(absolute: int, line_start: int, line_number: int) -> MarkPosition {
    MarkPosition {
        absolute: absolute as usize,
        absolute_line_start: line_start as usize,
        line_number: line_number as usize,
    }
}

/// A position built by `mark_pos` holds the three values given, each taken as a
/// `usize`, and every position is the one built from its own three values.
pub proof fn lemma_mark_pos(absolute: int, line_start: int, line_number: int, p: MarkPosition)
    ensures
        mark_pos(absolute, line_start, line_number).pos() == absolute as usize,
        mark_pos(absolute, line_start, line_number).line_start() == line_start as usize,
        mark_pos(absolute, line_start, line_number).line_num() == line_number as usize,
        p == mark_pos(p.pos() as int, p.line_start() as int, p.line_num() as int),
{
}

impl MarkPosition {
    /// The index of this position.
    pub closed spec fn pos(self) -> usize {
        self.absolute
    }

    /// The index where the line of this position starts.
    pub closed spec fn line_start(self) -> usize {
        self.absolute_line_start
    }

    /// The number of the line of this position.
    pub closed spec fn line_num(self) -> usize {
        self.line_number
    }

    /// The index of this position.
    pub fn index(&self) -> (r: usize)
        ensures
            r == self.pos(),
    {
        self.absolute
    }

    fn start() -> (r: MarkPosition)
        ensures
            r == mark_pos(0, 0, 0),
    {
        MarkPosition { absolute: 0, line_number: 0, absolute_line_start: 0 }
    }
}

impl From<(usize, usize, usize)> for MarkPosition {
    fn from(tuple: (usize, usize, usize)) -> (r: MarkPosition)
        ensures
            r == mark_pos(tuple.0 as int, tuple.1 as int, tuple.2 as int),
    {
        let mut mark_pos = MarkPosition::start();
        mark_pos.absolute = tuple.0;
        mark_pos.absolute_line_start = tuple.1;
        mark_pos.line_number = tuple.2;
        mark_pos
    }
}

impl vstd::std_specs::convert::FromSpecImpl<(usize, usize, usize)> for MarkPosition {
    open spec fn obeys_from_spec() -> bool {
        true
    }

    open spec fn from_spec(v: (usize, usize, usize)) -> MarkPosition {
        mark_pos(v.0 as int, v.1 as int, v.2 as int)
    }
}

/// A named position in the buffer.
#[derive(Copy, Clone, PartialEq, Eq, Hash, Debug, Structural)]
pub enum Mark {
    /// For keeping track of cursors.
    Cursor(usize),
    /// For using in determining some display of characters
    DisplayMark(usize),
}

/// The key under which the mark table holds a mark: distinct marks have distinct keys.
pub open spec fn mark_key(m: Mark) -> u128 {
    match m {
        Mark::Cursor(n) => (2 * n) as u128,
        Mark::DisplayMark(n) => (2 * n + 1) as u128,
    }
}

fn key_of(m: Mark) -> (k: u128)
    ensures
        k == mark_key(m),
{
    match m {
        Mark::Cursor(n) => (n as u128) * 2,
        Mark::DisplayMark(n) => (n as u128) * 2 + 1,
    }
}

/// Different marks are kept under different keys.
pub proof fn lemma_mark_key_injective(a: Mark, b: Mark)
    ensures
        mark_key(a) == mark_key(b) ==> a == b,
{
}

/// How the start of a word is recognised.
#[derive(Copy, Clone, PartialEq, Eq, Debug, Structural)]
pub enum WordEdgeMatch {
    Whitespace,
}

/// The bytes whose character has the Unicode White_Space property.
pub open spec fn is_whitespace_byte(b: u8) -> bool {
    b == 9 || b == 10 || b == 11 || b == 12 || b == 13 || b == 32 || b == 0x85 || b == 0xa0
}

/// `c1 -> c2` starts a word: a blank line, or whitespace followed by non-whitespace.
pub open spec fn spec_is_word_edge(c1: u8, c2: u8) -> bool {
    (c1 == 10 && c2 == 10) || (is_whitespace_byte(c1) && !is_whitespace_byte(c2))
}

fn is_whitespace(b: u8) -> (r: bool)
    ensures
        r == is_whitespace_byte(b),
{
    b == 9 || b == 10 || b == 11 || b == 12 || b == 13 || b == 32 || b == 0x85 || b == 0xa0
}

impl WordEdgeMatch {
    /// If c1 -> c2 is the start of a word.
    /// If end of word matching is wanted then pass the chars in reversed.
    fn is_word_edge(&self, c1: &u8, c2: &u8) -> (r: bool)
        ensures
            r == spec_is_word_edge(*c1, *c2),
    {
        if *c1 == 10 && *c2 == 10 {
            true
        } else {
            is_whitespace(*c1) && !is_whitespace(*c2)
        }
    }
}

// ---------------------------------------------------------------------------
// Sequences of positions in the text
// ---------------------------------------------------------------------------

pub open spec fn min_int(a: int, b: int) -> int {
    if a <= b {
        a
    } else {
        b
    }
}

/// The positions of newlines in `[lo, hi)`, ascending.
pub open spec fn newlines_up(t: Seq<u8>, lo: int, hi: int) -> Seq<int>
    decreases hi - lo,
{
    if hi <= lo {
        Seq::empty()
    } else {
        let r = newlines_up(t, lo, hi - 1);
        if t[hi - 1] == 10 {
            r.push(hi - 1)
        } else {
            r
        }
    }
}

/// The positions of newlines in `[lo, hi)`, descending.
pub open spec fn newlines_down(t: Seq<u8>, lo: int, hi: int) -> Seq<int>
    decreases hi - lo,
{
    if hi <= lo {
        Seq::empty()
    } else {
        let r = newlines_down(t, lo + 1, hi);
        if t[lo] == 10 {
            r.push(lo)
        } else {
            r
        }
    }
}

/// The word starts in `[lo, hi)`, ascending.
pub open spec fn edges_up(t: Seq<u8>, lo: int, hi: int) -> Seq<int>
    decreases hi - lo,
{
    if hi <= lo {
        Seq::empty()
    } else {
        let r = edges_up(t, lo, hi - 1);
        if spec_is_word_edge(t[hi - 2], t[hi - 1]) {
            r.push(hi - 1)
        } else {
            r
        }
    }
}

/// The word starts in `[lo, hi)`, descending.
pub open spec fn edges_down(t: Seq<u8>, lo: int, hi: int) -> Seq<int>
    decreases hi - lo,
{
    if hi <= lo {
        Seq::empty()
    } else {
        let r = edges_down(t, lo + 1, hi);
        if spec_is_word_edge(t[lo - 1], t[lo]) {
            r.push(lo)
        } else {
            r
        }
    }
}

/// The first `k` elements of `s`, or all of them when there are fewer.
pub open spec fn take_at_most(s: Seq<int>, k: int) -> Seq<int> {
    if k >= s.len() {
        s
    } else {
        s.take(k)
    }
}

/// The `nth` element of `s` (from 1), the last one when there are fewer, and
/// nothing when `nth` is 0 or `s` is empty.
pub open spec fn nth_or_last(s: Seq<int>, nth: int) -> Option<int> {
    if nth == 0 || s.len() == 0 {
        None
    } else {
        Some(s[min_int(nth, s.len() as int) - 1])
    }
}

/// `a` holds the integers of `b`, in order.
pub open spec fn same_ints(a: Seq<usize>, b: Seq<int>) -> bool {
    a.len() == b.len() && forall|j: int| 0 <= j < a.len() ==> a[j] as int == #[trigger] b[j]
}

proof fn lemma_take_at_most_push(l: Seq<int>, x: int, k: int)
    requires
        k >= 0,
    ensures
        l.len() < k ==> take_at_most(l.push(x), k) == take_at_most(l, k).push(x),
        l.len() >= k ==> take_at_most(l.push(x), k) == take_at_most(l, k),
{
    if l.len() >= k {
        assert(l.push(x).take(k) =~= take_at_most(l, k));
    }
}

proof fn lemma_newlines_up_bounds(t: Seq<u8>, lo: int, hi: int)
    ensures
        forall|j: int| 0 <= j < newlines_up(t, lo, hi).len() ==> lo <= #[trigger] newlines_up(t, lo, hi)[j] < hi,
    decreases hi - lo,
{
    if hi > lo {
        lemma_newlines_up_bounds(t, lo, hi - 1);
        let r = newlines_up(t, lo, hi - 1);
        assert forall|j: int| 0 <= j < newlines_up(t, lo, hi).len() implies lo <= #[trigger] newlines_up(t, lo, hi)[j] < hi by {
            if j < r.len() {
                assert(newlines_up(t, lo, hi)[j] == r[j]);
            }
        }
    }
}

proof fn lemma_newlines_down_bounds(t: Seq<u8>, lo: int, hi: int)
    ensures
        forall|j: int| 0 <= j < newlines_down(t, lo, hi).len() ==> lo <= #[trigger] newlines_down(t, lo, hi)[j] < hi,
    decreases hi - lo,
{
    if hi > lo {
        lemma_newlines_down_bounds(t, lo + 1, hi);
        let r = newlines_down(t, lo + 1, hi);
        assert forall|j: int| 0 <= j < newlines_down(t, lo, hi).len() implies lo <= #[trigger] newlines_down(t, lo, hi)[j] < hi by {
            if j < r.len() {
                assert(newlines_down(t, lo, hi)[j] == r[j]);
            }
        }
    }
}

proof fn lemma_edges_up_bounds(t: Seq<u8>, lo: int, hi: int)
    ensures
        forall|j: int| 0 <= j < edges_up(t, lo, hi).len() ==> lo <= #[trigger] edges_up(t, lo, hi)[j] < hi,
    decreases hi - lo,
{
    if hi > lo {
        lemma_edges_up_bounds(t, lo, hi - 1);
        let r = edges_up(t, lo, hi - 1);
        assert forall|j: int| 0 <= j < edges_up(t, lo, hi).len() implies lo <= #[trigger] edges_up(t, lo, hi)[j] < hi by {
            if j < r.len() {
                assert(edges_up(t, lo, hi)[j] == r[j]);
            }
        }
    }
}

proof fn lemma_edges_down_bounds(t: Seq<u8>, lo: int, hi: int)
    ensures
        forall|j: int| 0 <= j < edges_down(t, lo, hi).len() ==> lo <= #[trigger] edges_down(t, lo, hi)[j] < hi,
    decreases hi - lo,
{
    if hi > lo {
        lemma_edges_down_bounds(t, lo + 1, hi);
        let r = edges_down(t, lo + 1, hi);
        assert forall|j: int| 0 <= j < edges_down(t, lo, hi).len() implies lo <= #[trigger] edges_down(t, lo, hi)[j] < hi by {
            if j < r.len() {
                assert(edges_down(t, lo, hi)[j] == r[j]);
            }
        }
    }
}

proof fn lemma_newlines_up_len(t: Seq<u8>, lo: int, hi: int)
    requires
        lo <= hi,
    ensures
        newlines_up(t, lo, hi).len() <= hi - lo,
    decreases hi - lo,
{
    if hi > lo {
        lemma_newlines_up_len(t, lo, hi - 1);
    }
}

/// Where the line holding position `v` starts.
pub open spec fn line_start_of(t: Seq<u8>, v: int) -> int
    decreases v,
{
    if v <= 0 {
        0
    } else if t[v - 1] == 10 {
        v
    } else {
        line_start_of(t, v - 1)
    }
}

proof fn lemma_line_start_bounds(t: Seq<u8>, v: int)
    requires
        v >= 0,
    ensures
        0 <= line_start_of(t, v) <= v,
    decreases v,
{
    if v > 0 {
        lemma_line_start_bounds(t, v - 1);
    }
}

/// The position `mark` with the line it lies on, counted over the text up to
/// `mark` (or to the end of the text when `mark` is beyond it).
pub open spec fn spec_line_info(t: Seq<u8>, mark: int) -> MarkPosition {
    let v = min_int(mark, t.len() as int);
    mark_pos(mark, line_start_of(t, v), newlines_up(t, 0, v).len() as int)
}

// ---------------------------------------------------------------------------
// Where a text object lies
// ---------------------------------------------------------------------------

/// The word starts after `mark`, the `nth` of them or the last one found.
pub open spec fn words_spec(t: Seq<u8>, mark: int, nth: int) -> Option<int> {
    if t.len() == 0 {
        None
    } else {
        nth_or_last(edges_up(t, mark + 1, t.len() - 1), nth)
    }
}

/// The word starts before `mark`, going backward, the `nth` of them or the last one found.
pub open spec fn words_rev_spec(t: Seq<u8>, mark: int, nth: int) -> Option<int> {
    nth_or_last(edges_down(t, 1, mark), nth)
}

/// Where a char offset leads: forward by `k` from a mark (stopping at the end of
/// the text), backward by `k` (not past the start), or to an absolute index.
pub open spec fn char_index(t: Seq<u8>, marks: Map<u128, MarkPosition>, off: Offset) -> Option<
    MarkPosition,
> {
    match off {
        Offset::Forward(k, m) => if marks.contains_key(mark_key(m)) {
            let p = marks[mark_key(m)];
            let na = p.pos() + k;
            if na < t.len() {
                Some(spec_line_info(t, na))
            } else {
                Some(spec_line_info(t, t.len() as int))
            }
        } else {
            None
        },
        Offset::Backward(k, m) => if marks.contains_key(mark_key(m)) {
            let p = marks[mark_key(m)];
            if p.pos() >= k {
                Some(spec_line_info(t, p.pos() - k))
            } else {
                None
            }
        } else {
            None
        },
        Offset::Absolute(a) => Some(mark_pos(a as int, 0, 0)),
    }
}

/// Finding a char offset does not overflow.
pub open spec fn char_index_safe(t: Seq<u8>, marks: Map<u128, MarkPosition>, off: Offset) -> bool {
    match off {
        Offset::Forward(k, m) => marks.contains_key(mark_key(m)) ==> marks[mark_key(m)].pos() + k
            <= usize::MAX,
        _ => true,
    }
}

/// Where the absolute line `ln` (counted from 1) leads: the start of that line,
/// or the newline ending the line before it, found among the newlines of `t`.
pub open spec fn line_abs_index(t: Seq<u8>, a: Anchor, ln: int) -> Option<MarkPosition> {
    let nl = take_at_most(newlines_up(t, 0, t.len() as int), ln + 1);
    match a {
        Anchor::Start => Some(mark_pos(nl[0] + 1, nl[0] + 1, ln - 1)),
        Anchor::End => Some(mark_pos(nl[ln - 1], 0, 0)),
        _ => None,
    }
}

/// The absolute line `ln` exists in `t` for the anchor asked for.
pub open spec fn line_abs_safe(t: Seq<u8>, a: Anchor, ln: int) -> bool {
    let nl = take_at_most(newlines_up(t, 0, t.len() as int), ln + 1);
    &&& ln < usize::MAX
    &&& match a {
        Anchor::Start => nl.len() >= 1 && ln >= 1,
        Anchor::End => ln >= 1 && ln - 1 < nl.len(),
        _ => true,
    }
}

/// Where moving back `k` lines from mark `m` leads. `nl` lists the newlines before
/// the mark, nearest first (at most `k + 1` of them), so the line `k` above the
/// mark's line starts just past `nl[k]` and ends at `nl[k - 1]`; `col` is the
/// mark's column.
/// - `Same`: the mark's column on that line, cut at the line's end. When the
///   target is the first line of the text (exactly `k` newlines before the
///   mark), the column is cut at the nearest newline instead; when there are
///   fewer lines above, or `k` is 0, the start of the text.
/// - `Start`: the start of the line `k` above (the start of the text when no
///   newline comes before the mark).
pub open spec fn line_bwd_index(
    t: Seq<u8>,
    marks: Map<u128, MarkPosition>,
    a: Anchor,
    k: int,
    m: Mark,
) -> Option<MarkPosition> {
    if !marks.contains_key(mark_key(m)) {
        None
    } else {
        let p = marks[mark_key(m)];
        let nl = take_at_most(newlines_down(t, 0, p.pos() as int), k + 1);
        let col = p.pos() - p.line_start();
        match a {
            Anchor::Start => if nl.len() == 0 {
                Some(mark_pos(0, 0, 0))
            } else {
                let so = min_int(col + nl[k] + 1, nl[k]);
                Some(mark_pos(so + 1, nl[0] + 1, nl.len() as int))
            },
            Anchor::Same => if k == nl.len() {
                Some(mark_pos(min_int(col, nl[0]), 0, 0))
            } else if k > nl.len() || k == 0 {
                Some(mark_pos(0, 0, 0))
            } else {
                let start = nl[k] + 1;
                let end = nl[k - 1];
                Some(mark_pos(min_int(col + start, end), start, p.line_num() - k))
            },
            _ => None,
        }
    }
}

/// Moving back `k` lines from mark `m` stays within the text and does not overflow.
pub open spec fn line_bwd_safe(
    t: Seq<u8>,
    marks: Map<u128, MarkPosition>,
    a: Anchor,
    k: int,
    m: Mark,
) -> bool {
    marks.contains_key(mark_key(m)) ==> {
        let p = marks[mark_key(m)];
        let nl = take_at_most(newlines_down(t, 0, p.pos() as int), k + 1);
        &&& k < usize::MAX
        &&& (p.pos() == 0 || p.pos() <= t.len())
        &&& match a {
            Anchor::Start => nl.len() == 0 || k < nl.len(),
            Anchor::Same => if k == nl.len() {
                nl.len() > 0
            } else if k > nl.len() || k == 0 {
                true
            } else {
                p.line_num() >= k
            },
            _ => true,
        }
    }
}

/// Where moving forward `k` lines from mark `m` leads. `nl` lists the newlines at
/// or after the mark, nearest first (at most `k + 1` of them), so the line `k`
/// below the mark's line starts just past `nl[k - 1]` and ends at `nl[k]`, or at
/// the end of the text when no further newline comes; `col` is the mark's
/// column. Without a newline ahead there is no line to move to.
/// - `Same`: the mark's column on that line, cut at the line's end; the line
///   number grows by `k`. (When the target is not the last line, the line start
///   recorded is that of the line just below the mark.) With fewer lines below,
///   the end of the text.
/// - `End`: the end of the mark's own line moved `k` lines on: the newline
///   `nl[k]`.
pub open spec fn line_fwd_index(
    t: Seq<u8>,
    marks: Map<u128, MarkPosition>,
    a: Anchor,
    k: int,
    m: Mark,
) -> Option<MarkPosition> {
    if !marks.contains_key(mark_key(m)) {
        None
    } else {
        let p = marks[mark_key(m)];
        let nl = take_at_most(newlines_up(t, p.pos() as int, t.len() as int), k + 1);
        let col = p.pos() - p.line_start();
        if nl.len() == 0 {
            None
        } else {
            match a {
                Anchor::Same => if k > nl.len() {
                    Some(mark_pos(t.len() as int, nl[0] + 1, 1))
                } else {
                    let start = nl[k - 1] + 1;
                    let end = if k < nl.len() {
                        nl[k]
                    } else {
                        t.len() as int
                    };
                    Some(
                        mark_pos(
                            min_int(col + start, end),
                            if k < nl.len() {
                                nl[0] + 1
                            } else {
                                start
                            },
                            p.line_num() + k,
                        ),
                    )
                },
                Anchor::End => Some(
                    mark_pos(
                        min_int(col + nl[k] + 1, nl[k]),
                        p.line_start() as int,
                        p.line_num() as int,
                    ),
                ),
                _ => None,
            }
        }
    }
}

/// The newlines of `[lo, hi)` are those of `[lo, mid)` followed by those of `[mid, hi)`.
proof fn lemma_newlines_up_split(t: Seq<u8>, lo: int, mid: int, hi: int)
    requires
        lo <= mid <= hi,
    ensures
        newlines_up(t, lo, hi) == newlines_up(t, lo, mid) + newlines_up(t, mid, hi),
    decreases hi - mid,
{
    if hi > mid {
        lemma_newlines_up_split(t, lo, mid, hi - 1);
        let a = newlines_up(t, lo, mid);
        let b = newlines_up(t, mid, hi - 1);
        assert((a + b).push(hi - 1) =~= a + b.push(hi - 1));
    } else {
        assert(newlines_up(t, lo, mid) + newlines_up(t, mid, hi) =~= newlines_up(t, lo, mid));
    }
}

/// Each listed newline lies in `[lo, hi)`, is a newline, and has as many
/// newlines before it (from `lo`) as its place in the list.
proof fn lemma_newlines_up_elems(t: Seq<u8>, lo: int, hi: int)
    ensures
        forall|j: int|
            0 <= j < newlines_up(t, lo, hi).len() ==> {
                let x = #[trigger] newlines_up(t, lo, hi)[j];
                &&& lo <= x < hi
                &&& t[x] == 10
                &&& newlines_up(t, lo, x).len() == j
            },
    decreases hi - lo,
{
    if hi > lo {
        lemma_newlines_up_elems(t, lo, hi - 1);
        let r = newlines_up(t, lo, hi - 1);
        assert forall|j: int| 0 <= j < newlines_up(t, lo, hi).len() implies {
            let x = #[trigger] newlines_up(t, lo, hi)[j];
            &&& lo <= x < hi
            &&& t[x] == 10
            &&& newlines_up(t, lo, x).len() == j
        } by {
            if j < r.len() {
                assert(newlines_up(t, lo, hi)[j] == r[j]);
            }
        }
    }
}

/// Where no newline is listed, there is none.
proof fn lemma_newlines_up_none(t: Seq<u8>, lo: int, hi: int, x: int)
    requires
        newlines_up(t, lo, hi).len() == 0,
        lo <= x < hi,
    ensures
        t[x] != 10,
    decreases hi - lo,
{
    if x < hi - 1 {
        lemma_newlines_up_none(t, lo, hi - 1, x);
    }
}

/// A line starts just past a newline when no newline comes between.
proof fn lemma_line_start_after_newline(t: Seq<u8>, s: int, v: int)
    requires
        1 <= s <= v,
        t[s - 1] == 10,
        forall|x: int| s <= x < v ==> t[x] != 10,
    ensures
        line_start_of(t, v) == s,
    decreases v,
{
    if v > s {
        lemma_line_start_after_newline(t, s, v - 1);
    }
}

/// Moving a mark `k` lines forward with `Anchor::Same`, where there are at
/// least `k` lines below its line, keeps its column: the column of the place
/// reached (its index minus the start of its line) is the mark's column, or
/// less where the target line is shorter, and then the place reached is the
/// end of that line. The place reached lies `k` lines below the mark's line.
pub proof fn law_line_forward_keeps_column(t: Seq<u8>, marks: Map<u128, MarkPosition>, m: Mark, k: int)
    requires
        t.len() <= usize::MAX,
        marks.contains_key(mark_key(m)),
        marks[mark_key(m)].pos() <= t.len(),
        marks[mark_key(m)].line_start() == line_start_of(t, marks[mark_key(m)].pos() as int),
        1 <= k <= newlines_up(t, marks[mark_key(m)].pos() as int, t.len() as int).len(),
    ensures
        ({
            let p = marks[mark_key(m)];
            let col = p.pos() - p.line_start();
            line_fwd_index(t, marks, Anchor::Same, k, m) matches Some(q) && {
                let c = q.pos() - line_start_of(t, q.pos() as int);
                &&& q.pos() <= t.len()
                &&& c <= col
                &&& (c == col || q.pos() == t.len() || t[q.pos() as int] == 10)
                &&& newlines_up(t, 0, q.pos() as int).len() == newlines_up(t, 0, p.pos() as int).len() + k
            }
        }),
{
    let p = marks[mark_key(m)];
    let a = p.pos() as int;
    let n = t.len() as int;
    let all = newlines_up(t, a, n);
    let nl = take_at_most(all, k + 1);
    lemma_line_start_bounds(t, a);
    let col = p.pos() - p.line_start();
    lemma_newlines_up_elems(t, a, n);
    let s1 = all[k - 1];
    let start = s1 + 1;
    assert(nl[k - 1] == s1);
    let end = if k < nl.len() { nl[k] } else { n };
    if k < nl.len() {
        assert(nl[k] == all[k]);
    }
    let qv = min_int(col + start, end);
    // the newlines from the mark up to the target line's start, and to its end
    lemma_newlines_up_split(t, a, s1, start);
    assert(newlines_up(t, s1, start) =~= seq![s1]) by {
        assert(newlines_up(t, s1, s1) =~= Seq::<int>::empty());
    }
    assert(newlines_up(t, a, start).len() == k);
    assert(newlines_up(t, a, end).len() == k) by {
        if k < nl.len() {
        } else {
            assert(k == all.len());
        }
    }
    assert(start <= end) by {
        if k < nl.len() {
            assert(all[k - 1] < all[k]) by {
                if all[k] <= all[k - 1] {
                    lemma_newlines_up_split(t, a, all[k], all[k - 1]);
                }
            }
        }
    }
    assert(start <= qv <= end);
    lemma_newlines_up_split(t, a, start, qv);
    lemma_newlines_up_split(t, a, qv, end);
    lemma_newlines_up_split(t, start, qv, end);
    assert(newlines_up(t, start, qv).len() == 0);
    assert forall|x: int| start <= x < qv implies t[x] != 10 by {
        lemma_newlines_up_none(t, start, qv, x);
    }
    lemma_line_start_after_newline(t, start, qv);
    let q = mark_pos(qv, if k < nl.len() { nl[0] + 1 } else { start }, p.line_num() + k);
    lemma_mark_pos(qv, if k < nl.len() { nl[0] + 1 } else { start }, p.line_num() + k, q);
    assert(line_fwd_index(t, marks, Anchor::Same, k, m) == Some(q));
    lemma_newlines_up_split(t, 0, a, qv);
}

/// The newlines of `[lo, hi)` listed downward are those listed upward, reversed.
proof fn lemma_newlines_down_up(t: Seq<u8>, lo: int, hi: int)
    requires
        lo <= hi,
    ensures
        newlines_down(t, lo, hi) == newlines_up(t, lo, hi).reverse(),
    decreases hi - lo,
{
    if hi > lo {
        lemma_newlines_down_up(t, lo + 1, hi);
        lemma_newlines_up_split(t, lo, lo + 1, hi);
        assert(newlines_up(t, lo, lo) =~= Seq::<int>::empty());
        let a = newlines_up(t, lo, lo + 1);
        let b = newlines_up(t, lo + 1, hi);
        if t[lo] == 10 {
            assert(a =~= seq![lo]);
            assert((a + b).reverse() =~= b.reverse().push(lo));
        } else {
            assert(a =~= Seq::<int>::empty());
            assert((a + b).reverse() =~= b.reverse());
        }
    } else {
        assert(newlines_up(t, lo, hi).reverse() =~= Seq::<int>::empty());
    }
}

/// Moving a mark `k` lines backward with `Anchor::Same`, to a line that is not
/// the first line of the text, keeps its column: the column of the place
/// reached is the mark's column, or less where the target line is shorter, and
/// then the place reached is the end of that line. The place reached lies `k`
/// lines above the mark's line.
pub proof fn law_line_backward_keeps_column(t: Seq<u8>, marks: Map<u128, MarkPosition>, m: Mark, k: int)
    requires
        t.len() <= usize::MAX,
        marks.contains_key(mark_key(m)),
        marks[mark_key(m)].pos() <= t.len(),
        marks[mark_key(m)].line_start() == line_start_of(t, marks[mark_key(m)].pos() as int),
        1 <= k < newlines_up(t, 0, marks[mark_key(m)].pos() as int).len(),
    ensures
        ({
            let p = marks[mark_key(m)];
            let col = p.pos() - p.line_start();
            line_bwd_index(t, marks, Anchor::Same, k, m) matches Some(q) && {
                let c = q.pos() - line_start_of(t, q.pos() as int);
                &&& q.pos() <= p.pos()
                &&& c <= col
                &&& (c == col || t[q.pos() as int] == 10)
                &&& newlines_up(t, 0, q.pos() as int).len() + k == newlines_up(t, 0, p.pos() as int).len()
            }
        }),
{
    let p = marks[mark_key(m)];
    let a = p.pos() as int;
    let all = newlines_up(t, 0, a);
    let n = all.len() as int;
    lemma_newlines_down_up(t, 0, a);
    let nl = take_at_most(newlines_down(t, 0, a), k + 1);
    lemma_line_start_bounds(t, a);
    let col = p.pos() - p.line_start();
    lemma_newlines_up_elems(t, 0, a);
    assert(nl.len() == k + 1);
    assert(nl[k] == all[n - 1 - k]);
    assert(nl[k - 1] == all[n - k]);
    let start = all[n - 1 - k] + 1;
    let end = all[n - k];
    assert(all[n - 1 - k] < all[n - k]) by {
        if all[n - k] <= all[n - 1 - k] {
            lemma_newlines_up_split(t, 0, all[n - k], all[n - 1 - k]);
        }
    }
    let qv = min_int(col + start, end);
    lemma_newlines_up_split(t, 0, all[n - 1 - k], start);
    assert(newlines_up(t, all[n - 1 - k], start) =~= seq![all[n - 1 - k]]) by {
        assert(newlines_up(t, all[n - 1 - k], all[n - 1 - k]) =~= Seq::<int>::empty());
    }
    assert(newlines_up(t, 0, start).len() == n - k);
    assert(newlines_up(t, 0, end).len() == n - k);
    assert(start <= qv <= end);
    lemma_newlines_up_split(t, 0, start, qv);
    lemma_newlines_up_split(t, 0, qv, end);
    lemma_newlines_up_split(t, start, qv, end);
    assert(newlines_up(t, start, qv).len() == 0);
    assert forall|x: int| start <= x < qv implies t[x] != 10 by {
        lemma_newlines_up_none(t, start, qv, x);
    }
    lemma_line_start_after_newline(t, start, qv);
    let q = mark_pos(qv, start, p.line_num() - k);
    lemma_mark_pos(qv, start, p.line_num() - k, q);
    assert(line_bwd_index(t, marks, Anchor::Same, k, m) == Some(q));
}

/// Moving a mark `k` chars forward, where the text is long enough, lands `k`
/// chars further on; moving back `k` chars from there lands where the mark was.
pub proof fn law_char_forward_then_back(t: Seq<u8>, marks: Map<u128, MarkPosition>, m: Mark, k: usize)
    requires
        t.len() <= usize::MAX,
        marks.contains_key(mark_key(m)),
        marks[mark_key(m)].pos() + k < t.len(),
    ensures
        ({
            let p = marks[mark_key(m)];
            char_index(t, marks, Offset::Forward(k, m)) matches Some(q) && q.pos() == p.pos() + k && (
            char_index(t, marks.insert(mark_key(m), q), Offset::Backward(k, m)) matches Some(r) && r.pos()
                == p.pos())
        }),
{
    let p = marks[mark_key(m)];
    let na = p.pos() + k;
    let q = spec_line_info(t, na);
    let v = min_int(na, t.len() as int);
    lemma_mark_pos(na, line_start_of(t, v), newlines_up(t, 0, v).len() as int, q);
    let back = p.pos() as int;
    let v2 = min_int(back, t.len() as int);
    let r = spec_line_info(t, back);
    lemma_mark_pos(back, line_start_of(t, v2), newlines_up(t, 0, v2).len() as int, r);
}

/// Moving forward `k` lines from mark `m` does not overflow.
pub open spec fn line_fwd_safe(
    t: Seq<u8>,
    marks: Map<u128, MarkPosition>,
    a: Anchor,
    k: int,
    m: Mark,
) -> bool {
    marks.contains_key(mark_key(m)) ==> {
        let p = marks[mark_key(m)];
        let nl = take_at_most(newlines_up(t, p.pos() as int, t.len() as int), k + 1);
        &&& k < usize::MAX
        &&& (nl.len() == 0 || match a {
            Anchor::Same => if k == nl.len() {
                p.line_num() + k <= usize::MAX
            } else if k > nl.len() {
                true
            } else {
                k >= 1 && p.line_num() + k <= usize::MAX
            },
            Anchor::End => k < nl.len(),
            _ => true,
        })
    }
}

/// Where a line offset leads.
pub open spec fn line_index(t: Seq<u8>, marks: Map<u128, MarkPosition>, off: Offset, a: Anchor) -> Option<
    MarkPosition,
> {
    match off {
        Offset::Forward(k, m) => line_fwd_index(t, marks, a, k as int, m),
        Offset::Backward(k, m) => line_bwd_index(t, marks, a, k as int, m),
        Offset::Absolute(ln) => line_abs_index(t, a, ln as int),
    }
}

/// Finding a line offset does not fail.
pub open spec fn line_index_safe(
    t: Seq<u8>,
    marks: Map<u128, MarkPosition>,
    off: Offset,
    a: Anchor,
) -> bool {
    match off {
        Offset::Forward(k, m) => line_fwd_safe(t, marks, a, k as int, m),
        Offset::Backward(k, m) => line_bwd_safe(t, marks, a, k as int, m),
        Offset::Absolute(ln) => line_abs_safe(t, a, ln as int),
    }
}

/// Where a word offset leads: the `nth` word start after or before a mark (the
/// last one found when there are fewer), or the start of an absolute word.
pub open spec fn word_index(t: Seq<u8>, marks: Map<u128, MarkPosition>, off: Offset, a: Anchor) -> Option<
    MarkPosition,
> {
    match off {
        Offset::Forward(nth, m) => if !marks.contains_key(mark_key(m)) {
            None
        } else {
            let p = marks[mark_key(m)];
            match a {
                Anchor::Start => match words_spec(t, p.pos() as int, nth as int) {
                    Some(i) => Some(spec_line_info(t, i)),
                    None => Some(spec_line_info(t, t.len() as int)),
                },
                _ => Some(mark_pos(t.len() as int, 0, 0)),
            }
        },
        Offset::Backward(nth, m) => if !marks.contains_key(mark_key(m)) {
            None
        } else {
            let p = marks[mark_key(m)];
            match a {
                Anchor::Start => match words_rev_spec(t, p.pos() as int, nth as int) {
                    Some(i) => Some(spec_line_info(t, i)),
                    None => Some(mark_pos(0, 0, 0)),
                },
                _ => Some(mark_pos(t.len() as int, 0, 0)),
            }
        },
        Offset::Absolute(wn) => match a {
            Anchor::Start => Some(spec_line_info(t, words_spec(t, 0, wn - 1)->0)),
            _ => None,
        },
    }
}

/// Finding a word offset does not fail.
pub open spec fn word_index_safe(
    t: Seq<u8>,
    marks: Map<u128, MarkPosition>,
    off: Offset,
    a: Anchor,
) -> bool {
    match off {
        Offset::Forward(nth, m) => marks.contains_key(mark_key(m)) ==> match a {
            Anchor::Start => t.len() == 0 || marks[mark_key(m)].pos() < usize::MAX,
            _ => true,
        },
        Offset::Backward(nth, m) => marks.contains_key(mark_key(m)) ==> match a {
            Anchor::Start => {
                let p = marks[mark_key(m)];
                nth == 0 || p.pos() < 2 || p.pos() <= t.len()
            },
            _ => true,
        },
        Offset::Absolute(wn) => match a {
            Anchor::Start => wn >= 1 && words_spec(t, 0, wn - 1) is Some,
            _ => true,
        },
    }
}

/// Where the text object `obj` lies in the text `t`, given the marks.
pub open spec fn object_index(t: Seq<u8>, marks: Map<u128, MarkPosition>, obj: TextObject) -> Option<
    MarkPosition,
> {
    match obj.kind {
        Kind::Char => char_index(t, marks, obj.offset),
        Kind::Line(a) => line_index(t, marks, obj.offset, a),
        Kind::Word(a) => word_index(t, marks, obj.offset, a),
    }
}

/// Finding where `obj` lies does not fail (no arithmetic overflow and no index
/// past the end of the text).
pub open spec fn object_index_safe(t: Seq<u8>, marks: Map<u128, MarkPosition>, obj: TextObject) -> bool {
    match obj.kind {
        Kind::Char => char_index_safe(t, marks, obj.offset),
        Kind::Line(a) => line_index_safe(t, marks, obj.offset, a),
        Kind::Word(a) => word_index_safe(t, marks, obj.offset, a),
    }
}

// ---------------------------------------------------------------------------
// Replaying logged changes on a text
// ---------------------------------------------------------------------------

/// The text after one change.
pub open spec fn apply_change(t: Seq<u8>, c: Change) -> Seq<u8> {
    match c {
        Change::Insert(i, ch) => t.insert(i as int, ch as u8),
        Change::Remove(i, _) => if i < t.len() {
            t.remove(i as int)
        } else {
            t
        },
    }
}

/// The change fits the text it is played on: an insertion within the text of a
/// byte-sized char, a removal of the char that is there.
pub open spec fn faithful_change(t: Seq<u8>, c: Change) -> bool {
    match c {
        Change::Insert(i, ch) => i <= t.len() && (ch as int) < 256,
        Change::Remove(i, ch) => i < t.len() && t[i as int] as int == ch as int,
    }
}

/// The text after the changes, played in order.
pub open spec fn apply_changes(t: Seq<u8>, s: Seq<Change>) -> Seq<u8>
    decreases s.len(),
{
    if s.len() == 0 {
        t
    } else {
        apply_change(apply_changes(t, s.drop_last()), s.last())
    }
}

/// Each change fits the text it is played on.
pub open spec fn faithful_changes(t: Seq<u8>, s: Seq<Change>) -> bool
    decreases s.len(),
{
    if s.len() == 0 {
        true
    } else {
        faithful_changes(t, s.drop_last()) && faithful_change(apply_changes(t, s.drop_last()), s.last())
    }
}

/// A stack of log entries can be unwound from the text `t`: the reverse of its top entry
/// fits `t`, and the rest can be unwound from the text that the reverse gives.
pub open spec fn stack_consistent(t: Seq<u8>, s: Seq<EntryView>) -> bool
    decreases s.len(),
{
    if s.len() == 0 {
        true
    } else {
        let back = reverse_changes(s.last().changes);
        &&& faithful_changes(t, back)
        &&& apply_changes(t, back).len() <= isize::MAX
        &&& stack_consistent(apply_changes(t, back), s.drop_last())
    }
}

proof fn lemma_apply_concat(t: Seq<u8>, a: Seq<Change>, b: Seq<Change>)
    ensures
        apply_changes(t, a + b) == apply_changes(apply_changes(t, a), b),
        faithful_changes(t, a + b) == (faithful_changes(t, a) && faithful_changes(
            apply_changes(t, a),
            b,
        )),
    decreases b.len(),
{
    if b.len() == 0 {
        assert(a + b =~= a);
    } else {
        lemma_apply_concat(t, a, b.drop_last());
        assert((a + b).drop_last() =~= a + b.drop_last());
        assert((a + b).last() == b.last());
    }
}

/// The reverse of the reverse of the changes is the changes.
pub proof fn lemma_reverse_changes_involutive(s: Seq<Change>)
    ensures
        reverse_changes(reverse_changes(s)) == s,
{
    assert(reverse_changes(reverse_changes(s)) =~= s);
}

/// Playing changes that fit a text, then their reverse, gives the text back; and
/// the reverse fits the text the changes gave.
pub proof fn lemma_reverse_restores(t: Seq<u8>, s: Seq<Change>)
    requires
        faithful_changes(t, s),
    ensures
        faithful_changes(apply_changes(t, s), reverse_changes(s)),
        apply_changes(apply_changes(t, s), reverse_changes(s)) == t,
    decreases s.len(),
{
    if s.len() > 0 {
        let s1 = s.drop_last();
        let c = s.last();
        let t1 = apply_changes(t, s1);
        let t2 = apply_change(t1, c);
        lemma_reverse_restores(t, s1);
        let rc = seq![c.spec_reverse()];
        assert(reverse_changes(s) =~= rc + reverse_changes(s1));
        lemma_apply_concat(t2, rc, reverse_changes(s1));
        assert(rc.drop_last() =~= Seq::<Change>::empty());
        assert(apply_changes(t2, rc.drop_last()) == t2);
        assert(faithful_changes(t2, rc.drop_last()));
        assert(apply_changes(t2, rc) == apply_change(t2, c.spec_reverse()));
        match c {
            Change::Insert(i, ch) => {
                assert(t2.remove(i as int) =~= t1);
            },
            Change::Remove(i, ch) => {
                assert(t2.insert(i as int, ch as u8) =~= t1);
            },
        }
    }
}

proof fn lemma_faithful_prefix(t: Seq<u8>, s: Seq<Change>, i: int)
    requires
        faithful_changes(t, s),
        0 <= i < s.len(),
    ensures
        faithful_changes(t, s.take(i + 1)),
        faithful_change(apply_changes(t, s.take(i)), s[i]),
        apply_changes(t, s.take(i + 1)) == apply_change(apply_changes(t, s.take(i)), s[i]),
    decreases s.len(),
{
    if i + 1 == s.len() {
        assert(s.take(i + 1) =~= s);
        assert(s.take(i) =~= s.drop_last());
    } else {
        lemma_faithful_prefix(t, s.drop_last(), i);
        assert(s.drop_last().take(i + 1) =~= s.take(i + 1));
        assert(s.drop_last().take(i) =~= s.take(i));
    }
    assert(s.take(i + 1).drop_last() =~= s.take(i));
}

/// Performs the changes of a log entry on the text.
fn commit(transaction: &LogEntry, text: &mut GapBuffer<u8>)
    requires
        faithful_changes(gap_contents(*old(text)), transaction@.changes),
    ensures
        gap_contents(*final(text)) == apply_changes(gap_contents(*old(text)), transaction@.changes),
{
    let ghost t0 = gap_contents(*text);
    let ghost s = transaction@.changes;
    let mut i: usize = 0;
    assert(s.take(0) =~= Seq::<Change>::empty());
    while i < transaction.num_changes()
        invariant
            transaction@.changes == s,
            faithful_changes(t0, s),
            0 <= i <= s.len(),
            gap_contents(*text) == apply_changes(t0, s.take(i as int)),
        decreases s.len() - i,
    {
        proof {
            lemma_faithful_prefix(t0, s, i as int);
        }
        match transaction.change(i) {
            Change::Insert(idx, ch) => {
                gap_insert(text, idx, ch as u8);
            },
            Change::Remove(idx, _) => {
                gap_remove(text, idx);
            },
        }
        i = i + 1;
    }
    assert(s.take(s.len() as int) =~= s);
}


// ---------------------------------------------------------------------------
// Scans over the text
// ---------------------------------------------------------------------------

/// The first `want` newline positions in `[from, len)`, ascending.
fn newlines_forward(text: &GapBuffer<u8>, from: usize, want: usize) -> (r: Vec<usize>)
    ensures
        same_ints(
            r@,
            take_at_most(newlines_up(gap_contents(*text), from as int, gap_contents(*text).len() as int), want as int),
        ),
{
    let ghost t = gap_contents(*text);
    let n = gap_len(text);
    let mut r: Vec<usize> = Vec::new();
    let mut i = from;
    while i < n
        invariant
            n == t.len(),
            t == gap_contents(*text),
            from <= i,
            i <= n || i == from,
            same_ints(r@, take_at_most(newlines_up(t, from as int, i as int), want as int)),
        decreases n - i,
    {
        let ghost l = newlines_up(t, from as int, i as int);
        proof {
            lemma_take_at_most_push(l, i as int, want as int);
        }
        if gap_index(text, i) == 10 {
            if r.len() < want {
                r.push(i);
            }
        }
        i = i + 1;
    }
    proof {
        if from >= n {
            assert(newlines_up(t, from as int, i as int) =~= newlines_up(t, from as int, n as int));
        }
    }
    r
}

/// The first `want` newline positions in `[0, upto)`, going backward.
fn newlines_backward(text: &GapBuffer<u8>, upto: usize, want: usize) -> (r: Vec<usize>)
    requires
        upto <= gap_contents(*text).len(),
    ensures
        same_ints(r@, take_at_most(newlines_down(gap_contents(*text), 0, upto as int), want as int)),
{
    let ghost t = gap_contents(*text);
    let mut r: Vec<usize> = Vec::new();
    let mut i = upto;
    while i > 0
        invariant
            t == gap_contents(*text),
            upto <= t.len(),
            i <= upto,
            same_ints(r@, take_at_most(newlines_down(t, i as int, upto as int), want as int)),
        decreases i,
    {
        let ghost l = newlines_down(t, i as int, upto as int);
        proof {
            lemma_take_at_most_push(l, i - 1, want as int);
        }
        if gap_index(text, i - 1) == 10 {
            if r.len() < want {
                r.push(i - 1);
            }
        }
        i = i - 1;
    }
    r
}

/// The `n_words`th word start after `mark` (or the last one found).
fn get_words(mark: usize, n_words: usize, edger: WordEdgeMatch, text: &GapBuffer<u8>) -> (r: Option<usize>)
    requires
        gap_contents(*text).len() == 0 || mark < usize::MAX,
    ensures
        match words_spec(gap_contents(*text), mark as int, n_words as int) {
            Some(i) => r == Some(i as usize) && 0 <= i < gap_contents(*text).len(),
            None => r is None,
        },
{
    let ghost t = gap_contents(*text);
    let text_len = gap_len(text);
    if text_len == 0 {
        return None;
    }
    let lo = mark + 1;
    let hi = text_len - 1;
    let mut idx = lo;
    let mut cnt: usize = 0;
    let mut result: Option<usize> = None;
    while idx < hi
        invariant
            t == gap_contents(*text),
            hi == t.len() - 1,
            lo == mark + 1,
            lo <= idx,
            idx <= hi || idx == lo,
            cnt <= idx - lo,
            cnt == edges_up(t, lo as int, idx as int).len(),
            match nth_or_last(edges_up(t, lo as int, idx as int), n_words as int) {
                Some(i) => result == Some(i as usize) && lo <= i < idx,
                None => result is None,
            },
        decreases hi - idx,
    {
        proof {
            lemma_edges_up_bounds(t, lo as int, idx as int);
        }
        let c1 = gap_index(text, idx - 1);
        let c2 = gap_index(text, idx);
        if edger.is_word_edge(&c1, &c2) {
            if n_words > 0 && cnt < n_words {
                result = Some(idx);
            }
            cnt = cnt + 1;
        }
        idx = idx + 1;
    }
    proof {
        if lo >= hi {
            assert(edges_up(t, lo as int, idx as int) =~= edges_up(t, lo as int, hi as int));
        }
    }
    result
}

/// The `n_words`th word start before `mark`, going backward (or the last one found).
fn get_words_rev(mark: usize, n_words: usize, edger: WordEdgeMatch, text: &GapBuffer<u8>) -> (r: Option<usize>)
    requires
        n_words == 0 || mark < 2 || mark <= gap_contents(*text).len(),
    ensures
        match words_rev_spec(gap_contents(*text), mark as int, n_words as int) {
            Some(i) => r == Some(i as usize) && 0 <= i < gap_contents(*text).len(),
            None => r is None,
        },
{
    let ghost t = gap_contents(*text);
    if n_words == 0 || mark < 2 {
        return None;
    }
    let mut i = mark;
    let mut cnt: usize = 0;
    let mut result: Option<usize> = None;
    while i > 1
        invariant
            t == gap_contents(*text),
            2 <= mark <= t.len(),
            1 <= i <= mark,
            n_words > 0,
            cnt <= mark - i,
            cnt == edges_down(t, i as int, mark as int).len(),
            match nth_or_last(edges_down(t, i as int, mark as int), n_words as int) {
                Some(j) => result == Some(j as usize) && i <= j < mark,
                None => result is None,
            },
        decreases i,
    {
        let c1 = gap_index(text, i - 2);
        let c2 = gap_index(text, i - 1);
        if edger.is_word_edge(&c1, &c2) {
            if cnt < n_words {
                result = Some(i - 1);
            }
            cnt = cnt + 1;
        }
        i = i - 1;
    }
    result
}

/// The position `mark`, with the start and the number of the line it lies on.
pub fn get_line_info(mark: usize, text: &GapBuffer<u8>) -> (r: Option<MarkPosition>)
    ensures
        r == Some(spec_line_info(gap_contents(*text), mark as int)),
{
    let ghost t = gap_contents(*text);
    let n = gap_len(text);
    let val = if mark < n {
        mark
    } else {
        n
    };
    let mut i: usize = 0;
    let mut count: usize = 0;
    let mut line_start: usize = 0;
    while i < val
        invariant
            t == gap_contents(*text),
            val <= t.len(),
            i <= val,
            count <= i,
            count == newlines_up(t, 0, i as int).len(),
            line_start == line_start_of(t, i as int),
        decreases val - i,
    {
        if gap_index(text, i) == 10 {
            count = count + 1;
            line_start = i + 1;
        }
        i = i + 1;
    }
    let mut mark_pos = MarkPosition::start();
    mark_pos.absolute_line_start = line_start;
    mark_pos.line_number = count;
    mark_pos.absolute = mark;
    Some(mark_pos)
}

fn min_usize(a: usize, b: usize) -> (r: usize)
    ensures
        r == min_int(a as int, b as int),
{
    if a <= b {
        a
    } else {
        b
    }
}

// ---------------------------------------------------------------------------
// The buffer
// ---------------------------------------------------------------------------

/// The changes that removing `[lo, hi)` logs: one removal per char, last first.
pub open spec fn remove_changes(t: Seq<u8>, lo: int, hi: int) -> Seq<Change> {
    Seq::new((hi - lo) as nat, |j: int| Change::Remove((hi - 1 - j) as usize, t[hi - 1 - j] as char))
}

/// The end of the range that a removal of `[start, end)` reaches in a text of length `n`.
pub open spec fn removal_end(n: int, end: int) -> int {
    min_int(end, n)
}

/// A text editing buffer.
pub struct Buffer {
    /// Current buffers text
    text: GapBuffer<u8>,
    /// Table of marked indices in the text, keyed by `mark_key`
    marks: HashMap<u128, MarkPosition>,
    /// Transaction history (used for undo/redo)
    pub log: Log,
    /// Location on disk where the current buffer should be written
    pub file_path: Option<String>,
    /// Whether or not the Buffer has unsaved changes
    pub dirty: bool,
}

impl Buffer {
    /// The text of the buffer.
    pub closed spec fn text_view(&self) -> Seq<u8> {
        gap_contents(self.text)
    }

    /// The marks of the buffer, by key.
    pub closed spec fn marks_view(&self) -> Map<u128, MarkPosition> {
        self.marks@
    }

    /// The buffer is well formed: its text fits the address space twice over,
    /// every mark lies at or after the start of its line, and both stacks of the
    /// log can be unwound from the text.
    pub closed spec fn wf(&self) -> bool {
        &&& self.text_view().len() <= isize::MAX
        &&& forall|k: u128| #[trigger]
            self.marks@.contains_key(k) ==> self.marks@[k].absolute_line_start
                <= self.marks@[k].absolute
        &&& stack_consistent(self.text_view(), self.log@.undo)
        &&& stack_consistent(self.text_view(), self.log@.redo)
    }

    /// The undo/redo log of the buffer.
    pub closed spec fn log_view(&self) -> LogView {
        self.log@
    }

    /// Whether the buffer has unsaved changes.
    pub closed spec fn dirty_view(&self) -> bool {
        self.dirty
    }

    /// Where the buffer is written to, if anywhere.
    pub closed spec fn path_view(&self) -> Option<Seq<char>> {
        match self.file_path {
            Some(p) => Some(p@),
            None => None,
        }
    }

    /// Where `obj` lies in this buffer.
    pub open spec fn spec_object_index(&self, obj: TextObject) -> Option<MarkPosition> {
        object_index(self.text_view(), self.marks_view(), obj)
    }

    /// Finding where `obj` lies in this buffer does not fail.
    pub open spec fn object_safe(&self, obj: TextObject) -> bool {
        object_index_safe(self.text_view(), self.marks_view(), obj)
    }

    /// Constructor for empty buffer.
    pub fn new() -> (b: Buffer)
        ensures
            b.wf(),
            b.text_view() == Seq::<u8>::empty(),
            b.marks_view() == Map::<u128, MarkPosition>::empty(),
            b.log_view().undo.len() == 0,
            b.log_view().redo.len() == 0,
            b.path_view() is None,
            !b.dirty_view(),
    {
        Buffer {
            file_path: None,
            text: gap_new(),
            marks: HashMap::new(),
            log: Log::new(),
            dirty: false,
        }
    }

    /// A buffer holding `bytes`, as one read from a file or a stream.
    pub fn from_bytes(bytes: &[u8]) -> (b: Buffer)
        requires
            bytes@.len() <= isize::MAX,
        ensures
            b.wf(),
            b.text_view() == bytes@,
            b.marks_view() == Map::<u128, MarkPosition>::empty(),
            b.log_view().undo.len() == 0,
            b.log_view().redo.len() == 0,
            b.path_view() is None,
            !b.dirty_view(),
    {
        let mut buff = Buffer::new();
        gap_extend(&mut buff.text, bytes);
        proof {
            assert(buff.text_view() =~= bytes@);
        }
        buff
    }

    /// Length of the text stored in this buffer.
    pub fn len(&self) -> (r: usize)
        requires
            self.wf(),
        ensures
            r == self.text_view().len() + 1,
    {
        gap_len(&self.text) + 1
    }

    /// The bytes of the text, front to back: what saving the buffer writes.
    pub fn text_bytes(&self) -> (r: Vec<u8>)
        ensures
            r@ == self.text_view(),
    {
        let n = gap_len(&self.text);
        let mut bytes: Vec<u8> = Vec::with_capacity(n);
        let mut i: usize = 0;
        while i < n
            invariant
                n == self.text_view().len(),
                i <= n,
                bytes@ == self.text_view().subrange(0, i as int),
            decreases n - i,
        {
            bytes.push(gap_index(&self.text, i));
            i = i + 1;
        }
        proof {
            assert(self.text_view().subrange(0, n as int) =~= self.text_view());
        }
        bytes
    }

    /// Creates an iterator on the text by lines.
    pub fn lines(&self) -> (r: Lines<'_>)
        requires
            self.wf(),
        ensures
            gap_contents(*r.buffer) == self.text_view(),
            r.tail == 0,
            r.head == self.text_view().len() + 1,
    {
        Lines { buffer: &self.text, tail: 0, head: self.len() }
    }

    /// Creates an iterator on the text by lines that begins at the specified mark.
    pub fn lines_from(&self, mark: Mark) -> (r: Option<Lines<'_>>)
        requires
            self.wf(),
        ensures
            r matches Some(l) ==> gap_contents(*l.buffer) == self.text_view() && l.head
                == self.text_view().len() + 1 && l.tail == self.marks_view()[mark_key(mark)].pos(),
            r is Some <==> self.marks_view().contains_key(mark_key(mark))
                && self.marks_view()[mark_key(mark)].pos() < self.text_view().len() + 1,
    {
        if let Some(mark_pos) = self.marks.get(&key_of(mark)) {
            if mark_pos.absolute < self.len() {
                return Some(Lines { buffer: &self.text, tail: mark_pos.absolute, head: self.len() });
            }
        }
        None
    }

    /// The position of a mark, if it is set.
    pub fn mark_position(&self, mark: Mark) -> (r: Option<MarkPosition>)
        ensures
            r == (if self.marks_view().contains_key(mark_key(mark)) {
                Some(self.marks_view()[mark_key(mark)])
            } else {
                None
            }),
    {
        match self.marks.get(&key_of(mark)) {
            Some(p) => Some(*p),
            None => None,
        }
    }

    /// The x,y coordinates of a mark within the file. None if not a valid mark.
    pub fn get_mark_display_coords(&self, mark: Mark) -> (r: Option<(usize, usize)>)
        requires
            self.wf(),
        ensures
            r == (if self.marks_view().contains_key(mark_key(mark)) {
                let p = self.marks_view()[mark_key(mark)];
                Some(((p.pos() - p.line_start()) as usize, p.line_num()))
            } else {
                None
            }),
    {
        if let Some(mark_pos) = self.marks.get(&key_of(mark)) {
            return Some((mark_pos.absolute - mark_pos.absolute_line_start, mark_pos.line_number));
        }
        None
    }

    /// The absolute index of a mark within the file. None if not a valid mark.
    pub fn get_mark_idx(&self, mark: Mark) -> (r: Option<usize>)
        requires
            self.wf(),
        ensures
            r == (if self.marks_view().contains_key(mark_key(mark))
                && self.marks_view()[mark_key(mark)].pos() < self.text_view().len() + 1 {
                Some(self.marks_view()[mark_key(mark)].pos())
            } else {
                None
            }),
    {
        if let Some(mark_pos) = self.marks.get(&key_of(mark)) {
            if mark_pos.absolute < self.len() {
                Some(mark_pos.absolute)
            } else {
                None
            }
        } else {
            None
        }
    }

    /// Return the buffer index of a TextObject
    pub fn get_object_index(&self, obj: TextObject) -> (r: Option<MarkPosition>)
        requires
            self.wf(),
            self.object_safe(obj),
        ensures
            r == self.spec_object_index(obj),
    {
        match obj.kind {
            Kind::Char => self.get_char_index(obj.offset),
            Kind::Line(anchor) => self.get_line_index(obj.offset, anchor),
            Kind::Word(anchor) => self.get_word_index(obj.offset, anchor),
        }
    }

    /// Get the position of a specific character in the buffer
    ///
    /// This character can be at an absolute position, or a postion relative
    /// to a given mark.
    fn get_char_index(&self, offset: Offset) -> (r: Option<MarkPosition>)
        requires
            self.wf(),
            char_index_safe(self.text_view(), self.marks@, offset),
        ensures
            r == char_index(self.text_view(), self.marks@, offset),
    {
        match offset {
            Offset::Forward(offset, from_mark) => {
                let last = self.len() - 1;
                if let Some(mark_pos) = self.marks.get(&key_of(from_mark)) {
                    let new_absolute_position = mark_pos.absolute + offset;
                    if new_absolute_position < last {
                        return get_line_info(new_absolute_position, &self.text);
                    } else {
                        return get_line_info(last, &self.text);
                    }
                }
                None
            },
            Offset::Backward(offset, from_mark) => {
                if let Some(mark_pos) = self.marks.get(&key_of(from_mark)) {
                    if mark_pos.absolute >= offset {
                        let new_absolute_position = mark_pos.absolute - offset;
                        return get_line_info(new_absolute_position, &self.text);
                    } else {
                        return None;
                    }
                }
                None
            },
            Offset::Absolute(absolute_char_offset) => {
                let mut mark_pos = MarkPosition::start();
                mark_pos.absolute = absolute_char_offset;
                Some(mark_pos)
            },
        }
    }

    /// Whether finding where `obj` lies can be done without failing: the
    /// counts and positions it needs exist and fit in a `usize`.
    pub fn object_is_safe(&self, obj: TextObject) -> (r: bool)
        requires
            self.wf(),
        ensures
            r == self.object_safe(obj),
    {
        let len = gap_len(&self.text);
        match obj.kind {
            Kind::Char => match obj.offset {
                Offset::Forward(k, m) => match self.marks.get(&key_of(m)) {
                    Some(p) => p.absolute <= usize::MAX - k,
                    None => true,
                },
                _ => true,
            },
            Kind::Line(a) => match obj.offset {
                Offset::Absolute(ln) => {
                    if ln == usize::MAX {
                        return false;
                    }
                    let nl = newlines_forward(&self.text, 0, ln + 1);
                    match a {
                        Anchor::Start => nl.len() >= 1 && ln >= 1,
                        Anchor::End => ln >= 1 && ln - 1 < nl.len(),
                        _ => true,
                    }
                },
                Offset::Backward(k, m) => match self.marks.get(&key_of(m)) {
                    Some(p) => {
                        if k == usize::MAX {
                            return false;
                        }
                        if !(p.absolute == 0 || p.absolute <= len) {
                            return false;
                        }
                        let nl = newlines_backward(&self.text, p.absolute, k + 1);
                        match a {
                            Anchor::Start => nl.len() == 0 || k < nl.len(),
                            Anchor::Same => if k == nl.len() {
                                nl.len() > 0
                            } else if k > nl.len() || k == 0 {
                                true
                            } else {
                                p.line_number >= k
                            },
                            _ => true,
                        }
                    },
                    None => true,
                },
                Offset::Forward(k, m) => match self.marks.get(&key_of(m)) {
                    Some(p) => {
                        if k == usize::MAX {
                            return false;
                        }
                        let nl = newlines_forward(&self.text, p.absolute, k + 1);
                        if nl.len() == 0 {
                            return true;
                        }
                        match a {
                            Anchor::Same => if k == nl.len() {
                                p.line_number <= usize::MAX - k
                            } else if k > nl.len() {
                                true
                            } else {
                                k >= 1 && p.line_number <= usize::MAX - k
                            },
                            Anchor::End => k < nl.len(),
                            _ => true,
                        }
                    },
                    None => true,
                },
            },
            Kind::Word(a) => match obj.offset {
                Offset::Forward(_nth, m) => match self.marks.get(&key_of(m)) {
                    Some(p) => match a {
                        Anchor::Start => len == 0 || p.absolute < usize::MAX,
                        _ => true,
                    },
                    None => true,
                },
                Offset::Backward(nth, m) => match self.marks.get(&key_of(m)) {
                    Some(p) => match a {
                        Anchor::Start => nth == 0 || p.absolute < 2 || p.absolute <= len,
                        _ => true,
                    },
                    None => true,
                },
                Offset::Absolute(wn) => match a {
                    Anchor::Start => {
                        if wn == 0 {
                            return false;
                        }
                        get_words(0, wn - 1, WordEdgeMatch::Whitespace, &self.text).is_some()
                    },
                    _ => true,
                },
            },
        }
    }

    /// Get the position of a specific line in the buffer, at the given anchor.
    fn get_line_index(&self, offset: Offset, anchor: Anchor) -> (r: Option<MarkPosition>)
        requires
            self.wf(),
            line_index_safe(self.text_view(), self.marks@, offset, anchor),
        ensures
            r == line_index(self.text_view(), self.marks@, offset, anchor),
    {
        match offset {
            Offset::Forward(offset, from_mark) => self.get_line_index_forward(anchor, offset, from_mark),
            Offset::Backward(offset, from_mark) => self.get_line_index_backward(anchor, offset, from_mark),
            Offset::Absolute(line_number) => self.get_line_index_absolute(anchor, line_number),
        }
    }

    /// Get the position of the line identified by line_number
    fn get_line_index_absolute(&self, anchor: Anchor, line_number: usize) -> (r: Option<MarkPosition>)
        requires
            self.wf(),
            line_abs_safe(self.text_view(), anchor, line_number as int),
        ensures
            r == line_abs_index(self.text_view(), anchor, line_number as int),
    {
        let ghost t = self.text_view();
        let nlines = newlines_forward(&self.text, 0, line_number + 1);
        proof {
            lemma_newlines_up_bounds(t, 0, t.len() as int);
        }
        match anchor {
            Anchor::Start => {
                let mut mark_pos = MarkPosition::start();
                let line_start = nlines[0] + 1;
                mark_pos.absolute = line_start;
                mark_pos.absolute_line_start = line_start;
                mark_pos.line_number = line_number - 1;
                Some(mark_pos)
            },
            Anchor::End => {
                let mut mark_pos = MarkPosition::start();
                let end_offset = nlines[line_number - 1];
                mark_pos.absolute = end_offset;
                Some(mark_pos)
            },
            _ => None,
        }
    }

    fn get_line_index_backward(&self, anchor: Anchor, offset: usize, from_mark: Mark) -> (r: Option<
        MarkPosition,
    >)
        requires
            self.wf(),
            line_bwd_safe(self.text_view(), self.marks@, anchor, offset as int, from_mark),
        ensures
            r == line_bwd_index(self.text_view(), self.marks@, anchor, offset as int, from_mark),
    {
        let ghost t = self.text_view();
        if let Some(mp) = self.marks.get(&key_of(from_mark)) {
            let mark_pos = *mp;
            let nlines = newlines_backward(&self.text, mark_pos.absolute, offset + 1);
            proof {
                lemma_newlines_down_bounds(t, 0, mark_pos.absolute as int);
            }
            let col = mark_pos.absolute - mark_pos.absolute_line_start;
            match anchor {
                Anchor::Start => {
                    let mut new_mark_pos = MarkPosition::start();
                    if nlines.len() == 0 {
                        return Some(new_mark_pos);
                    }
                    let start_offset = min_usize(col + nlines[offset] + 1, nlines[offset]);
                    new_mark_pos.absolute = start_offset + 1;
                    new_mark_pos.line_number = nlines.len();
                    new_mark_pos.absolute_line_start = nlines[0] + 1;
                    Some(new_mark_pos)
                },
                Anchor::Same => {
                    let mut new_mark_pos = MarkPosition::start();
                    if offset == nlines.len() {
                        new_mark_pos.absolute = min_usize(col, nlines[0]);
                    } else if offset > nlines.len() || offset == 0 {
                        return Some(new_mark_pos);
                    } else {
                        new_mark_pos.absolute = min_usize(col + nlines[offset] + 1, nlines[offset - 1]);
                        new_mark_pos.line_number = mark_pos.line_number - offset;
                        new_mark_pos.absolute_line_start = nlines[nlines.len() - 1] + 1;
                    }
                    Some(new_mark_pos)
                },
                _ => None,
            }
        } else {
            None
        }
    }

    fn get_line_index_forward(&self, anchor: Anchor, offset: usize, from_mark: Mark) -> (r: Option<
        MarkPosition,
    >)
        requires
            self.wf(),
            line_fwd_safe(self.text_view(), self.marks@, anchor, offset as int, from_mark),
        ensures
            r == line_fwd_index(self.text_view(), self.marks@, anchor, offset as int, from_mark),
    {
        let ghost t = self.text_view();
        let last = self.len() - 1;
        if let Some(mp) = self.marks.get(&key_of(from_mark)) {
            let mark_pos = *mp;
            let nlines = newlines_forward(&self.text, mark_pos.absolute, offset + 1);
            proof {
                lemma_newlines_up_bounds(t, mark_pos.absolute as int, t.len() as int);
            }
            if nlines.len() == 0 {
                return None;
            }
            let col = mark_pos.absolute - mark_pos.absolute_line_start;
            match anchor {
                Anchor::Same => {
                    let mut new_pos = MarkPosition::start();
                    let new_line_start = nlines[0] + 1;
                    if offset == nlines.len() {
                        new_pos.absolute = min_usize(col + nlines[offset - 1] + 1, last);
                        new_pos.absolute_line_start = nlines[offset - 1] + 1;
                        new_pos.line_number = mark_pos.line_number + offset;
                    } else if offset > nlines.len() {
                        new_pos.absolute = last;
                        new_pos.line_number = (last - new_pos.absolute) + 1;
                        new_pos.absolute_line_start = new_line_start;
                    } else {
                        new_pos.absolute = min_usize(col + nlines[offset - 1] + 1, nlines[offset]);
                        new_pos.line_number = mark_pos.line_number + offset;
                        new_pos.absolute_line_start = new_line_start;
                    }
                    Some(new_pos)
                },
                Anchor::End => {
                    let end_offset = min_usize(col + nlines[offset] + 1, nlines[offset]);
                    let mut new_mark_pos = MarkPosition::start();
                    new_mark_pos.absolute = end_offset;
                    new_mark_pos.line_number = mark_pos.line_number;
                    new_mark_pos.absolute_line_start = mark_pos.absolute_line_start;
                    Some(new_mark_pos)
                },
                _ => None,
            }
        } else {
            None
        }
    }

    fn get_word_index(&self, offset: Offset, anchor: Anchor) -> (r: Option<MarkPosition>)
        requires
            self.wf(),
            word_index_safe(self.text_view(), self.marks@, offset, anchor),
        ensures
            r == word_index(self.text_view(), self.marks@, offset, anchor),
    {
        match offset {
            Offset::Forward(nth_word, from_mark) => self.get_word_index_forward(anchor, nth_word, from_mark),
            Offset::Backward(nth_word, from_mark) => self.get_word_index_backward(anchor, nth_word, from_mark),
            Offset::Absolute(word_number) => self.get_word_index_absolute(anchor, word_number),
        }
    }

    fn get_word_index_forward(&self, anchor: Anchor, nth_word: usize, from_mark: Mark) -> (r: Option<
        MarkPosition,
    >)
        requires
            self.wf(),
            word_index_safe(self.text_view(), self.marks@, Offset::Forward(nth_word, from_mark), anchor),
        ensures
            r == word_index(self.text_view(), self.marks@, Offset::Forward(nth_word, from_mark), anchor),
    {
        let last = self.len() - 1;
        let edger = WordEdgeMatch::Whitespace;
        if let Some(mark_pos) = self.marks.get(&key_of(from_mark)) {
            match anchor {
                Anchor::Start => {
                    match get_words(mark_pos.absolute, nth_word, edger, &self.text) {
                        Some(new_index) => {
                            return get_line_info(new_index, &self.text);
                        },
                        None => {
                            return get_line_info(last, &self.text);
                        },
                    }
                },
                _ => {
                    let mut new_mark_pos = MarkPosition::start();
                    new_mark_pos.absolute = last;
                    return Some(new_mark_pos);
                },
            }
        }
        None
    }

    fn get_word_index_backward(&self, anchor: Anchor, nth_word: usize, from_mark: Mark) -> (r: Option<
        MarkPosition,
    >)
        requires
            self.wf(),
            word_index_safe(self.text_view(), self.marks@, Offset::Backward(nth_word, from_mark), anchor),
        ensures
            r == word_index(self.text_view(), self.marks@, Offset::Backward(nth_word, from_mark), anchor),
    {
        let last = self.len() - 1;
        let edger = WordEdgeMatch::Whitespace;
        if let Some(mark_pos) = self.marks.get(&key_of(from_mark)) {
            match anchor {
                Anchor::Start => {
                    match get_words_rev(mark_pos.absolute, nth_word, edger, &self.text) {
                        Some(new_index) => {
                            return get_line_info(new_index, &self.text);
                        },
                        None => {
                            return Some(MarkPosition::start());
                        },
                    }
                },
                _ => {
                    let mut new_mark_pos = MarkPosition::start();
                    new_mark_pos.absolute = last;
                    return Some(new_mark_pos);
                },
            }
        }
        None
    }

    fn get_word_index_absolute(&self, anchor: Anchor, word_number: usize) -> (r: Option<MarkPosition>)
        requires
            self.wf(),
            word_index_safe(self.text_view(), self.marks@, Offset::Absolute(word_number), anchor),
        ensures
            r == word_index(self.text_view(), self.marks@, Offset::Absolute(word_number), anchor),
    {
        let edger = WordEdgeMatch::Whitespace;
        match anchor {
            Anchor::Start => {
                let new_index = get_words(0, word_number - 1, edger, &self.text).unwrap();
                get_line_info(new_index, &self.text)
            },
            _ => None,
        }
    }
}


/// `after` is `before` once `[start, end)` was removed: the chars there (up to the
/// end of the text) are returned in order and taken out, the removal is logged as
/// one entry of per-char removals (last first) unless nothing was removed, and
/// the buffer is marked dirty.
pub open spec fn removed_range(before: Buffer, after: Buffer, start: usize, end: usize, r: Option<Vec<u8>>) -> bool {
    let t = before.text_view();
    let hi = removal_end(t.len() as int, end as int);
    &&& r matches Some(v) && v@ == (if start < hi {
        t.subrange(start as int, hi)
    } else {
        Seq::empty()
    })
    &&& after.text_view() == (if start < hi {
        t.subrange(0, start as int) + t.subrange(hi, t.len() as int)
    } else {
        t
    })
    &&& after.log_view() == (if start < hi {
        LogView {
            undo: before.log_view().undo.push(
                EntryView { init_point: start, end_point: start, changes: remove_changes(t, start as int, hi) },
            ),
            redo: Seq::empty(),
        }
    } else {
        before.log_view()
    })
    &&& after.dirty_view()
    &&& after.marks_view() == before.marks_view()
    &&& after.path_view() == before.path_view()
}

/// `after` holds the same text, log, marks, path and dirty flag as `before`.
pub open spec fn same_buffer(before: Buffer, after: Buffer) -> bool {
    &&& after.text_view() == before.text_view()
    &&& after.log_view() == before.log_view()
    &&& after.marks_view() == before.marks_view()
    &&& after.path_view() == before.path_view()
    &&& after.dirty_view() == before.dirty_view()
}

/// A mark set at an index within the text (or just past its end) is read
/// back at that index: once `set_mark(mark, idx)` made `after` from `before`,
/// `get_mark_idx(mark)` gives `Some(idx)`.
pub proof fn law_set_mark_read_back(before: Buffer, after: Buffer, mark: Mark, idx: usize)
    requires
        after.text_view() == before.text_view(),
        after.marks_view() == before.marks_view().insert(
            mark_key(mark),
            spec_line_info(before.text_view(), idx as int),
        ),
        idx <= before.text_view().len(),
    ensures
        after.marks_view().contains_key(mark_key(mark)),
        after.marks_view()[mark_key(mark)].pos() == idx,
        after.marks_view()[mark_key(mark)].pos() < after.text_view().len() + 1,
{
}

/// Where an object lies in a buffer, and whether finding it fails, are read
/// off the buffer's text and marks.
pub proof fn lemma_object_index_view(b: Buffer, obj: TextObject)
    ensures
        b.spec_object_index(obj) == object_index(b.text_view(), b.marks_view(), obj),
        b.object_safe(obj) == object_index_safe(b.text_view(), b.marks_view(), obj),
{
}

/// A buffer is the same as itself.
pub proof fn lemma_same_buffer_refl(b: Buffer)
    ensures
        same_buffer(b, b),
{
}

impl Buffer {
    /// Whether the buffer has unsaved changes.
    pub fn is_dirty(&self) -> (r: bool)
        ensures
            r == self.dirty_view(),
    {
        self.dirty
    }

    /// A copy of the path of the file the buffer is written to, if any.
    pub fn path(&self) -> (r: Option<String>)
        ensures
            match r {
                Some(p) => self.path_view() == Some(p@),
                None => self.path_view() is None,
            },
    {
        match &self.file_path {
            Some(p) => Some(p.clone()),
            None => None,
        }
    }

    /// Whether the buffer has a place on disk to be written to.
    pub fn has_path(&self) -> (r: bool)
        ensures
            r == (self.path_view() is Some),
    {
        self.file_path.is_some()
    }

    /// Returns the status text for this buffer.
    pub fn status_text(&self) -> (r: String)
        ensures
            r@ == (match self.path_view() {
                Some(p) => "["@ + p + "] "@,
                None => "untitled "@,
            }),
    {
        match &self.file_path {
            Some(path) => {
                let mut s = "[".to_string();
                string_push_str(&mut s, path.as_str());
                string_push_str(&mut s, "] ");
                s
            },
            None => "untitled ".to_string(),
        }
    }

    /// Sets the mark to the location of a given TextObject, if it exists.
    /// Adds a new mark or overwrites an existing mark.
    pub fn set_mark_to_object(&mut self, mark: Mark, obj: TextObject)
        requires
            old(self).wf(),
            old(self).object_safe(obj),
        ensures
            final(self).wf(),
            final(self).text_view() == old(self).text_view(),
            final(self).log_view() == old(self).log_view(),
            final(self).path_view() == old(self).path_view(),
            final(self).dirty_view() == old(self).dirty_view(),
            final(self).marks_view() == (match old(self).spec_object_index(obj) {
                Some(p) => old(self).marks_view().insert(
                    mark_key(mark),
                    spec_line_info(old(self).text_view(), p.pos() as int),
                ),
                None => old(self).marks_view(),
            }),
    {
        if let Some(mark_pos) = self.get_object_index(obj) {
            self.set_mark(mark, mark_pos.absolute);
        }
    }

    /// Sets the mark to a given absolute index. Adds a new mark or overwrites an existing mark.
    pub fn set_mark(&mut self, mark: Mark, idx: usize)
        requires
            old(self).wf(),
        ensures
            final(self).wf(),
            final(self).text_view() == old(self).text_view(),
            final(self).log_view() == old(self).log_view(),
            final(self).path_view() == old(self).path_view(),
            final(self).dirty_view() == old(self).dirty_view(),
            final(self).marks_view() == old(self).marks_view().insert(
                mark_key(mark),
                spec_line_info(old(self).text_view(), idx as int),
            ),
            final(self).marks_view()[mark_key(mark)].pos() == idx,
    {
        let ghost t = self.text_view();
        proof {
            lemma_line_start_bounds(t, min_int(idx as int, t.len() as int));
        }
        if let Some(mark_pos) = get_line_info(idx, &self.text) {
            self.marks.insert(key_of(mark), mark_pos);
        }
    }

    // Remove the chars in the range from start to end
    pub fn remove_range(&mut self, start: usize, end: usize) -> (r: Option<Vec<u8>>)
        requires
            old(self).wf(),
        ensures
            final(self).wf(),
            removed_range(*old(self), *final(self), start, end, r),
    {
        self.dirty = true;
        let ghost t = self.text_view();
        let ghost n = t.len() as int;
        let ghost hi = removal_end(n, end as int);
        let mut transaction = self.log.start(start);
        let mut removed: Vec<u8> = Vec::new();
        let mut idx = end;
        proof {
            assert(t.subrange(0, hi) + t.subrange(hi, n) =~= t);
            assert(remove_changes(t, hi, hi) =~= Seq::<Change>::empty());
        }
        while idx > start
            invariant
                t.len() == n,
                hi == removal_end(n, end as int),
                start <= idx || idx == end,
                idx <= end,
                self.text_view() == t.subrange(0, min_int(idx as int, hi)) + t.subrange(hi, n),
                transaction@.init_point == start,
                transaction@.changes == remove_changes(t, min_int(idx as int, hi), hi),
                transaction@.end_point == (if idx < hi { idx } else { start }),
                faithful_changes(t, transaction@.changes),
                apply_changes(t, transaction@.changes) == self.text_view(),
                removed@.len() == hi - min_int(idx as int, hi),
                forall|j: int| 0 <= j < removed@.len() ==> removed@[j] == t[hi - 1 - j],
                self.marks@ == old(self).marks@,
                self.log@ == old(self).log@,
                self.file_path == old(self).file_path,
                self.dirty,
            decreases idx,
        {
            idx = idx - 1;
            let ghost before = self.text_view();
            let ghost s = transaction@.changes;
            match gap_remove(&mut self.text, idx) {
                Some(ch) => {
                    transaction.log(Change::Remove(idx, ch as char), idx);
                    removed.push(ch);
                    proof {
                        assert(idx < hi);
                        assert(transaction@.changes.drop_last() =~= s);
                        assert(transaction@.changes =~= remove_changes(t, idx as int, hi));
                        assert(self.text_view() =~= t.subrange(0, idx as int) + t.subrange(hi, n));
                    }
                },
                None => {
                    proof {
                        assert(idx >= hi);
                    }
                },
            }
        }
        let ghost lo = min_int(start as int, hi);
        let mut result: Vec<u8> = Vec::new();
        let mut k = removed.len();
        while k > 0
            invariant
                k <= removed@.len(),
                removed@.len() == hi - lo,
                forall|j: int| 0 <= j < removed@.len() ==> removed@[j] == t[hi - 1 - j],
                result@.len() == removed@.len() - k,
                forall|j: int| 0 <= j < result@.len() ==> result@[j] == t[lo + j],
            decreases k,
        {
            k = k - 1;
            result.push(removed[k]);
        }
        transaction.commit(&mut self.log);
        proof {
            let s = transaction@.changes;
            if start < hi {
                assert(result@ =~= t.subrange(start as int, hi));
                lemma_reverse_restores(t, s);
                assert(self.log@.undo.drop_last() =~= old(self).log@.undo);
            } else {
                assert(result@ =~= Seq::<u8>::empty());
                assert(self.text_view() =~= t);
            }
        }
        Some(result)
    }

    // Remove the chars between mark and object
    pub fn remove_from_mark_to_object(&mut self, mark: Mark, object: TextObject) -> (r: Option<Vec<u8>>)
        requires
            old(self).wf(),
            old(self).marks_view().contains_key(mark_key(mark)),
            old(self).object_safe(object),
            old(self).spec_object_index(object) is Some,
        ensures
            final(self).wf(),
            ({
                let m = old(self).marks_view()[mark_key(mark)].pos();
                let o = old(self).spec_object_index(object)->0.pos();
                if m < o {
                    removed_range(*old(self), *final(self), m, o, r)
                } else {
                    removed_range(*old(self), *final(self), o, m, r)
                }
            }),
    {
        let (start, end) = {
            let mark_pos = *self.marks.get(&key_of(mark)).unwrap();
            let obj_pos = self.get_object_index(object).unwrap();
            if mark_pos.absolute < obj_pos.absolute {
                (mark_pos.absolute, obj_pos.absolute)
            } else {
                (obj_pos.absolute, mark_pos.absolute)
            }
        };
        self.remove_range(start, end)
    }

    /// Remove the text from the start of `object` to its end.
    pub fn remove_object(&mut self, object: TextObject) -> (r: Option<Vec<u8>>)
        requires
            old(self).wf(),
            old(self).object_safe(TextObject { kind: object.kind.spec_with_anchor(Anchor::Start), offset: object.offset }),
            old(self).object_safe(TextObject { kind: object.kind.spec_with_anchor(Anchor::End), offset: object.offset }),
        ensures
            final(self).wf(),
            ({
                let s = old(self).spec_object_index(TextObject { kind: object.kind.spec_with_anchor(Anchor::Start), offset: object.offset });
                let e = old(self).spec_object_index(TextObject { kind: object.kind.spec_with_anchor(Anchor::End), offset: object.offset });
                if s is Some && e is Some {
                    removed_range(*old(self), *final(self), s->0.pos(), e->0.pos(), r)
                } else {
                    r is None && same_buffer(*old(self), *final(self))
                }
            }),
    {
        let object_start = TextObject { kind: object.kind.with_anchor(Anchor::Start), offset: object.offset };
        let object_end = TextObject { kind: object.kind.with_anchor(Anchor::End), offset: object.offset };
        let start = self.get_object_index(object_start);
        let end = self.get_object_index(object_end);
        if let (Some(start_pos), Some(end_pos)) = (start, end) {
            return self.remove_range(start_pos.absolute, end_pos.absolute);
        }
        None
    }

    /// Insert a char at the mark.
    pub fn insert_char(&mut self, mark: Mark, ch: u8)
        requires
            old(self).wf(),
            old(self).marks_view().contains_key(mark_key(mark)) ==> old(self).marks_view()[mark_key(mark)].pos()
                <= old(self).text_view().len() && old(self).text_view().len() + 1 <= isize::MAX,
        ensures
            final(self).wf(),
            char_inserted(*old(self), *final(self), mark, ch),
    {
        let ghost t = self.text_view();
        if let Some(mark_pos) = self.marks.get(&key_of(mark)) {
            let p = mark_pos.absolute;
            gap_insert(&mut self.text, p, ch);
            let mut transaction = self.log.start(p);
            transaction.log(Change::Insert(p, ch as char), p);
            proof {
                let s = transaction@.changes;
                assert(s.drop_last() =~= Seq::<Change>::empty());
                assert(apply_changes(t, s.drop_last()) == t);
                assert(faithful_changes(t, s.drop_last()));
                assert(((ch as char) as u8) == ch);
                assert(apply_changes(t, s) == self.text_view());
                assert(faithful_changes(t, s));
                lemma_reverse_restores(t, s);
            }
            transaction.commit(&mut self.log);
            self.dirty = true;
            proof {
                assert(self.log@.undo.drop_last() =~= old(self).log@.undo);
            }
        }
    }

    /// Redo most recently undone action.
    pub fn redo(&mut self) -> (r: Option<LogEntry>)
        requires
            old(self).wf(),
        ensures
            final(self).wf(),
            final(self).marks_view() == old(self).marks_view(),
            final(self).path_view() == old(self).path_view(),
            final(self).dirty_view() == old(self).dirty_view(),
            old(self).log_view().redo.len() == 0 ==> r is None && final(self).text_view() == old(self).text_view()
                && final(self).log_view() == old(self).log_view(),
            old(self).log_view().redo.len() > 0 ==> {
                let top = old(self).log_view().redo.last();
                &&& r matches Some(e) && e@ == top.reversed()
                &&& final(self).text_view() == apply_changes(old(self).text_view(), reverse_changes(top.changes))
                &&& final(self).log_view() == old(self).log_view().after_redo()
            },
    {
        let ghost t = self.text_view();
        if let Some(transaction) = self.log.redo() {
            proof {
                let top = old(self).log@.redo.last();
                lemma_reverse_restores(t, reverse_changes(top.changes));
                lemma_reverse_changes_involutive(top.changes);
            }
            commit(&transaction, &mut self.text);
            proof {
                assert(self.log@.undo.drop_last() =~= old(self).log@.undo);
            }
            Some(transaction)
        } else {
            None
        }
    }

    /// Undo most recently performed action.
    pub fn undo(&mut self) -> (r: Option<LogEntry>)
        requires
            old(self).wf(),
        ensures
            final(self).wf(),
            undone(*old(self), *final(self), r),
    {
        let ghost t = self.text_view();
        if let Some(transaction) = self.log.undo() {
            proof {
                let top = old(self).log@.undo.last();
                lemma_reverse_restores(t, reverse_changes(top.changes));
                lemma_reverse_changes_involutive(top.changes);
            }
            commit(&transaction, &mut self.text);
            proof {
                assert(self.log@.redo.drop_last() =~= old(self).log@.redo);
            }
            Some(transaction)
        } else {
            None
        }
    }
}

/// What inserting the byte `ch` at `mark` makes of `before`: with the mark set,
/// the byte goes in at its position, the insertion is logged as one entry and
/// the redo stack is emptied, and the buffer is dirty; without it nothing
/// changes. Marks and path stay.
pub open spec fn char_inserted(before: Buffer, after: Buffer, mark: Mark, ch: u8) -> bool {
    &&& after.marks_view() == before.marks_view()
    &&& after.path_view() == before.path_view()
    &&& before.marks_view().contains_key(mark_key(mark)) ==> {
        let p = before.marks_view()[mark_key(mark)].pos();
        &&& after.text_view() == before.text_view().insert(p as int, ch)
        &&& after.log_view() == (LogView {
            undo: before.log_view().undo.push(
                EntryView { init_point: p, end_point: p, changes: seq![Change::Insert(p, ch as char)] },
            ),
            redo: Seq::empty(),
        })
        &&& after.dirty_view()
    }
    &&& !before.marks_view().contains_key(mark_key(mark)) ==> same_buffer(before, after)
}

/// What undoing does to `before`: with an entry to undo, the reverse of its
/// changes is played on the text, the reversed entry is returned and moves to
/// the redo stack; with none, nothing changes and `None` is returned. Marks,
/// path and dirty flag stay.
pub open spec fn undone(before: Buffer, after: Buffer, r: Option<LogEntry>) -> bool {
    &&& after.marks_view() == before.marks_view()
    &&& after.path_view() == before.path_view()
    &&& after.dirty_view() == before.dirty_view()
    &&& before.log_view().undo.len() == 0 ==> r is None && after.text_view() == before.text_view()
        && after.log_view() == before.log_view()
    &&& before.log_view().undo.len() > 0 ==> {
        let top = before.log_view().undo.last();
        &&& r matches Some(e) && e@ == top.reversed()
        &&& after.text_view() == apply_changes(before.text_view(), reverse_changes(top.changes))
        &&& after.log_view() == before.log_view().after_undo()
    }
}

/// Inserting a char at a mark and then undoing gives the text back as it was;
/// the undo returns the entry that removes that char at the mark's position,
/// which is now on top of the redo stack, and the undo stack is as before.
pub proof fn law_undo_insert_char(
    b0: Buffer,
    b1: Buffer,
    b2: Buffer,
    mark: Mark,
    ch: u8,
    r: Option<LogEntry>,
)
    requires
        b0.marks_view().contains_key(mark_key(mark)),
        b0.marks_view()[mark_key(mark)].pos() <= b0.text_view().len(),
        char_inserted(b0, b1, mark, ch),
        undone(b1, b2, r),
    ensures
        ({
            let p = b0.marks_view()[mark_key(mark)].pos();
            &&& r matches Some(e) && e@.changes == seq![Change::Remove(p, ch as char)]
            &&& b2.text_view() == b0.text_view()
            &&& b2.log_view().redo == seq![r->0@]
            &&& b2.log_view().undo == b0.log_view().undo
        }),
{
    let p = b0.marks_view()[mark_key(mark)].pos();
    let s = seq![Change::Insert(p, ch as char)];
    assert(reverse_changes(s) =~= seq![Change::Remove(p, ch as char)]);
    law_undo_after_insert(b0.text_view(), p, ch);
    assert(b1.log_view().undo.drop_last() =~= b0.log_view().undo);
    assert(b2.log_view().redo =~= seq![r->0@]);
}

proof fn lemma_remove_changes(t: Seq<u8>, lo: int, hi: int)
    requires
        0 <= lo <= hi <= t.len(),
        hi <= usize::MAX,
    ensures
        faithful_changes(t, remove_changes(t, lo, hi)),
        apply_changes(t, remove_changes(t, lo, hi)) == t.subrange(0, lo) + t.subrange(hi, t.len() as int),
    decreases hi - lo,
{
    let s = remove_changes(t, lo, hi);
    if lo == hi {
        assert(s =~= Seq::<Change>::empty());
        assert(t.subrange(0, lo) + t.subrange(hi, t.len() as int) =~= t);
    } else {
        lemma_remove_changes(t, lo + 1, hi);
        assert(s.drop_last() =~= remove_changes(t, lo + 1, hi));
        let t1 = t.subrange(0, lo + 1) + t.subrange(hi, t.len() as int);
        assert(t1.remove(lo) =~= t.subrange(0, lo) + t.subrange(hi, t.len() as int));
    }
}

/// Undoing an insertion gives the text back as it was before it.
pub proof fn law_undo_after_insert(t: Seq<u8>, p: usize, ch: u8)
    requires
        p <= t.len(),
    ensures
        apply_changes(t.insert(p as int, ch), reverse_changes(seq![Change::Insert(p, ch as char)])) == t,
{
    let s = seq![Change::Insert(p, ch as char)];
    assert(s.drop_last() =~= Seq::<Change>::empty());
    assert(apply_changes(t, s.drop_last()) == t);
    assert(faithful_changes(t, s.drop_last()));
    assert(((ch as char) as u8) == ch);
    lemma_reverse_restores(t, s);
}

/// Undoing a removal of `[start, end)` gives the text back as it was before it.
pub proof fn law_undo_after_remove(t: Seq<u8>, start: usize, end: usize)
    requires
        start < removal_end(t.len() as int, end as int),
    ensures
        ({
            let hi = removal_end(t.len() as int, end as int);
            apply_changes(
                t.subrange(0, start as int) + t.subrange(hi, t.len() as int),
                reverse_changes(remove_changes(t, start as int, hi)),
            ) == t
        }),
{
    let hi = removal_end(t.len() as int, end as int);
    lemma_remove_changes(t, start as int, hi);
    lemma_reverse_restores(t, remove_changes(t, start as int, hi));
}

/// Redoing what was just undone gives back the text from before the undo: the
/// undo plays the reverse of the top entry, the redo the reverse of that.
pub proof fn law_redo_after_undo(t: Seq<u8>, top: EntryView)
    requires
        faithful_changes(t, reverse_changes(top.changes)),
    ensures
        apply_changes(
            apply_changes(t, reverse_changes(top.changes)),
            reverse_changes(top.reversed().changes),
        ) == t,
{
    lemma_reverse_restores(t, reverse_changes(top.changes));
}

/// A marker for the sources a buffer can be read from.
pub trait BufferFrom {}

} // verus!
