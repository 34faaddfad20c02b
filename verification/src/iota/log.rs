//! Primitive command log, currently used for undo / redo.
//! This is a deliberately unoptimized representation, for simplicity.

use vstd::prelude::*;

verus! {

/// Represents a modification of data.
#[derive(Copy, Clone, PartialEq, Eq, Structural, Debug)]
pub enum Change {
    /// Character insertion.
    Insert(usize, char),
    /// Character removal.
    Remove(usize, char),
}

impl Change {
    /// The change that undoes this one.
    pub open spec fn spec_reverse(self) -> Change {
        match self {
            Change::Insert(i, c) => Change::Remove(i, c),
            Change::Remove(i, c) => Change::Insert(i, c),
        }
    }

    /// Reverses a change, consuming it in the process
    pub fn reverse(self) -> (r: Change)
        ensures
            r == self.spec_reverse(),
    {
        match self {
            Change::Insert(idx, ch) => Change::Remove(idx, ch),
            Change::Remove(idx, ch) => Change::Insert(idx, ch),
        }
    }
}

/// The changes of an entry played backwards, each one reversed.
pub open spec fn reverse_changes(s: Seq<Change>) -> Seq<Change> {
    Seq::new(s.len(), |i: int| s[s.len() - 1 - i].spec_reverse())
}

/// The abstract content of a log entry.
#[verifier::ext_equal]
pub struct EntryView {
    pub init_point: usize,
    pub end_point: usize,
    pub changes: Seq<Change>,
}

impl EntryView {
    pub open spec fn reversed(self) -> EntryView {
        EntryView {
            init_point: self.end_point,
            end_point: self.init_point,
            changes: reverse_changes(self.changes),
        }
    }
}

/// Log entry
/// Entries may only be played linearly--they don't make sense out of order.
#[derive(Clone)]
pub struct LogEntry {
    /// The initial point position associated with this log entry.
    ///
    /// The OLD point position.
    init_point: usize,
    /// The NEW point position.
    pub end_point: usize,
    /// The changes associated with this log entry, in order of occurence (an undo will replay
    /// their inverses, backwards).
    pub changes: Vec<Change>,
}

impl View for LogEntry {
    type V = EntryView;

    closed spec fn view(&self) -> EntryView {
        EntryView { init_point: self.init_point, end_point: self.end_point, changes: self.changes@ }
    }
}

impl LogEntry {
    /// The initial point position of this entry.
    pub fn init_point(&self) -> (r: usize)
        ensures
            r == self@.init_point,
    {
        self.init_point
    }

    /// The point position after this entry.
    pub fn end_point(&self) -> (r: usize)
        ensures
            r == self@.end_point,
    {
        self.end_point
    }

    /// The number of changes in this entry.
    pub fn num_changes(&self) -> (r: usize)
        ensures
            r == self@.changes.len(),
    {
        self.changes.len()
    }

    /// The `i`th change of this entry.
    pub fn change(&self, i: usize) -> (c: Change)
        requires
            i < self@.changes.len(),
        ensures
            c == self@.changes[i as int],
    {
        self.changes[i]
    }

    /// A copy of this entry with the same content.
    pub fn duplicate(&self) -> (r: LogEntry)
        ensures
            r@ == self@,
    {
        let mut changes: Vec<Change> = Vec::new();
        let mut i: usize = 0;
        while i < self.changes.len()
            invariant
                i <= self.changes.len(),
                changes@ == self.changes@.subrange(0, i as int),
            decreases self.changes.len() - i,
        {
            changes.push(self.changes[i]);
            i = i + 1;
        }
        LogEntry { init_point: self.init_point, end_point: self.end_point, changes }
    }

    /// Reverse a log entry, consuming it in the process.
    pub fn reverse(self) -> (r: LogEntry)
        ensures
            r@ == self@.reversed(),
    {
        let n = self.changes.len();
        let mut changes: Vec<Change> = Vec::new();
        let mut i: usize = 0;
        while i < n
            invariant
                n == self.changes.len(),
                i <= n,
                changes@.len() == i,
                forall|k: int| 0 <= k < i ==> changes@[k] == self.changes@[n - 1 - k].spec_reverse(),
            decreases n - i,
        {
            let c = self.changes[n - 1 - i].reverse();
            changes.push(c);
            i = i + 1;
        }
        assert(changes@ =~= reverse_changes(self.changes@));
        LogEntry { init_point: self.end_point, end_point: self.init_point, changes }
    }
}

/// A set of `Change`s that should be treated atomically.
///
/// The transaction is committed to a log with `commit`; a transaction without
/// changes leaves the log as it is.
pub struct Transaction {
    /// The LogEntry under construction by the transaction.  Every data modification should be
    /// recorded with the open Transaction.
    entry: LogEntry,
}

impl View for Transaction {
    type V = EntryView;

    closed spec fn view(&self) -> EntryView {
        self.entry@
    }
}

impl Transaction {
    /// Log a change with this transaction.
    ///
    /// The logging should occur after the change has been executed.
    pub fn log(&mut self, change: Change, idx: usize)
        ensures
            final(self)@ == (EntryView {
                init_point: old(self)@.init_point,
                end_point: idx,
                changes: old(self)@.changes.push(change),
            }),
    {
        self.entry.changes.push(change);
        self.entry.end_point = idx;
    }

    /// Commit the transaction to the log: when it holds changes, its entry goes on
    /// top of the undo stack and the redo stack is cleared.
    pub fn commit(self, log: &mut Log)
        ensures
            self@.changes.len() == 0 ==> final(log)@ == old(log)@,
            self@.changes.len() > 0 ==> final(log)@ == (LogView {
                undo: old(log)@.undo.push(self@),
                redo: Seq::empty(),
            }),
    {
        if self.entry.changes.len() == 0 {
            return;
        }
        log.undo.push(self.entry);
        log.redo.clear();
    }
}

/// The abstract content of a log: its two stacks, top last.
#[verifier::ext_equal]
pub struct LogView {
    pub undo: Seq<EntryView>,
    pub redo: Seq<EntryView>,
}

impl LogView {
    /// The log once its most recent entry was undone: the entry leaves the undo
    /// stack and its reverse goes on the redo stack.
    pub open spec fn after_undo(self) -> LogView {
        LogView { undo: self.undo.drop_last(), redo: self.redo.push(self.undo.last().reversed()) }
    }

    /// The log once its most recently undone entry was redone.
    pub open spec fn after_redo(self) -> LogView {
        LogView { undo: self.undo.push(self.redo.last().reversed()), redo: self.redo.drop_last() }
    }
}

/// Reversing a change twice gives the change back.
pub proof fn law_change_reverse_involutive(c: Change)
    ensures
        c.spec_reverse().spec_reverse() == c,
{
}

/// Reversing a log entry twice gives the entry back.
pub proof fn law_entry_reverse_involutive(e: EntryView)
    ensures
        e.reversed().reversed() == e,
{
    assert(reverse_changes(reverse_changes(e.changes)) =~= e.changes);
}

/// Undoing and then redoing leaves the log as it was.
pub proof fn law_undo_then_redo(l: LogView)
    requires
        l.undo.len() > 0,
    ensures
        l.after_undo().after_redo() == l,
{
    law_entry_reverse_involutive(l.undo.last());
    assert(l.after_undo().after_redo().undo =~= l.undo);
    assert(l.after_undo().after_redo().redo =~= l.redo);
}

/// Redoing and then undoing leaves the log as it was.
pub proof fn law_redo_then_undo(l: LogView)
    requires
        l.redo.len() > 0,
    ensures
        l.after_redo().after_undo() == l,
{
    law_entry_reverse_involutive(l.redo.last());
    assert(l.after_redo().after_undo().undo =~= l.undo);
    assert(l.after_redo().after_undo().redo =~= l.redo);
}

/// Log entries structure.  Just two stacks.
pub struct Log {
    /// Undo log entries--LIFO stack.
    undo: Vec<LogEntry>,
    /// Redo log entries--LIFO stack.  Cleared after a new change (other than an undo or redo)
    /// is committed.
    redo: Vec<LogEntry>,
}

impl View for Log {
    type V = LogView;

    closed spec fn view(&self) -> LogView {
        LogView {
            undo: self.undo@.map_values(|e: LogEntry| e@),
            redo: self.redo@.map_values(|e: LogEntry| e@),
        }
    }
}

impl Log {
    /// Set up log entries.  They are initially empty.
    pub fn new() -> (r: Log)
        ensures
            r@.undo.len() == 0,
            r@.redo.len() == 0,
    {
        Log { undo: Vec::new(), redo: Vec::new() }
    }

    /// Start a new transaction whose point is `idx`.
    pub fn start(&self, idx: usize) -> (t: Transaction)
        ensures
            t@ == (EntryView { init_point: idx, end_point: idx, changes: Seq::empty() }),
    {
        Transaction { entry: LogEntry { init_point: idx, end_point: idx, changes: Vec::new() } }
    }

    /// This reverses the most recent change on the undo stack, places the new
    /// change on the redo stack, and then returns it.  It is the caller's
    /// responsibility to actually perform the change.
    pub fn undo(&mut self) -> (r: Option<LogEntry>)
        ensures
            old(self)@.undo.len() == 0 ==> r is None && final(self)@ == old(self)@,
            old(self)@.undo.len() > 0 ==> {
                &&& r matches Some(e) && e@ == old(self)@.undo.last().reversed()
                &&& final(self)@ == old(self)@.after_undo()
            },
    {
        match self.undo.pop() {
            Some(change) => {
                let last = self.redo.len();
                self.redo.push(change.reverse());
                proof {
                    assert(self@.undo =~= old(self)@.undo.drop_last());
                    assert(self@.redo =~= old(self)@.redo.push(old(self)@.undo.last().reversed()));
                }
                Some(self.redo[last].duplicate())
            },
            None => None,
        }
    }

    /// This reverses the most recent change on the redo stack, places the new
    /// change on the undo stack, and then returns it.  It is the caller's
    /// responsibility to actually perform the change.
    pub fn redo(&mut self) -> (r: Option<LogEntry>)
        ensures
            old(self)@.redo.len() == 0 ==> r is None && final(self)@ == old(self)@,
            old(self)@.redo.len() > 0 ==> {
                &&& r matches Some(e) && e@ == old(self)@.redo.last().reversed()
                &&& final(self)@ == old(self)@.after_redo()
            },
    {
        match self.redo.pop() {
            Some(change) => {
                let last = self.undo.len();
                self.undo.push(change.reverse());
                proof {
                    assert(self@.redo =~= old(self)@.redo.drop_last());
                    assert(self@.undo =~= old(self)@.undo.push(old(self)@.redo.last().reversed()));
                }
                Some(self.undo[last].duplicate())
            },
            None => None,
        }
    }
}

} // verus!
