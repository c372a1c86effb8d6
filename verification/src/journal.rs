//! The transaction journal: an append-only record of applied fixes, which
//! is what `undo` works from. This module holds the journal's contents and
//! the rules for changing them; reading and writing the file is the
//! caller's part.

use vstd::prelude::*;

use crate::fix::FixCommand;

verus! {

/// How far an entry got. An entry is written as `Pending` before its fix
/// runs, so no change can be made that the journal has no record of.
#[derive(Debug, Clone, Copy, PartialEq, Eq, Structural)]
pub enum EntryState {
    /// Recorded; the commands had not finished when this was written.
    Pending,
    /// Every command completed successfully.
    Applied,
    /// A command failed; the fix may be partially applied.
    Failed,
}

impl Default for EntryState {
    /// Entries written before states existed only ever recorded completed
    /// fixes.
    fn default() -> (s: EntryState)
        ensures
            s == EntryState::Applied,
    {
        EntryState::Applied
    }
}

/// One applied fix, with everything needed to undo it.
#[derive(Debug, Clone)]
pub struct JournalEntry {
    pub fix_id: String,
    pub title: String,
    pub applied_at: String,
    pub reversible: bool,
    pub undo: Vec<FixCommand>,
    /// The setting the fix overwrote, so `undo` can put the user's own value
    /// back. Validated by the fix before use.
    pub restore: Option<String>,
    /// Set once the entry has been undone, so it is not undone twice.
    pub undone: bool,
    pub state: EntryState,
}

/// Whether an entry can still be undone: it is reversible and has not been
/// undone. Its state does not matter: a failed or pending fix may have
/// changed the system halfway, which is when a way back matters most.
pub open spec fn undoable(e: JournalEntry) -> bool {
    e.reversible && !e.undone
}

/// The index of the most recent undoable entry.
pub open spec fn last_undoable_index(es: Seq<JournalEntry>) -> Option<int>
    decreases es.len(),
{
    if es.len() == 0 {
        None
    } else if undoable(es.last()) {
        Some(es.len() - 1)
    } else {
        last_undoable_index(es.drop_last())
    }
}

/// The entry with its state set to `state`.
pub open spec fn with_state(e: JournalEntry, state: EntryState) -> JournalEntry {
    JournalEntry { state, ..e }
}

/// The entry marked undone.
pub open spec fn marked_undone(e: JournalEntry) -> JournalEntry {
    JournalEntry { undone: true, ..e }
}

/// The list of applied fixes.
pub struct Journal {
    entries: Vec<JournalEntry>,
}

impl View for Journal {
    type V = Seq<JournalEntry>;

    closed spec fn view(&self) -> Seq<JournalEntry> {
        self.entries@
    }
}

impl Journal {
    /// An empty journal.
    pub fn new() -> (j: Journal)
        ensures
            j@ == Seq::<JournalEntry>::empty(),
    {
        Journal { entries: Vec::new() }
    }

    /// A journal holding `entries`, as read back from storage.
    pub fn from_entries(entries: Vec<JournalEntry>) -> (j: Journal)
        ensures
            j@ == entries@,
    {
        Journal { entries }
    }

    /// The entries, oldest first.
    pub fn entries(&self) -> (es: &[JournalEntry])
        ensures
            es@ == self@,
    {
        self.entries.as_slice()
    }

    /// Append an entry.
    pub fn record(&mut self, entry: JournalEntry)
        ensures
            final(self)@ == old(self)@.push(entry),
    {
        self.entries.push(entry);
    }

    /// Record the intent to apply a fix, before any command runs: the entry
    /// goes in as `Pending`, and its index comes back.
    pub fn record_pending(&mut self, entry: JournalEntry) -> (index: usize)
        ensures
            final(self)@ == old(self)@.push(with_state(entry, EntryState::Pending)),
            index == old(self)@.len(),
    {
        self.entries.push(JournalEntry { state: EntryState::Pending, ..entry });
        self.entries.len() - 1
    }

    /// Move the entry at `index` to `state`; an index past the end changes
    /// nothing.
    pub fn finish(&mut self, index: usize, state: EntryState)
        ensures
            final(self)@ == if index < old(self)@.len() {
                old(self)@.update(index as int, with_state(old(self)@[index as int], state))
            } else {
                old(self)@
            },
    {
        if index < self.entries.len() {
            self.entries[index].state = state;
        }
    }

    /// Mark the entry at `index` undone; an index past the end changes
    /// nothing.
    pub fn mark_undone(&mut self, index: usize)
        ensures
            final(self)@ == if index < old(self)@.len() {
                old(self)@.update(index as int, marked_undone(old(self)@[index as int]))
            } else {
                old(self)@
            },
    {
        if index < self.entries.len() {
            self.entries[index].undone = true;
        }
    }

    /// The most recent entry that can still be undone, with its index.
    pub fn last_undoable(&self) -> (r: Option<(usize, &JournalEntry)>)
        ensures
            match r {
                Some((i, e)) => last_undoable_index(self@) == Some(i as int) && *e == self@[i as int],
                None => last_undoable_index(self@) is None,
            },
    {
        let mut i = self.entries.len();
        assert(self@.take(i as int) == self@);
        while i > 0
            invariant
                i <= self@.len(),
                last_undoable_index(self@) == last_undoable_index(self@.take(i as int)),
            decreases i,
        {
            let e = &self.entries[i - 1];
            proof {
                let t = self@.take(i as int);
                assert(t.drop_last() == self@.take(i - 1));
                assert(t.last() == self@[i - 1]);
            }
            if e.reversible && !e.undone {
                return Some((i - 1, e));
            }
            i = i - 1;
        }
        None
    }
}

/// The entry `last_undoable_index` picks is undoable, and every later one is
/// not.
pub proof fn lemma_last_undoable_is_last(es: Seq<JournalEntry>)
    ensures
        match last_undoable_index(es) {
            Some(k) => 0 <= k < es.len() && undoable(es[k]) && forall|j: int|
                k < j < es.len() ==> !undoable(#[trigger] es[j]),
            None => forall|j: int| 0 <= j < es.len() ==> !undoable(#[trigger] es[j]),
        },
    decreases es.len(),
{
    if es.len() > 0 && !undoable(es.last()) {
        lemma_last_undoable_is_last(es.drop_last());
        assert forall|j: int| 0 <= j < es.len() - 1 implies es.drop_last()[j] == es[j] by {}
    }
}

/// Marking the entry an undo picked as undone leaves only older entries to
/// undo: the same entry is never undone twice.
pub proof fn lemma_undo_moves_back(es: Seq<JournalEntry>)
    requires
        last_undoable_index(es) is Some,
    ensures
        ({
            let k = last_undoable_index(es).unwrap();
            match last_undoable_index(es.update(k, marked_undone(es[k]))) {
                Some(k2) => k2 < k,
                None => true,
            }
        }),
{
    let k = last_undoable_index(es).unwrap();
    let es2 = es.update(k, marked_undone(es[k]));
    lemma_last_undoable_is_last(es);
    lemma_last_undoable_is_last(es2);
    if let Some(k2) = last_undoable_index(es2) {
        if k2 >= k {
            assert(es2[k2] == es[k2] || k2 == k);
        }
    }
}

/// Whether an entry can be undone does not depend on its state: a failed or
/// pending entry stays undoable.
pub proof fn lemma_state_does_not_affect_undo(es: Seq<JournalEntry>, i: int, state: EntryState)
    requires
        0 <= i < es.len(),
    ensures
        last_undoable_index(es.update(i, with_state(es[i], state))) == last_undoable_index(es),
    decreases es.len(),
{
    let es2 = es.update(i, with_state(es[i], state));
    if i < es.len() - 1 {
        assert(es2.drop_last() == es.drop_last().update(i, with_state(es[i], state)));
        assert(es2.last() == es.last());
        if !undoable(es.last()) {
            lemma_state_does_not_affect_undo(es.drop_last(), i, state);
        }
    } else {
        assert(es2.drop_last() == es.drop_last());
    }
}

} // verus!
