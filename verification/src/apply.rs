//! Applying and undoing fixes.
//!
//! Applying a fix alternates between running its commands, which the
//! caller does, and deciding what happens next, which is done here: the
//! journal entry is recorded as pending before the first command runs, the
//! commands run in order, the first failure ends the run and marks the entry
//! failed, and success marks it applied. The caller persists the journal
//! whenever it changes.
//!
//! Undo never trusts the commands stored in the journal: it rebuilds them
//! from the compiled-in registry by the entry's fix id.

use vstd::prelude::*;
use vstd::string::StringExecFns;

use crate::fix::{FixCommand, FixPlan};
use crate::fixes::{
    cmd_view, cmds_view, find, find_spec, fix_title, fix_undo_from, opt_view, Fix,
};
use crate::journal::{
    last_undoable_index, marked_undone, with_state, EntryState, Journal, JournalEntry,
};
use crate::lang::Lang;
use crate::text::{clone_strings, views};

verus! {

/// Why applying or undoing a fix failed.
#[derive(Debug)]
pub enum FixError {
    /// A fix command failed; the message is the runner's report.
    CommandFailed(String),
    /// No reversible fix is waiting to be undone.
    NothingToUndo,
    /// The journal names a fix the registry does not know.
    UnknownFix(String),
}

/// What applying a fix produced.
#[derive(Debug)]
pub struct ApplyOutcome {
    pub fix_id: String,
    pub outputs: Vec<String>,
}

fn copy_command(c: &FixCommand) -> (r: FixCommand)
    ensures
        cmd_view(r) == cmd_view(*c),
{
    FixCommand { program: c.program.clone(), args: clone_strings(&c.args) }
}

fn copy_commands(v: &Vec<FixCommand>) -> (r: Vec<FixCommand>)
    ensures
        cmds_view(r@) == cmds_view(v@),
{
    let mut r: Vec<FixCommand> = Vec::new();
    for i in 0..v.len()
        invariant
            cmds_view(r@) == cmds_view(v@).take(i as int),
    {
        let ghost before = r@;
        let c = copy_command(&v[i]);
        r.push(c);
        assert(cmds_view(r@) =~= cmds_view(before).push(cmd_view(v@[i as int])));
        assert(cmds_view(v@).take(i + 1) =~= cmds_view(v@).take(i as int).push(
            cmd_view(v@[i as int]),
        ));
    }
    assert(cmds_view(v@).take(v@.len() as int) =~= cmds_view(v@));
    r
}

fn copy_opt(o: &Option<String>) -> (r: Option<String>)
    ensures
        opt_view(r) == opt_view(*o),
{
    match o {
        Some(s) => Some(s.clone()),
        None => None,
    }
}

/// The journal entry that records `plan` as applied at `applied_at`: its
/// id, its English title (a persisted record must not shift with the
/// locale), whether it is reversible, its undo commands and the value it
/// overwrites; pending, not undone.
pub open spec fn is_pending_entry(e: JournalEntry, plan: FixPlan, applied_at: Seq<char>) -> bool {
    &&& e.fix_id@ == plan.id@
    &&& e.title@ == plan.title.en@
    &&& e.applied_at@ == applied_at
    &&& e.reversible == plan.reversible
    &&& cmds_view(e.undo@) == cmds_view(plan.undo@)
    &&& opt_view(e.restore) == opt_view(plan.restore)
    &&& !e.undone
    &&& e.state == EntryState::Pending
}

/// The entry recorded before `plan` runs.
pub fn pending_entry(plan: &FixPlan, applied_at: String) -> (e: JournalEntry)
    ensures
        is_pending_entry(e, *plan, applied_at@),
{
    JournalEntry {
        fix_id: plan.id.clone(),
        title: plan.title.en.clone(),
        applied_at,
        reversible: plan.reversible,
        undo: copy_commands(&plan.undo),
        restore: copy_opt(&plan.restore),
        undone: false,
        state: EntryState::Pending,
    }
}

/// A fix being applied: the journal entry it was recorded under, how many
/// of its commands have succeeded, their outputs, and the failure that
/// stopped it, once one has.
pub struct Applying {
    pub index: usize,
    pub done: usize,
    pub outputs: Vec<String>,
    pub failure: Option<String>,
}

/// What the caller does next for a fix being applied.
pub enum ApplyStep {
    /// Run this command and report its result to [`Applying::ran`].
    Run(FixCommand),
    /// Every command succeeded and the entry is now `Applied`: persist the
    /// journal and return this outcome.
    Finished(ApplyOutcome),
    /// A command failed, so nothing more runs: the entry was marked
    /// `Failed` when the failure was reported; return this error.
    Stopped(FixError),
}

/// Start applying `plan`: record it in the journal as pending. The caller
/// persists the journal before running anything, so a fix is never under
/// way without a record of it.
pub fn begin_apply(plan: &FixPlan, journal: &mut Journal, applied_at: String) -> (a: Applying)
    ensures
        final(journal)@.len() == old(journal)@.len() + 1,
        final(journal)@.drop_last() == old(journal)@,
        is_pending_entry(final(journal)@.last(), *plan, applied_at@),
        a.index == old(journal)@.len(),
        a.done == 0,
        a.outputs@.len() == 0,
        a.failure is None,
{
    let entry = pending_entry(plan, applied_at);
    let index = journal.record_pending(entry);
    assert(final(journal)@.drop_last() == old(journal)@);
    Applying { index, done: 0, outputs: Vec::new(), failure: None }
}

impl Applying {
    /// What comes next: nothing more once a command has failed; else the
    /// next command to run, or, once all have succeeded, the outcome, with
    /// the entry marked `Applied`.
    pub fn next(&self, plan: &FixPlan, journal: &mut Journal) -> (step: ApplyStep)
        requires
            self.done <= plan.commands@.len(),
        ensures
            self.failure matches Some(m) ==> (step matches ApplyStep::Stopped(
                FixError::CommandFailed(e),
            ) && e@ == m@ && final(journal)@ == old(journal)@),
            self.failure is None && self.done < plan.commands@.len() ==> (step matches ApplyStep::Run(c) && cmd_view(c)
                == cmd_view(plan.commands@[self.done as int]) && final(journal)@ == old(
                journal,
            )@),
            self.failure is None && self.done == plan.commands@.len() ==> (step matches ApplyStep::Finished(o)
                && o.fix_id@ == plan.id@ && views(o.outputs@) == views(self.outputs@)
                && final(journal)@ == if self.index < old(journal)@.len() {
                old(journal)@.update(
                    self.index as int,
                    with_state(old(journal)@[self.index as int], EntryState::Applied),
                )
            } else {
                old(journal)@
            }),
    {
        if let Some(m) = &self.failure {
            return ApplyStep::Stopped(FixError::CommandFailed(String::from_str(m.as_str())));
        }
        if self.done < plan.commands.len() {
            ApplyStep::Run(copy_command(&plan.commands[self.done]))
        } else {
            journal.finish(self.index, EntryState::Applied);
            ApplyStep::Finished(
                ApplyOutcome { fix_id: plan.id.clone(), outputs: clone_strings(&self.outputs) },
            )
        }
    }

    /// Report how the command [`Applying::next`] asked for went. Its output
    /// is kept and the next one follows; a failure ends the apply — the
    /// entry is marked `Failed` (it stays in the journal, undoable), the
    /// error comes back, and [`Applying::next`] runs nothing more.
    pub fn ran(&mut self, journal: &mut Journal, result: Result<String, String>) -> (r: Option<
        FixError,
    >)
        requires
            old(self).done < usize::MAX,
        ensures
            match result {
                Ok(out) => r is None && final(self).done == old(self).done + 1
                    && final(self).outputs@ == old(self).outputs@.push(out) && final(self).index
                    == old(self).index && final(self).failure == old(self).failure
                    && final(journal)@ == old(journal)@,
                Err(msg) => (r matches Some(FixError::CommandFailed(m)) && m == msg)
                    && (final(self).failure matches Some(f) && f@ == msg@) && final(self).done == old(self).done && final(self).outputs@ == old(
                    self,
                ).outputs@ && final(self).index == old(self).index && final(journal)@ == if old(
                    self,
                ).index < old(journal)@.len() {
                    old(journal)@.update(
                        old(self).index as int,
                        with_state(old(journal)@[old(self).index as int], EntryState::Failed),
                    )
                } else {
                    old(journal)@
                },
            },
    {
        match result {
            Ok(out) => {
                self.outputs.push(out);
                self.done = self.done + 1;
                None
            },
            Err(msg) => {
                journal.finish(self.index, EntryState::Failed);
                self.failure = Some(String::from_str(msg.as_str()));
                Some(FixError::CommandFailed(msg))
            },
        }
    }
}

/// What an undo of `es` does: `Err` with no undoable entry, or with an
/// entry whose fix id the registry does not know; otherwise the entry's
/// index, its fix, and that fix's compiled-in undo commands for the value
/// the entry recorded — never the commands stored in the entry.
pub open spec fn undo_target(es: Seq<JournalEntry>) -> Option<(int, Fix, Seq<(Seq<char>, Seq<Seq<char>>)>)> {
    match last_undoable_index(es) {
        Some(i) => match find_spec(es[i].fix_id@) {
            Some(f) => Some((i, f, fix_undo_from(f, opt_view(es[i].restore)))),
            None => None,
        },
        None => None,
    }
}

/// An undo that is ready to run.
pub struct UndoPlan {
    /// The journal entry it reverses.
    pub index: usize,
    /// The fix that entry recorded.
    pub fix: Fix,
    /// The commands to run, from the registry.
    pub commands: Vec<FixCommand>,
}

/// Decide what undoing the most recent reversible transaction runs.
pub fn plan_undo(journal: &Journal) -> (r: Result<UndoPlan, FixError>)
    ensures
        match r {
            Ok(u) => undo_target(journal@) == Some(
                (u.index as int, u.fix, cmds_view(u.commands@)),
            ),
            Err(FixError::NothingToUndo) => last_undoable_index(journal@) is None,
            Err(FixError::UnknownFix(id)) => last_undoable_index(journal@) matches Some(i)
                && id@ == journal@[i].fix_id@ && find_spec(id@) is None,
            Err(FixError::CommandFailed(_)) => false,
        },
{
    let (index, entry) = match journal.last_undoable() {
        Some(found) => found,
        None => return Err(FixError::NothingToUndo),
    };
    let fix = match find(entry.fix_id.as_str()) {
        Some(f) => f,
        None => return Err(FixError::UnknownFix(entry.fix_id.clone())),
    };
    let commands = match &entry.restore {
        Some(r) => fix.undo_from(Some(r.as_str())),
        None => fix.undo_from(None),
    };
    Ok(UndoPlan { index, fix, commands })
}

/// The undo's commands all succeeded: mark its entry undone and name the
/// fix it reverted, in `lang`.
pub fn finish_undo(journal: &mut Journal, undo: &UndoPlan, lang: Lang) -> (title: String)
    ensures
        final(journal)@ == if undo.index < old(journal)@.len() {
            old(journal)@.update(undo.index as int, marked_undone(old(journal)@[undo.index as int]))
        } else {
            old(journal)@
        },
        title@ == match lang {
            Lang::En => fix_title(undo.fix).0,
            Lang::Ar => fix_title(undo.fix).1,
        },
{
    journal.mark_undone(undo.index);
    let t = undo.fix.title();
    String::from_str(t.get(lang))
}

/// The title, in `lang`, of the fix an undo would revert: the registry's
/// title when it knows the fix, else the title the journal recorded.
pub fn undo_title_in(journal: &Journal, lang: Lang) -> (r: Option<String>)
    ensures
        match last_undoable_index(journal@) {
            None => r is None,
            Some(i) => r matches Some(t) && t@ == match find_spec(journal@[i].fix_id@) {
                Some(f) => match lang {
                    Lang::En => fix_title(f).0,
                    Lang::Ar => fix_title(f).1,
                },
                None => journal@[i].title@,
            },
        },
{
    let (_, entry) = match journal.last_undoable() {
        Some(found) => found,
        None => return None,
    };
    match find(entry.fix_id.as_str()) {
        Some(f) => {
            let t = f.title();
            Some(String::from_str(t.get(lang)))
        },
        None => Some(entry.title.clone()),
    }
}

/// Undo runs the registry's commands: what is stored in the entry's `undo`
/// field has no say.
pub proof fn lemma_undo_ignores_stored_commands(
    es: Seq<JournalEntry>,
    i: int,
    stored: Vec<FixCommand>,
)
    requires
        0 <= i < es.len(),
    ensures
        undo_target(es.update(i, JournalEntry { undo: stored, ..es[i] })) == undo_target(es),
{
    let es2 = es.update(i, JournalEntry { undo: stored, ..es[i] });
    lemma_undoable_ignores_undo_field(es, i, stored);
    crate::journal::lemma_last_undoable_is_last(es);
    if let Some(k) = last_undoable_index(es) {
        assert(es2[k].fix_id == es[k].fix_id);
        assert(es2[k].restore == es[k].restore);
    }
}

proof fn lemma_undoable_ignores_undo_field(es: Seq<JournalEntry>, i: int, stored: Vec<FixCommand>)
    requires
        0 <= i < es.len(),
    ensures
        last_undoable_index(es.update(i, JournalEntry { undo: stored, ..es[i] }))
            == last_undoable_index(es),
    decreases es.len(),
{
    let es2 = es.update(i, JournalEntry { undo: stored, ..es[i] });
    if i < es.len() - 1 {
        assert(es2.drop_last() == es.drop_last().update(i, JournalEntry { undo: stored, ..es[i] }));
        assert(es2.last() == es.last());
        if !crate::journal::undoable(es.last()) {
            lemma_undoable_ignores_undo_field(es.drop_last(), i, stored);
        }
    } else {
        assert(es2.drop_last() == es.drop_last());
    }
}

} // verus!
