//! The request the privileged helper accepts. The only free-form input is a
//! fix id, and it must be one of the compiled-in ids of the helper's own
//! tier; everything else is refused before any privileged work.

use vstd::prelude::*;
use vstd::string::StringExecFns;

use crate::fix::str_views;
use crate::fixes::{find, find_spec, fix_ids_for, fix_tier, tier_ids, tier_of, FixTier};
use crate::journal::{last_undoable_index, Journal, JournalEntry, EntryState};
use crate::text::{push_str, str_eq, views};

verus! {

/// What the helper was asked to do.
#[derive(Debug, PartialEq)]
pub enum Action {
    Apply(String),
    Undo,
    ListJournal,
}

/// The helper's usage line.
pub const USAGE: &'static str = "usage: sysmedic-fix-helper <apply <fix-id>|undo|list-journal>";

/// A tier's name, as the helper's messages print it.
pub open spec fn tier_name(t: FixTier) -> Seq<char> {
    match t {
        FixTier::Routine => "Routine"@,
        FixTier::Destructive => "Destructive"@,
    }
}

fn tier_name_exec(t: FixTier) -> (s: &'static str)
    ensures
        s@ == tier_name(t),
{
    match t {
        FixTier::Routine => "Routine",
        FixTier::Destructive => "Destructive",
    }
}

/// Why an `apply` of `id` is refused by a helper of `tier`.
pub open spec fn refusal(tier: FixTier, id: Seq<char>) -> Seq<char> {
    match find_spec(id) {
        Some(f) => "fix '"@ + id + "' is "@ + tier_name(fix_tier(f)) + "; this helper only runs "@
            + tier_name(tier) + " fixes"@,
        None => "unknown fix id '"@ + id + "'"@,
    }
}

/// What a helper of `tier` makes of its arguments.
pub open spec fn action_of(tier: FixTier, args: Seq<Seq<char>>) -> Result<Option<Seq<char>>, Seq<char>> {
    if args.len() == 2 && args[0] == "apply"@ {
        if tier_ids(tier).contains(args[1]) {
            Ok(Some(args[1]))
        } else {
            Err(refusal(tier, args[1]))
        }
    } else {
        Err(USAGE@)
    }
}

fn contains_id(ids: &Vec<&'static str>, id: &str) -> (b: bool)
    ensures
        b == str_views(ids@).contains(id@),
{
    for i in 0..ids.len()
        invariant
            forall|j: int| 0 <= j < i ==> str_views(ids@)[j] != id@,
    {
        if str_eq(ids[i], id) {
            assert(str_views(ids@)[i as int] == id@);
            return true;
        }
    }
    false
}

/// Validate the caller's request for a helper of `tier`: `apply <id>` with
/// an id of this helper's own tier, `undo`, or `list-journal`, and nothing
/// else. An id of the other tier is refused: authorization was granted for
/// this class of change only.
pub fn parse_action(tier: FixTier, args: &[String]) -> (r: Result<Action, String>)
    ensures
        args@.len() == 1 && args@[0]@ == "undo"@ ==> r matches Ok(Action::Undo),
        args@.len() == 1 && args@[0]@ == "list-journal"@ ==> r matches Ok(Action::ListJournal),
        !(args@.len() == 1 && (args@[0]@ == "undo"@ || args@[0]@ == "list-journal"@)) ==> match r {
            Ok(Action::Apply(id)) => action_of(tier, views(args@)) == Ok::<
                Option<Seq<char>>,
                Seq<char>,
            >(Some(id@)),
            Ok(_) => false,
            Err(msg) => action_of(tier, views(args@)) == Err::<Option<Seq<char>>, Seq<char>>(
                msg@,
            ),
        },
        r matches Ok(Action::Apply(id)) ==> tier_ids(tier).contains(id@),
{
    proof {
        reveal_strlit("undo");
        reveal_strlit("list-journal");
        assert("undo"@ != "list-journal"@) by {
            assert("undo"@.len() != "list-journal"@.len());
        }
    }
    let n = args.len();
    if n == 2 && str_eq(args[0].as_str(), "apply") {
        let id = args[1].as_str();
        let allowed = fix_ids_for(tier);
        if !contains_id(&allowed, id) {
            let mut msg = String::new();
            match tier_of(id) {
                Some(other) => {
                    push_str(&mut msg, "fix '");
                    push_str(&mut msg, id);
                    push_str(&mut msg, "' is ");
                    push_str(&mut msg, tier_name_exec(other));
                    push_str(&mut msg, "; this helper only runs ");
                    push_str(&mut msg, tier_name_exec(tier));
                    push_str(&mut msg, " fixes");
                },
                None => {
                    push_str(&mut msg, "unknown fix id '");
                    push_str(&mut msg, id);
                    push_str(&mut msg, "'");
                },
            }
            assert(views(args@)[1] == id@);
            assert(msg@ =~= refusal(tier, id@));
            return Err(msg);
        }
        assert(views(args@)[1] == id@);
        assert(views(args@)[0] == args@[0]@);
        return Ok(Action::Apply(args[1].clone()));
    }
    if n == 1 && str_eq(args[0].as_str(), "undo") {
        return Ok(Action::Undo);
    }
    if n == 1 && str_eq(args[0].as_str(), "list-journal") {
        return Ok(Action::ListJournal);
    }
    if n == 2 {
        assert(views(args@)[0] == args@[0]@);
    }
    Err(String::from_str(USAGE))
}

/// Why a helper of `tier` refuses to undo the journal's last undoable entry,
/// if it does: the entry's fix belongs to the other tier, or is unknown.
pub open spec fn undo_refusal(tier: FixTier, es: Seq<JournalEntry>) -> Option<Seq<char>> {
    match last_undoable_index(es) {
        Some(i) => match find_spec(es[i].fix_id@) {
            Some(f) => if fix_tier(f) != tier {
                Some(
                    "the last undoable fix '"@ + es[i].fix_id@ + "' is "@ + tier_name(fix_tier(f))
                        + "; run the "@ + tier_name(fix_tier(f)) + " helper instead"@,
                )
            } else {
                None
            },
            None => Some("cannot undo unknown fix '"@ + es[i].fix_id@ + "'"@),
        },
        None => None,
    }
}

/// Check, once the journal is read, that a helper of `tier` may undo its
/// last undoable entry: this binary was authorized for one class of change
/// and must not perform another.
pub fn check_undo_tier(tier: FixTier, journal: &Journal) -> (r: Result<(), String>)
    ensures
        match r {
            Ok(()) => undo_refusal(tier, journal@) is None,
            Err(msg) => undo_refusal(tier, journal@) == Some(msg@),
        },
{
    match journal.last_undoable() {
        Some((_, entry)) => {
            let id = entry.fix_id.as_str();
            match find(id) {
                Some(f) => {
                    let t = f.tier();
                    if t != tier {
                        let mut msg = String::from_str("the last undoable fix '");
                        push_str(&mut msg, id);
                        push_str(&mut msg, "' is ");
                        push_str(&mut msg, tier_name_exec(t));
                        push_str(&mut msg, "; run the ");
                        push_str(&mut msg, tier_name_exec(t));
                        push_str(&mut msg, " helper instead");
                        return Err(msg);
                    }
                    Ok(())
                },
                None => {
                    let mut msg = String::from_str("cannot undo unknown fix '");
                    push_str(&mut msg, id);
                    push_str(&mut msg, "'");
                    Err(msg)
                },
            }
        },
        None => Ok(()),
    }
}

/// A state's name in the journal listing.
pub open spec fn state_word(s: EntryState) -> Seq<char> {
    match s {
        EntryState::Applied => "applied"@,
        EntryState::Pending => "pending"@,
        EntryState::Failed => "failed"@,
    }
}

/// One line of the journal listing.
pub open spec fn listing_line(e: JournalEntry) -> Seq<char> {
    e.applied_at@ + "  "@ + e.fix_id@ + "  "@ + state_word(e.state) + "  "@ + e.title@ + (if e.undone {
        "  (undone)"@
    } else {
        ""@
    }) + "\n"@
}

/// The listing of the first `n` entries.
pub open spec fn listing(es: Seq<JournalEntry>) -> Seq<char>
    decreases es.len(),
{
    if es.len() == 0 {
        Seq::empty()
    } else {
        listing(es.drop_last()) + listing_line(es.last())
    }
}

/// The journal as the helper lists it: one line per entry, oldest first,
/// with its time, fix id, state, title and whether it was undone.
pub fn journal_listing(journal: &Journal) -> (out: String)
    ensures
        out@ == listing(journal@),
{
    let es = journal.entries();
    let mut out = String::new();
    for i in 0..es.len()
        invariant
            es@ == journal@,
            out@ == listing(journal@.take(i as int)),
    {
        let e = &es[i];
        assert(*e == journal@[i as int]);
        let ghost before = out@;
        push_str(&mut out, e.applied_at.as_str());
        push_str(&mut out, "  ");
        push_str(&mut out, e.fix_id.as_str());
        push_str(&mut out, "  ");
        let word: &str = match e.state {
            EntryState::Applied => "applied",
            EntryState::Pending => "pending",
            EntryState::Failed => "failed",
        };
        assert(word@ == state_word(e.state));
        push_str(&mut out, word);
        push_str(&mut out, "  ");
        push_str(&mut out, e.title.as_str());
        let mark: &str = if e.undone {
            "  (undone)"
        } else {
            ""
        };
        push_str(&mut out, mark);
        push_str(&mut out, "\n");
        proof {
            let t = journal@.take(i + 1);
            assert(t.drop_last() == journal@.take(i as int));
            assert(t.last() == journal@[i as int]);
            assert(out@ =~= before + listing_line(journal@[i as int]));
        }
    }
    assert(journal@.take(es@.len() as int) == journal@);
    out
}

/// What the helper reports after applying a fix: its id, its title, and
/// the journal that recorded it.
pub open spec fn applied_message_text(fix_id: Seq<char>, title: Seq<char>) -> Seq<char> {
    "Applied "@ + fix_id + " ("@ + title + "). Journal: "@ + crate::paths::SYSTEM_JOURNAL@
}

/// The helper's report of an applied fix (see [`applied_message_text`]).
pub fn applied_message(fix_id: &str, title: &str) -> (m: String)
    ensures
        m@ == applied_message_text(fix_id@, title@),
{
    let mut m = String::from_str("Applied ");
    push_str(&mut m, fix_id);
    push_str(&mut m, " (");
    push_str(&mut m, title);
    push_str(&mut m, "). Journal: ");
    push_str(&mut m, crate::paths::SYSTEM_JOURNAL);
    m
}

/// The helper's report of an undo: `Reverted: ` and the title.
pub fn reverted_message(title: &str) -> (m: String)
    ensures
        m@ == "Reverted: "@ + title@,
{
    let mut m = String::from_str("Reverted: ");
    push_str(&mut m, title);
    m
}

} // verus!
