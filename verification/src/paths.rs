//! Where SysMedic keeps its state: the per-user state directory, the fix
//! journal and the health history. The environment is read by the caller;
//! the choices are made here.

use vstd::prelude::*;
use vstd::string::StringExecFns;

use crate::fixes::{opt_view, FixTier};
use crate::text::{chars_of, push_str};

verus! {

/// The journal of fixes applied as root.
pub const SYSTEM_JOURNAL: &'static str = "/var/lib/sysmedic/journal.json";

/// Where the privileged fix helper is installed.
pub const DEFAULT_HELPER: &'static str = "/usr/libexec/sysmedic-fix-helper";

/// The helper for destructive fixes: its own binary, so its polkit prompt
/// can say that what it does cannot be undone.
pub const DESTRUCTIVE_HELPER: &'static str = "/usr/libexec/sysmedic-fix-helper-destructive";

/// The privileged helper that runs fixes of `tier`.
pub fn helper_for_tier(tier: FixTier) -> (h: &'static str)
    ensures
        h@ == match tier {
            FixTier::Routine => DEFAULT_HELPER@,
            FixTier::Destructive => DESTRUCTIVE_HELPER@,
        },
{
    match tier {
        FixTier::Routine => DEFAULT_HELPER,
        FixTier::Destructive => DESTRUCTIVE_HELPER,
    }
}

/// The `PATH` fix commands run with.
pub const SAFE_PATH: &'static str = "/usr/sbin:/usr/bin:/sbin:/bin";

/// `rel` below `base`, as `Path::join` writes it: a separator goes between
/// them unless `base` is empty or already ends with one.
pub open spec fn joined(base: Seq<char>, rel: Seq<char>) -> Seq<char> {
    if base.len() == 0 || base.last() == '/' {
        base + rel
    } else {
        base + "/"@ + rel
    }
}

/// `rel` below `base` (see [`joined`]).
pub fn join(base: &str, rel: &str) -> (r: String)
    ensures
        r@ == joined(base@, rel@),
{
    let b = chars_of(base);
    let mut r = String::from_str(base);
    if b.len() > 0 && b[b.len() - 1] != '/' {
        push_str(&mut r, "/");
    }
    push_str(&mut r, rel);
    r
}

/// The state directory: `$XDG_STATE_HOME` when set and not empty, else
/// `$HOME/.local/state` when `HOME` is set and not empty, else none.
pub open spec fn state_dir_spec(xdg: Option<Seq<char>>, home: Option<Seq<char>>) -> Option<
    Seq<char>,
> {
    match xdg {
        Some(x) if x.len() > 0 => Some(x),
        _ => match home {
            Some(h) if h.len() > 0 => Some(joined(h, ".local/state"@)),
            _ => None,
        },
    }
}

pub open spec fn opt_str(o: Option<&str>) -> Option<Seq<char>> {
    match o {
        Some(s) => Some(s@),
        None => None,
    }
}

/// The state directory for the values of `XDG_STATE_HOME` and `HOME` (see
/// [`state_dir_spec`]).
pub fn state_dir(xdg: Option<&str>, home: Option<&str>) -> (r: Option<String>)
    ensures
        opt_view(r) == state_dir_spec(opt_str(xdg), opt_str(home)),
{
    match xdg {
        Some(x) if chars_of(x).len() > 0 => {
            return Some(String::from_str(x));
        },
        _ => {},
    }
    match home {
        Some(h) if chars_of(h).len() > 0 => Some(join(h, ".local/state")),
        _ => None,
    }
}

/// Where the fix journal lives: the system journal for root, otherwise
/// `sysmedic/journal.json` under the state directory, if there is one.
pub fn journal_path(is_root: bool, state_dir: Option<&str>) -> (r: Option<String>)
    ensures
        opt_view(r) == if is_root {
            Some(SYSTEM_JOURNAL@)
        } else {
            match state_dir {
                Some(d) => Some(joined(d@, "sysmedic/journal.json"@)),
                None => None,
            }
        },
{
    if is_root {
        return Some(String::from_str(SYSTEM_JOURNAL));
    }
    match state_dir {
        Some(d) => Some(join(d, "sysmedic/journal.json")),
        None => None,
    }
}

/// Where the health history lives: `sysmedic/history.jsonl` under
/// `$XDG_STATE_HOME` when set and not empty, else under
/// `$HOME/.local/state` when `HOME` is set, else under `/tmp`.
pub open spec fn history_path_spec(xdg: Option<Seq<char>>, home: Option<Seq<char>>) -> Seq<char> {
    let base = match xdg {
        Some(x) if x.len() > 0 => x,
        _ => match home {
            Some(h) => joined(h, ".local/state"@),
            None => "/tmp"@,
        },
    };
    joined(base, "sysmedic/history.jsonl"@)
}

/// The history file for the values of `XDG_STATE_HOME` and `HOME` (see
/// [`history_path_spec`]).
pub fn history_path(xdg: Option<&str>, home: Option<&str>) -> (r: String)
    ensures
        r@ == history_path_spec(opt_str(xdg), opt_str(home)),
{
    let base = match xdg {
        Some(x) if chars_of(x).len() > 0 => String::from_str(x),
        _ => match home {
            Some(h) => join(h, ".local/state"),
            None => String::from_str("/tmp"),
        },
    };
    join(base.as_str(), "sysmedic/history.jsonl")
}

} // verus!
