//! Health-score history: one entry per checkup, and the trend it shows.
//! Reading and appending the history file is the caller's part.

use vstd::prelude::*;
use vstd::string::StringExecFns;

use crate::finding::{Finding, Severity};
use crate::report::HealthReport;
use crate::text::{count_where, lemma_count_step, push_char};

verus! {

/// One recorded checkup: when, the score, and how many findings of each
/// severity.
#[derive(Debug, Clone, PartialEq)]
pub struct HistoryEntry {
    pub at: String,
    pub score: u8,
    pub grade: String,
    pub findings: usize,
    pub critical: usize,
    pub high: usize,
}

/// How many findings have severity `s`.
pub open spec fn count_severity(fs: Seq<Finding>, s: Severity) -> nat {
    count_where(fs, |f: Finding| f.severity == s)
}

fn count_of(fs: &Vec<Finding>, s: Severity) -> (n: usize)
    ensures
        n == count_severity(fs@, s),
{
    let ghost p = |f: Finding| f.severity == s;
    let mut n: usize = 0;
    for i in 0..fs.len()
        invariant
            p == (|f: Finding| f.severity == s),
            n == count_where(fs@.take(i as int), p),
    {
        proof {
            lemma_count_step(fs@, p, i as int);
        }
        if fs[i].severity == s {
            n = n + 1;
        }
    }
    assert(fs@.take(fs@.len() as int) == fs@);
    n
}

impl HistoryEntry {
    /// The entry recording `report`, taken at `at`.
    pub fn from_report(report: &HealthReport, at: String) -> (e: HistoryEntry)
        ensures
            e.at == at,
            e.score == report.score,
            e.grade@ == report.grade@,
            e.findings == report.findings@.len(),
            e.critical == count_severity(report.findings@, Severity::Critical),
            e.high == count_severity(report.findings@, Severity::High),
    {
        HistoryEntry {
            at,
            score: report.score,
            grade: String::from_str(report.grade),
            findings: report.findings.len(),
            critical: count_of(&report.findings, Severity::Critical),
            high: count_of(&report.findings, Severity::High),
        }
    }
}

/// The eight bars of a sparkline, lowest first.
pub open spec fn bars() -> Seq<char> {
    seq!['▁', '▂', '▃', '▄', '▅', '▆', '▇', '█']
}

/// The bar for a score: 0–100 spread over the eight bars.
pub open spec fn bar_of(score: u8) -> char {
    let idx = (score as nat * 7) / 100;
    bars()[if idx > 7 {
        7
    } else {
        idx as int
    }]
}

/// The sparkline of `entries`: one bar per entry, in order.
pub open spec fn spark(entries: Seq<HistoryEntry>) -> Seq<char> {
    entries.map_values(|e: HistoryEntry| bar_of(e.score))
}

fn bar_exec(score: u8) -> (c: char)
    ensures
        c == bar_of(score),
{
    let idx = (score as usize * 7) / 100;
    let i = if idx > 7 {
        7
    } else {
        idx
    };
    let b = ['▁', '▂', '▃', '▄', '▅', '▆', '▇', '█'];
    assert(b@ == bars());
    b[i]
}

/// A sparkline of the last `max` scores.
pub fn sparkline(entries: &[HistoryEntry], max: usize) -> (s: String)
    ensures
        s@ == spark(
            entries@.subrange(
                if entries@.len() > max {
                    entries@.len() - max
                } else {
                    0
                },
                entries@.len() as int,
            ),
        ),
{
    let n = entries.len();
    let start: usize = if n > max {
        n - max
    } else {
        0
    };
    let ghost shown = entries@.subrange(start as int, n as int);
    let mut s = String::new();
    for i in start..n
        invariant
            n == entries@.len(),
            start <= n,
            shown == entries@.subrange(start as int, n as int),
            s@ == spark(entries@.subrange(start as int, i as int)),
    {
        push_char(&mut s, bar_exec(entries[i].score));
        assert(spark(entries@.subrange(start as int, i + 1)) =~= spark(
            entries@.subrange(start as int, i as int),
        ).push(bar_of(entries@[i as int].score)));
    }
    s
}

/// The change from the first to the last recorded score, when there are
/// at least two.
pub fn trend_delta(entries: &[HistoryEntry]) -> (d: Option<i32>)
    ensures
        d == if entries@.len() >= 2 {
            Some((entries@.last().score - entries@[0].score) as i32)
        } else {
            None::<i32>
        },
{
    let n = entries.len();
    if n >= 2 {
        Some(entries[n - 1].score as i32 - entries[0].score as i32)
    } else {
        None
    }
}

/// The instant an RFC 3339 timestamp names, as seconds and nanoseconds
/// since the Unix epoch, or `None` when it does not parse.
pub uninterp spec fn rfc3339_instant(s: Seq<char>) -> Option<(u64, u32)>;

/// Parse an RFC 3339 timestamp with `humantime::parse_rfc3339`: `Some`
/// with the instant as seconds and nanoseconds since the Unix epoch (the
/// nanoseconds below one billion) when it parses, `None` otherwise.
#[verifier::external_body]
fn parse_rfc3339(s: &str) -> (r: Option<(u64, u32)>)
    ensures
        r == rfc3339_instant(s@),
        r matches Some((_, n)) ==> n < 1000000000,
{
    match humantime::parse_rfc3339(s) {
        Ok(t) => match t.duration_since(std::time::UNIX_EPOCH) {
            Ok(d) => Some((d.as_secs(), d.subsec_nanos())),
            Err(_) => None,
        },
        Err(_) => None,
    }
}

/// Whole seconds from `last` to `new`, or `None` when `new` is earlier.
pub open spec fn whole_seconds_between(last: (u64, u32), new: (u64, u32)) -> Option<int> {
    let l = last.0 * 1000000000 + last.1;
    let n = new.0 * 1000000000 + new.1;
    if n >= l {
        Some((n - l) / 1000000000)
    } else {
        None
    }
}

/// Whether an entry taken at `new` is recorded after one taken at `last`:
/// only when both instants are known, `new` is not earlier, and fewer than
/// `min_gap_secs` whole seconds separate them is it skipped.
pub open spec fn record_due(last: Option<(u64, u32)>, new: Option<(u64, u32)>, min_gap_secs: u64) -> bool {
    match (last, new) {
        (Some(l), Some(n)) => match whole_seconds_between(l, n) {
            Some(d) => d >= min_gap_secs,
            None => true,
        },
        _ => true,
    }
}

/// Decide [`record_due`] from the parsed instants.
pub fn record_due_for(last: Option<(u64, u32)>, new: Option<(u64, u32)>, min_gap_secs: u64) -> (b:
    bool)
    requires
        last matches Some((_, ln)) ==> ln < 1000000000,
        new matches Some((_, nn)) ==> nn < 1000000000,
    ensures
        b == record_due(last, new, min_gap_secs),
{
    match (last, new) {
        (Some(l), Some(n)) => {
            let lt = l.0 as u128 * 1000000000 + l.1 as u128;
            let nt = n.0 as u128 * 1000000000 + n.1 as u128;
            if nt >= lt {
                (nt - lt) / 1000000000 >= min_gap_secs as u128
            } else {
                true
            }
        },
        _ => true,
    }
}

/// Whether a new entry timestamped `new_at` is recorded, given the latest
/// recorded timestamp: a missing or unparseable timestamp never blocks a
/// record, so rapid refreshes do not flood the history while the trend
/// still follows health over time.
pub fn should_record(last_at: Option<&str>, new_at: &str, min_gap_secs: u64) -> (b: bool)
    ensures
        b == match last_at {
            None => true,
            Some(l) => record_due(rfc3339_instant(l@), rfc3339_instant(new_at@), min_gap_secs),
        },
{
    match last_at {
        None => true,
        Some(l) => {
            let last = parse_rfc3339(l);
            let new = parse_rfc3339(new_at);
            record_due_for(last, new, min_gap_secs)
        },
    }
}

} // verus!
