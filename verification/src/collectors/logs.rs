//! The systemd journal's disk usage, and the largest files under
//! `/var/log` (the directory walk is the caller's).

use vstd::prelude::*;

use crate::collectors::sizes::{parse_size, parse_size_spec};
use crate::snapshot::LargeFile;
use crate::text::{chars_of, find_chars, find_seq, lit, slice_chars, split_tokens, string_from_chars, tokens};

verus! {

broadcast use vstd::seq_lib::group_seq_properties;

/// Files at least this large (100 MiB) count as large logs.
pub const LARGE_LOG_BYTES: u64 = 104857600;

/// Whether a log file of `bytes` is worth reporting.
pub fn is_large_log(bytes: u64) -> (b: bool)
    ensures
        b == (bytes >= LARGE_LOG_BYTES),
{
    bytes >= LARGE_LOG_BYTES
}

/// What `journalctl --disk-usage` reports: the size after "take up".
pub open spec fn journal_usage_spec(s: Seq<char>) -> Option<u64> {
    match find_seq(s, "take up"@) {
        Some(i) => {
            let ts = tokens(s.skip(i + 7));
            if ts.len() > 0 {
                parse_size_spec(ts[0])
            } else {
                None
            }
        },
        None => None,
    }
}

/// The journal's size on disk from `journalctl --disk-usage`, e.g.
/// "Archived and active journals take up 3.9G in the file system."
pub fn parse_journal_usage(s: &str) -> (r: Option<u64>)
    ensures
        r == journal_usage_spec(s@),
{
    let cs = chars_of(s);
    let key = lit("take up");
    proof {
        reveal_strlit("take up");
    }
    let i = match find_chars(&cs, &key) {
        Some(i) => i,
        None => return None,
    };
    let n = cs.len();
    assert(i + 7 <= n) by {
        assert(crate::text::matches_at(cs@, key@, i as int));
    }
    let rest = slice_chars(&cs, i + 7, n);
    assert(rest@ == s@.skip(i + 7));
    let ts = split_tokens(&rest);
    if ts.len() == 0 {
        return None;
    }
    assert(ts[0]@ == tokens(rest@)[0]);
    let token = string_from_chars(&ts[0]);
    parse_size(token.as_str())
}

/// Where a file of `bytes` goes among `s`: after every file at least as
/// large.
pub open spec fn file_slot(s: Seq<LargeFile>, bytes: u64, i: int) -> int
    decreases s.len() - i,
{
    if i >= s.len() {
        s.len() as int
    } else if s[i].bytes < bytes {
        i
    } else {
        file_slot(s, bytes, i + 1)
    }
}

/// `s` ordered largest first; files of equal size keep their order.
pub open spec fn files_largest_first(s: Seq<LargeFile>) -> Seq<LargeFile>
    decreases s.len(),
{
    if s.len() == 0 {
        Seq::empty()
    } else {
        let r = files_largest_first(s.drop_last());
        r.insert(file_slot(r, s.last().bytes, 0), s.last())
    }
}

/// The ten largest of `files`, largest first (equal sizes in the order
/// found), as the log section keeps them.
pub fn keep_largest(files: Vec<LargeFile>) -> (r: Vec<LargeFile>)
    ensures
        r@ == if files_largest_first(files@).len() > 10 {
            files_largest_first(files@).take(10)
        } else {
            files_largest_first(files@)
        },
{
    let ghost all = files@;
    let total = files.len();
    let mut sorted: Vec<LargeFile> = Vec::new();
    let mut rest = files;
    let mut consumed: usize = 0;
    assert(rest@ == all.skip(0));
    while rest.len() > 0
        invariant
            consumed + rest@.len() == all.len(),
            all.len() == total,
            rest@ == all.skip(consumed as int),
            sorted@ == files_largest_first(all.take(consumed as int)),
        decreases rest@.len(),
    {
        let x = rest.remove(0);
        assert(x == all[consumed as int]);
        let ghost t = all.take(consumed + 1);
        assert(t.drop_last() == all.take(consumed as int));
        assert(t.last() == x);
        let mut p: usize = 0;
        while p < sorted.len() && sorted[p].bytes >= x.bytes
            invariant
                p <= sorted@.len(),
                file_slot(sorted@, x.bytes, p as int) == file_slot(sorted@, x.bytes, 0),
            decreases sorted@.len() - p,
        {
            p = p + 1;
        }
        assert(file_slot(sorted@, x.bytes, p as int) == p);
        sorted.insert(p, x);
        consumed = consumed + 1;
        assert(rest@ =~= all.skip(consumed as int));
    }
    assert(all.take(all.len() as int) == all);
    sorted.truncate(10);
    sorted
}

} // verus!
