//! `/proc/<pid>/stat` and `/proc/<pid>/statm`.

use vstd::prelude::*;

use crate::snapshot::ProcessTop;

use crate::text::{
    char_views, chars_of, lemma_tokens_nonempty, parse_u64_chars, parse_u64_spec, slice_chars,
    split_tokens, tokens,
};

verus! {

/// The last position of `c` in `s[..j]`.
pub open spec fn rfind_before(s: Seq<char>, c: char, j: int) -> Option<int>
    decreases j,
{
    if j <= 0 || j > s.len() {
        None
    } else if s[j - 1] == c {
        Some(j - 1)
    } else {
        rfind_before(s, c, j - 1)
    }
}

/// The process state in `/proc/<pid>/stat`: the first character of the first
/// token after the last `)` (the command name may itself hold parentheses).
pub open spec fn stat_state(stat: Seq<char>) -> Option<char> {
    match rfind_before(stat, ')', stat.len() as int) {
        Some(k) => {
            let t = tokens(stat.skip(k + 1));
            if t.len() > 0 {
                Some(t[0][0])
            } else {
                None
            }
        },
        None => None,
    }
}

proof fn lemma_rfind_range(s: Seq<char>, c: char, j: int)
    requires
        0 <= j <= s.len(),
    ensures
        rfind_before(s, c, j) matches Some(k) ==> 0 <= k < j,
    decreases j,
{
    if j > 0 && s[j - 1] != c {
        lemma_rfind_range(s, c, j - 1);
    }
}

/// Extract the process state from `/proc/<pid>/stat`.
pub fn parse_stat_state(stat: &str) -> (r: Option<char>)
    ensures
        r == stat_state(stat@),
{
    let cs = chars_of(stat);
    let n = cs.len();
    let mut j = n;
    while j > 0 && cs[j - 1] != ')'
        invariant
            j <= n,
            n == cs@.len(),
            cs@ == stat@,
            rfind_before(cs@, ')', j as int) == rfind_before(cs@, ')', n as int),
        decreases j,
    {
        j = j - 1;
    }
    if j == 0 {
        return None;
    }
    let rest = slice_chars(&cs, j, n);
    assert(rest@ == stat@.skip(j as int));
    let t = split_tokens(&rest);
    proof {
        lemma_tokens_nonempty(rest@);
    }
    if t.len() > 0 {
        assert(char_views(t@)[0] == t@[0]@);
        let first = &t[0];
        Some(first[0])
    } else {
        None
    }
}

/// The resident-set size in pages recorded in `/proc/<pid>/statm` (its
/// second field).
pub open spec fn statm_pages(statm: Seq<char>) -> Option<u64> {
    if tokens(statm).len() > 1 {
        parse_u64_spec(tokens(statm)[1])
    } else {
        None
    }
}

/// Whether the resident-set size in `statm`, scaled to kB by
/// `page_size_kb`, fits in 64 bits: the condition under which
/// [`parse_statm_rss_kb`] may be called.
pub fn statm_fits(statm: &str, page_size_kb: u64) -> (b: bool)
    ensures
        b == (statm_pages(statm@) matches Some(p) ==> p * page_size_kb <= u64::MAX),
{
    let cs = chars_of(statm);
    let t = split_tokens(&cs);
    if t.len() > 1 {
        assert(char_views(t@)[1] == t@[1]@);
        match parse_u64_chars(&t[1]) {
            Some(p) => {
                let (a, b) = (p as u128, page_size_kb as u128);
                assert(a * b <= u128::MAX) by (nonlinear_arith)
                    requires
                        a <= 0xffff_ffff_ffff_ffff,
                        b <= 0xffff_ffff_ffff_ffff,
                ;
                a * b <= u64::MAX as u128
            },
            None => true,
        }
    } else {
        true
    }
}

/// Resident set size in kB from `/proc/<pid>/statm`, given the system page
/// size in kB.
pub fn parse_statm_rss_kb(statm: &str, page_size_kb: u64) -> (r: Option<u64>)
    requires
        statm_pages(statm@) matches Some(p) ==> p * page_size_kb <= u64::MAX,
    ensures
        r == match statm_pages(statm@) {
            Some(p) => Some((p * page_size_kb) as u64),
            None => None::<u64>,
        },
{
    let cs = chars_of(statm);
    let t = split_tokens(&cs);
    if t.len() > 1 {
        assert(char_views(t@)[1] == t@[1]@);
        match parse_u64_chars(&t[1]) {
            Some(p) => Some(p * page_size_kb),
            None => None,
        }
    } else {
        None
    }
}

/// Where a process using `rss` goes among `s`: after every process using
/// at least as much.
pub open spec fn rss_slot(s: Seq<ProcessTop>, rss: u64, i: int) -> int
    decreases s.len() - i,
{
    if i >= s.len() {
        s.len() as int
    } else if s[i].rss_kb < rss {
        i
    } else {
        rss_slot(s, rss, i + 1)
    }
}

/// `s` ordered by memory use, largest first; equal uses keep their order.
pub open spec fn by_memory(s: Seq<ProcessTop>) -> Seq<ProcessTop>
    decreases s.len(),
{
    if s.len() == 0 {
        Seq::empty()
    } else {
        let r = by_memory(s.drop_last());
        r.insert(rss_slot(r, s.last().rss_kb, 0), s.last())
    }
}

/// How many processes the snapshot lists by memory use.
pub const TOP_PROCESSES: usize = 5;

/// The five processes using the most memory, largest first (equal uses in
/// the order found).
pub fn top_by_memory(procs: Vec<ProcessTop>) -> (r: Vec<ProcessTop>)
    ensures
        r@ == if by_memory(procs@).len() > 5 {
            by_memory(procs@).take(5)
        } else {
            by_memory(procs@)
        },
{
    let ghost all = procs@;
    let total = procs.len();
    let mut sorted: Vec<ProcessTop> = Vec::new();
    let mut rest = procs;
    let mut consumed: usize = 0;
    assert(rest@ == all.skip(0));
    while rest.len() > 0
        invariant
            consumed + rest@.len() == all.len(),
            all.len() == total,
            rest@ == all.skip(consumed as int),
            sorted@ == by_memory(all.take(consumed as int)),
        decreases rest@.len(),
    {
        let x = rest.remove(0);
        assert(x == all[consumed as int]);
        let ghost t = all.take(consumed + 1);
        assert(t.drop_last() == all.take(consumed as int));
        assert(t.last() == x);
        let mut p: usize = 0;
        while p < sorted.len() && sorted[p].rss_kb >= x.rss_kb
            invariant
                p <= sorted@.len(),
                rss_slot(sorted@, x.rss_kb, p as int) == rss_slot(sorted@, x.rss_kb, 0),
            decreases sorted@.len() - p,
        {
            p = p + 1;
        }
        assert(rss_slot(sorted@, x.rss_kb, p as int) == p);
        sorted.insert(p, x);
        consumed = consumed + 1;
        assert(rest@ =~= all.skip(consumed as int));
    }
    assert(all.take(all.len() as int) == all);
    sorted.truncate(TOP_PROCESSES);
    sorted
}

} // verus!
