//! `/proc/meminfo`.

use vstd::prelude::*;

use crate::snapshot::MemoryInfo;
use crate::text::{
    char_views, chars_eq, chars_of, lemma_take_all, lines, lit, parse_u64_chars,
    parse_u64_spec, split_lines, split_once, split_once_chars, split_tokens, tokens, trim,
    trim_chars,
};

verus! {

/// The key and value of a `Key:   1234 kB` line, when the first token after
/// the colon is a number.
pub open spec fn meminfo_entry(l: Seq<char>) -> Option<(Seq<char>, u64)> {
    match split_once(l, ':') {
        Some((key, rest)) => if tokens(rest).len() > 0 && parse_u64_spec(tokens(rest)[0]) is Some {
            Some((trim(key), parse_u64_spec(tokens(rest)[0]).unwrap()))
        } else {
            None
        },
        None => None,
    }
}

/// The value recorded for `key` in `ls` (the last line that sets it wins).
pub open spec fn field_in(ls: Seq<Seq<char>>, key: Seq<char>) -> Option<u64>
    decreases ls.len(),
{
    if ls.len() == 0 {
        None
    } else {
        match meminfo_entry(ls.last()) {
            Some((k, v)) => if k == key {
                Some(v)
            } else {
                field_in(ls.drop_last(), key)
            },
            None => field_in(ls.drop_last(), key),
        }
    }
}

/// The value, or 0 when absent.
pub open spec fn or_zero(o: Option<u64>) -> nat {
    match o {
        Some(v) => v as nat,
        None => 0,
    }
}

/// Available memory when the kernel does not report `MemAvailable`: free
/// memory plus buffers plus page cache.
pub open spec fn fallback_available(ls: Seq<Seq<char>>) -> nat {
    or_zero(field_in(ls, "MemFree"@)) + or_zero(field_in(ls, "Buffers"@)) + or_zero(
        field_in(ls, "Cached"@),
    )
}

/// What `/proc/meminfo` says: `None` without `MemTotal`; available memory
/// from `MemAvailable`, or approximated when it is absent; swap 0 when the
/// swap lines are absent.
pub open spec fn meminfo(s: Seq<char>) -> Option<MemoryInfo> {
    let ls = lines(s);
    match field_in(ls, "MemTotal"@) {
        None => None,
        Some(total) => Some(
            MemoryInfo {
                total_kb: total,
                available_kb: match field_in(ls, "MemAvailable"@) {
                    Some(v) => v,
                    None => fallback_available(ls) as u64,
                },
                swap_total_kb: or_zero(field_in(ls, "SwapTotal"@)) as u64,
                swap_free_kb: or_zero(field_in(ls, "SwapFree"@)) as u64,
            },
        ),
    }
}

proof fn lemma_field_step(ls: Seq<Seq<char>>, key: Seq<char>, i: int)
    requires
        0 <= i < ls.len(),
    ensures
        field_in(ls.take(i + 1), key) == match meminfo_entry(ls[i]) {
            Some((k, v)) => if k == key {
                Some(v)
            } else {
                field_in(ls.take(i), key)
            },
            None => field_in(ls.take(i), key),
        },
{
    assert(ls.take(i + 1).drop_last() == ls.take(i));
    assert(ls.take(i + 1).last() == ls[i]);
}

fn entry_exec(l: &Vec<char>) -> (r: Option<(Vec<char>, u64)>)
    ensures
        match meminfo_entry(l@) {
            Some((k, v)) => r matches Some((kk, vv)) && kk@ == k && vv == v,
            None => r is None,
        },
{
    match split_once_chars(l, ':') {
        Some((key, rest)) => {
            let t = split_tokens(&rest);
            if t.len() > 0 {
                assert(char_views(t@)[0] == t@[0]@);
                match parse_u64_chars(&t[0]) {
                    Some(v) => Some((trim_chars(&key), v)),
                    None => None,
                }
            } else {
                None
            }
        },
        None => None,
    }
}

fn update(slot: &mut Option<u64>, key: &Vec<char>, entry: &Option<(Vec<char>, u64)>)
    ensures
        *final(slot) == match *entry {
            Some((k, v)) => if k@ == key@ {
                Some(v)
            } else {
                *old(slot)
            },
            None => *old(slot),
        },
{
    if let Some((k, v)) = entry {
        if chars_eq(k, key) {
            *slot = Some(*v);
        }
    }
}

/// Whether `/proc/meminfo` text `s` can be summarised in 64 bits: when it
/// lacks `MemAvailable`, the fallback sum of free memory, buffers and page
/// cache must fit.
pub open spec fn meminfo_fits_spec(s: Seq<char>) -> bool {
    field_in(lines(s), "MemTotal"@) is Some && field_in(lines(s), "MemAvailable"@) is None
        ==> fallback_available(lines(s)) <= u64::MAX
}

/// Test [`meminfo_fits_spec`], the condition under which [`parse_meminfo`]
/// may be called.
pub fn meminfo_fits(s: &str) -> (b: bool)
    ensures
        b == meminfo_fits_spec(s@),
{
    let cs = chars_of(s);
    let ls = split_lines(&cs);
    let ghost lv = char_views(ls@);
    let k_total = lit("MemTotal");
    let k_avail = lit("MemAvailable");
    let k_free = lit("MemFree");
    let k_buffers = lit("Buffers");
    let k_cached = lit("Cached");
    let mut total: Option<u64> = None;
    let mut avail: Option<u64> = None;
    let mut free: Option<u64> = None;
    let mut buffers: Option<u64> = None;
    let mut cached: Option<u64> = None;
    let n = ls.len();
    for i in 0..n
        invariant
            n == ls@.len(),
            lv == char_views(ls@),
            lv == lines(s@),
            k_total@ == "MemTotal"@,
            k_avail@ == "MemAvailable"@,
            k_free@ == "MemFree"@,
            k_buffers@ == "Buffers"@,
            k_cached@ == "Cached"@,
            total == field_in(lv.take(i as int), "MemTotal"@),
            avail == field_in(lv.take(i as int), "MemAvailable"@),
            free == field_in(lv.take(i as int), "MemFree"@),
            buffers == field_in(lv.take(i as int), "Buffers"@),
            cached == field_in(lv.take(i as int), "Cached"@),
    {
        proof {
            lemma_field_step(lv, "MemTotal"@, i as int);
            lemma_field_step(lv, "MemAvailable"@, i as int);
            lemma_field_step(lv, "MemFree"@, i as int);
            lemma_field_step(lv, "Buffers"@, i as int);
            lemma_field_step(lv, "Cached"@, i as int);
        }
        assert(ls@[i as int]@ == lv[i as int]);
        let e = entry_exec(&ls[i]);
        update(&mut total, &k_total, &e);
        update(&mut avail, &k_avail, &e);
        update(&mut free, &k_free, &e);
        update(&mut buffers, &k_buffers, &e);
        update(&mut cached, &k_cached, &e);
    }
    proof {
        lemma_take_all(lv);
    }
    if total.is_none() || avail.is_some() {
        return true;
    }
    let f: u128 = match free {
        Some(v) => v as u128,
        None => 0,
    };
    let b: u128 = match buffers {
        Some(v) => v as u128,
        None => 0,
    };
    let c: u128 = match cached {
        Some(v) => v as u128,
        None => 0,
    };
    f + b + c <= u64::MAX as u128
}

/// Parse `/proc/meminfo` (see [`meminfo`]).
pub fn parse_meminfo(s: &str) -> (r: Option<MemoryInfo>)
    requires
        field_in(lines(s@), "MemTotal"@) is Some && field_in(lines(s@), "MemAvailable"@) is None
            ==> fallback_available(lines(s@)) <= u64::MAX,
    ensures
        r == meminfo(s@),
{
    let cs = chars_of(s);
    let ls = split_lines(&cs);
    let ghost lv = char_views(ls@);
    let k_total = lit("MemTotal");
    let k_avail = lit("MemAvailable");
    let k_free = lit("MemFree");
    let k_buffers = lit("Buffers");
    let k_cached = lit("Cached");
    let k_swap_total = lit("SwapTotal");
    let k_swap_free = lit("SwapFree");
    let mut total: Option<u64> = None;
    let mut avail: Option<u64> = None;
    let mut free: Option<u64> = None;
    let mut buffers: Option<u64> = None;
    let mut cached: Option<u64> = None;
    let mut swap_total: Option<u64> = None;
    let mut swap_free: Option<u64> = None;
    let n = ls.len();
    for i in 0..n
        invariant
            n == ls@.len(),
            lv == char_views(ls@),
            lv == lines(s@),
            k_total@ == "MemTotal"@,
            k_avail@ == "MemAvailable"@,
            k_free@ == "MemFree"@,
            k_buffers@ == "Buffers"@,
            k_cached@ == "Cached"@,
            k_swap_total@ == "SwapTotal"@,
            k_swap_free@ == "SwapFree"@,
            total == field_in(lv.take(i as int), "MemTotal"@),
            avail == field_in(lv.take(i as int), "MemAvailable"@),
            free == field_in(lv.take(i as int), "MemFree"@),
            buffers == field_in(lv.take(i as int), "Buffers"@),
            cached == field_in(lv.take(i as int), "Cached"@),
            swap_total == field_in(lv.take(i as int), "SwapTotal"@),
            swap_free == field_in(lv.take(i as int), "SwapFree"@),
    {
        proof {
            lemma_field_step(lv, "MemTotal"@, i as int);
            lemma_field_step(lv, "MemAvailable"@, i as int);
            lemma_field_step(lv, "MemFree"@, i as int);
            lemma_field_step(lv, "Buffers"@, i as int);
            lemma_field_step(lv, "Cached"@, i as int);
            lemma_field_step(lv, "SwapTotal"@, i as int);
            lemma_field_step(lv, "SwapFree"@, i as int);
        }
        assert(ls@[i as int]@ == lv[i as int]);
        let e = entry_exec(&ls[i]);
        update(&mut total, &k_total, &e);
        update(&mut avail, &k_avail, &e);
        update(&mut free, &k_free, &e);
        update(&mut buffers, &k_buffers, &e);
        update(&mut cached, &k_cached, &e);
        update(&mut swap_total, &k_swap_total, &e);
        update(&mut swap_free, &k_swap_free, &e);
    }
    proof {
        lemma_take_all(lv);
    }
    let total = match total {
        Some(t) => t,
        None => return None,
    };
    let available = match avail {
        Some(a) => a,
        None => {
            let f = match free {
                Some(v) => v,
                None => 0,
            };
            let b = match buffers {
                Some(v) => v,
                None => 0,
            };
            let c = match cached {
                Some(v) => v,
                None => 0,
            };
            f + b + c
        },
    };
    Some(
        MemoryInfo {
            total_kb: total,
            available_kb: available,
            swap_total_kb: match swap_total {
                Some(v) => v,
                None => 0,
            },
            swap_free_kb: match swap_free {
                Some(v) => v,
                None => 0,
            },
        },
    )
}

} // verus!
