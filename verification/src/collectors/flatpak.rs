//! Flatpak runtimes.

use vstd::prelude::*;

use crate::text::{
    char_views, chars_eq, chars_of, contains_chars, contains_seq, filter_map,
    lemma_filter_map_step, lemma_take_all, lines, split_lines, split_tokens, string_from_chars,
    tokens, trim, trim_chars, views,
};

verus! {

/// The runtimes installed apps declare: the non-blank, trimmed lines of the
/// app listing's `runtime` column.
pub open spec fn needed_runtimes(app_runtimes: Seq<char>) -> Seq<Seq<char>> {
    filter_map(lines(app_runtimes), |l: Seq<char>| trimmed_nonblank(l))
}

/// A line, trimmed, unless it is blank.
pub open spec fn trimmed_nonblank(l: Seq<char>) -> Option<Seq<char>> {
    if trim(l).len() > 0 {
        Some(trim(l))
    } else {
        None
    }
}

/// Whether a runtime (application id `app`, full ref `reference`) is needed:
/// some app's runtime names it.
pub open spec fn runtime_needed(needed: Seq<Seq<char>>, app: Seq<char>, reference: Seq<char>) -> bool {
    exists|k: int|
        0 <= k < needed.len() && (contains_seq(#[trigger] needed[k], app) || contains_seq(
            reference,
            needed[k],
        ) || needed[k] == reference)
}

/// The full ref of an installed runtime line when no app needs it.
pub open spec fn unused_ref(l: Seq<char>, needed: Seq<Seq<char>>) -> Option<Seq<char>> {
    let cols = tokens(l);
    if cols.len() == 0 {
        None
    } else {
        let app = cols[0];
        let reference = if cols.len() > 1 {
            cols[1]
        } else {
            app
        };
        if runtime_needed(needed, app, reference) {
            None
        } else {
            Some(reference)
        }
    }
}

/// Runtime refs no installed application declares as its runtime.
/// `runtimes` is the `application,ref` listing of installed runtimes;
/// `app_runtimes` is the `runtime` column of installed apps.
pub fn unused_refs(runtimes: &str, app_runtimes: &str) -> (r: Vec<String>)
    ensures
        views(r@) == filter_map(
            lines(runtimes@),
            |l: Seq<char>| unused_ref(l, needed_runtimes(app_runtimes@)),
        ),
{
    let acs = chars_of(app_runtimes);
    let als = split_lines(&acs);
    let ghost alv = char_views(als@);
    let mut needed: Vec<Vec<char>> = Vec::new();
    for i in 0..als.len()
        invariant
            alv == char_views(als@),
            alv == lines(app_runtimes@),
            char_views(needed@) == filter_map(alv.take(i as int), |l: Seq<char>| trimmed_nonblank(l)),
    {
        proof {
            lemma_filter_map_step(alv, |l: Seq<char>| trimmed_nonblank(l), i as int);
        }
        assert(als@[i as int]@ == alv[i as int]);
        let t = trim_chars(&als[i]);
        if t.len() > 0 {
            let ghost before = needed@;
            needed.push(t);
            assert(char_views(needed@) == char_views(before).push(t@));
        }
    }
    proof {
        lemma_take_all(alv);
    }
    let ghost nv = char_views(needed@);
    assert(nv == needed_runtimes(app_runtimes@));
    let cs = chars_of(runtimes);
    let ls = split_lines(&cs);
    let ghost lv = char_views(ls@);
    let mut out: Vec<String> = Vec::new();
    for i in 0..ls.len()
        invariant
            lv == char_views(ls@),
            lv == lines(runtimes@),
            nv == char_views(needed@),
            nv == needed_runtimes(app_runtimes@),
            views(out@) == filter_map(lv.take(i as int), |l: Seq<char>| unused_ref(l, nv)),
    {
        proof {
            lemma_filter_map_step(lv, |l: Seq<char>| unused_ref(l, nv), i as int);
        }
        assert(ls@[i as int]@ == lv[i as int]);
        let cols = split_tokens(&ls[i]);
        let ghost cv = char_views(cols@);
        if cols.len() > 0 {
            assert(cv[0] == cols@[0]@);
            let app = &cols[0];
            let reference = if cols.len() > 1 {
                assert(cv[1] == cols@[1]@);
                &cols[1]
            } else {
                &cols[0]
            };
            let mut is_needed = false;
            for k in 0..needed.len()
                invariant
                    nv == char_views(needed@),
                    is_needed == exists|q: int|
                        0 <= q < k && (contains_seq(#[trigger] nv[q], app@) || contains_seq(
                            reference@,
                            nv[q],
                        ) || nv[q] == reference@),
            {
                let r = &needed[k];
                assert(nv[k as int] == r@);
                if contains_chars(r, app) || contains_chars(reference, r) || chars_eq(r, reference) {
                    is_needed = true;
                }
            }
            if !is_needed {
                let name = string_from_chars(reference);
                let ghost before = out@;
                out.push(name);
                assert(views(out@) == views(before).push(name@));
            }
        }
    }
    proof {
        lemma_take_all(lv);
    }
    out
}

} // verus!
