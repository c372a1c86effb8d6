//! Routing table and resolver configuration.

use vstd::prelude::*;

use crate::text::{
    char_views, chars_eq, chars_of, filter_map, lemma_filter_map_step, lemma_take_all, lines,
    lit, matches_at, slice_chars, split_lines, split_tokens, starts_with_chars,
    string_from_chars, tokens, trim, trim_chars, views,
};

verus! {

/// Whether a `/proc/net/route` row has destination `00000000`.
pub open spec fn is_default_route(l: Seq<char>) -> bool {
    tokens(l).len() > 1 && tokens(l)[1] == "00000000"@
}

/// Whether `/proc/net/route` lists a default route: some row after the
/// header has destination `00000000`.
pub open spec fn has_default_route(route: Seq<char>) -> bool {
    exists|i: int| 1 <= i < lines(route).len() && is_default_route(#[trigger] lines(route)[i])
}

/// A default route has destination `00000000` in `/proc/net/route`.
pub fn parse_has_default_route(route: &str) -> (b: bool)
    ensures
        b == has_default_route(route@),
{
    let cs = chars_of(route);
    let ls = split_lines(&cs);
    let ghost lv = char_views(ls@);
    let zero = lit("00000000");
    let n = ls.len();
    if n == 0 {
        return false;
    }
    for i in 1..n
        invariant
            n == ls@.len(),
            lv == char_views(ls@),
            lv == lines(route@),
            zero@ == "00000000"@,
            forall|j: int| 1 <= j < i ==> !is_default_route(#[trigger] lv[j]),
    {
        assert(ls@[i as int]@ == lv[i as int]);
        let t = split_tokens(&ls[i]);
        if t.len() > 1 {
            assert(char_views(t@)[1] == t@[1]@);
            if chars_eq(&t[1], &zero) {
                assert(is_default_route(lv[i as int]));
                return true;
            }
        }
    }
    false
}

/// The nameserver of a `resolv.conf` line, if it names one.
pub open spec fn nameserver(l: Seq<char>) -> Option<Seq<char>> {
    let t = trim(l);
    if matches_at(t, "nameserver"@, 0) && trim(t.skip(10)).len() > 0 {
        Some(trim(t.skip(10)))
    } else {
        None
    }
}

/// The nameservers listed in `resolv.conf`.
pub fn parse_resolv(resolv: &str) -> (r: Vec<String>)
    ensures
        views(r@) == filter_map(lines(resolv@), |l: Seq<char>| nameserver(l)),
{
    let cs = chars_of(resolv);
    let ls = split_lines(&cs);
    let ghost lv = char_views(ls@);
    let key = lit("nameserver");
    let mut out: Vec<String> = Vec::new();
    let n = ls.len();
    for i in 0..n
        invariant
            n == ls@.len(),
            lv == char_views(ls@),
            lv == lines(resolv@),
            key@ == "nameserver"@,
            views(out@) == filter_map(lv.take(i as int), |l: Seq<char>| nameserver(l)),
    {
        proof {
            lemma_filter_map_step(lv, |l: Seq<char>| nameserver(l), i as int);
            reveal_strlit("nameserver");
        }
        assert(ls@[i as int]@ == lv[i as int]);
        let t = trim_chars(&ls[i]);
        if starts_with_chars(&t, &key) {
            let rest = slice_chars(&t, 10, t.len());
            assert(rest@ == t@.skip(10));
            let v = trim_chars(&rest);
            if v.len() > 0 {
                let name = string_from_chars(&v);
                let ghost before = out@;
                out.push(name);
                assert(views(out@) == views(before).push(name@));
            }
        }
    }
    proof {
        lemma_take_all(lv);
    }
    out
}

} // verus!
