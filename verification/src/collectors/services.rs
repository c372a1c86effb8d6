//! systemd units.

use vstd::prelude::*;

use crate::text::{
    char_views, chars_eq, chars_of, filter_map, lemma_filter_map_step, lemma_take_all, lines,
    lit, split_lines, split_tokens, string_from_chars, tokens, views,
};

verus! {

/// Whether a token is one of systemd's status markers (`●`, `×`, `*`).
pub open spec fn is_marker(t: Seq<char>) -> bool {
    t == "●"@ || t == "×"@ || t == "*"@
}

/// The first token in `t` that is not a status marker.
pub open spec fn first_unmarked(t: Seq<Seq<char>>) -> Option<Seq<char>>
    decreases t.len(),
{
    if t.len() == 0 {
        None
    } else if is_marker(t[0]) {
        first_unmarked(t.drop_first())
    } else {
        Some(t[0])
    }
}

/// The unit named by a `systemctl --plain --no-legend` line.
pub open spec fn unit_name(l: Seq<char>) -> Option<Seq<char>> {
    first_unmarked(tokens(l))
}

fn first_unmarked_index(t: &Vec<Vec<char>>, dot: &Vec<char>, cross: &Vec<char>, star: &Vec<
    char,
>) -> (r: Option<usize>)
    requires
        dot@ == "●"@,
        cross@ == "×"@,
        star@ == "*"@,
    ensures
        match first_unmarked(char_views(t@)) {
            Some(u) => r matches Some(k) && k < t@.len() && t@[k as int]@ == u,
            None => r is None,
        },
{
    let ghost tv = char_views(t@);
    let n = t.len();
    assert(tv.skip(0) == tv);
    for k in 0..n
        invariant
            n == t@.len(),
            tv == char_views(t@),
            dot@ == "●"@,
            cross@ == "×"@,
            star@ == "*"@,
            first_unmarked(tv.skip(k as int)) == first_unmarked(tv),
    {
        assert(tv.skip(k as int)[0] == t@[k as int]@);
        assert(tv.skip(k as int).drop_first() == tv.skip(k + 1));
        let tok = &t[k];
        if !(chars_eq(tok, dot) || chars_eq(tok, cross) || chars_eq(tok, star)) {
            return Some(k);
        }
    }
    assert(tv.skip(n as int).len() == 0);
    None
}

/// The unit names of `systemctl --plain --no-legend` output: on each line,
/// the first token that is not a status marker.
pub fn parse_unit_names(s: &str) -> (r: Vec<String>)
    ensures
        views(r@) == filter_map(lines(s@), |l: Seq<char>| unit_name(l)),
{
    let cs = chars_of(s);
    let ls = split_lines(&cs);
    let ghost lv = char_views(ls@);
    let dot = lit("●");
    let cross = lit("×");
    let star = lit("*");
    let mut out: Vec<String> = Vec::new();
    let n = ls.len();
    for i in 0..n
        invariant
            n == ls@.len(),
            lv == char_views(ls@),
            lv == lines(s@),
            dot@ == "●"@,
            cross@ == "×"@,
            star@ == "*"@,
            views(out@) == filter_map(lv.take(i as int), |l: Seq<char>| unit_name(l)),
    {
        proof {
            lemma_filter_map_step(lv, |l: Seq<char>| unit_name(l), i as int);
        }
        let l = &ls[i];
        assert(l@ == lv[i as int]);
        let t = split_tokens(l);
        if let Some(k) = first_unmarked_index(&t, &dot, &cross, &star) {
            let name = string_from_chars(&t[k]);
            let ghost before = out@;
            out.push(name);
            assert(views(out@) == views(before).push(name@));
        }
    }
    proof {
        lemma_take_all(lv);
    }
    out
}

} // verus!
