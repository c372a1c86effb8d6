//! snapd.

use vstd::prelude::*;

use crate::text::{
    char_views, chars_of, count_where, lemma_count_step, lines, lit, after_header,
    matches_at, matches_at_exec, split_lines, split_tokens, tokens,
};

verus! {

/// Whether `note` is one of the comma-separated pieces of `field`.
pub open spec fn has_note(field: Seq<char>, note: Seq<char>) -> bool {
    exists|i: int|
        matches_at(field, note, i) && (i == 0 || field[i - 1] == ',') && (i + note.len()
            == field.len() || field[i + note.len()] == ',')
}

/// Whether a `snap list --all` row is a disabled revision: one of its
/// fields carries the `disabled` note.
pub open spec fn is_disabled_row(l: Seq<char>) -> bool {
    exists|k: int| 0 <= k < tokens(l).len() && has_note(#[trigger] tokens(l)[k], "disabled"@)
}

fn has_note_exec(field: &Vec<char>, note: &Vec<char>) -> (b: bool)
    ensures
        b == has_note(field@, note@),
{
    let n = field.len();
    let m = note.len();
    let mut i: usize = 0;
    loop
        invariant
            n == field@.len(),
            m == note@.len(),
            i <= n,
            forall|j: int|
                0 <= j < i ==> !(matches_at(field@, note@, j) && (j == 0 || field@[j - 1] == ',')
                    && (j + m == n || field@[j + m] == ',')),
        decreases n - i,
    {
        if matches_at_exec(field, note, i) && (i == 0 || field[i - 1] == ',') && (i + m == n
            || field[i + m] == ',') {
            return true;
        }
        if i == n {
            assert forall|j: int|
                !(matches_at(field@, note@, j) && (j == 0 || field@[j - 1] == ',') && (j + m == n
                    || field@[j + m] == ',')) by {
                if 0 <= j <= n {
                } else {
                    assert(!matches_at(field@, note@, j));
                }
            }
            return false;
        }
        i = i + 1;
    }
}

/// Old (disabled) revisions kept on disk: the rows after the header of
/// `snap list --all` whose notes include `disabled`.
pub fn parse_disabled_revisions(s: &str) -> (r: u32)
    requires
        lines(s@).len() <= u32::MAX,
    ensures
        r == count_where(after_header(lines(s@)), |l: Seq<char>| is_disabled_row(l)),
{
    let cs = chars_of(s);
    let ls = split_lines(&cs);
    let ghost lv = char_views(ls@);
    let note = lit("disabled");
    let mut count: u32 = 0;
    let n = ls.len();
    if n == 0 {
        return 0;
    }
    let ghost body = lv.skip(1);
    for i in 1..n
        invariant
            n == ls@.len(),
            n <= u32::MAX,
            n >= 1,
            lv == char_views(ls@),
            lv == lines(s@),
            body == lv.skip(1),
            note@ == "disabled"@,
            count == count_where(body.take(i - 1), |l: Seq<char>| is_disabled_row(l)),
    {
        proof {
            lemma_count_step(body, |l: Seq<char>| is_disabled_row(l), i - 1);
        }
        assert(body[i - 1] == lv[i as int]);
        assert(ls@[i as int]@ == lv[i as int]);
        let t = split_tokens(&ls[i]);
        let ghost tv = char_views(t@);
        let mut found = false;
        for k in 0..t.len()
            invariant
                tv == char_views(t@),
                note@ == "disabled"@,
                found == exists|q: int| 0 <= q < k && has_note(#[trigger] tv[q], "disabled"@),
        {
            assert(tv[k as int] == t@[k as int]@);
            if has_note_exec(&t[k], &note) {
                found = true;
            }
        }
        if found {
            count = count + 1;
        }
    }
    assert(body.take(n - 1) == body);
    count
}

} // verus!
