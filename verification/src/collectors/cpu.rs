//! `/proc/cpuinfo`.

use vstd::prelude::*;

use crate::text::{
    char_views, chars_eq, chars_of, lemma_take_all, lines, lit, matches_at,
    split_lines, split_once, split_once_chars, starts_with_chars, string_from_chars, trim,
    trim_chars,
};

verus! {

/// The model name and processor count after reading `ls`: each line
/// starting `processor` counts a core; while the model is still `unknown`,
/// a line starting `model name` with a `:` sets it to the trimmed text after
/// the colon.
pub open spec fn cpuinfo_state(ls: Seq<Seq<char>>) -> (Seq<char>, nat)
    decreases ls.len(),
{
    if ls.len() == 0 {
        ("unknown"@, 0)
    } else {
        let (model, cores) = cpuinfo_state(ls.drop_last());
        let l = ls.last();
        if matches_at(l, "processor"@, 0) {
            (model, cores + 1)
        } else if model == "unknown"@ && matches_at(l, "model name"@, 0) {
            match split_once(l, ':') {
                Some((_, v)) => (trim(v), cores),
                None => (model, cores),
            }
        } else {
            (model, cores)
        }
    }
}

/// The CPU model and the number of logical cores (at least 1) listed in
/// `/proc/cpuinfo`.
pub fn parse_cpuinfo(s: &str) -> (r: (String, u32))
    requires
        lines(s@).len() <= u32::MAX,
    ensures
        r.0@ == cpuinfo_state(lines(s@)).0,
        r.1 == if cpuinfo_state(lines(s@)).1 == 0 {
            1
        } else {
            cpuinfo_state(lines(s@)).1
        },
{
    let cs = chars_of(s);
    let ls = split_lines(&cs);
    let ghost lv = char_views(ls@);
    let processor = lit("processor");
    let model_name = lit("model name");
    let unknown = lit("unknown");
    let mut model = lit("unknown");
    let mut cores: u32 = 0;
    let n = ls.len();
    for i in 0..n
        invariant
            n == ls@.len(),
            n <= u32::MAX,
            lv == char_views(ls@),
            lv == lines(s@),
            processor@ == "processor"@,
            model_name@ == "model name"@,
            unknown@ == "unknown"@,
            (model@, cores as nat) == cpuinfo_state(lv.take(i as int)),
            cores <= i,
    {
        assert(lv.take(i + 1).drop_last() == lv.take(i as int));
        assert(lv.take(i + 1).last() == lv[i as int]);
        let l = &ls[i];
        assert(l@ == lv[i as int]);
        if starts_with_chars(l, &processor) {
            cores = cores + 1;
        } else if chars_eq(&model, &unknown) && starts_with_chars(l, &model_name) {
            if let Some((_, v)) = split_once_chars(l, ':') {
                model = trim_chars(&v);
            }
        }
    }
    proof {
        lemma_take_all(lv);
    }
    let name = string_from_chars(&model);
    (name, if cores == 0 {
        1
    } else {
        cores
    })
}

} // verus!
