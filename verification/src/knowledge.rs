//! The explanation knowledge base: for every finding id, in English and
//! Arabic, what caused it, whether it is dangerous, its impact, how to fix
//! it and what happens if it is ignored. This module holds the lookup and
//! the rendering of translated titles; the entries are loaded by the caller.

use vstd::prelude::*;
use vstd::string::StringExecFns;

use crate::diagnostics::{declared_ids, finding_ids};
use crate::finding::Finding;
use crate::lang::{isolate, isolated, Lang};
use crate::text::{
    chars_of, decimal, find_chars, find_seq, lemma_find_seq_from, matches_at, push_char,
    push_decimal, push_str, slice_chars, str_eq, string_from_chars,
};

verus! {

/// The answers for one finding in one language.
#[derive(Debug, Clone)]
pub struct Explanation {
    pub cause: String,
    pub dangerous: String,
    pub impact: String,
    pub remedy: String,
    pub risk_if_ignored: String,
    /// Template for the finding's title, with `{0}`, `{1}`, … standing for
    /// the finding's `args`.
    pub title: Option<String>,
    /// Template for the finding's summary, in the same scheme.
    pub summary: Option<String>,
}

/// The explanations of one finding id.
#[derive(Debug, Clone)]
pub struct KnowledgeEntry {
    pub id: String,
    pub en: Explanation,
    pub ar: Explanation,
}

/// Finding ids that were renamed, old to current. Lookups accept both;
/// only the current name is emitted.
pub const RENAMED_IDS: [(&'static str, &'static str); 2] = [
    ("packages.security_updates", "security.updates_pending"),
    ("snap.old_revisions", "storage.snap_old_revisions"),
];

/// An id resolved through the rename table.
pub open spec fn canonical(id: Seq<char>) -> Seq<char> {
    if id == "packages.security_updates"@ {
        "security.updates_pending"@
    } else if id == "snap.old_revisions"@ {
        "storage.snap_old_revisions"@
    } else {
        id
    }
}

/// Resolve an id through the rename table.
pub fn canonical_id<'a>(finding_id: &'a str) -> (r: &'a str)
    ensures
        r@ == canonical(finding_id@),
{
    if str_eq(finding_id, "packages.security_updates") {
        "security.updates_pending"
    } else if str_eq(finding_id, "snap.old_revisions") {
        "storage.snap_old_revisions"
    } else {
        finding_id
    }
}

/// Every rename points at an id the rules declare, and resolving is
/// idempotent: a current id resolves to itself.
pub proof fn lemma_renames_point_at_declared_ids(id: Seq<char>)
    ensures
        id != canonical(id) ==> declared_ids().contains(canonical(id)),
        canonical(canonical(id)) == canonical(id),
{
    reveal_strlit("packages.security_updates");
    reveal_strlit("security.updates_pending");
    reveal_strlit("snap.old_revisions");
    reveal_strlit("storage.snap_old_revisions");
    assert(declared_ids()[12] == "security.updates_pending"@);
    assert(declared_ids()[17] == "storage.snap_old_revisions"@);
    assert("security.updates_pending"@ != "packages.security_updates"@) by {
        assert("security.updates_pending"@[0] != "packages.security_updates"@[0]);
    }
    assert("security.updates_pending"@ != "snap.old_revisions"@) by {
        assert("security.updates_pending"@[1] != "snap.old_revisions"@[1]);
    }
    assert("storage.snap_old_revisions"@ != "packages.security_updates"@) by {
        assert("storage.snap_old_revisions"@[0] != "packages.security_updates"@[0]);
    }
    assert("storage.snap_old_revisions"@ != "snap.old_revisions"@) by {
        assert("storage.snap_old_revisions"@[1] != "snap.old_revisions"@[1]);
    }
}

/// The index of the last entry for `id` (a later entry for an id replaces
/// an earlier one).
pub open spec fn entry_index(es: Seq<KnowledgeEntry>, id: Seq<char>) -> Option<int>
    decreases es.len(),
{
    if es.len() == 0 {
        None
    } else if es.last().id@ == id {
        Some(es.len() - 1)
    } else {
        entry_index(es.drop_last(), id)
    }
}

/// The explanation of an entry in `lang`.
pub open spec fn in_lang(e: KnowledgeEntry, lang: Lang) -> Explanation {
    match lang {
        Lang::En => e.en,
        Lang::Ar => e.ar,
    }
}

/// The knowledge base: one entry per finding id.
pub struct KnowledgeBase {
    pub entries: Vec<KnowledgeEntry>,
}

/// What the knowledge base answers for `id` in `lang`: the explanation of
/// its last entry under the id's current name.
pub open spec fn explanation_of(kb: KnowledgeBase, id: Seq<char>, lang: Lang) -> Option<
    Explanation,
> {
    match entry_index(kb.entries@, canonical(id)) {
        Some(i) => Some(in_lang(kb.entries@[i], lang)),
        None => None,
    }
}

impl KnowledgeBase {
    pub fn new(entries: Vec<KnowledgeEntry>) -> (kb: KnowledgeBase)
        ensures
            kb.entries@ == entries@,
    {
        KnowledgeBase { entries }
    }

    /// The explanation for a finding id, or `None` for an unknown id.
    /// Accepts renamed ids.
    pub fn explain(&self, finding_id: &str, lang: Lang) -> (r: Option<&Explanation>)
        ensures
            match r {
                Some(e) => explanation_of(*self, finding_id@, lang) == Some(*e),
                None => explanation_of(*self, finding_id@, lang) is None,
            },
    {
        let id = canonical_id(finding_id);
        let mut i = self.entries.len();
        assert(self.entries@.take(i as int) == self.entries@);
        while i > 0
            invariant
                i <= self.entries@.len(),
                id@ == canonical(finding_id@),
                entry_index(self.entries@, id@) == entry_index(self.entries@.take(i as int), id@),
            decreases i,
        {
            let e = &self.entries[i - 1];
            proof {
                let t = self.entries@.take(i as int);
                assert(t.drop_last() == self.entries@.take(i - 1));
                assert(t.last() == self.entries@[i - 1]);
            }
            if str_eq(e.id.as_str(), id) {
                return Some(
                    match lang {
                        Lang::En => &e.en,
                        Lang::Ar => &e.ar,
                    },
                );
            }
            i = i - 1;
        }
        None
    }
}

/// `s` with every occurrence of `p` replaced by `r`, scanning left to
/// right without overlap (`str::replace`).
pub open spec fn replace_all(s: Seq<char>, p: Seq<char>, r: Seq<char>) -> Seq<char>
    decreases s.len(),
{
    if p.len() == 0 {
        s
    } else {
        match find_seq(s, p) {
            Some(i) => if 0 <= i && i + p.len() <= s.len() {
                s.take(i) + r + replace_all(s.skip(i + p.len()), p, r)
            } else {
                s
            },
            None => s,
        }
    }
}

fn push_all(out: &mut Vec<char>, v: &Vec<char>)
    ensures
        final(out)@ == old(out)@ + v@,
{
    let ghost start = out@;
    for k in 0..v.len()
        invariant
            out@ == start + v@.take(k as int),
    {
        out.push(v[k]);
        assert(v@.take(k + 1) == v@.take(k as int).push(v@[k as int]));
    }
    assert(v@.take(v@.len() as int) == v@);
}

fn replace_all_chars(s: &Vec<char>, p: &Vec<char>, r: &Vec<char>) -> (out: Vec<char>)
    requires
        p@.len() > 0,
    ensures
        out@ == replace_all(s@, p@, r@),
{
    let mut out: Vec<char> = Vec::new();
    let mut rest = slice_chars(s, 0, s.len());
    assert(rest@ == s@);
    while rest.len() > 0
        invariant
            p@.len() > 0,
            out@ + replace_all(rest@, p@, r@) == replace_all(s@, p@, r@),
        decreases rest@.len(),
    {
        let ghost rs = rest@;
        proof {
            lemma_find_seq_from(rs, p@, 0);
        }
        match find_chars(&rest, p) {
            Some(i) => {
                let before = slice_chars(&rest, 0, i);
                let after = slice_chars(&rest, i + p.len(), rest.len());
                assert(before@ == rs.take(i as int));
                assert(after@ == rs.skip(i + p@.len()));
                assert(replace_all(rs, p@, r@) == rs.take(i as int) + r@ + replace_all(
                    rs.skip(i + p@.len()),
                    p@,
                    r@,
                ));
                let ghost o = out@;
                push_all(&mut out, &before);
                push_all(&mut out, r);
                assert(out@ + replace_all(after@, p@, r@) == o + replace_all(rs, p@, r@));
                rest = after;
            },
            None => {
                assert(replace_all(rs, p@, r@) == rs);
                push_all(&mut out, &rest);
                rest = Vec::new();
                proof {
                    lemma_find_seq_from(rest@, p@, 0);
                }
                assert(replace_all(rest@, p@, r@) == rest@);
                assert(out@ + replace_all(rest@, p@, r@) == out@);
            },
        }
    }
    proof {
        lemma_find_seq_from(rest@, p@, 0);
    }
    assert(replace_all(rest@, p@, r@) =~= Seq::<char>::empty());
    assert(out@ + Seq::<char>::empty() == out@);
    out
}

/// The placeholder for argument `i`: `{i}`.
pub open spec fn placeholder(i: nat) -> Seq<char> {
    "{"@ + decimal(i) + "}"@
}

/// `template` with `{0}`, `{1}`, … replaced, in order, by the isolated
/// values of `args`; placeholders without a value stay as they are, so a
/// mismatch shows.
pub open spec fn render_template_text(template: Seq<char>, args: Seq<Seq<char>>) -> Seq<char>
    decreases args.len(),
{
    if args.len() == 0 {
        template
    } else {
        replace_all(
            render_template_text(template, args.drop_last()),
            placeholder((args.len() - 1) as nat),
            isolated(args.last()),
        )
    }
}

/// Substitute the finding's values for the placeholders of a template (see
/// [`render_template_text`]).
pub fn render_template(template: &str, args: &Vec<String>) -> (out: String)
    ensures
        out@ == render_template_text(template@, crate::text::views(args@)),
{
    let ghost av = crate::text::views(args@);
    let mut cur = chars_of(template);
    for i in 0..args.len()
        invariant
            av == crate::text::views(args@),
            cur@ == render_template_text(template@, av.take(i as int)),
    {
        let mut pat = String::from_str("{");
        push_decimal(&mut pat, i as u64);
        push_str(&mut pat, "}");
        let p = chars_of(pat.as_str());
        let iso = isolate(args[i].as_str());
        let rep = chars_of(iso.as_str());
        proof {
            let t = av.take(i + 1);
            assert(t.drop_last() == av.take(i as int));
            assert(t.last() == args@[i as int]@);
            assert(p@ == placeholder(i as nat));
        }
        cur = replace_all_chars(&cur, &p, &rep);
    }
    assert(av.take(args@.len() as int) == av);
    string_from_chars(&cur)
}

/// A finding's title or summary in `lang`: in English, the rule's own text;
/// otherwise the knowledge base's template for the finding, rendered with
/// its values, or the rule's text when there is no template.
pub open spec fn localized_text(
    kb: KnowledgeBase,
    f: Finding,
    lang: Lang,
    summary: bool,
) -> Seq<char> {
    let fallback = if summary {
        f.summary@
    } else {
        f.title@
    };
    match lang {
        Lang::En => fallback,
        Lang::Ar => match explanation_of(kb, f.id@, lang) {
            Some(e) => match (if summary {
                e.summary
            } else {
                e.title
            }) {
                Some(t) => render_template_text(t@, crate::text::views(f.args@)),
                None => fallback,
            },
            None => fallback,
        },
    }
}

fn localized_field(kb: &KnowledgeBase, finding: &Finding, lang: Lang, summary: bool) -> (r: String)
    ensures
        r@ == localized_text(*kb, *finding, lang, summary),
{
    let fallback = if summary {
        &finding.summary
    } else {
        &finding.title
    };
    match lang {
        Lang::En => fallback.clone(),
        Lang::Ar => match kb.explain(finding.id.as_str(), lang) {
            Some(e) => {
                let template = if summary {
                    &e.summary
                } else {
                    &e.title
                };
                match template {
                    Some(t) => render_template(t.as_str(), &finding.args),
                    None => fallback.clone(),
                }
            },
            None => fallback.clone(),
        },
    }
}

/// The finding's title in `lang` (see [`localized_text`]); a missing
/// translation never hides a finding.
pub fn localized_title(kb: &KnowledgeBase, finding: &Finding, lang: Lang) -> (r: String)
    ensures
        r@ == localized_text(*kb, *finding, lang, false),
{
    localized_field(kb, finding, lang, false)
}

/// The finding's summary in `lang` (see [`localized_text`]).
pub fn localized_summary(kb: &KnowledgeBase, finding: &Finding, lang: Lang) -> (r: String)
    ensures
        r@ == localized_text(*kb, *finding, lang, true),
{
    localized_field(kb, finding, lang, true)
}

/// An old, renamed id is explained exactly as its current name is.
pub proof fn lemma_renamed_ids_explain_alike(kb: KnowledgeBase, id: Seq<char>, lang: Lang)
    ensures
        explanation_of(kb, id, lang) == explanation_of(kb, canonical(id), lang),
{
    reveal_strlit("packages.security_updates");
    reveal_strlit("security.updates_pending");
    reveal_strlit("snap.old_revisions");
    reveal_strlit("storage.snap_old_revisions");
    assert("security.updates_pending"@.len() == 24);
    assert("packages.security_updates"@.len() == 25);
    assert("snap.old_revisions"@.len() == 18);
    assert("storage.snap_old_revisions"@.len() == 26);
    assert("security.updates_pending"@ != "packages.security_updates"@);
    assert("security.updates_pending"@ != "snap.old_revisions"@);
    assert("storage.snap_old_revisions"@ != "packages.security_updates"@);
    assert("storage.snap_old_revisions"@ != "snap.old_revisions"@);
    assert(canonical(canonical(id)) == canonical(id));
}

/// Whether the knowledge base explains `id` in both languages, each with a
/// remedy.
pub open spec fn explains_in_both(kb: KnowledgeBase, id: Seq<char>) -> bool {
    &&& explanation_of(kb, id, Lang::En) matches Some(e) && e.remedy@.len() > 0
    &&& explanation_of(kb, id, Lang::Ar) matches Some(a) && a.remedy@.len() > 0
}

/// Whether every finding id the rules declare is explained in English and
/// in Arabic, each with a remedy.
pub open spec fn covers_declared(kb: KnowledgeBase) -> bool {
    forall|i: int| 0 <= i < declared_ids().len() ==> explains_in_both(kb, #[trigger] declared_ids()[i])
}

fn has_remedy(e: Option<&Explanation>) -> (b: bool)
    ensures
        b == (e matches Some(x) && x.remedy@.len() > 0),
{
    match e {
        Some(x) => chars_of(x.remedy.as_str()).len() > 0,
        None => false,
    }
}

/// Whether `kb` explains every declared finding id in both languages, each
/// with a remedy (see [`covers_declared`]).
pub fn covers_declared_ids(kb: &KnowledgeBase) -> (b: bool)
    ensures
        b == covers_declared(*kb),
{
    let ids = finding_ids();
    let ghost dv = declared_ids();
    assert(ids@.map_values(|s: &str| s@).len() == ids@.len());
    for i in 0..ids.len()
        invariant
            ids@.map_values(|s: &str| s@) == dv,
            dv == declared_ids(),
            forall|j: int| 0 <= j < i ==> explains_in_both(*kb, #[trigger] dv[j]),
    {
        assert(ids@[i as int]@ == dv[i as int]);
        let en = has_remedy(kb.explain(ids[i], Lang::En));
        let ar = has_remedy(kb.explain(ids[i], Lang::Ar));
        if !(en && ar) {
            assert(!explains_in_both(*kb, dv[i as int]));
            return false;
        }
    }
    true
}

} // verus!
