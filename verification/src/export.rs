//! Health reports as Markdown and as a standalone HTML page.
//!
//! Finding titles, summaries and evidence carry names that come from the
//! system (processes, files, services), so every such value is escaped for
//! the target format: HTML escaping covers element and attribute context,
//! Markdown escaping backslash-quotes the characters Markdown would render.

use vstd::prelude::*;
use vstd::string::StringExecFns;

use crate::finding::{category_label_in, severity_label, Finding, Severity};
use crate::fix::severity_word;
use crate::knowledge::{explanation_of, localized_summary, localized_text, localized_title, KnowledgeBase};
use crate::lang::Lang;
use crate::render::{badge_word, grade_text};
use crate::report::HealthReport;
use crate::score::{grade_label_in, CategoryScore};
use crate::text::{chars_of, decimal, join, push_char, push_decimal, push_str, views};

verus! {

broadcast use vstd::seq_lib::group_seq_properties;

// ----- HTML escaping -----

/// What one character becomes in escaped HTML.
pub open spec fn html_escape_char(c: char) -> Seq<char> {
    if c == '&' {
        "&amp;"@
    } else if c == '<' {
        "&lt;"@
    } else if c == '>' {
        "&gt;"@
    } else if c == '"' {
        "&quot;"@
    } else if c == '\'' {
        "&#39;"@
    } else {
        seq![c]
    }
}

/// `s` escaped for HTML: `&`, `<`, `>`, `"` and `'` become entities, every
/// other character stays as it is.
pub open spec fn html_escaped(s: Seq<char>) -> Seq<char>
    decreases s.len(),
{
    if s.len() == 0 {
        Seq::empty()
    } else {
        html_escaped(s.drop_last()) + html_escape_char(s.last())
    }
}

/// Reading escaped HTML back: the five entities become their characters.
pub open spec fn html_unescaped(s: Seq<char>) -> Seq<char>
    decreases s.len(),
{
    if s.len() == 0 {
        Seq::empty()
    } else if s.len() >= 5 && s.take(5) == "&amp;"@ {
        seq!['&'] + html_unescaped(s.skip(5))
    } else if s.len() >= 4 && s.take(4) == "&lt;"@ {
        seq!['<'] + html_unescaped(s.skip(4))
    } else if s.len() >= 4 && s.take(4) == "&gt;"@ {
        seq!['>'] + html_unescaped(s.skip(4))
    } else if s.len() >= 6 && s.take(6) == "&quot;"@ {
        seq!['"'] + html_unescaped(s.skip(6))
    } else if s.len() >= 5 && s.take(5) == "&#39;"@ {
        seq!['\''] + html_unescaped(s.skip(5))
    } else {
        seq![s[0]] + html_unescaped(s.skip(1))
    }
}

/// Append `s` escaped for HTML.
#[verifier::rlimit(40)]
fn push_html_escaped(out: &mut String, s: &str)
    ensures
        final(out)@ == old(out)@ + html_escaped(s@),
{
    let cs = chars_of(s);
    let ghost start = out@;
    for i in 0..cs.len()
        invariant
            cs@ == s@,
            out@ == start + html_escaped(s@.take(i as int)),
    {
        let c = cs[i];
        proof {
            let t = s@.take(i + 1);
            assert(t.drop_last() == s@.take(i as int));
            assert(t.last() == c);
        }
        if c == '&' {
            push_str(out, "&amp;");
        } else if c == '<' {
            push_str(out, "&lt;");
        } else if c == '>' {
            push_str(out, "&gt;");
        } else if c == '"' {
            push_str(out, "&quot;");
        } else if c == '\'' {
            push_str(out, "&#39;");
        } else {
            push_char(out, c);
        }
        assert(out@ =~= start + html_escaped(s@.take(i + 1)));
    }
    assert(s@.take(s@.len() as int) == s@);
}

/// `s` escaped for HTML (see [`html_escaped`]).
pub fn esc(s: &str) -> (r: String)
    ensures
        r@ == html_escaped(s@),
{
    let mut r = String::new();
    push_html_escaped(&mut r, s);
    r
}

proof fn lemma_html_escaped_prepend(c: char, s: Seq<char>)
    ensures
        html_escaped(seq![c] + s) == html_escape_char(c) + html_escaped(s),
    decreases s.len(),
{
    if s.len() == 0 {
        assert(seq![c] + s == seq![c]);
        assert(seq![c].drop_last() == Seq::<char>::empty());
    } else {
        lemma_html_escaped_prepend(c, s.drop_last());
        assert((seq![c] + s).drop_last() == seq![c] + s.drop_last());
        assert((seq![c] + s).last() == s.last());
    }
}

/// Escaped HTML holds none of the characters that open or close markup or
/// an attribute value: no `<`, `>`, `"` or `'`.
pub proof fn lemma_escaped_html_has_no_markup(s: Seq<char>)
    ensures
        forall|i: int|
            0 <= i < html_escaped(s).len() ==> {
                let c = #[trigger] html_escaped(s)[i];
                c != '<' && c != '>' && c != '"' && c != '\''
            },
    decreases s.len(),
{
    reveal_strlit("&amp;");
    reveal_strlit("&lt;");
    reveal_strlit("&gt;");
    reveal_strlit("&quot;");
    reveal_strlit("&#39;");
    if s.len() > 0 {
        lemma_escaped_html_has_no_markup(s.drop_last());
        let a = html_escaped(s.drop_last());
        let b = html_escape_char(s.last());
        assert forall|i: int| 0 <= i < (a + b).len() implies {
            let c = #[trigger] (a + b)[i];
            c != '<' && c != '>' && c != '"' && c != '\''
        } by {
            if i < a.len() {
                assert((a + b)[i] == a[i]);
            } else {
                assert((a + b)[i] == b[i - a.len()]);
            }
        }
    }
}

/// Escaping for HTML loses nothing: reading the entities back gives the
/// original text.
pub proof fn lemma_html_escape_round_trip(s: Seq<char>)
    ensures
        html_unescaped(html_escaped(s)) == s,
    decreases s.len(),
{
    reveal_strlit("&amp;");
    reveal_strlit("&lt;");
    reveal_strlit("&gt;");
    reveal_strlit("&quot;");
    reveal_strlit("&#39;");
    if s.len() > 0 {
        let c = s[0];
        let rest = s.skip(1);
        assert(s == seq![c] + rest);
        lemma_html_escaped_prepend(c, rest);
        lemma_html_escape_round_trip(rest);
        let x = html_escaped(rest);
        let e = html_escape_char(c);
        let t = e + x;
        assert(html_escaped(s) == t);
        if c == '&' {
            assert(t.take(5) =~= "&amp;"@);
            assert(t.skip(5) =~= x);
        } else if c == '<' {
            assert(t[1] == 'l');
            assert(t.take(4) =~= "&lt;"@);
            assert(t.skip(4) =~= x);
        } else if c == '>' {
            assert(t[1] == 'g');
            assert(t.take(4) =~= "&gt;"@);
            assert(t.skip(4) =~= x);
        } else if c == '"' {
            assert(t[1] == 'q');
            assert(t.take(6) =~= "&quot;"@);
            assert(t.skip(6) =~= x);
        } else if c == '\'' {
            assert(t[1] == '#');
            assert(t.take(5) =~= "&#39;"@);
            assert(t.skip(5) =~= x);
        } else {
            assert(t[0] == c);
            assert(t.len() >= 5 ==> t.take(5)[0] == c);
            assert(t.len() >= 4 ==> t.take(4)[0] == c);
            assert(t.len() >= 6 ==> t.take(6)[0] == c);
            assert(t.skip(1) =~= x);
        }
    }
}

// ----- Markdown escaping -----

/// The characters Markdown would render rather than print.
pub open spec fn is_md_meta(c: char) -> bool {
    c == '\\' || c == '`' || c == '*' || c == '_' || c == '{' || c == '}' || c == '['
        || c == ']' || c == '<' || c == '>' || c == '#' || c == '|'
}

/// What one character becomes in escaped Markdown.
pub open spec fn md_escape_char(c: char) -> Seq<char> {
    if is_md_meta(c) {
        seq!['\\', c]
    } else {
        seq![c]
    }
}

/// `s` escaped for Markdown: every character Markdown would render gets a
/// backslash in front.
pub open spec fn md_escaped(s: Seq<char>) -> Seq<char>
    decreases s.len(),
{
    if s.len() == 0 {
        Seq::empty()
    } else {
        md_escaped(s.drop_last()) + md_escape_char(s.last())
    }
}

/// Reading escaped Markdown back: a backslash makes the next character
/// literal.
pub open spec fn md_unescaped(s: Seq<char>) -> Seq<char>
    decreases s.len(),
{
    if s.len() == 0 {
        Seq::empty()
    } else if s[0] == '\\' && s.len() >= 2 {
        seq![s[1]] + md_unescaped(s.skip(2))
    } else {
        seq![s[0]] + md_unescaped(s.skip(1))
    }
}

fn is_md_meta_exec(c: char) -> (b: bool)
    ensures
        b == is_md_meta(c),
{
    c == '\\' || c == '`' || c == '*' || c == '_' || c == '{' || c == '}' || c == '[' || c == ']'
        || c == '<' || c == '>' || c == '#' || c == '|'
}

/// Append `s` escaped for Markdown.
#[verifier::rlimit(40)]
fn push_md_escaped(out: &mut String, s: &str)
    ensures
        final(out)@ == old(out)@ + md_escaped(s@),
{
    let cs = chars_of(s);
    let ghost start = out@;
    for i in 0..cs.len()
        invariant
            cs@ == s@,
            out@ == start + md_escaped(s@.take(i as int)),
    {
        let c = cs[i];
        proof {
            let t = s@.take(i + 1);
            assert(t.drop_last() == s@.take(i as int));
            assert(t.last() == c);
        }
        if is_md_meta_exec(c) {
            push_char(out, '\\');
        }
        push_char(out, c);
        assert(out@ =~= start + md_escaped(s@.take(i + 1)));
    }
    assert(s@.take(s@.len() as int) == s@);
}

/// `s` escaped for Markdown body and inline context (see [`md_escaped`]).
pub fn md_inline(s: &str) -> (r: String)
    ensures
        r@ == md_escaped(s@),
{
    let mut r = String::new();
    push_md_escaped(&mut r, s);
    r
}

proof fn lemma_md_escaped_prepend(c: char, s: Seq<char>)
    ensures
        md_escaped(seq![c] + s) == md_escape_char(c) + md_escaped(s),
    decreases s.len(),
{
    if s.len() == 0 {
        assert(seq![c] + s == seq![c]);
        assert(seq![c].drop_last() == Seq::<char>::empty());
    } else {
        lemma_md_escaped_prepend(c, s.drop_last());
        assert((seq![c] + s).drop_last() == seq![c] + s.drop_last());
        assert((seq![c] + s).last() == s.last());
    }
}

/// Escaped Markdown renders as the original text: dropping each escaping
/// backslash gives it back.
pub proof fn lemma_md_escape_round_trip(s: Seq<char>)
    ensures
        md_unescaped(md_escaped(s)) == s,
    decreases s.len(),
{
    if s.len() > 0 {
        let c = s[0];
        let rest = s.skip(1);
        assert(s == seq![c] + rest);
        lemma_md_escaped_prepend(c, rest);
        lemma_md_escape_round_trip(rest);
        let x = md_escaped(rest);
        let t = md_escape_char(c) + x;
        assert(md_escaped(s) == t);
        if is_md_meta(c) {
            assert(t[0] == '\\' && t[1] == c);
            assert(t.skip(2) =~= x);
        } else {
            assert(t[0] == c);
            assert(t.skip(1) =~= x);
        }
    }
}

// ----- Report chrome -----

/// The headings and field names of an exported report in one language.
pub struct ReportLabels {
    pub report_title: &'static str,
    pub generated: &'static str,
    pub score: &'static str,
    pub categories: &'static str,
    pub findings: &'static str,
    pub healthy: &'static str,
    pub cause: &'static str,
    pub dangerous: &'static str,
    pub impact: &'static str,
    pub remedy: &'static str,
    pub if_ignored: &'static str,
    pub evidence: &'static str,
    pub suggested: &'static str,
}

/// The fields of a [`ReportLabels`], in declaration order.
pub open spec fn report_labels_view(l: ReportLabels) -> Seq<Seq<char>> {
    seq![
        l.report_title@,
        l.generated@,
        l.score@,
        l.categories@,
        l.findings@,
        l.healthy@,
        l.cause@,
        l.dangerous@,
        l.impact@,
        l.remedy@,
        l.if_ignored@,
        l.evidence@,
        l.suggested@,
    ]
}

/// The report chrome in `lang`, field by field in declaration order.
pub open spec fn report_label_texts(lang: Lang) -> Seq<Seq<char>> {
    match lang {
        Lang::Ar => seq![
            "تقرير صحّة SysMedic"@,
            "أُنشئ في"@,
            "درجة الصحّة"@,
            "الفئات"@,
            "النتائج"@,
            "لا توجد مشكلات — النظام يبدو سليماً."@,
            "السبب"@,
            "هل هو خطير؟"@,
            "التأثير"@,
            "العلاج"@,
            "إذا أُهمل"@,
            "الدليل"@,
            "أمر مقترح"@,
        ],
        Lang::En => seq![
            "SysMedic Health Report"@,
            "Generated"@,
            "Health score"@,
            "Categories"@,
            "Findings"@,
            "No problems found. The system looks healthy."@,
            "Cause"@,
            "Dangerous?"@,
            "Impact"@,
            "Remedy"@,
            "If ignored"@,
            "Evidence"@,
            "Suggested command"@,
        ],
    }
}

/// The chrome of an exported report in `lang`: an Arabic report is Arabic
/// throughout, not only in its finding texts.
pub fn labels(lang: Lang) -> (l: ReportLabels)
    ensures
        report_labels_view(l) == report_label_texts(lang),
{
    match lang {
        Lang::Ar => ReportLabels {
            report_title: "تقرير صحّة SysMedic",
            generated: "أُنشئ في",
            score: "درجة الصحّة",
            categories: "الفئات",
            findings: "النتائج",
            healthy: "لا توجد مشكلات — النظام يبدو سليماً.",
            cause: "السبب",
            dangerous: "هل هو خطير؟",
            impact: "التأثير",
            remedy: "العلاج",
            if_ignored: "إذا أُهمل",
            evidence: "الدليل",
            suggested: "أمر مقترح",
        },
        Lang::En => ReportLabels {
            report_title: "SysMedic Health Report",
            generated: "Generated",
            score: "Health score",
            categories: "Categories",
            findings: "Findings",
            healthy: "No problems found. The system looks healthy.",
            cause: "Cause",
            dangerous: "Dangerous?",
            impact: "Impact",
            remedy: "Remedy",
            if_ignored: "If ignored",
            evidence: "Evidence",
            suggested: "Suggested command",
        },
    }
}

// ----- Markdown -----

/// The title and the time of the checkup.
pub open spec fn md_title(r: HealthReport, lang: Lang) -> Seq<char> {
    let l = report_label_texts(lang);
    "# "@ + l[0] + "\n\n"@ + "*"@ + l[1] + ": "@ + md_escaped(r.generated_at@) + "*\n\n"@
}

/// The score with its grade, and the head of the category table.
pub open spec fn md_score(r: HealthReport, lang: Lang) -> Seq<char> {
    let l = report_label_texts(lang);
    "## "@ + l[2] + ": **"@ + decimal(r.score as nat) + "/100** ("@ + grade_text(r.score, lang)
        + ")\n\n"@ + "| "@ + l[3] + " | |\n"@ + "|---|---|\n"@
}

/// The title, the time of the checkup, the score and the head of the
/// category table.
pub open spec fn md_head(r: HealthReport, lang: Lang) -> Seq<char> {
    md_title(r, lang) + md_score(r, lang)
}

/// One row of the category table.
pub open spec fn md_category_row(cs: CategoryScore, lang: Lang) -> Seq<char> {
    "| "@ + category_label_in(cs.category, lang) + " | "@ + decimal(cs.score as nat) + " |\n"@
}

/// The rows of the category table, in order.
pub open spec fn md_category_rows(css: Seq<CategoryScore>, lang: Lang) -> Seq<char>
    decreases css.len(),
{
    if css.len() == 0 {
        Seq::empty()
    } else {
        md_category_rows(css.drop_last(), lang) + md_category_row(css.last(), lang)
    }
}

/// The findings heading with their number, and the clean bill of health
/// when there are none.
pub open spec fn md_findings_head(n: nat, lang: Lang) -> Seq<char> {
    let l = report_label_texts(lang);
    "\n## "@ + l[4] + " ("@ + decimal(n) + ")\n\n"@ + if n == 0 {
        l[5] + "\n"@
    } else {
        Seq::empty()
    }
}

/// One line of an explanation: the field name in bold, then the text.
pub open spec fn md_answer(label: Seq<char>, text: Seq<char>) -> Seq<char> {
    "- **"@ + label + ":** "@ + md_escaped(text) + "\n"@
}

/// The five answers of the knowledge base, when it explains the finding.
pub open spec fn md_explanation(kb: KnowledgeBase, f: Finding, lang: Lang) -> Seq<char> {
    let l = report_label_texts(lang);
    match explanation_of(kb, f.id@, lang) {
        Some(e) => md_answer(l[6], e.cause@) + md_answer(l[7], e.dangerous@) + md_answer(
            l[8],
            e.impact@,
        ) + md_answer(l[9], e.remedy@) + md_answer(l[10], e.risk_if_ignored@),
        None => Seq::empty(),
    }
}

/// The evidence as a list, one escaped item per line.
pub open spec fn md_evidence_items(ev: Seq<Seq<char>>) -> Seq<char>
    decreases ev.len(),
{
    if ev.len() == 0 {
        Seq::empty()
    } else {
        md_evidence_items(ev.drop_last()) + "- "@ + md_escaped(ev.last()) + "\n"@
    }
}

/// The evidence section, when there is evidence.
pub open spec fn md_evidence(ev: Seq<Seq<char>>, lang: Lang) -> Seq<char> {
    if ev.len() == 0 {
        Seq::empty()
    } else {
        "\n"@ + report_label_texts(lang)[11] + ":\n\n"@ + md_evidence_items(ev)
    }
}

/// The suggested command, when the finding has one, as a code span.
pub open spec fn md_hint(f: Finding, lang: Lang) -> Seq<char> {
    match f.fix_hint {
        Some(h) => "\n"@ + report_label_texts(lang)[12] + ": `"@ + h@ + "`\n"@,
        None => Seq::empty(),
    }
}

/// A finding's severity and title as a heading, then its summary.
pub open spec fn md_finding_head(kb: KnowledgeBase, f: Finding, lang: Lang) -> Seq<char> {
    "### ["@ + badge_word(f.severity, Lang::En) + "] "@ + md_escaped(
        localized_text(kb, f, lang, false),
    ) + "\n\n"@ + md_escaped(localized_text(kb, f, lang, true)) + "\n\n"@
}

/// One finding: heading and summary, the explanation, the evidence, the
/// suggested command, and a blank line.
#[verifier::opaque]
pub open spec fn md_finding(kb: KnowledgeBase, f: Finding, lang: Lang) -> Seq<char> {
    md_finding_head(kb, f, lang) + md_explanation(kb, f, lang) + md_evidence(
        views(f.evidence@),
        lang,
    ) + md_hint(f, lang) + "\n"@
}

/// The findings, in order.
pub open spec fn md_findings(kb: KnowledgeBase, fs: Seq<Finding>, lang: Lang) -> Seq<char>
    decreases fs.len(),
{
    if fs.len() == 0 {
        Seq::empty()
    } else {
        md_findings(kb, fs.drop_last(), lang) + md_finding(kb, fs.last(), lang)
    }
}

/// The whole report as Markdown.
pub open spec fn markdown_text(r: HealthReport, kb: KnowledgeBase, lang: Lang) -> Seq<char> {
    md_head(r, lang) + md_category_rows(r.category_scores@, lang) + md_findings_head(
        r.findings@.len(),
        lang,
    ) + md_findings(kb, r.findings@, lang)
}

#[verifier::rlimit(40)]
fn push_md_title(out: &mut String, r: &HealthReport, l: &ReportLabels, lang: Lang)
    requires
        report_labels_view(*l) == report_label_texts(lang),
    ensures
        final(out)@ == old(out)@ + md_title(*r, lang),
{
    let ghost start = out@;
    push_str(out, "# ");
    push_str(out, l.report_title);
    push_str(out, "\n\n");
    push_str(out, "*");
    push_str(out, l.generated);
    push_str(out, ": ");
    push_md_escaped(out, r.generated_at.as_str());
    push_str(out, "*\n\n");
    assert(out@ =~= start + md_title(*r, lang));
}

#[verifier::rlimit(40)]
fn push_md_score(out: &mut String, r: &HealthReport, l: &ReportLabels, lang: Lang)
    requires
        report_labels_view(*l) == report_label_texts(lang),
    ensures
        final(out)@ == old(out)@ + md_score(*r, lang),
{
    let ghost start = out@;
    push_str(out, "## ");
    push_str(out, l.score);
    push_str(out, ": **");
    push_decimal(out, r.score as u64);
    push_str(out, "/100** (");
    push_str(out, grade_label_in(r.score, lang));
    push_str(out, ")\n\n");
    push_str(out, "| ");
    push_str(out, l.categories);
    push_str(out, " | |\n");
    push_str(out, "|---|---|\n");
    assert(out@ =~= start + md_score(*r, lang));
}

#[verifier::rlimit(40)]
fn push_md_head(out: &mut String, r: &HealthReport, l: &ReportLabels, lang: Lang)
    requires
        report_labels_view(*l) == report_label_texts(lang),
    ensures
        final(out)@ == old(out)@ + md_head(*r, lang),
{
    let ghost start = out@;
    push_md_title(out, r, l, lang);
    push_md_score(out, r, l, lang);
    assert(out@ =~= start + md_head(*r, lang));
}

#[verifier::rlimit(40)]
fn push_md_category_rows(out: &mut String, css: &Vec<CategoryScore>, lang: Lang)
    ensures
        final(out)@ == old(out)@ + md_category_rows(css@, lang),
{
    let ghost start = out@;
    for i in 0..css.len()
        invariant
            out@ == start + md_category_rows(css@.take(i as int), lang),
    {
        proof {
            let t = css@.take(i + 1);
            assert(t.drop_last() == css@.take(i as int));
            assert(t.last() == css@[i as int]);
        }
        let cs = &css[i];
        push_str(out, "| ");
        push_str(out, cs.category.label_in(lang));
        push_str(out, " | ");
        push_decimal(out, cs.score as u64);
        push_str(out, " |\n");
        assert(out@ =~= start + md_category_rows(css@.take(i + 1), lang));
    }
    assert(css@.take(css@.len() as int) == css@);
}

#[verifier::rlimit(40)]
fn push_md_answer(out: &mut String, label: &str, text: &str)
    ensures
        final(out)@ == old(out)@ + md_answer(label@, text@),
{
    let ghost start = out@;
    push_str(out, "- **");
    push_str(out, label);
    push_str(out, ":** ");
    push_md_escaped(out, text);
    push_str(out, "\n");
    assert(out@ =~= start + md_answer(label@, text@));
}

#[verifier::rlimit(40)]
fn push_md_evidence(out: &mut String, ev: &Vec<String>, l: &ReportLabels, lang: Lang)
    requires
        report_labels_view(*l) == report_label_texts(lang),
    ensures
        final(out)@ == old(out)@ + md_evidence(views(ev@), lang),
{
    if ev.len() == 0 {
        assert(views(ev@).len() == 0);
        assert(old(out)@ + md_evidence(views(ev@), lang) == old(out)@);
        return;
    }
    assert(l.evidence@ == report_labels_view(*l)[11]);
    let ghost start = out@;
    push_str(out, "\n");
    push_str(out, l.evidence);
    push_str(out, ":\n\n");
    push_md_evidence_items(out, ev);
    assert(out@ =~= start + md_evidence(views(ev@), lang));
}

#[verifier::rlimit(40)]
fn push_md_evidence_items(out: &mut String, ev: &Vec<String>)
    ensures
        final(out)@ == old(out)@ + md_evidence_items(views(ev@)),
{
    let ghost start = out@;
    for i in 0..ev.len()
        invariant
            out@ == start + md_evidence_items(views(ev@.take(i as int))),
    {
        proof {
            let t = views(ev@.take(i + 1));
            assert(t.drop_last() == views(ev@.take(i as int)));
            assert(t.last() == ev@[i as int]@);
        }
        push_str(out, "- ");
        push_md_escaped(out, ev[i].as_str());
        push_str(out, "\n");
        assert(out@ =~= start + md_evidence_items(views(ev@.take(i + 1))));
    }
    assert(ev@.take(ev@.len() as int) == ev@);
}

fn upper_label(s: Severity) -> (w: &'static str)
    ensures
        w@ == badge_word(s, Lang::En),
{
    match s {
        Severity::Info => "INFO",
        Severity::Low => "LOW",
        Severity::Medium => "MEDIUM",
        Severity::High => "HIGH",
        Severity::Critical => "CRITICAL",
    }
}

#[verifier::rlimit(40)]
fn push_md_finding_head(out: &mut String, kb: &KnowledgeBase, f: &Finding, lang: Lang)
    ensures
        final(out)@ == old(out)@ + md_finding_head(*kb, *f, lang),
{
    let ghost start = out@;
    let title = localized_title(kb, f, lang);
    let summary = localized_summary(kb, f, lang);
    push_str(out, "### [");
    push_str(out, upper_label(f.severity));
    push_str(out, "] ");
    push_md_escaped(out, title.as_str());
    push_str(out, "\n\n");
    push_md_escaped(out, summary.as_str());
    push_str(out, "\n\n");
    assert(out@ =~= start + md_finding_head(*kb, *f, lang));
}

#[verifier::rlimit(40)]
fn push_md_explanation(out: &mut String, kb: &KnowledgeBase, f: &Finding, l: &ReportLabels, lang: Lang)
    requires
        report_labels_view(*l) == report_label_texts(lang),
    ensures
        final(out)@ == old(out)@ + md_explanation(*kb, *f, lang),
{
    let ghost start = out@;
    match kb.explain(f.id.as_str(), lang) {
        Some(e) => {
            push_md_answer(out, l.cause, e.cause.as_str());
            push_md_answer(out, l.dangerous, e.dangerous.as_str());
            push_md_answer(out, l.impact, e.impact.as_str());
            push_md_answer(out, l.remedy, e.remedy.as_str());
            push_md_answer(out, l.if_ignored, e.risk_if_ignored.as_str());
            assert(out@ =~= start + md_explanation(*kb, *f, lang));
        },
        None => {
            assert(out@ =~= start + md_explanation(*kb, *f, lang));
        },
    }
}

#[verifier::rlimit(40)]
fn push_md_hint(out: &mut String, f: &Finding, l: &ReportLabels, lang: Lang)
    requires
        report_labels_view(*l) == report_label_texts(lang),
    ensures
        final(out)@ == old(out)@ + md_hint(*f, lang),
{
    let ghost start = out@;
    match &f.fix_hint {
        Some(h) => {
            push_str(out, "\n");
            push_str(out, l.suggested);
            push_str(out, ": `");
            push_str(out, h.as_str());
            push_str(out, "`\n");
        },
        None => {},
    }
    assert(out@ =~= start + md_hint(*f, lang));
}

#[verifier::rlimit(40)]
fn push_md_finding(
    out: &mut String,
    kb: &KnowledgeBase,
    f: &Finding,
    l: &ReportLabels,
    lang: Lang,
)
    requires
        report_labels_view(*l) == report_label_texts(lang),
    ensures
        final(out)@ == old(out)@ + md_finding(*kb, *f, lang),
{
    let ghost start = out@;
    push_md_finding_head(out, kb, f, lang);
    push_md_explanation(out, kb, f, l, lang);
    push_md_evidence(out, &f.evidence, l, lang);
    push_md_hint(out, f, l, lang);
    push_str(out, "\n");
    reveal(md_finding);
    assert(out@ =~= start + md_finding(*kb, *f, lang));
}

#[verifier::rlimit(40)]
fn push_md_findings(out: &mut String, kb: &KnowledgeBase, fs: &Vec<Finding>, l: &ReportLabels, lang: Lang)
    requires
        report_labels_view(*l) == report_label_texts(lang),
    ensures
        final(out)@ == old(out)@ + md_findings(*kb, fs@, lang),
{
    let ghost start = out@;
    for i in 0..fs.len()
        invariant
            report_labels_view(*l) == report_label_texts(lang),
            out@ == start + md_findings(*kb, fs@.take(i as int), lang),
    {
        proof {
            let t = fs@.take(i + 1);
            assert(t.drop_last() == fs@.take(i as int));
            assert(t.last() == fs@[i as int]);
        }
        push_md_finding(out, kb, &fs[i], l, lang);
        assert(out@ =~= start + md_findings(*kb, fs@.take(i + 1), lang));
    }
    assert(fs@.take(fs@.len() as int) == fs@);
}

#[verifier::rlimit(40)]
fn push_md_findings_head(out: &mut String, n: usize, l: &ReportLabels, lang: Lang)
    requires
        report_labels_view(*l) == report_label_texts(lang),
    ensures
        final(out)@ == old(out)@ + md_findings_head(n as nat, lang),
{
    let ghost start = out@;
    push_str(out, "\n## ");
    push_str(out, l.findings);
    push_str(out, " (");
    push_decimal(out, n as u64);
    push_str(out, ")\n\n");
    if n == 0 {
        push_str(out, l.healthy);
        push_str(out, "\n");
    }
    assert(out@ =~= start + md_findings_head(n as nat, lang));
}

/// The report as Markdown (see [`markdown_text`]): title, time, score and
/// grade, a table of category scores, then each finding with its
/// explanation, evidence and suggested command. Text from the system is
/// escaped so that it renders literally.
#[verifier::rlimit(40)]
pub fn to_markdown(report: &HealthReport, kb: &KnowledgeBase, lang: Lang) -> (out: String)
    ensures
        out@ == markdown_text(*report, *kb, lang),
{
    let l = labels(lang);
    let mut out = String::new();
    push_md_head(&mut out, report, &l, lang);
    push_md_category_rows(&mut out, &report.category_scores, lang);
    push_md_findings_head(&mut out, report.findings.len(), &l, lang);
    push_md_findings(&mut out, kb, &report.findings, &l, lang);
    assert(out@ =~= markdown_text(*report, *kb, lang));
    out
}

// ----- HTML -----

/// The stylesheet of the HTML report: light and dark schemes, an explicit
/// Arabic font stack, score bars, severity badges with their text colour
/// pinned in both schemes, and evidence blocks kept left-to-right.
pub const REPORT_STYLE: &'static str = r##":root {
  color-scheme: light dark;
  /* An explicit Arabic stack: `system-ui` alone resolves to a Latin face on
     many distros, so an Arabic report fell back to a substituted font. */
  font-family: system-ui, "Noto Kufi Arabic", "Noto Sans Arabic", "Segoe UI", sans-serif;
}
body { max-width: 860px; margin: 2rem auto; padding: 0 1rem; }
.score { font-size: 3rem; font-weight: 700; }
.cat { display: grid; grid-template-columns: 8rem 1fr 3rem; gap: .5rem; align-items: center; margin: .2rem 0; }
.bar { background: rgba(128,128,128,.25); border-radius: 6px; height: 10px; }
.bar div { background: #26a269; border-radius: 6px; height: 10px; }
@media (prefers-reduced-motion: reduce) { * { animation: none !important; transition: none !important; } }
article { border: 1px solid rgba(128,128,128,.35); border-radius: 10px; padding: .2rem 1rem 1rem; margin: 1rem 0; }
/* An explicit pair for the neutral badge too: under `color-scheme: light dark`
   the inherited color flips with the viewer's theme, so low/info badges had no
   guaranteed contrast against this fixed grey. */
.badge {
  font-size: .7rem; text-transform: uppercase; padding: .15rem .5rem;
  border-radius: 999px; background: rgba(128,128,128,.25); color: #241f31;
}
@media (prefers-color-scheme: dark) { .badge { color: #f2f2f5; } }
.sev-critical .badge { background: #c01c28; color: #fff; }
.sev-high .badge { background: #e66100; color: #fff; }
/* Explicit dark text: under `color-scheme: light dark` the inherited color is
   near-white in dark mode, which fails contrast on the amber background. */
.sev-medium .badge { background: #e5a50a; color: #241f31; }
/* Evidence is commands, paths and unit names. Inside a dir="rtl" document the
   bidi algorithm reorders those visually; isolating them to LTR keeps a path
   like /var/log/syslog readable. */
pre {
  overflow-x: auto; background: rgba(128,128,128,.15);
  padding: .6rem; border-radius: 8px;
  direction: ltr; text-align: left;
}
"##;

/// One answer of an explanation as a list item.
pub open spec fn html_answer(label: Seq<char>, text: Seq<char>) -> Seq<char> {
    "<li><b>"@ + html_escaped(label) + ":</b> "@ + html_escaped(text) + "</li>"@
}

/// The five answers of the knowledge base as a list, when it explains the
/// finding.
pub open spec fn html_explanation(kb: KnowledgeBase, f: Finding, lang: Lang) -> Seq<char> {
    let l = report_label_texts(lang);
    match explanation_of(kb, f.id@, lang) {
        Some(e) => "<ul>"@ + html_answer(l[6], e.cause@) + html_answer(l[7], e.dangerous@)
            + html_answer(l[8], e.impact@) + html_answer(l[9], e.remedy@) + html_answer(
            l[10],
            e.risk_if_ignored@,
        ) + "</ul>"@,
        None => Seq::empty(),
    }
}

/// The evidence as one preformatted block, a line per item.
pub open spec fn html_evidence(ev: Seq<Seq<char>>) -> Seq<char> {
    if ev.len() == 0 {
        Seq::empty()
    } else {
        "<pre>"@ + html_escaped(join(ev, "\n"@)) + "</pre>"@
    }
}

/// The opening of a finding's article: severity class, badge and title.
pub open spec fn html_finding_head(kb: KnowledgeBase, f: Finding, lang: Lang) -> Seq<char> {
    "<article class=\"sev-"@ + severity_label(f.severity) + "\"><h3><span class=\"badge\">"@
        + html_escaped(severity_word(f.severity, lang)) + "</span> "@ + html_escaped(
        localized_text(kb, f, lang, false),
    ) + "</h3><p>"@ + html_escaped(localized_text(kb, f, lang, true)) + "</p>"@
}

/// One finding as an article: badge and title, summary, explanation and
/// evidence.
#[verifier::opaque]
pub open spec fn html_finding(kb: KnowledgeBase, f: Finding, lang: Lang) -> Seq<char> {
    html_finding_head(kb, f, lang) + html_explanation(kb, f, lang) + html_evidence(
        views(f.evidence@),
    ) + "</article>"@
}

/// The findings, in order.
pub open spec fn html_findings(kb: KnowledgeBase, fs: Seq<Finding>, lang: Lang) -> Seq<char>
    decreases fs.len(),
{
    if fs.len() == 0 {
        Seq::empty()
    } else {
        html_findings(kb, fs.drop_last(), lang) + html_finding(kb, fs.last(), lang)
    }
}

/// One category: its label, a bar as wide as its score, and the score.
pub open spec fn html_category(cs: CategoryScore, lang: Lang) -> Seq<char> {
    "<div class=\"cat\"><span>"@ + html_escaped(category_label_in(cs.category, lang))
        + "</span><div class=\"bar\"><div style=\"width:"@ + decimal(cs.score as nat)
        + "%\"></div></div><b>"@ + decimal(cs.score as nat) + "</b></div>"@
}

/// The categories, in order.
pub open spec fn html_categories(css: Seq<CategoryScore>, lang: Lang) -> Seq<char>
    decreases css.len(),
{
    if css.len() == 0 {
        Seq::empty()
    } else {
        html_categories(css.drop_last(), lang) + html_category(css.last(), lang)
    }
}

/// The text direction and language code of the page.
pub open spec fn page_direction(lang: Lang) -> (Seq<char>, Seq<char>) {
    match lang {
        Lang::Ar => ("rtl"@, "ar"@),
        Lang::En => ("ltr"@, "en"@),
    }
}

/// The page up to the end of its head: doctype, direction and language,
/// title and stylesheet.
pub open spec fn html_preamble(lang: Lang) -> Seq<char> {
    let l = report_label_texts(lang);
    "<!DOCTYPE html>\n<html dir=\""@ + page_direction(lang).0 + "\" lang=\""@ + page_direction(
        lang,
    ).1 + "\"><head><meta charset=\"utf-8\"><title>"@ + html_escaped(l[0])
        + "</title><style>\n"@ + REPORT_STYLE@ + "</style></head><body>\n"@
}

/// The top of the body: heading, time of the checkup, score and grade.
pub open spec fn html_summary(r: HealthReport, lang: Lang) -> Seq<char> {
    let l = report_label_texts(lang);
    "<h1>"@ + html_escaped(l[0]) + "</h1>\n<p><i>"@ + html_escaped(l[1]) + ": "@ + html_escaped(
        r.generated_at@,
    ) + "</i></p>\n<div class=\"score\">"@ + decimal(r.score as nat) + "/100 <small>("@
        + grade_text(r.score, lang) + ")</small></div>\n"@
}

/// The whole report as a standalone HTML page.
pub open spec fn html_text(r: HealthReport, kb: KnowledgeBase, lang: Lang) -> Seq<char> {
    let l = report_label_texts(lang);
    html_preamble(lang) + html_summary(r, lang) + "<h2>"@ + html_escaped(l[3]) + "</h2>"@
        + html_categories(r.category_scores@, lang) + "\n<h2>"@ + html_escaped(l[4]) + " ("@
        + decimal(r.findings@.len()) + ")</h2>"@ + html_findings(kb, r.findings@, lang)
        + "\n</body></html>"@
}

#[verifier::rlimit(40)]
fn push_html_answer(out: &mut String, label: &str, text: &str)
    ensures
        final(out)@ == old(out)@ + html_answer(label@, text@),
{
    let ghost start = out@;
    push_str(out, "<li><b>");
    push_html_escaped(out, label);
    push_str(out, ":</b> ");
    push_html_escaped(out, text);
    push_str(out, "</li>");
    assert(out@ =~= start + html_answer(label@, text@));
}

#[verifier::rlimit(40)]
fn push_html_explanation(out: &mut String, kb: &KnowledgeBase, f: &Finding, l: &ReportLabels, lang: Lang)
    requires
        report_labels_view(*l) == report_label_texts(lang),
    ensures
        final(out)@ == old(out)@ + html_explanation(*kb, *f, lang),
{
    let ghost start = out@;
    match kb.explain(f.id.as_str(), lang) {
        Some(e) => {
            push_str(out, "<ul>");
            push_html_answer(out, l.cause, e.cause.as_str());
            push_html_answer(out, l.dangerous, e.dangerous.as_str());
            push_html_answer(out, l.impact, e.impact.as_str());
            push_html_answer(out, l.remedy, e.remedy.as_str());
            push_html_answer(out, l.if_ignored, e.risk_if_ignored.as_str());
            push_str(out, "</ul>");
            assert(out@ =~= start + html_explanation(*kb, *f, lang));
        },
        None => {
            assert(out@ =~= start + html_explanation(*kb, *f, lang));
        },
    }
}

/// The strings of `v` joined with newlines.
fn join_lines(v: &Vec<String>) -> (r: String)
    ensures
        r@ == join(views(v@), "\n"@),
{
    let mut r = String::new();
    for i in 0..v.len()
        invariant
            r@ == join(views(v@.take(i as int)), "\n"@),
    {
        proof {
            let t = views(v@.take(i + 1));
            assert(t.drop_last() == views(v@.take(i as int)));
            assert(t.last() == v@[i as int]@);
        }
        if i > 0 {
            push_str(&mut r, "\n");
        } else {
            assert(views(v@.take(0)).len() == 0);
        }
        push_str(&mut r, v[i].as_str());
        assert(r@ =~= join(views(v@.take(i + 1)), "\n"@));
    }
    assert(v@.take(v@.len() as int) == v@);
    r
}

#[verifier::rlimit(40)]
fn push_html_evidence(out: &mut String, ev: &Vec<String>)
    ensures
        final(out)@ == old(out)@ + html_evidence(views(ev@)),
{
    let ghost start = out@;
    if ev.len() == 0 {
        assert(views(ev@).len() == 0);
        assert(out@ =~= start + html_evidence(views(ev@)));
        return;
    }
    let joined = join_lines(ev);
    push_str(out, "<pre>");
    push_html_escaped(out, joined.as_str());
    push_str(out, "</pre>");
    assert(out@ =~= start + html_evidence(views(ev@)));
}

#[verifier::rlimit(40)]
fn push_html_finding_head(out: &mut String, kb: &KnowledgeBase, f: &Finding, lang: Lang)
    ensures
        final(out)@ == old(out)@ + html_finding_head(*kb, *f, lang),
{
    let ghost start = out@;
    let title = localized_title(kb, f, lang);
    let summary = localized_summary(kb, f, lang);
    push_str(out, "<article class=\"sev-");
    push_str(out, f.severity.label());
    push_str(out, "\"><h3><span class=\"badge\">");
    push_html_escaped(out, f.severity.label_in(lang));
    push_str(out, "</span> ");
    push_html_escaped(out, title.as_str());
    push_str(out, "</h3><p>");
    push_html_escaped(out, summary.as_str());
    push_str(out, "</p>");
    assert(out@ =~= start + html_finding_head(*kb, *f, lang));
}

#[verifier::rlimit(40)]
fn push_html_finding(out: &mut String, kb: &KnowledgeBase, f: &Finding, l: &ReportLabels, lang: Lang)
    requires
        report_labels_view(*l) == report_label_texts(lang),
    ensures
        final(out)@ == old(out)@ + html_finding(*kb, *f, lang),
{
    let ghost start = out@;
    push_html_finding_head(out, kb, f, lang);
    push_html_explanation(out, kb, f, l, lang);
    push_html_evidence(out, &f.evidence);
    push_str(out, "</article>");
    reveal(html_finding);
    assert(out@ =~= start + html_finding(*kb, *f, lang));
}

#[verifier::rlimit(40)]
fn push_html_findings(out: &mut String, kb: &KnowledgeBase, fs: &Vec<Finding>, l: &ReportLabels, lang: Lang)
    requires
        report_labels_view(*l) == report_label_texts(lang),
    ensures
        final(out)@ == old(out)@ + html_findings(*kb, fs@, lang),
{
    let ghost start = out@;
    for i in 0..fs.len()
        invariant
            report_labels_view(*l) == report_label_texts(lang),
            out@ == start + html_findings(*kb, fs@.take(i as int), lang),
    {
        proof {
            let t = fs@.take(i + 1);
            assert(t.drop_last() == fs@.take(i as int));
            assert(t.last() == fs@[i as int]);
        }
        push_html_finding(out, kb, &fs[i], l, lang);
        assert(out@ =~= start + html_findings(*kb, fs@.take(i + 1), lang));
    }
    assert(fs@.take(fs@.len() as int) == fs@);
}

#[verifier::rlimit(40)]
fn push_html_categories(out: &mut String, css: &Vec<CategoryScore>, lang: Lang)
    ensures
        final(out)@ == old(out)@ + html_categories(css@, lang),
{
    let ghost start = out@;
    for i in 0..css.len()
        invariant
            out@ == start + html_categories(css@.take(i as int), lang),
    {
        proof {
            let t = css@.take(i + 1);
            assert(t.drop_last() == css@.take(i as int));
            assert(t.last() == css@[i as int]);
        }
        let cs = &css[i];
        let ghost before = out@;
        push_str(out, "<div class=\"cat\"><span>");
        push_html_escaped(out, cs.category.label_in(lang));
        push_str(out, "</span><div class=\"bar\"><div style=\"width:");
        push_decimal(out, cs.score as u64);
        push_str(out, "%\"></div></div><b>");
        push_decimal(out, cs.score as u64);
        push_str(out, "</b></div>");
        assert(out@ =~= before + html_category(*cs, lang));
        assert(out@ =~= start + html_categories(css@.take(i + 1), lang));
    }
    assert(css@.take(css@.len() as int) == css@);
}

#[verifier::rlimit(40)]
fn push_html_preamble(out: &mut String, l: &ReportLabels, lang: Lang)
    requires
        report_labels_view(*l) == report_label_texts(lang),
    ensures
        final(out)@ == old(out)@ + html_preamble(lang),
{
    let ghost start = out@;
    let (dir, code): (&str, &str) = match lang {
        Lang::Ar => ("rtl", "ar"),
        Lang::En => ("ltr", "en"),
    };
    push_str(out, "<!DOCTYPE html>\n<html dir=\"");
    push_str(out, dir);
    push_str(out, "\" lang=\"");
    push_str(out, code);
    push_str(out, "\"><head><meta charset=\"utf-8\"><title>");
    push_html_escaped(out, l.report_title);
    push_str(out, "</title><style>\n");
    push_str(out, REPORT_STYLE);
    push_str(out, "</style></head><body>\n");
    assert(out@ =~= start + html_preamble(lang));
}

#[verifier::rlimit(40)]
fn push_html_summary(out: &mut String, r: &HealthReport, l: &ReportLabels, lang: Lang)
    requires
        report_labels_view(*l) == report_label_texts(lang),
    ensures
        final(out)@ == old(out)@ + html_summary(*r, lang),
{
    let ghost start = out@;
    push_str(out, "<h1>");
    push_html_escaped(out, l.report_title);
    push_str(out, "</h1>\n<p><i>");
    push_html_escaped(out, l.generated);
    push_str(out, ": ");
    push_html_escaped(out, r.generated_at.as_str());
    push_str(out, "</i></p>\n<div class=\"score\">");
    push_decimal(out, r.score as u64);
    push_str(out, "/100 <small>(");
    push_str(out, grade_label_in(r.score, lang));
    push_str(out, ")</small></div>\n");
    assert(out@ =~= start + html_summary(*r, lang));
}

/// The report as a standalone HTML page (see [`html_text`]): right-to-left
/// for Arabic, with localized chrome, a bar per category, and an article
/// per finding. Every value is escaped for HTML.
#[verifier::rlimit(40)]
pub fn to_html(report: &HealthReport, kb: &KnowledgeBase, lang: Lang) -> (out: String)
    ensures
        out@ == html_text(*report, *kb, lang),
{
    let l = labels(lang);
    let mut out = String::new();
    push_html_preamble(&mut out, &l, lang);
    push_html_summary(&mut out, report, &l, lang);
    push_str(&mut out, "<h2>");
    push_html_escaped(&mut out, l.categories);
    push_str(&mut out, "</h2>");
    push_html_categories(&mut out, &report.category_scores, lang);
    push_str(&mut out, "\n<h2>");
    push_html_escaped(&mut out, l.findings);
    push_str(&mut out, " (");
    push_decimal(&mut out, report.findings.len() as u64);
    push_str(&mut out, ")</h2>");
    push_html_findings(&mut out, kb, &report.findings, &l, lang);
    push_str(&mut out, "\n</body></html>");
    assert(out@ =~= html_text(*report, *kb, lang));
    out
}

} // verus!
