//! The coloured terminal rendering of a health report.

use vstd::prelude::*;
use vstd::string::StringExecFns;

use crate::finding::{category_label_in, Finding, Severity};
use crate::knowledge::{explanation_of, localized_summary, localized_text, localized_title, KnowledgeBase};
use crate::lang::Lang;
use crate::paint::{bold, bold_text, cyan, dim_text, dimmed, fg_text, green, italic, italic_text, red, yellow};
use crate::report::HealthReport;
use crate::score::{grade_of, grade_of_ar, grade_label_in, CategoryScore};
use crate::terminal::{chrome, chrome_text, sanitize};
use crate::text::{decimal, push_char, push_decimal, push_str, strip_controls, views};

verus! {

/// `s` followed by spaces up to `w` characters (`{:<w}`).
pub open spec fn pad_right(s: Seq<char>, w: nat) -> Seq<char> {
    if s.len() < w {
        s + Seq::new((w - s.len()) as nat, |i: int| ' ')
    } else {
        s
    }
}

/// `s` preceded by spaces up to `w` characters (`{:>w}`).
pub open spec fn pad_left(s: Seq<char>, w: nat) -> Seq<char> {
    if s.len() < w {
        Seq::new((w - s.len()) as nat, |i: int| ' ') + s
    } else {
        s
    }
}

fn push_spaces(out: &mut String, n: usize)
    ensures
        final(out)@ == old(out)@ + Seq::new(n as nat, |i: int| ' '),
{
    let ghost start = out@;
    for i in 0..n
        invariant
            out@ == start + Seq::new(i as nat, |k: int| ' '),
    {
        push_char(out, ' ');
        assert(Seq::new((i + 1) as nat, |k: int| ' ') =~= Seq::new(i as nat, |k: int| ' ').push(' '));
    }
}

fn push_padded_right(out: &mut String, s: &str, w: usize)
    ensures
        final(out)@ == old(out)@ + pad_right(s@, w as nat),
{
    let n = crate::text::chars_of(s).len();
    push_str(out, s);
    if n < w {
        push_spaces(out, w - n);
    }
}

/// The grade a score earns, as text in `lang`.
pub open spec fn grade_text(score: u8, lang: Lang) -> Seq<char> {
    match lang {
        Lang::En => grade_of(score as nat),
        Lang::Ar => grade_of_ar(score as nat),
    }
}

/// The score line, coloured by band: green from 75, yellow from 50, red
/// below; bold throughout.
pub open spec fn score_line(score: u8, lang: Lang) -> Seq<char> {
    let line = "  "@ + chrome_text(lang)[0] + ": "@ + decimal(score as nat) + "/100  ("@
        + grade_text(score, lang) + ")"@;
    bold_text(
        fg_text(
            if 75 <= score <= 100 {
                "32"@
            } else if 50 <= score <= 74 {
                "33"@
            } else {
                "31"@
            },
            line,
        ),
    )
}

/// The head of the report: the score line, and the coverage when some
/// category went unmeasured.
pub open spec fn head_text(r: HealthReport, lang: Lang) -> Seq<char> {
    "\n"@ + score_line(r.score, lang) + "\n\n"@ + if r.coverage.measured < r.coverage.total {
        "  "@ + dim_text(
            chrome_text(lang)[7] + ": "@ + decimal(r.coverage.measured as nat) + "/"@ + decimal(
                r.coverage.total as nat,
            ) + " — "@ + chrome_text(lang)[8],
        ) + "\n\n"@
    } else {
        Seq::empty()
    }
}

/// A bar of ten cells for a 0–100 score: one filled cell per ten points.
pub open spec fn bar(score: u8) -> Seq<char> {
    let filled = (score / 10) as nat;
    Seq::new(filled, |i: int| '█') + Seq::new((10 - filled) as nat, |i: int| '░')
}

/// Law: a score's bar has ten cells, and cell `i` is filled exactly when
/// the score reaches `10 * (i + 1)`; so a higher score never fills fewer
/// cells.
pub proof fn lemma_bar_shows_the_score(score: u8, other: u8, i: int)
    requires
        score <= 100,
        other <= 100,
        0 <= i < 10,
    ensures
        bar(score).len() == 10,
        (bar(score)[i] == '█') == (10 * (i + 1) <= score),
        bar(score)[i] == '█' || bar(score)[i] == '░',
        score <= other && bar(score)[i] == '█' ==> bar(other)[i] == '█',
{
    let filled = (score / 10) as nat;
    let f2 = (other / 10) as nat;
    assert(i < filled <==> 10 * (i + 1) <= score);
    assert(i < f2 <==> 10 * (i + 1) <= other);
    if i < filled {
        assert(bar(score)[i] == Seq::new(filled, |k: int| '█')[i]);
    } else {
        assert(bar(score)[i] == Seq::new((10 - filled) as nat, |k: int| '░')[i - filled]);
    }
    if i < f2 {
        assert(bar(other)[i] == Seq::new(f2, |k: int| '█')[i]);
    } else {
        assert(bar(other)[i] == Seq::new((10 - f2) as nat, |k: int| '░')[i - f2]);
    }
}

/// One category line: its label padded to ten characters, then its bar
/// and score, or "not measured".
pub open spec fn category_line(cs: CategoryScore, lang: Lang) -> Seq<char> {
    "  "@ + pad_right(category_label_in(cs.category, lang), 10) + " "@ + if cs.measured {
        bar(cs.score) + " "@ + pad_left(decimal(cs.score as nat), 3) + "\n"@
    } else {
        dim_text(chrome_text(lang)[9]) + "\n"@
    }
}

/// The category lines, in order.
pub open spec fn categories_text(css: Seq<CategoryScore>, lang: Lang) -> Seq<char>
    decreases css.len(),
{
    if css.len() == 0 {
        Seq::empty()
    } else {
        categories_text(css.drop_last(), lang) + category_line(css.last(), lang)
    }
}

/// The line before the findings: a clean bill of health, or how many
/// findings follow.
pub open spec fn intro_text(n: nat, lang: Lang) -> Seq<char> {
    "\n"@ + if n == 0 {
        "  "@ + fg_text("32"@, chrome_text(lang)[1]) + "\n"@
    } else {
        "  "@ + chrome_text(lang)[2] + decimal(n) + chrome_text(lang)[3] + "\n\n"@
    }
}

/// A severity in capitals, as a badge shows it.
pub open spec fn badge_word(s: Severity, lang: Lang) -> Seq<char> {
    match lang {
        Lang::En => match s {
            Severity::Info => "INFO"@,
            Severity::Low => "LOW"@,
            Severity::Medium => "MEDIUM"@,
            Severity::High => "HIGH"@,
            Severity::Critical => "CRITICAL"@,
        },
        Lang::Ar => crate::fix::severity_word(s, lang),
    }
}

/// A finding's badge: red and bold for Critical and High, yellow and bold
/// for Medium, dimmed otherwise.
pub open spec fn badge(s: Severity, lang: Lang) -> Seq<char> {
    let b = "["@ + badge_word(s, lang) + "]"@;
    match s {
        Severity::Critical | Severity::High => bold_text(fg_text("31"@, b)),
        Severity::Medium => bold_text(fg_text("33"@, b)),
        _ => dim_text(b),
    }
}

/// The evidence lines, at most five.
pub open spec fn evidence_text(ev: Seq<Seq<char>>) -> Seq<char>
    decreases ev.len(),
{
    if ev.len() == 0 {
        Seq::empty()
    } else {
        evidence_text(ev.drop_last()) + "        - "@ + dim_text(strip_controls(ev.last(), true))
            + "\n"@
    }
}

/// The first lines of a finding's block: badge and title, summary and id.
pub open spec fn finding_head_text(kb: KnowledgeBase, f: Finding, lang: Lang) -> Seq<char> {
    "  "@ + badge(f.severity, lang) + " "@ + bold_text(
        strip_controls(localized_text(kb, f, lang, false), true),
    ) + "\n"@ + "      "@ + strip_controls(localized_text(kb, f, lang, true), true) + "\n"@
        + "      "@ + dim_text("id: "@ + f.id@) + "\n"@
}

/// The remedy line, when the knowledge base has an explanation.
pub open spec fn remedy_text(kb: KnowledgeBase, f: Finding, lang: Lang) -> Seq<char> {
    match explanation_of(kb, f.id@, lang) {
        Some(e) => "      "@ + fg_text("36"@, chrome_text(lang)[4]) + " "@ + e.remedy@ + "\n"@,
        None => Seq::empty(),
    }
}

/// The fix-hint line, when the finding has one.
pub open spec fn hint_text(f: Finding, lang: Lang) -> Seq<char> {
    match f.fix_hint {
        Some(h) => "      "@ + fg_text("36"@, chrome_text(lang)[5]) + " "@ + italic_text(
            strip_controls(h@, true),
        ) + "\n"@,
        None => Seq::empty(),
    }
}

/// A finding's block: badge and title, summary, id, the remedy when the
/// knowledge base has one, up to five pieces of evidence, the fix hint, and
/// a blank line. Text that comes from the system is stripped of control
/// characters.
pub open spec fn finding_text(kb: KnowledgeBase, f: Finding, lang: Lang) -> Seq<char> {
    finding_head_text(kb, f, lang) + remedy_text(kb, f, lang) + evidence_text(
        views(
            if f.evidence@.len() > 5 {
                f.evidence@.take(5)
            } else {
                f.evidence@
            },
        ),
    ) + hint_text(f, lang) + "\n"@
}

/// The finding blocks, in order.
pub open spec fn findings_text(kb: KnowledgeBase, fs: Seq<Finding>, lang: Lang) -> Seq<char>
    decreases fs.len(),
{
    if fs.len() == 0 {
        Seq::empty()
    } else {
        findings_text(kb, fs.drop_last(), lang) + finding_text(kb, fs.last(), lang)
    }
}

/// The checks that could not run, when there are any.
pub open spec fn errors_text(es: Seq<Seq<char>>, lang: Lang) -> Seq<char> {
    if es.len() == 0 {
        Seq::empty()
    } else {
        "  "@ + dim_text(chrome_text(lang)[6]) + "\n"@ + error_lines(es)
    }
}

/// One dimmed line per skipped check.
pub open spec fn error_lines(es: Seq<Seq<char>>) -> Seq<char>
    decreases es.len(),
{
    if es.len() == 0 {
        Seq::empty()
    } else {
        error_lines(es.drop_last()) + "    - "@ + dim_text(es.last()) + "\n"@
    }
}

/// The whole report as the terminal shows it.
pub open spec fn render_text(r: HealthReport, kb: KnowledgeBase, lang: Lang) -> Seq<char> {
    head_text(r, lang) + categories_text(r.category_scores@, lang) + intro_text(
        r.findings@.len(),
        lang,
    ) + findings_text(kb, r.findings@, lang) + errors_text(views(r.collection_errors@), lang)
}

fn push_head(out: &mut String, r: &HealthReport, lang: Lang)
    ensures
        final(out)@ == old(out)@ + head_text(*r, lang),
{
    let c = chrome(lang);
    let mut line = String::from_str("  ");
    push_str(&mut line, c.health_score);
    push_str(&mut line, ": ");
    push_decimal(&mut line, r.score as u64);
    push_str(&mut line, "/100  (");
    push_str(&mut line, grade_label_in(r.score, lang));
    push_str(&mut line, ")");
    let coloured = if 75 <= r.score && r.score <= 100 {
        green(line.as_str())
    } else if 50 <= r.score && r.score <= 74 {
        yellow(line.as_str())
    } else {
        red(line.as_str())
    };
    let painted = bold(coloured.as_str());
    let ghost start = out@;
    push_str(out, "\n");
    push_str(out, painted.as_str());
    push_str(out, "\n\n");
    if r.coverage.is_partial() {
        let mut cov = String::from_str(c.coverage);
        push_str(&mut cov, ": ");
        let label = r.coverage.label();
        push_str(&mut cov, label.as_str());
        push_str(&mut cov, " — ");
        push_str(&mut cov, c.coverage_note);
        let d = dimmed(cov.as_str());
        push_str(out, "  ");
        push_str(out, d.as_str());
        push_str(out, "\n\n");
    }
    assert(out@ =~= start + head_text(*r, lang));
}

fn push_bar(out: &mut String, score: u8)
    requires
        score <= 100,
    ensures
        final(out)@ == old(out)@ + bar(score),
{
    let filled = (score / 10) as usize;
    let ghost start = out@;
    for i in 0..filled
        invariant
            out@ == start + Seq::new(i as nat, |k: int| '█'),
    {
        push_char(out, '█');
        assert(Seq::new((i + 1) as nat, |k: int| '█') =~= Seq::new(i as nat, |k: int| '█').push('█'));
    }
    let ghost mid = out@;
    for i in 0..10 - filled
        invariant
            out@ == mid + Seq::new(i as nat, |k: int| '░'),
    {
        push_char(out, '░');
        assert(Seq::new((i + 1) as nat, |k: int| '░') =~= Seq::new(i as nat, |k: int| '░').push('░'));
    }
    assert(out@ =~= start + bar(score));
}

fn push_category(out: &mut String, cs: &CategoryScore, lang: Lang)
    requires
        cs.score <= 100,
    ensures
        final(out)@ == old(out)@ + category_line(*cs, lang),
{
    let ghost start = out@;
    push_str(out, "  ");
    push_padded_right(out, cs.category.label_in(lang), 10);
    push_str(out, " ");
    if cs.measured {
        push_bar(out, cs.score);
        push_str(out, " ");
        let mut n = String::new();
        push_decimal(&mut n, cs.score as u64);
        let len = crate::text::chars_of(n.as_str()).len();
        if len < 3 {
            push_spaces(out, 3 - len);
        }
        push_str(out, n.as_str());
        push_str(out, "\n");
    } else {
        let c = chrome(lang);
        let d = dimmed(c.not_measured);
        push_str(out, d.as_str());
        push_str(out, "\n");
    }
    assert(out@ =~= start + category_line(*cs, lang));
}

fn push_categories(out: &mut String, css: &Vec<CategoryScore>, lang: Lang)
    requires
        forall|i: int| 0 <= i < css@.len() ==> (#[trigger] css@[i]).score <= 100,
    ensures
        final(out)@ == old(out)@ + categories_text(css@, lang),
{
    let ghost start = out@;
    for i in 0..css.len()
        invariant
            forall|k: int| 0 <= k < css@.len() ==> (#[trigger] css@[k]).score <= 100,
            out@ == start + categories_text(css@.take(i as int), lang),
    {
        proof {
            let t = css@.take(i + 1);
            assert(t.drop_last() == css@.take(i as int));
            assert(t.last() == css@[i as int]);
        }
        push_category(out, &css[i], lang);
        assert(out@ =~= start + categories_text(css@.take(i + 1), lang));
    }
    assert(css@.take(css@.len() as int) == css@);
}

fn push_intro(out: &mut String, n: usize, lang: Lang)
    ensures
        final(out)@ == old(out)@ + intro_text(n as nat, lang),
{
    let c = chrome(lang);
    let ghost start = out@;
    push_str(out, "\n");
    if n == 0 {
        let g = green(c.healthy);
        push_str(out, "  ");
        push_str(out, g.as_str());
        push_str(out, "\n");
    } else {
        push_str(out, "  ");
        push_str(out, c.findings_intro_prefix);
        push_decimal(out, n as u64);
        push_str(out, c.findings_intro_suffix);
        push_str(out, "\n\n");
    }
    assert(out@ =~= start + intro_text(n as nat, lang));
}

fn badge_exec(s: Severity, lang: Lang) -> (b: String)
    ensures
        b@ == badge(s, lang),
{
    let word: &str = match lang {
        Lang::En => match s {
            Severity::Info => "INFO",
            Severity::Low => "LOW",
            Severity::Medium => "MEDIUM",
            Severity::High => "HIGH",
            Severity::Critical => "CRITICAL",
        },
        Lang::Ar => s.label_in(lang),
    };
    let mut b = String::from_str("[");
    push_str(&mut b, word);
    push_str(&mut b, "]");
    match s {
        Severity::Critical | Severity::High => {
            let r = red(b.as_str());
            bold(r.as_str())
        },
        Severity::Medium => {
            let y = yellow(b.as_str());
            bold(y.as_str())
        },
        _ => dimmed(b.as_str()),
    }
}

fn push_evidence(out: &mut String, ev: &Vec<String>)
    ensures
        final(out)@ == old(out)@ + evidence_text(
            views(
                if ev@.len() > 5 {
                    ev@.take(5)
                } else {
                    ev@
                },
            ),
        ),
{
    let n: usize = if ev.len() > 5 {
        5
    } else {
        ev.len()
    };
    let ghost shown = if ev@.len() > 5 {
        ev@.take(5)
    } else {
        ev@
    };
    assert(shown == ev@.take(n as int));
    let ghost start = out@;
    for i in 0..n
        invariant
            n <= ev@.len(),
            shown == ev@.take(n as int),
            out@ == start + evidence_text(views(ev@.take(i as int))),
    {
        proof {
            let t = views(ev@.take(i + 1));
            assert(t.drop_last() == views(ev@.take(i as int)));
            assert(t.last() == ev@[i as int]@);
        }
        let clean = sanitize(ev[i].as_str());
        let d = dimmed(clean.as_str());
        push_str(out, "        - ");
        push_str(out, d.as_str());
        push_str(out, "\n");
        assert(out@ =~= start + evidence_text(views(ev@.take(i + 1))));
    }
}

fn push_finding_head(out: &mut String, kb: &KnowledgeBase, f: &Finding, lang: Lang)
    ensures
        final(out)@ == old(out)@ + finding_head_text(*kb, *f, lang),
{
    let ghost start = out@;
    let b = badge_exec(f.severity, lang);
    let title = localized_title(kb, f, lang);
    let summary = localized_summary(kb, f, lang);
    let t = sanitize(title.as_str());
    let bt = bold(t.as_str());
    push_str(out, "  ");
    push_str(out, b.as_str());
    push_str(out, " ");
    push_str(out, bt.as_str());
    push_str(out, "\n");
    let sm = sanitize(summary.as_str());
    push_str(out, "      ");
    push_str(out, sm.as_str());
    push_str(out, "\n");
    let mut id_line = String::from_str("id: ");
    push_str(&mut id_line, f.id.as_str());
    let di = dimmed(id_line.as_str());
    push_str(out, "      ");
    push_str(out, di.as_str());
    push_str(out, "\n");
    assert(out@ =~= start + finding_head_text(*kb, *f, lang));
}

fn push_remedy(out: &mut String, kb: &KnowledgeBase, f: &Finding, lang: Lang)
    ensures
        final(out)@ == old(out)@ + remedy_text(*kb, *f, lang),
{
    let ghost start = out@;
    match kb.explain(f.id.as_str(), lang) {
        Some(e) => {
            let c = chrome(lang);
            let r = cyan(c.remedy);
            push_str(out, "      ");
            push_str(out, r.as_str());
            push_str(out, " ");
            push_str(out, e.remedy.as_str());
            push_str(out, "\n");
            assert(out@ =~= start + remedy_text(*kb, *f, lang));
        },
        None => {
            assert(out@ =~= start + remedy_text(*kb, *f, lang));
        },
    }
}

fn push_hint(out: &mut String, f: &Finding, lang: Lang)
    ensures
        final(out)@ == old(out)@ + hint_text(*f, lang),
{
    let ghost start = out@;
    match &f.fix_hint {
        Some(h) => {
            let c = chrome(lang);
            let tr = cyan(c.try_);
            let clean = sanitize(h.as_str());
            let it = italic(clean.as_str());
            push_str(out, "      ");
            push_str(out, tr.as_str());
            push_str(out, " ");
            push_str(out, it.as_str());
            push_str(out, "\n");
            assert(out@ =~= start + hint_text(*f, lang));
        },
        None => {
            assert(out@ =~= start + hint_text(*f, lang));
        },
    }
}

fn push_finding(out: &mut String, kb: &KnowledgeBase, f: &Finding, lang: Lang)
    ensures
        final(out)@ == old(out)@ + finding_text(*kb, *f, lang),
{
    let ghost start = out@;
    push_finding_head(out, kb, f, lang);
    push_remedy(out, kb, f, lang);
    push_evidence(out, &f.evidence);
    push_hint(out, f, lang);
    push_str(out, "\n");
    assert(out@ =~= start + finding_text(*kb, *f, lang));
}

#[verifier::rlimit(40)]
fn push_findings(out: &mut String, kb: &KnowledgeBase, fs: &Vec<Finding>, lang: Lang)
    ensures
        final(out)@ == old(out)@ + findings_text(*kb, fs@, lang),
{
    let ghost start = out@;
    for i in 0..fs.len()
        invariant
            out@ == start + findings_text(*kb, fs@.take(i as int), lang),
    {
        proof {
            let t = fs@.take(i + 1);
            assert(t.drop_last() == fs@.take(i as int));
            assert(t.last() == fs@[i as int]);
        }
        push_finding(out, kb, &fs[i], lang);
        assert(out@ =~= start + findings_text(*kb, fs@.take(i + 1), lang));
    }
    assert(fs@.take(fs@.len() as int) == fs@);
}

fn push_errors(out: &mut String, es: &Vec<String>, lang: Lang)
    ensures
        final(out)@ == old(out)@ + errors_text(views(es@), lang),
{
    if es.len() == 0 {
        assert(views(es@).len() == 0);
        assert(old(out)@ + errors_text(views(es@), lang) == old(out)@);
        return;
    }
    let c = chrome(lang);
    let ghost start = out@;
    let d = dimmed(c.skipped);
    push_str(out, "  ");
    push_str(out, d.as_str());
    push_str(out, "\n");
    let ghost mid = out@;
    for i in 0..es.len()
        invariant
            out@ == mid + error_lines(views(es@.take(i as int))),
    {
        proof {
            let t = views(es@.take(i + 1));
            assert(t.drop_last() == views(es@.take(i as int)));
            assert(t.last() == es@[i as int]@);
        }
        let de = dimmed(es[i].as_str());
        push_str(out, "    - ");
        push_str(out, de.as_str());
        push_str(out, "\n");
        assert(out@ =~= mid + error_lines(views(es@.take(i + 1))));
    }
    assert(es@.take(es@.len() as int) == es@);
    assert(out@ =~= start + errors_text(views(es@), lang));
}

/// Render `report` for the terminal in `lang` (see [`render_text`]); the
/// knowledge base supplies translated titles and the remedies.
pub fn render(report: &HealthReport, kb: &KnowledgeBase, lang: Lang) -> (out: String)
    requires
        forall|i: int|
            0 <= i < report.category_scores@.len() ==> (#[trigger] report.category_scores@[i]).score
                <= 100,
    ensures
        out@ == render_text(*report, *kb, lang),
{
    let mut out = String::new();
    push_head(&mut out, report, lang);
    push_categories(&mut out, &report.category_scores, lang);
    push_intro(&mut out, report.findings.len(), lang);
    push_findings(&mut out, kb, &report.findings, lang);
    push_errors(&mut out, &report.collection_errors, lang);
    assert(out@ =~= render_text(*report, *kb, lang));
    out
}

} // verus!
