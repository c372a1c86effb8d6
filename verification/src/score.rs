//! Scoring: per-category scores, the weighted overall score with its
//! severity caps, grades and coverage.

use vstd::prelude::*;

use crate::finding::{
    all_categories, category_weight, lemma_penalty_points, severity_penalty, severity_rank, Category, Finding, Severity,
};
use crate::lang::Lang;
use crate::text::{decimal, push_decimal, push_str};

verus! {

/// Highest overall score allowed when any Critical finding is present.
pub const CRITICAL_SCORE_CAP: u8 = 59;

/// Highest overall score allowed when the worst finding is High.
pub const HIGH_SCORE_CAP: u8 = 74;

/// One category's score in a checkup.
#[derive(Debug, Clone, Copy, PartialEq, Eq, Structural)]
pub struct CategoryScore {
    pub category: Category,
    pub score: u8,
    /// Whether the checkup gathered data for this category. An unmeasured
    /// category scores 100 for want of findings and is left out of the
    /// overall score.
    pub measured: bool,
}

/// How much of the system the checkup could actually see.
#[derive(Debug, Clone, Copy, PartialEq, Eq, Structural)]
pub struct Coverage {
    pub measured: usize,
    pub total: usize,
}

impl Coverage {
    /// True when at least one category could not be measured.
    pub fn is_partial(&self) -> (b: bool)
        ensures
            b == (self.measured < self.total),
    {
        self.measured < self.total
    }

    /// "9/12", for display next to the score.
    pub fn label(&self) -> (s: String)
        ensures
            s@ == decimal(self.measured as nat) + "/"@ + decimal(self.total as nat),
    {
        let mut s = String::new();
        push_decimal(&mut s, self.measured as u64);
        push_str(&mut s, "/");
        push_decimal(&mut s, self.total as u64);
        s
    }
}

/// Sum of the penalties of the findings in `c`.
pub open spec fn penalty_in(findings: Seq<Finding>, c: Category) -> nat
    decreases findings.len(),
{
    if findings.len() == 0 {
        0
    } else {
        penalty_in(findings.drop_last(), c) + if findings.last().category == c {
            severity_penalty(findings.last().severity)
        } else {
            0
        }
    }
}

/// A category's score: 100 minus its findings' penalties, never below 0.
pub open spec fn category_score_of(findings: Seq<Finding>, c: Category) -> nat {
    let p = penalty_in(findings, c);
    if p >= 100 {
        0
    } else {
        (100 - p) as nat
    }
}

/// The per-category scores of a checkup, in report order.
pub open spec fn category_scores_spec(findings: Seq<Finding>, measured: Seq<Category>) -> Seq<
    CategoryScore,
> {
    all_categories().map_values(
        |c: Category|
            CategoryScore {
                category: c,
                score: category_score_of(findings, c) as u8,
                measured: measured.contains(c),
            },
    )
}

/// Total weight of the measured categories.
pub open spec fn measured_weight(scores: Seq<CategoryScore>) -> nat
    decreases scores.len(),
{
    if scores.len() == 0 {
        0
    } else {
        measured_weight(scores.drop_last()) + if scores.last().measured {
            category_weight(scores.last().category)
        } else {
            0
        }
    }
}

/// Sum of score × weight over the measured categories.
pub open spec fn weighted_sum(scores: Seq<CategoryScore>) -> nat
    decreases scores.len(),
{
    if scores.len() == 0 {
        0
    } else {
        weighted_sum(scores.drop_last()) + if scores.last().measured {
            scores.last().score as nat * category_weight(scores.last().category)
        } else {
            0
        }
    }
}

/// The weighted average of the measured categories, rounded half up; 100
/// when nothing was measured.
pub open spec fn raw_score(scores: Seq<CategoryScore>) -> nat {
    let tw = measured_weight(scores);
    if tw == 0 {
        100
    } else {
        (2 * weighted_sum(scores) + tw) / (2 * tw)
    }
}

/// The most severe finding's severity, if any.
pub open spec fn worst_severity(findings: Seq<Finding>) -> Option<Severity>
    decreases findings.len(),
{
    if findings.len() == 0 {
        None
    } else {
        let s = findings.last().severity;
        match worst_severity(findings.drop_last()) {
            None => Some(s),
            Some(w) => if severity_rank(s) > severity_rank(w) {
                Some(s)
            } else {
                Some(w)
            },
        }
    }
}

/// The overall score: the raw score, capped at 59 by a Critical finding and
/// at 74 when the worst finding is High.
pub open spec fn overall_score(scores: Seq<CategoryScore>, worst: Option<Severity>) -> nat {
    let raw = raw_score(scores);
    match worst {
        Some(Severity::Critical) => if raw > 59 {
            59
        } else {
            raw
        },
        Some(Severity::High) => if raw > 74 {
            74
        } else {
            raw
        },
        _ => raw,
    }
}

/// The grade a score earns.
pub open spec fn grade_of(score: nat) -> Seq<char> {
    if 90 <= score && score <= 100 {
        "Excellent"@
    } else if 75 <= score && score <= 89 {
        "Good"@
    } else if 60 <= score && score <= 74 {
        "Fair"@
    } else if 40 <= score && score <= 59 {
        "Poor"@
    } else {
        "Critical"@
    }
}

/// The grade a score earns, in Arabic.
pub open spec fn grade_of_ar(score: nat) -> Seq<char> {
    if 90 <= score && score <= 100 {
        "ممتازة"@
    } else if 75 <= score && score <= 89 {
        "جيدة"@
    } else if 60 <= score && score <= 74 {
        "مقبولة"@
    } else if 40 <= score && score <= 59 {
        "ضعيفة"@
    } else {
        "حرجة"@
    }
}

pub fn grade_for(score: u8) -> (g: &'static str)
    ensures
        g@ == grade_of(score as nat),
{
    if 90 <= score && score <= 100 {
        "Excellent"
    } else if 75 <= score && score <= 89 {
        "Good"
    } else if 60 <= score && score <= 74 {
        "Fair"
    } else if 40 <= score && score <= 59 {
        "Poor"
    } else {
        "Critical"
    }
}

/// The grade as user-facing text in `lang`.
pub fn grade_label_in(score: u8, lang: Lang) -> (g: &'static str)
    ensures
        g@ == match lang {
            Lang::En => grade_of(score as nat),
            Lang::Ar => grade_of_ar(score as nat),
        },
{
    match lang {
        Lang::En => grade_for(score),
        Lang::Ar => if 90 <= score && score <= 100 {
            "ممتازة"
        } else if 75 <= score && score <= 89 {
            "جيدة"
        } else if 60 <= score && score <= 74 {
            "مقبولة"
        } else if 40 <= score && score <= 59 {
            "ضعيفة"
        } else {
            "حرجة"
        },
    }
}

/// "Coverage" as a label, in `lang`.
pub fn coverage_label_in(lang: Lang) -> (s: &'static str)
    ensures
        s@ == match lang {
            Lang::En => "Coverage"@,
            Lang::Ar => "التغطية"@,
        },
{
    match lang {
        Lang::En => "Coverage",
        Lang::Ar => "التغطية",
    }
}


/// The result of scoring a checkup: the overall score and grade, coverage,
/// and the per-category scores in report order.
#[derive(Debug, Clone)]
pub struct ScoreCard {
    pub score: u8,
    pub grade: &'static str,
    pub coverage: Coverage,
    pub category_scores: Vec<CategoryScore>,
}

/// Number of measured entries.
pub open spec fn measured_count(scores: Seq<CategoryScore>) -> nat
    decreases scores.len(),
{
    if scores.len() == 0 {
        0
    } else {
        measured_count(scores.drop_last()) + if scores.last().measured {
            1nat
        } else {
            0nat
        }
    }
}

/// Every score is on the 0–100 scale.
pub open spec fn scores_in_range(scores: Seq<CategoryScore>) -> bool {
    forall|i: int| 0 <= i < scores.len() ==> #[trigger] scores[i].score <= 100
}

/// The penalty of `c`'s findings, saturated at 100.
fn category_penalty(findings: &Vec<Finding>, c: Category) -> (p: u32)
    ensures
        p == if penalty_in(findings@, c) >= 100 {
            100
        } else {
            penalty_in(findings@, c)
        },
{
    let mut acc: u32 = 0;
    let n = findings.len();
    for i in 0..n
        invariant
            n == findings@.len(),
            acc == if penalty_in(findings@.subrange(0, i as int), c) >= 100 {
                100
            } else {
                penalty_in(findings@.subrange(0, i as int), c)
            },
    {
        let f = &findings[i];
        assert(findings@.subrange(0, i + 1).drop_last() == findings@.subrange(0, i as int));
        if f.category == c {
            let p = f.severity.penalty();
            if acc + p >= 100 {
                acc = 100;
            } else {
                acc = acc + p;
            }
        }
    }
    assert(findings@.subrange(0, n as int) == findings@);
    acc
}

fn contains_category(v: &Vec<Category>, c: Category) -> (b: bool)
    ensures
        b == v@.contains(c),
{
    let n = v.len();
    for i in 0..n
        invariant
            n == v@.len(),
            forall|j: int| 0 <= j < i ==> v@[j] != c,
    {
        if v[i] == c {
            return true;
        }
    }
    false
}

/// Score every category: 100 minus the penalties of its findings (never
/// below 0), flagged as measured when `measured` lists it.
pub fn score_categories(findings: &Vec<Finding>, measured: &Vec<Category>) -> (r: Vec<
    CategoryScore,
>)
    ensures
        r@ == category_scores_spec(findings@, measured@),
        scores_in_range(r@),
{
    let all = Category::all();
    let mut r: Vec<CategoryScore> = Vec::new();
    for i in 0..12
        invariant
            all@ == all_categories(),
            r@.len() == i,
            forall|j: int|
                0 <= j < i ==> #[trigger] r@[j] == category_scores_spec(findings@, measured@)[j],
    {
        let c = all[i];
        let p = category_penalty(findings, c);
        let score = (100 - p) as u8;
        r.push(CategoryScore { category: c, score, measured: contains_category(measured, c) });
    }
    assert(r@ =~= category_scores_spec(findings@, measured@));
    r
}

/// The most severe finding's severity, if any.
pub fn worst_of(findings: &Vec<Finding>) -> (w: Option<Severity>)
    ensures
        w == worst_severity(findings@),
{
    let mut w: Option<Severity> = None;
    let n = findings.len();
    for i in 0..n
        invariant
            n == findings@.len(),
            w == worst_severity(findings@.subrange(0, i as int)),
    {
        let s = findings[i].severity;
        assert(findings@.subrange(0, i + 1).drop_last() == findings@.subrange(0, i as int));
        w = match w {
            None => Some(s),
            Some(cur) => if s.rank() > cur.rank() {
                Some(s)
            } else {
                Some(cur)
            },
        };
    }
    assert(findings@.subrange(0, n as int) == findings@);
    w
}

/// The weighted sum never exceeds 100 × the total weight.
pub proof fn lemma_weighted_sum_bounded(scores: Seq<CategoryScore>)
    requires
        scores_in_range(scores),
    ensures
        weighted_sum(scores) <= 100 * measured_weight(scores),
    decreases scores.len(),
{
    if scores.len() > 0 {
        let init = scores.drop_last();
        assert(scores_in_range(init)) by {
            assert forall|i: int| 0 <= i < init.len() implies #[trigger] init[i].score <= 100 by {
                assert(init[i] == scores[i]);
            }
        }
        lemma_weighted_sum_bounded(init);
        let last = scores.last();
        assert(last.score <= 100) by {
            assert(last == scores[scores.len() - 1]);
        }
        let w = category_weight(last.category);
        assert(last.score as nat * w <= 100 * w) by (nonlinear_arith)
            requires
                last.score <= 100,
        ;
    }
}

/// The raw score is on the 0–100 scale.
pub proof fn lemma_raw_score_bounded(scores: Seq<CategoryScore>)
    requires
        scores_in_range(scores),
    ensures
        raw_score(scores) <= 100,
{
    lemma_weighted_sum_bounded(scores);
    let tw = measured_weight(scores);
    let ws = weighted_sum(scores);
    if tw > 0 {
        assert((2 * ws + tw) / (2 * tw) <= 100) by (nonlinear_arith)
            requires
                ws <= 100 * tw,
                tw > 0,
        ;
    }
}

proof fn lemma_measured_weight_step(scores: Seq<CategoryScore>, i: int)
    requires
        0 <= i < scores.len(),
    ensures
        measured_weight(scores.subrange(0, i + 1)) == measured_weight(scores.subrange(0, i))
            + if scores[i].measured {
            category_weight(scores[i].category)
        } else {
            0
        },
        weighted_sum(scores.subrange(0, i + 1)) == weighted_sum(scores.subrange(0, i)) + if scores[i].measured {
            scores[i].score as nat * category_weight(scores[i].category)
        } else {
            0
        },
        measured_count(scores.subrange(0, i + 1)) == measured_count(scores.subrange(0, i)) + if scores[i].measured {
            1nat
        } else {
            0nat
        },
{
    assert(scores.subrange(0, i + 1).drop_last() == scores.subrange(0, i));
}

/// The overall score of a set of category scores, capped by `worst`.
pub fn overall(scores: &Vec<CategoryScore>, worst: Option<Severity>) -> (s: u8)
    requires
        scores_in_range(scores@),
        scores@.len() <= 12,
    ensures
        s == overall_score(scores@, worst),
        s <= 100,
{
    let n = scores.len();
    let mut tw: u64 = 0;
    let mut ws: u64 = 0;
    for i in 0..n
        invariant
            n == scores@.len(),
            n <= 12,
            scores_in_range(scores@),
            tw == measured_weight(scores@.subrange(0, i as int)),
            ws == weighted_sum(scores@.subrange(0, i as int)),
            tw <= 15 * i,
            ws <= 1500 * i,
    {
        proof {
            lemma_measured_weight_step(scores@, i as int);
        }
        let cs = scores[i];
        assert(cs.score <= 100);
        if cs.measured {
            let w = cs.category.weight() as u64;
            assert(cs.score as u64 * w <= 1500) by (nonlinear_arith)
                requires
                    cs.score <= 100,
                    w <= 15,
            ;
            tw = tw + w;
            ws = ws + cs.score as u64 * w;
        }
    }
    assert(scores@.subrange(0, n as int) == scores@);
    proof {
        lemma_raw_score_bounded(scores@);
    }
    let raw: u64 = if tw == 0 {
        100
    } else {
        (2 * ws + tw) / (2 * tw)
    };
    let raw = raw as u8;
    match worst {
        Some(Severity::Critical) => if raw > CRITICAL_SCORE_CAP {
            CRITICAL_SCORE_CAP
        } else {
            raw
        },
        Some(Severity::High) => if raw > HIGH_SCORE_CAP {
            HIGH_SCORE_CAP
        } else {
            raw
        },
        _ => raw,
    }
}

fn count_measured(scores: &Vec<CategoryScore>) -> (n: usize)
    ensures
        n == measured_count(scores@),
        n <= scores@.len(),
{
    let len = scores.len();
    let mut n: usize = 0;
    for i in 0..len
        invariant
            len == scores@.len(),
            n == measured_count(scores@.subrange(0, i as int)),
            n <= i,
    {
        proof {
            lemma_measured_weight_step(scores@, i as int);
        }
        if scores[i].measured {
            n = n + 1;
        }
    }
    assert(scores@.subrange(0, len as int) == scores@);
    n
}

/// Score a checkup from its findings and the categories it measured.
pub fn score_findings(findings: &Vec<Finding>, measured: &Vec<Category>) -> (card: ScoreCard)
    ensures
        card.category_scores@ == category_scores_spec(findings@, measured@),
        card.score == overall_score(card.category_scores@, worst_severity(findings@)),
        card.grade@ == grade_of(card.score as nat),
        card.coverage.measured == measured_count(card.category_scores@),
        card.coverage.total == 12,
        card.score <= 100,
{
    let category_scores = score_categories(findings, measured);
    let worst = worst_of(findings);
    let score = overall(&category_scores, worst);
    let coverage = Coverage { measured: count_measured(&category_scores), total: 12 };
    ScoreCard { score, grade: grade_for(score), coverage, category_scores }
}


/// The worst severity is the severity of some finding, and no finding is
/// more severe than it.
pub proof fn lemma_worst_severity(findings: Seq<Finding>)
    ensures
        findings.len() == 0 <==> worst_severity(findings) is None,
        worst_severity(findings) matches Some(w) ==> (exists|i: int|
            0 <= i < findings.len() && #[trigger] findings[i].severity == w),
        worst_severity(findings) matches Some(w) ==> (forall|i: int|
            0 <= i < findings.len() ==> severity_rank(#[trigger] findings[i].severity)
                <= severity_rank(w)),
    decreases findings.len(),
{
    if findings.len() > 0 {
        let init = findings.drop_last();
        lemma_worst_severity(init);
        let last_i = findings.len() - 1;
        assert(findings[last_i] == findings.last());
        assert forall|i: int| 0 <= i < init.len() implies #[trigger] init[i] == findings[i] by {}
        match worst_severity(init) {
            None => {},
            Some(w) => {
                let j = choose|j: int| 0 <= j < init.len() && #[trigger] init[j].severity == w;
                assert(findings[j].severity == w);
            },
        }
        let ww = worst_severity(findings).unwrap();
        assert forall|i: int| 0 <= i < findings.len() implies severity_rank(
            #[trigger] findings[i].severity,
        ) <= severity_rank(ww) by {
            if i < init.len() {
                assert(init[i] == findings[i]);
            }
        }
    }
}

/// Law: when any finding is Critical the overall score is at most 59, so
/// the grade is Poor or Critical; when the worst is High it is at most 74.
pub proof fn lemma_severity_caps_score(scores: Seq<CategoryScore>, findings: Seq<Finding>)
    ensures
        (exists|i: int| 0 <= i < findings.len() && findings[i].severity == Severity::Critical)
            ==> overall_score(scores, worst_severity(findings)) <= 59 && grade_of(
            overall_score(scores, worst_severity(findings)),
        ) != "Excellent"@ && grade_of(overall_score(scores, worst_severity(findings))) != "Good"@
            && grade_of(overall_score(scores, worst_severity(findings))) != "Fair"@,
        worst_severity(findings) == Some(Severity::High) ==> overall_score(
            scores,
            worst_severity(findings),
        ) <= 74,
{
    lemma_worst_severity(findings);
    reveal_strlit("Excellent");
    reveal_strlit("Good");
    reveal_strlit("Fair");
    reveal_strlit("Poor");
    reveal_strlit("Critical");
    if exists|i: int| 0 <= i < findings.len() && findings[i].severity == Severity::Critical {
        let i = choose|i: int| 0 <= i < findings.len() && findings[i].severity == Severity::Critical;
        assert(severity_rank(findings[i].severity) == 4);
        let w = worst_severity(findings).unwrap();
        assert(severity_rank(w) >= 4);
        assert(w == Severity::Critical);
        let o = overall_score(scores, worst_severity(findings));
        assert(o <= 59);
        assert(grade_of(o) == "Poor"@ || grade_of(o) == "Critical"@);
        assert("Poor"@.len() == 4 && "Critical"@.len() == 8 && "Excellent"@.len() == 9);
        assert("Good"@.len() == 4 && "Fair"@.len() == 4);
        assert("Poor"@[0] != "Good"@[0] && "Poor"@[0] != "Fair"@[0]);
    }
}

/// Law: a category's score is never below 0 nor above 100; it is 0 exactly
/// when its penalties reach 100.
pub proof fn lemma_category_score_range(findings: Seq<Finding>, c: Category)
    ensures
        category_score_of(findings, c) <= 100,
        category_score_of(findings, c) == 0 <==> penalty_in(findings, c) >= 100,
{
}

/// Law: with no findings every category scores 100 and the overall score is
/// 100 ("Excellent"), whatever was measured.
pub proof fn lemma_no_findings_scores_100(measured: Seq<Category>)
    ensures
        forall|i: int|
            0 <= i < 12 ==> #[trigger] category_scores_spec(Seq::empty(), measured)[i].score
                == 100,
        overall_score(category_scores_spec(Seq::empty(), measured), worst_severity(Seq::empty()))
            == 100,
        grade_of(100) == "Excellent"@,
{
    let scores = category_scores_spec(Seq::empty(), measured);
    assert forall|i: int| 0 <= i < scores.len() implies #[trigger] scores[i].score == 100 by {}
    lemma_all_100_raw(scores);
}

/// When every score is 100 the raw score is 100.
pub proof fn lemma_all_100_raw(scores: Seq<CategoryScore>)
    requires
        forall|i: int| 0 <= i < scores.len() ==> #[trigger] scores[i].score == 100,
    ensures
        raw_score(scores) == 100,
{
    lemma_all_100_weighted(scores);
    let tw = measured_weight(scores);
    if tw > 0 {
        assert((2 * (100 * tw) + tw) / (2 * tw) == 100) by (nonlinear_arith)
            requires
                tw > 0,
        ;
    }
}

proof fn lemma_all_100_weighted(scores: Seq<CategoryScore>)
    requires
        forall|i: int| 0 <= i < scores.len() ==> #[trigger] scores[i].score == 100,
    ensures
        weighted_sum(scores) == 100 * measured_weight(scores),
    decreases scores.len(),
{
    if scores.len() > 0 {
        let init = scores.drop_last();
        assert forall|i: int| 0 <= i < init.len() implies #[trigger] init[i].score == 100 by {
            assert(init[i] == scores[i]);
        }
        lemma_all_100_weighted(init);
        assert(scores.last() == scores[scores.len() - 1]);
    }
}

/// Law: an unmeasured category has no influence on the score — replacing the
/// entry of an unmeasured category by any other unmeasured entry leaves the
/// raw score unchanged.
pub proof fn lemma_unmeasured_ignored(scores: Seq<CategoryScore>, i: int, other: CategoryScore)
    requires
        0 <= i < scores.len(),
        !scores[i].measured,
        !other.measured,
    ensures
        raw_score(scores.update(i, other)) == raw_score(scores),
        measured_weight(scores.update(i, other)) == measured_weight(scores),
        weighted_sum(scores.update(i, other)) == weighted_sum(scores),
    decreases scores.len(),
{
    let u = scores.update(i, other);
    if i == scores.len() - 1 {
        assert(u.drop_last() == scores.drop_last());
    } else {
        lemma_unmeasured_ignored(scores.drop_last(), i, other);
        assert(u.drop_last() == scores.drop_last().update(i, other));
        assert(u.last() == scores.last());
    }
}

/// A penalty sum only grows when a finding is added.
proof fn lemma_penalty_push(findings: Seq<Finding>, f: Finding, c: Category)
    ensures
        penalty_in(findings.push(f), c) >= penalty_in(findings, c),
{
    assert(findings.push(f).drop_last() == findings);
}

/// Pointwise lower scores give a lower weighted sum (same measured flags).
proof fn lemma_weighted_sum_monotone(a: Seq<CategoryScore>, b: Seq<CategoryScore>)
    requires
        a.len() == b.len(),
        forall|i: int|
            0 <= i < a.len() ==> #[trigger] a[i].category == b[i].category && a[i].measured
                == b[i].measured && a[i].score <= b[i].score,
    ensures
        weighted_sum(a) <= weighted_sum(b),
        measured_weight(a) == measured_weight(b),
    decreases a.len(),
{
    if a.len() > 0 {
        let (ai, bi) = (a.drop_last(), b.drop_last());
        assert forall|i: int| 0 <= i < ai.len() implies #[trigger] ai[i].category == bi[i].category
            && ai[i].measured == bi[i].measured && ai[i].score <= bi[i].score by {
            assert(ai[i] == a[i]);
            assert(bi[i] == b[i]);
        }
        lemma_weighted_sum_monotone(ai, bi);
        let (la, lb) = (a.last(), b.last());
        assert(la == a[a.len() - 1]);
        assert(lb == b[b.len() - 1]);
        let w = category_weight(la.category);
        assert(la.score as nat * w <= lb.score as nat * w) by (nonlinear_arith)
            requires
                la.score <= lb.score,
        ;
    }
}

/// Law: a finding above information lowers the score of its category (as
/// long as there is score left to lower) by its severity's penalty, to no
/// less than 0, and leaves every other category as it was.
pub proof fn lemma_finding_lowers_its_category(findings: Seq<Finding>, f: Finding, c: Category)
    ensures
        f.severity != Severity::Info && category_score_of(findings, f.category) > 0
            ==> category_score_of(findings.push(f), f.category) < category_score_of(
            findings,
            f.category,
        ),
        category_score_of(findings.push(f), f.category) == if category_score_of(findings, f.category)
            >= severity_penalty(f.severity) {
            (category_score_of(findings, f.category) - severity_penalty(f.severity)) as nat
        } else {
            0
        },
        c != f.category ==> category_score_of(findings.push(f), c) == category_score_of(findings, c),
{
    assert(findings.push(f).drop_last() == findings);
    assert(findings.push(f).last() == f);
    lemma_penalty_points(f.severity, f.severity);
}

/// Law: a new finding never raises the overall score — adding a problem to a
/// checkup can only keep or lower its score.
pub proof fn lemma_new_finding_never_raises_score(
    findings: Seq<Finding>,
    f: Finding,
    measured: Seq<Category>,
)
    ensures
        overall_score(
            category_scores_spec(findings.push(f), measured),
            worst_severity(findings.push(f)),
        ) <= overall_score(category_scores_spec(findings, measured), worst_severity(findings)),
{
    let a = category_scores_spec(findings.push(f), measured);
    let b = category_scores_spec(findings, measured);
    assert forall|i: int| 0 <= i < a.len() implies #[trigger] a[i].category == b[i].category
        && a[i].measured == b[i].measured && a[i].score <= b[i].score by {
        lemma_penalty_push(findings, f, all_categories()[i]);
    }
    lemma_weighted_sum_monotone(a, b);
    let tw = measured_weight(a);
    let (wa, wb) = (weighted_sum(a), weighted_sum(b));
    if tw > 0 {
        assert((2 * wa + tw) / (2 * tw) <= (2 * wb + tw) / (2 * tw)) by (nonlinear_arith)
            requires
                wa <= wb,
                tw > 0,
        ;
    }
    assert(raw_score(a) <= raw_score(b));
    let ws = worst_severity(findings.push(f));
    let wo = worst_severity(findings);
    assert(findings.push(f).drop_last() == findings);
    assert(findings.push(f).last() == f);
    // the worst severity can only get worse
    assert(ws is Some);
    match wo {
        None => {},
        Some(w) => {
            assert(severity_rank(ws.unwrap()) >= severity_rank(w));
        },
    }
}

} // verus!
