//! The result of a checkup: the overall score, per-category scores, the
//! findings and the checks that could not run.

use vstd::prelude::*;

use crate::finding::{Category, Finding, Severity};
use crate::score::{
    category_scores_spec, grade_of, measured_count, overall_score, score_findings, worst_of,
    worst_severity, CategoryScore, Coverage,
};

verus! {

/// A checkup's outcome.
#[derive(Debug, Clone)]
pub struct HealthReport {
    /// When the checkup ran (RFC 3339).
    pub generated_at: String,
    pub score: u8,
    pub grade: &'static str,
    /// How many categories the score is based on.
    pub coverage: Coverage,
    pub category_scores: Vec<CategoryScore>,
    /// The findings, most severe first.
    pub findings: Vec<Finding>,
    /// The checks that could not run, and why.
    pub collection_errors: Vec<String>,
}

/// The exit code for a checkup whose worst finding is `worst`.
pub open spec fn exit_code_for(worst: Option<Severity>) -> u8 {
    match worst {
        Some(Severity::Critical) => 2,
        Some(Severity::High) => 1,
        _ => 0,
    }
}

impl HealthReport {
    /// Score `findings` over the `measured` categories.
    pub fn build(
        generated_at: String,
        findings: Vec<Finding>,
        measured: &Vec<Category>,
        collection_errors: Vec<String>,
    ) -> (r: HealthReport)
        ensures
            r.generated_at == generated_at,
            r.findings == findings,
            r.collection_errors == collection_errors,
            r.category_scores@ == category_scores_spec(findings@, measured@),
            r.score == overall_score(r.category_scores@, worst_severity(findings@)),
            r.grade@ == grade_of(r.score as nat),
            r.coverage.measured == measured_count(r.category_scores@),
            r.coverage.total == 12,
    {
        let card = score_findings(&findings, measured);
        HealthReport {
            generated_at,
            score: card.score,
            grade: card.grade,
            coverage: card.coverage,
            category_scores: card.category_scores,
            findings,
            collection_errors,
        }
    }

    /// The most severe finding's severity, if any.
    pub fn worst_severity(&self) -> (w: Option<Severity>)
        ensures
            w == worst_severity(self.findings@),
    {
        worst_of(&self.findings)
    }

    /// The process exit code that `checkup --exit-code` reports: 2 when the
    /// worst finding is critical, 1 when it is high, 0 otherwise (a healthy
    /// system, or only lesser findings).
    pub fn exit_code(&self) -> (c: u8)
        ensures
            c == exit_code_for(worst_severity(self.findings@)),
    {
        match worst_of(&self.findings) {
            Some(Severity::Critical) => 2,
            Some(Severity::High) => 1,
            _ => 0,
        }
    }
}

} // verus!
