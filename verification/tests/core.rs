use sysmedic::finding::{Category, Finding, Severity};
use sysmedic::fix::{FixCommand, FixPlan};
use sysmedic::lang::{isolate, Lang, LocalizedText};
use sysmedic::report::HealthReport;
use sysmedic::score::{coverage_label_in, grade_for, grade_label_in};

#[test]
fn severity_orders_by_seriousness() {
    assert!(Severity::Critical > Severity::High);
    assert!(Severity::High > Severity::Medium);
    assert!(Severity::Low > Severity::Info);
}

#[test]
fn weights_cover_all_categories() {
    for c in Category::all() {
        assert!(c.weight() > 0);
    }
}

#[test]
fn command_display_roundtrips() {
    let c = FixCommand::new("apt-get", &["clean"]);
    assert_eq!(c.display(), "apt-get clean");
    assert_eq!(FixCommand::new("snap", &[]).display(), "snap");
}

#[test]
fn preview_states_reversibility_and_commands() {
    let plan = FixPlan {
        id: "fix.enable_ufw".into(),
        title: LocalizedText::new("Enable the firewall".into(), "تفعيل الجدار الناري".into()),
        description: LocalizedText::new("Turns on ufw.".into(), "يشغّل ufw.".into()),
        commands: vec![FixCommand::new("ufw", &["--force", "enable"])],
        affected_paths: vec!["/etc/ufw".into()],
        reversible: true,
        undo: vec![FixCommand::new("ufw", &["disable"])],
        restore: None,
        risk: Severity::Low,
        needs_root: true,
    };
    let preview = plan.preview();
    assert!(preview.contains("Reversible: yes"));
    assert!(preview.contains("ufw --force enable"));
    assert!(preview.contains("ufw disable"));

    let ar = plan.preview_in(Lang::Ar);
    assert!(ar.contains("قابل للتراجع: نعم"));
    assert!(ar.contains("ufw --force enable"));
    assert!(!ar.contains("Reversible"));
}

#[test]
fn returns_the_requested_language() {
    let t = LocalizedText::new("Enable the firewall".into(), "تفعيل الجدار الناري".into());
    assert_eq!(t.get(Lang::En), "Enable the firewall");
    assert_eq!(t.get(Lang::Ar), "تفعيل الجدار الناري");
}

#[test]
fn picks_language_from_locale() {
    assert_eq!(Lang::from_locale("ar_SA.UTF-8"), Lang::Ar);
    assert_eq!(Lang::from_locale("en_US.UTF-8"), Lang::En);
    assert_eq!(Lang::from_locale("C"), Lang::En);
    assert_eq!(Lang::from_locale(""), Lang::En);
}

#[test]
fn values_are_wrapped_in_bidi_isolates() {
    assert_eq!(isolate("/boot/efi"), "\u{2068}/boot/efi\u{2069}");
}

fn finding(category: Category, severity: Severity) -> Finding {
    Finding::new("t.x", category, severity, "t", "t")
}

fn build(findings: Vec<Finding>, measured: &Vec<Category>) -> HealthReport {
    HealthReport::build("2026-07-24T10:00:00Z".into(), findings, measured, vec![])
}

#[test]
fn healthy_system_scores_100() {
    let report = build(vec![], &Category::all());
    assert_eq!(report.score, 100);
    assert_eq!(report.grade, "Excellent");
    assert!(!report.coverage.is_partial());
}

#[test]
fn unmeasured_categories_are_excluded_from_the_score() {
    let report = build(
        vec![finding(Category::Cpu, Severity::High)],
        &vec![Category::Cpu, Category::Memory],
    );
    assert_eq!(report.coverage.measured, 2);
    assert_eq!(report.coverage.total, 12);
    assert!(report.coverage.is_partial());
    assert_eq!(report.coverage.label(), "2/12");
    assert_eq!(report.score, 74);
    let battery = report
        .category_scores
        .iter()
        .find(|cs| cs.category == Category::Battery)
        .unwrap();
    assert!(!battery.measured);
}

#[test]
fn an_empty_snapshot_reports_zero_coverage() {
    let report = build(vec![], &vec![]);
    assert_eq!(report.coverage.measured, 0);
    assert!(report.coverage.is_partial());
    assert_eq!(report.score, 100);
}

#[test]
fn critical_storage_finding_lowers_score() {
    let report = build(vec![finding(Category::Storage, Severity::Critical)], &Category::all());
    assert!(report.score < 100);
    let storage = report
        .category_scores
        .iter()
        .find(|cs| cs.category == Category::Storage)
        .unwrap();
    assert_eq!(storage.score, 60);
}

#[test]
fn critical_finding_caps_grade_below_excellent() {
    let report = build(vec![finding(Category::Storage, Severity::Critical)], &Category::all());
    assert!(report.score <= 59, "score {} was not capped", report.score);
    assert_eq!(report.grade, grade_for(report.score));
    assert_ne!(report.grade, "Excellent");
}

#[test]
fn high_finding_caps_grade_at_fair() {
    let report = build(vec![finding(Category::Cpu, Severity::High)], &Category::all());
    assert!(report.score <= 74, "score {} was not capped", report.score);
}

#[test]
fn low_findings_do_not_cap() {
    let report = build(vec![finding(Category::Logs, Severity::Low)], &Category::all());
    assert!(report.score >= 90);
}

#[test]
fn category_score_never_underflows() {
    let findings = (0..5)
        .map(|_| finding(Category::Memory, Severity::Critical))
        .collect();
    let report = build(findings, &Category::all());
    let memory = report
        .category_scores
        .iter()
        .find(|cs| cs.category == Category::Memory)
        .unwrap();
    assert_eq!(memory.score, 0);
}

#[test]
fn grade_and_coverage_labels_are_localized() {
    assert_eq!(grade_label_in(95, Lang::En), "Excellent");
    assert_eq!(grade_label_in(95, Lang::Ar), "ممتازة");
    assert_eq!(grade_label_in(30, Lang::En), "Critical");
    assert_eq!(coverage_label_in(Lang::Ar), "التغطية");
    assert_eq!(Category::Storage.label_in(Lang::Ar), "التخزين");
    assert_eq!(Severity::High.label_in(Lang::En), "high");
}

#[test]
fn the_worst_severity_is_reported() {
    let report = build(
        vec![
            finding(Category::Logs, Severity::Low),
            finding(Category::Cpu, Severity::High),
        ],
        &Category::all(),
    );
    assert_eq!(report.worst_severity(), Some(Severity::High));
    assert_eq!(build(vec![], &Category::all()).worst_severity(), None);
}

#[test]
fn exit_code_follows_the_worst_finding() {
    let all = Category::all();
    let code = |sevs: &[Severity]| {
        let findings = sevs
            .iter()
            .map(|s| Finding::new("x.y", Category::Storage, *s, "t", "s"))
            .collect();
        HealthReport::build("2026-07-24T10:00:00Z".into(), findings, &all, vec![]).exit_code()
    };
    assert_eq!(code(&[]), 0);
    assert_eq!(code(&[Severity::Info, Severity::Medium]), 0);
    assert_eq!(code(&[Severity::Low, Severity::High]), 1);
    assert_eq!(code(&[Severity::High, Severity::Critical, Severity::Low]), 2);
}
