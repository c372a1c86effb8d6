use sysmedic::diagnostics::FINDING_IDS;
use sysmedic::export::{esc, labels, md_inline, to_html, to_markdown};
use sysmedic::finding::{Category, Finding, Severity};
use sysmedic::history::{should_record, sparkline, trend_delta, HistoryEntry};
use sysmedic::knowledge::{
    canonical_id, covers_declared_ids, localized_summary, localized_title, Explanation,
    KnowledgeBase, KnowledgeEntry, RENAMED_IDS,
};
use sysmedic::lang::Lang;
use sysmedic::report::HealthReport;
use sysmedic::schedule::{service_unit, timer_unit, Cadence};
use sysmedic::score::grade_for;
use sysmedic::terminal::{sanitize, strip_ansi};
use sysmedic::units::human_size;
use sysmedic::viewmodel::{
    category_rows, classify_failure, explanation_lines, export_format_for, failure_body,
    fix_outcome, next_tile, response_appearance_for, score_css, severity_css, stderr_tail, ExportFormat,
    FixOutcome, HelperFailure, ResponseStyle, Strings, TileKey,
};

fn explanation(tag: &str) -> Explanation {
    Explanation {
        cause: format!("{tag} cause"),
        dangerous: format!("{tag} dangerous"),
        impact: format!("{tag} impact"),
        remedy: format!("{tag} remedy"),
        risk_if_ignored: format!("{tag} risk"),
        title: None,
        summary: None,
    }
}

/// A knowledge base that explains the full-disk finding in both languages.
fn kb() -> KnowledgeBase {
    KnowledgeBase::new(vec![KnowledgeEntry {
        id: "storage.disk_nearly_full".into(),
        en: explanation("en"),
        ar: Explanation {
            title: Some("نظام الملفات {0} ممتلئ بنسبة {1}%".into()),
            summary: Some("تبقّى {2} غيغابايت من {3} على {0}.".into()),
            ..explanation("ar")
        },
    }])
}

/// A knowledge base that also explains the findings whose ids were renamed.
fn kb_with_renamed() -> KnowledgeBase {
    let mut entries = vec![];
    for (_, new) in RENAMED_IDS {
        entries.push(KnowledgeEntry { id: new.into(), en: explanation(new), ar: explanation("ar") });
    }
    KnowledgeBase::new(entries)
}

fn report_of(findings: Vec<Finding>) -> HealthReport {
    HealthReport::build("2026-07-24T10:00:00Z".into(), findings, &Category::all(), vec![])
}

fn report() -> HealthReport {
    report_of(vec![Finding::new(
        "storage.disk_nearly_full",
        Category::Storage,
        Severity::Critical,
        "Filesystem / is 96% full",
        "Only 4 GiB free.",
    )])
}

// ----- dashboard view model -----

#[test]
fn score_color_thresholds() {
    assert_eq!(score_css(100), "success");
    assert_eq!(score_css(74), "warning");
    assert_eq!(score_css(10), "error");
}

#[test]
fn score_colour_matches_the_grade() {
    for score in 0..=100u8 {
        let expected = match grade_for(score) {
            "Excellent" | "Good" => "success",
            "Fair" => "warning",
            _ => "error",
        };
        assert_eq!(
            score_css(score),
            expected,
            "score {score} is graded {} but coloured {}",
            grade_for(score),
            score_css(score)
        );
    }
}

#[test]
fn a_dismissed_prompt_is_not_reported_as_a_broken_helper() {
    assert_eq!(classify_failure(Some(126)), HelperFailure::Cancelled);
    assert_eq!(classify_failure(Some(127)), HelperFailure::NotAuthorized);
    assert_eq!(classify_failure(Some(1)), HelperFailure::Failed);
    assert_eq!(classify_failure(None), HelperFailure::Failed);

    for lang in [Lang::En, Lang::Ar] {
        let strings = Strings::for_lang(lang);
        assert_eq!(
            failure_body(HelperFailure::Cancelled, "ignored", lang),
            strings.fix_cancelled_body
        );
        assert_eq!(
            failure_body(HelperFailure::NotAuthorized, "", lang),
            strings.fix_unauthorized_body
        );
    }
}

#[test]
fn a_failed_fix_shows_what_the_helper_said() {
    let body = failure_body(
        HelperFailure::Failed,
        "sysmedic-fix-helper: `apt-get autoremove --purge -y` exited with 100: \
         Could not get lock /var/lib/dpkg/lock-frontend\n",
        Lang::En,
    );
    assert!(body.contains("lock-frontend"), "{body}");

    let bare = failure_body(HelperFailure::Failed, "   \n\n", Lang::En);
    assert_eq!(bare, Strings::for_lang(Lang::En).fix_failed_body);
}

#[test]
fn helper_output_cannot_smuggle_control_sequences_into_the_dialog() {
    let tail = stderr_tail("evil\u{1b}[2Jname\nsecond line").unwrap();
    assert!(!tail.contains('\u{1b}'), "{tail:?}");
    assert!(tail.contains("second line"));
    assert!(stderr_tail("").is_none());
    assert!(stderr_tail("\n  \n").is_none());

    let many: String = (0..40).map(|i| format!("line {i}\n")).collect();
    let tail = stderr_tail(&many).unwrap();
    assert_eq!(tail.lines().count(), 6);
    assert!(tail.contains("line 39"));
    assert!(!tail.contains("line 30"));
}

#[test]
fn severity_maps_to_adwaita_classes() {
    assert_eq!(severity_css(Severity::Critical), "error");
    assert_eq!(severity_css(Severity::Medium), "warning");
    assert_eq!(severity_css(Severity::Info), "dim-label");
}

#[test]
fn category_rows_cover_all_categories() {
    let report = report_of(vec![]);
    assert_eq!(
        category_rows(&report.category_scores, Lang::En).len(),
        report.category_scores.len()
    );
    let ar = category_rows(&report.category_scores, Lang::Ar);
    assert!(ar.iter().any(|r| r.label == "التخزين"));
}

fn all_strings(s: &'static Strings) -> Vec<(&'static str, &'static str)> {
    let Strings {
        health_score,
        run_checkup,
        checking,
        categories,
        findings,
        no_findings,
        evidence,
        suggested_command,
        skipped_checks,
        checkup_failed,
        apply_fix,
        confirm_fix_title,
        cancel,
        apply,
        ok,
        fix_failed_title,
        fix_failed_body,
        reversible_yes,
        reversible_no,
        about,
        app_comment,
        overview,
        disk_usage,
        disk_scan_failed,
        disk_empty,
        disk_largest,
        history_tooltip,
        fix_running,
        fix_applied,
        export_report,
        export_first,
        export_done,
        export_failed,
        treemap_a11y,
        disk_choose_folder,
        disk_cancel,
        disk_cancelled,
        disk_partial,
        disk_pick_a_folder,
        coverage_note,
        not_measured,
        trend_since_first,
        undo_last_fix,
        undo_action,
        undo_confirm_title,
        undo_nothing,
        undo_running,
        undo_done,
        undo_failed_title,
        fix_cancelled_body,
        fix_unauthorized_body,
        disk_scanning_path,
        disk_entries,
    } = s;
    vec![
        ("health_score", health_score),
        ("run_checkup", run_checkup),
        ("checking", checking),
        ("categories", categories),
        ("findings", findings),
        ("no_findings", no_findings),
        ("evidence", evidence),
        ("suggested_command", suggested_command),
        ("skipped_checks", skipped_checks),
        ("checkup_failed", checkup_failed),
        ("apply_fix", apply_fix),
        ("confirm_fix_title", confirm_fix_title),
        ("cancel", cancel),
        ("apply", apply),
        ("ok", ok),
        ("fix_failed_title", fix_failed_title),
        ("fix_failed_body", fix_failed_body),
        ("reversible_yes", reversible_yes),
        ("reversible_no", reversible_no),
        ("about", about),
        ("app_comment", app_comment),
        ("overview", overview),
        ("disk_usage", disk_usage),
        ("disk_scan_failed", disk_scan_failed),
        ("disk_empty", disk_empty),
        ("disk_largest", disk_largest),
        ("history_tooltip", history_tooltip),
        ("fix_running", fix_running),
        ("fix_applied", fix_applied),
        ("export_report", export_report),
        ("export_first", export_first),
        ("export_done", export_done),
        ("export_failed", export_failed),
        ("treemap_a11y", treemap_a11y),
        ("disk_choose_folder", disk_choose_folder),
        ("disk_cancel", disk_cancel),
        ("disk_cancelled", disk_cancelled),
        ("disk_partial", disk_partial),
        ("disk_pick_a_folder", disk_pick_a_folder),
        ("coverage_note", coverage_note),
        ("not_measured", not_measured),
        ("trend_since_first", trend_since_first),
        ("undo_last_fix", undo_last_fix),
        ("undo_action", undo_action),
        ("undo_confirm_title", undo_confirm_title),
        ("undo_nothing", undo_nothing),
        ("undo_running", undo_running),
        ("undo_done", undo_done),
        ("undo_failed_title", undo_failed_title),
        ("fix_cancelled_body", fix_cancelled_body),
        ("fix_unauthorized_body", fix_unauthorized_body),
        ("disk_scanning_path", disk_scanning_path),
        ("disk_entries", disk_entries),
    ]
}

#[test]
fn no_string_is_empty_in_either_language() {
    for lang in [Lang::En, Lang::Ar] {
        for (name, value) in all_strings(Strings::for_lang(lang)) {
            assert!(!value.trim().is_empty(), "{name} is empty for {lang:?}");
        }
    }
}

#[test]
fn every_arabic_string_is_actually_arabic() {
    for (name, value) in all_strings(Strings::for_lang(Lang::Ar)) {
        assert!(
            value.chars().any(|c| ('\u{0600}'..='\u{06FF}').contains(&c)),
            "{name} has no Arabic characters: {value}"
        );
    }
}

#[test]
fn the_two_tables_have_the_same_fields_in_the_same_order() {
    let en = all_strings(Strings::for_lang(Lang::En));
    let ar = all_strings(Strings::for_lang(Lang::Ar));
    assert_eq!(
        en.iter().map(|(n, _)| *n).collect::<Vec<_>>(),
        ar.iter().map(|(n, _)| *n).collect::<Vec<_>>()
    );
}

#[test]
fn explanations_exist_in_both_languages() {
    let kb = kb();
    for lang in [Lang::En, Lang::Ar] {
        let lines = explanation_lines(&kb, "storage.disk_nearly_full", lang);
        assert_eq!(lines.len(), 5);
        assert!(lines.iter().all(|(_, a)| !a.is_empty()));
    }
    assert!(explanation_lines(&kb, "bogus.id", Lang::En).is_empty());
}

#[test]
fn export_format_follows_the_extension() {
    assert_eq!(export_format_for("r.md"), ExportFormat::Markdown);
    assert_eq!(export_format_for("r.markdown"), ExportFormat::Markdown);
    assert_eq!(export_format_for("r.json"), ExportFormat::Json);
    assert_eq!(export_format_for("r.html"), ExportFormat::Html);
    assert_eq!(export_format_for("r.txt"), ExportFormat::Html);
    assert_eq!(export_format_for("report"), ExportFormat::Html);
    assert_eq!(export_format_for("R.JSON"), ExportFormat::Json);
}

#[test]
fn export_format_reads_only_the_file_name() {
    assert_eq!(export_format_for("/home/a.md/report"), ExportFormat::Html);
    assert_eq!(export_format_for("/home/a/.md"), ExportFormat::Html);
    assert_eq!(export_format_for("/home/a/report.MarkDown"), ExportFormat::Markdown);
    assert_eq!(export_format_for("/tmp/out.json/"), ExportFormat::Json);
}

#[test]
fn a_failed_helper_is_never_reported_as_success() {
    assert_eq!(fix_outcome(true), FixOutcome::Applied);
    assert_eq!(fix_outcome(false), FixOutcome::Failed);
}

#[test]
fn irreversible_fixes_get_the_destructive_style() {
    assert_eq!(response_appearance_for(false), ResponseStyle::Destructive);
    assert_eq!(response_appearance_for(true), ResponseStyle::Suggested);
}

// ----- exported reports -----

#[test]
fn markdown_includes_explanation() {
    let md = to_markdown(&report(), &kb(), Lang::En);
    assert!(md.contains("Health score"));
    assert!(md.contains("**Remedy:**"));
    assert!(md.contains("- **Remedy:** en remedy\n"));
}

#[test]
fn markdown_has_the_documented_layout() {
    let md = to_markdown(&report(), &kb(), Lang::En);
    assert!(md.starts_with("# SysMedic Health Report\n\n*Generated: 2026-07-24T10:00:00Z*\n\n"));
    assert!(md.contains("| Categories | |\n|---|---|\n| Boot | 100 |\n"));
    assert!(md.contains("| Storage | 60 |\n"));
    assert!(md.contains("\n## Findings (1)\n\n### [CRITICAL] Filesystem / is 96% full\n\nOnly 4 GiB free.\n\n"));
    let empty = to_markdown(&report_of(vec![]), &kb(), Lang::En);
    assert!(empty.ends_with("## Findings (0)\n\nNo problems found. The system looks healthy.\n"));
}

#[test]
fn html_is_rtl_aware_and_localizes_chrome() {
    let html = to_html(&report(), &kb(), Lang::Ar);
    assert!(html.contains("dir=\"rtl\""));
    assert!(html.contains("تقرير صحّة SysMedic"));
    assert!(html.contains("النتائج"));
}

#[test]
fn html_carries_an_arabic_font_stack_and_isolates_evidence() {
    let html = to_html(&report(), &kb(), Lang::Ar);
    assert!(
        html.contains("Noto Kufi Arabic") || html.contains("Noto Sans Arabic"),
        "no Arabic font fallback in the report stylesheet"
    );
    assert!(html.contains("direction: ltr"), "evidence block is not isolated to LTR");
}

#[test]
fn badges_pin_their_text_color_in_both_schemes() {
    let html = to_html(&report(), &kb(), Lang::En);
    assert!(html.contains("prefers-color-scheme: dark"));
}

#[test]
fn markdown_localizes_chrome_in_arabic() {
    let md = to_markdown(&report(), &kb(), Lang::Ar);
    assert!(md.contains("درجة الصحّة"));
    assert!(md.contains("## النتائج"));
}

#[test]
fn html_escapes_injection_in_findings() {
    let report = report_of(vec![Finding::new(
        "storage.disk_nearly_full",
        Category::Storage,
        Severity::Critical,
        "<script>alert(1)</script>\" evil",
        "summary",
    )]);
    let html = to_html(&report, &kb(), Lang::En);
    assert!(!html.contains("<script>alert(1)</script>"));
    assert!(html.contains("&lt;script&gt;"));
    assert!(html.contains("&quot;"));
}

#[test]
fn markdown_escapes_injection_in_title_and_evidence() {
    let f = Finding::new(
        "storage.disk_nearly_full",
        Category::Storage,
        Severity::Critical,
        "# Not a heading <b>",
        "s",
    )
    .with_evidence(vec!["`rm -rf` <script>".into()]);
    let md = to_markdown(&report_of(vec![f]), &kb(), Lang::En);
    assert!(md.contains("\\# Not a heading \\<b\\>"));
    assert!(md.contains("\\`rm -rf\\`"));
}

#[test]
fn render_export_produces_the_selected_format() {
    let report = report();
    let html = to_html(&report, &kb(), Lang::Ar);
    assert!(html.contains("dir=\"rtl\""));
    let md = to_markdown(&report, &kb(), Lang::En);
    assert!(md.starts_with('#'));
}

#[test]
fn html_evidence_is_one_escaped_block() {
    let f = Finding::new("logs.large_files", Category::Logs, Severity::Low, "t", "s")
        .with_evidence(vec!["/var/log/a & b".into(), "<c>".into()]);
    let html = to_html(&report_of(vec![f]), &kb(), Lang::En);
    assert!(html.contains("<pre>/var/log/a &amp; b\n&lt;c&gt;</pre>"));
    assert!(html.contains("<article class=\"sev-low\"><h3><span class=\"badge\">low</span> t</h3><p>s</p><pre>"));
}

#[test]
fn escaping_covers_the_markup_characters() {
    assert_eq!(esc("a&b<c>d\"e'f"), "a&amp;b&lt;c&gt;d&quot;e&#39;f");
    assert_eq!(esc("plain"), "plain");
    assert_eq!(md_inline("a*b_c[d]|e\\"), "a\\*b\\_c\\[d\\]\\|e\\\\");
    assert_eq!(md_inline("نص"), "نص");
    assert_eq!(labels(Lang::En).remedy, "Remedy");
    assert_eq!(labels(Lang::Ar).remedy, "العلاج");
}

// ----- terminal text -----

#[test]
fn strips_color_codes() {
    let colored = format!("{}{}{}", "\u{1b}[32m", "hi", "\u{1b}[0m");
    assert_eq!(strip_ansi(&colored), "hi");
}

#[test]
fn leaves_plain_text_untouched() {
    assert_eq!(strip_ansi("no color here"), "no color here");
}

#[test]
fn sanitize_strips_control_chars_but_keeps_whitespace() {
    assert_eq!(sanitize("evil\u{1b}[2Jname"), "evil[2Jname");
    assert_eq!(sanitize("line\nnext\ttab"), "line\nnext\ttab");
    assert_eq!(sanitize("bell\u{7}cr\u{d}"), "bellcr");
}

#[test]
fn human_size_formats() {
    assert_eq!(human_size(0), "0 B");
    assert_eq!(human_size(2048), "2.0 KiB");
}

#[test]
fn human_sizes() {
    assert_eq!(human_size(512), "512 B");
    assert_eq!(human_size(1536), "1.5 KiB");
    assert_eq!(human_size(5 * 1024 * 1024 * 1024), "5.0 GiB");
}

#[test]
fn service_unit_runs_monitor() {
    let unit = service_unit("/usr/bin/sysmedic");
    assert!(unit.contains("ExecStart=\"/usr/bin/sysmedic\" monitor"));
    assert!(unit.contains("Type=oneshot"));
}

#[test]
fn service_unit_quotes_paths_with_spaces() {
    let unit = service_unit("/home/a/My Apps/sysmedic");
    assert!(unit.contains("ExecStart=\"/home/a/My Apps/sysmedic\" monitor"));
}

#[test]
fn timer_units_have_expected_schedule() {
    assert!(timer_unit(Cadence::Daily).contains("OnCalendar=*-*-* 09:17:00"));
    assert!(timer_unit(Cadence::Weekly).contains("OnCalendar=Mon *-*-* 09:17:00"));
    assert!(timer_unit(Cadence::Monthly).contains("OnCalendar=*-*-01 09:17:00"));
    assert!(timer_unit(Cadence::Daily).contains("WantedBy=timers.target"));
    assert!(timer_unit(Cadence::Daily).contains("RandomizedDelaySec="));
}

// ----- history -----

fn entry(score: u8) -> HistoryEntry {
    HistoryEntry {
        at: "t".into(),
        score,
        grade: "g".into(),
        findings: 0,
        critical: 0,
        high: 0,
    }
}

#[test]
fn entry_counts_by_severity() {
    let report = report_of(vec![
        Finding::new("t.x", Category::Storage, Severity::Critical, "t", "t"),
        Finding::new("t.x", Category::Memory, Severity::High, "t", "t"),
        Finding::new("t.x", Category::Cpu, Severity::Low, "t", "t"),
    ]);
    let e = HistoryEntry::from_report(&report, "2026-07-24T10:00:00Z".into());
    assert_eq!(e.findings, 3);
    assert_eq!(e.critical, 1);
    assert_eq!(e.high, 1);
}

#[test]
fn sparkline_maps_scores_to_bars() {
    let entries = vec![entry(0), entry(50), entry(100)];
    let spark = sparkline(&entries, 10);
    assert_eq!(spark.chars().count(), 3);
    assert_eq!(spark.chars().next(), Some('▁'));
    assert_eq!(spark.chars().last(), Some('█'));
}

#[test]
fn should_record_respects_min_gap() {
    assert!(should_record(None, "2026-07-24T10:00:00Z", 300));
    assert!(!should_record(Some("2026-07-24T10:00:00Z"), "2026-07-24T10:04:00Z", 300));
    assert!(should_record(Some("2026-07-24T10:00:00Z"), "2026-07-24T10:06:00Z", 300));
    assert!(should_record(Some("garbage"), "2026-07-24T10:06:00Z", 300));
}

#[test]
fn trend_delta_needs_two_points() {
    assert_eq!(trend_delta(&[entry(80)]), None);
    assert_eq!(trend_delta(&[entry(80), entry(92)]), Some(12));
}

// ----- knowledge base -----

#[test]
fn locale_detection() {
    assert_eq!(Lang::from_locale("ar_SA.UTF-8"), Lang::Ar);
    assert_eq!(Lang::from_locale("en_US.UTF-8"), Lang::En);
    assert_eq!(Lang::from_locale("C"), Lang::En);
}

#[test]
fn renamed_ids_point_at_ids_the_rules_actually_emit() {
    for (_, new) in RENAMED_IDS {
        assert!(FINDING_IDS.contains(&new), "rename target {new} is not a declared finding id");
    }
}

#[test]
fn renamed_ids_resolve_to_their_current_name() {
    assert_eq!(canonical_id("packages.security_updates"), "security.updates_pending");
    assert_eq!(canonical_id("cpu.high_load"), "cpu.high_load");
    let kb = kb();
    assert!(kb.explain("storage.disk_nearly_full", Lang::Ar).is_some());
    assert!(kb.explain("not.an.id", Lang::En).is_none());
}

#[test]
fn renders_templates_and_falls_back() {
    let kb = kb();
    let f = Finding::new(
        "storage.disk_nearly_full",
        Category::Storage,
        Severity::Medium,
        "Filesystem / is 88% full",
        "Only 29.6 GiB free of 252.0 GiB on /.",
    )
    .with_args(vec!["/".into(), "88".into(), "29.6".into(), "252.0".into()]);
    let ar = localized_title(&kb, &f, Lang::Ar);
    assert!(ar.contains('/') && ar.contains("88"), "got: {ar}");
    assert!(!ar.contains('{'), "unfilled placeholder in: {ar}");
    assert!(!localized_summary(&kb, &f, Lang::Ar).contains('{'));
    assert_eq!(localized_title(&kb, &f, Lang::En), f.title);
    let unknown = Finding::new("x.y", Category::Cpu, Severity::Low, "T", "S");
    assert_eq!(localized_title(&kb, &unknown, Lang::Ar), "T");
}

#[test]
fn interpolated_values_are_bidi_isolated_in_arabic() {
    let kb = kb();
    let f = Finding::new(
        "storage.disk_nearly_full",
        Category::Storage,
        Severity::Medium,
        "Filesystem /boot/efi is 88% full",
        "Only 0.1 GiB free of 0.5 GiB on /boot/efi.",
    )
    .with_args(vec!["/boot/efi".into(), "88".into(), "0.1".into(), "0.5".into()]);
    let ar = localized_title(&kb, &f, Lang::Ar);
    assert!(ar.contains("\u{2068}/boot/efi\u{2069}"), "path is not isolated: {ar}");
    assert_eq!(ar.matches('\u{2068}').count(), ar.matches('\u{2069}').count());
    let en = localized_title(&kb, &f, Lang::En);
    assert!(!en.contains('\u{2068}') && !en.contains('\u{2069}'));
}

#[test]
fn renamed_ids_still_resolve() {
    let kb = kb_with_renamed();
    for (old, new) in RENAMED_IDS {
        assert_eq!(canonical_id(old), new);
        let by_old = kb.explain(old, Lang::En).expect("old id still resolves");
        let by_new = kb.explain(new, Lang::En).expect("new id resolves");
        assert_eq!(by_old.remedy, by_new.remedy);
        assert!(kb.explain(old, Lang::Ar).is_some());
    }
    assert_eq!(canonical_id("cpu.high_load"), "cpu.high_load");
}

fn full_kb() -> Vec<KnowledgeEntry> {
    FINDING_IDS
        .iter()
        .map(|id| KnowledgeEntry { id: id.to_string(), en: explanation("en"), ar: explanation("ar") })
        .collect()
}

#[test]
fn coverage_needs_every_declared_id_in_both_languages() {
    assert!(covers_declared_ids(&KnowledgeBase::new(full_kb())));
    assert!(!covers_declared_ids(&KnowledgeBase::new(vec![])));
    assert!(!covers_declared_ids(&kb()));

    let mut missing = full_kb();
    missing.pop();
    assert!(!covers_declared_ids(&KnowledgeBase::new(missing)));

    let mut no_arabic_remedy = full_kb();
    no_arabic_remedy[3].ar.remedy = String::new();
    assert!(!covers_declared_ids(&KnowledgeBase::new(no_arabic_remedy)));

    // A later entry for an id replaces an earlier one.
    let mut replaced = full_kb();
    let mut blank = explanation("en");
    blank.remedy = String::new();
    replaced.push(KnowledgeEntry { id: FINDING_IDS[0].to_string(), en: blank, ar: explanation("ar") });
    assert!(!covers_declared_ids(&KnowledgeBase::new(replaced)));
}

#[test]
fn arrow_keys_walk_the_tiles_in_reading_order() {
    assert_eq!(next_tile(TileKey::Down, None, 4, false), Some(1));
    assert_eq!(next_tile(TileKey::Down, Some(3), 4, false), Some(0));
    assert_eq!(next_tile(TileKey::Up, Some(0), 4, false), Some(3));
    assert_eq!(next_tile(TileKey::Right, Some(1), 4, false), Some(2));
    assert_eq!(next_tile(TileKey::Left, Some(1), 4, false), Some(0));
    // Mirrored in a right-to-left layout.
    assert_eq!(next_tile(TileKey::Right, Some(1), 4, true), Some(0));
    assert_eq!(next_tile(TileKey::Left, Some(1), 4, true), Some(2));
    assert_eq!(next_tile(TileKey::Home, Some(2), 4, false), Some(0));
    assert_eq!(next_tile(TileKey::End, None, 4, true), Some(3));
    assert_eq!(next_tile(TileKey::Other, Some(2), 4, false), None);
    assert_eq!(next_tile(TileKey::Down, None, 0, false), None);
}
