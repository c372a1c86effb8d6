use sysmedic::alert::Alert;
use sysmedic::console::{
    applied_text, disk_text, fix_list_text, fix_preview_text, history_text, monitor_text,
    network_text, reverted_text, style, undo_preview_text, Paint,
};
use sysmedic::diskscan::{dir_node, is_checkpoint, largest_children, leaf, Node};
use sysmedic::finding::Severity;
use sysmedic::fixes::FixTier;
use sysmedic::fix::{FixCommand, FixPlan};
use sysmedic::helper::{applied_message, reverted_message};
use sysmedic::history::HistoryEntry;
use sysmedic::journal::{EntryState, Journal, JournalEntry};
use sysmedic::knowledge::{Explanation, KnowledgeBase, KnowledgeEntry};
use sysmedic::lang::{Lang, LocalizedText};
use sysmedic::llm::{
    answer, reply_text, system_prompt, user_message, ApiReply, ContentBlock, LlmExplainer,
    API_VERSION, MAX_TOKENS,
};
use sysmedic::paths::{helper_for_tier, history_path, join, journal_path, state_dir, SYSTEM_JOURNAL};
use sysmedic::snapshot::{ListeningPort, NetworkInfo};

fn plan(id: &str, reversible: bool) -> FixPlan {
    FixPlan {
        id: id.into(),
        title: LocalizedText::new("Enable the firewall".into(), "تفعيل الجدار الناري".into()),
        description: LocalizedText::new("Turns on ufw.".into(), "يشغّل ufw.".into()),
        commands: vec![FixCommand::new("ufw", &["--force", "enable"])],
        affected_paths: vec![],
        reversible,
        undo: vec![],
        restore: None,
        risk: Severity::Low,
        needs_root: true,
    }
}

#[test]
fn fix_list_shows_id_reversibility_and_title() {
    let text = fix_list_text(&vec![plan("fix.enable_ufw", true)], Lang::En, false);
    assert_eq!(
        text,
        "Applicable fixes (run `sysmedic fix <id> --dry-run` to preview):\n\n  fix.enable_ufw  [reversible]  Enable the firewall\n"
    );
    assert_eq!(fix_list_text(&vec![], Lang::En, false), "No fixes needed — nothing to prescribe.\n");
    let coloured = fix_list_text(&vec![plan("fix.apt_clean", false)], Lang::En, true);
    assert!(coloured.contains("\u{1b}[1mfix.apt_clean\u{1b}[0m"));
    assert!(coloured.contains("\u{1b}[33mnot reversible\u{1b}[39m"));
}

#[test]
fn styles_apply_only_when_colour_is_on() {
    assert_eq!(style(false, Paint::Red, "x"), "x");
    assert_eq!(style(true, Paint::Red, "x"), "\u{1b}[31mx\u{1b}[39m");
    assert_eq!(style(true, Paint::Dim, "x"), "\u{1b}[2mx\u{1b}[0m");
    assert_eq!(style(true, Paint::Cyan, "x"), "\u{1b}[36mx\u{1b}[39m");
}

#[test]
fn a_preview_ends_with_what_to_do_next() {
    let p = plan("fix.enable_ufw", true);
    let dry = fix_preview_text(&p, true, Lang::En, false);
    assert!(dry.starts_with(&p.preview_in(Lang::En)));
    assert!(dry.ends_with("\n(dry run — nothing was changed)\n"));
    let ask = fix_preview_text(&p, false, Lang::En, false);
    assert!(ask.ends_with("\nRe-run with --yes to apply this fix.\n"));
}

#[test]
fn applied_and_reverted_reports() {
    let outputs = vec!["".to_string(), "Firewall is active".to_string()];
    assert_eq!(
        applied_text("fix.enable_ufw", &outputs, Lang::En, false),
        "✓ applied fix.enable_ufw.\n  Firewall is active\n"
    );
    assert_eq!(reverted_text("Enable the firewall", Lang::En, false), "✓ reverted Enable the firewall.\n");
}

fn entry(id: &str, reversible: bool) -> JournalEntry {
    JournalEntry {
        fix_id: id.into(),
        title: "Recorded title".into(),
        applied_at: "2026-07-23T00:00:00Z".into(),
        reversible,
        undo: vec![],
        restore: None,
        undone: false,
        state: EntryState::Applied,
    }
}

#[test]
fn undo_preview_names_what_would_be_undone() {
    let j = Journal::from_entries(vec![entry("fix.enable_ufw", true), entry("fix.apt_clean", false)]);
    let text = undo_preview_text(&j, Lang::En, false);
    assert!(text.starts_with("Would undo: "));
    assert!(text.contains("(fix.enable_ufw)\n"));
    assert!(text.ends_with("Re-run with --yes to undo.\n"));
    let gone = Journal::from_entries(vec![entry("fix.unknown", true)]);
    assert!(undo_preview_text(&gone, Lang::En, false).contains("Recorded title (fix.unknown)"));
    let none = Journal::from_entries(vec![entry("fix.apt_clean", false)]);
    assert_eq!(undo_preview_text(&none, Lang::En, false), "Nothing to undo.\n");
}

#[test]
fn network_screen_lists_route_dns_latency_and_ports() {
    let net = Some(NetworkInfo { has_default_route: true, dns_servers: vec!["1.1.1.1".into(), "9.9.9.9".into()] });
    let ports = Some(vec![
        ListeningPort { proto: "tcp", address: "0.0.0.0".into(), port: 22, exposed: true },
        ListeningPort { proto: "udp", address: "127.0.0.1".into(), port: 5353, exposed: false },
    ]);
    let text = network_text(&net, &ports, Some("12.3"), Lang::En, false);
    assert_eq!(
        text,
        "Network\n  Default route:   yes\n  DNS servers:     1.1.1.1, 9.9.9.9\n  Latency:         12.3 ms (1.1.1.1)\n\nListening ports\n     22/tcp   0.0.0.0            [network]\n   5353/udp   127.0.0.1          [localhost]\n"
    );
    let bare = network_text(&None, &Some(vec![]), None, Lang::En, false);
    assert!(bare.contains("  network info unavailable\n"));
    assert!(bare.contains("unavailable (no ping)\n"));
    assert!(bare.ends_with("  no listening ports found\n"));
}

#[test]
fn monitor_summary_counts_alerts() {
    let alerts = vec![Alert { id: "alert.low_memory", urgency: Severity::High, title: "Low memory".into(), body: "Only 3% of RAM available".into() }];
    assert_eq!(
        monitor_text(82, &alerts, Lang::En, false),
        "Health score: 82/100 (Good). 1 alert(s).\n  ! Low memory: Only 3% of RAM available\n"
    );
}

fn hist(at: &str, score: u8, findings: usize) -> HistoryEntry {
    HistoryEntry { at: at.into(), score, grade: "g".into(), findings, critical: 0, high: 0 }
}

#[test]
fn history_screen_shows_trend_and_newest_first() {
    let es = vec![hist("d1", 90, 1), hist("d2", 70, 3)];
    let text = history_text(&es, Lang::En, false);
    assert_eq!(
        text,
        "Health-score history\n  ▇▅\n  Trend since first record: -20\n\n  d2   70/100  Fair       3 finding(s)\n  d1   90/100  Excellent  1 finding(s)\n"
    );
    assert!(history_text(&vec![], Lang::En, false).starts_with("No history yet."));
    let many: Vec<HistoryEntry> = (0..15).map(|i| hist(&format!("t{i}"), 50, 0)).collect();
    let text = history_text(&many, Lang::En, false);
    assert!(text.contains("  Trend since first record: +0\n"));
    assert!(text.contains("t14") && text.contains("t5") && !text.contains("t4 "));
}

#[test]
fn disk_screen_scales_bars_to_the_largest_entry() {
    let big = dir_node("big", vec![leaf("a.bin", 5000, false)], 2);
    let small = leaf("b\u{1b}.bin", 100, false);
    let root = dir_node("root", vec![small, big], 3);
    assert_eq!(root.size, 5100);
    assert_eq!(root.children[0].name, "big");
    let text = disk_text("/data", &root, 15, Lang::En, false);
    assert_eq!(
        text,
        "\n  5.0 KiB  /data\n\n  ████████████████████     4.9 KiB  big/\n  ░░░░░░░░░░░░░░░░░░░░       100 B  b.bin\n"
    );
    let empty = dir_node("e", vec![], 3);
    assert!(disk_text("e", &empty, 15, Lang::En, false).ends_with("  (empty or unreadable)\n"));
}

// ----- disk scan -----

#[test]
fn directories_sum_their_entries_and_sort_largest_first() {
    let n = dir_node(
        "d",
        vec![leaf("x", 10, false), leaf("y", 30, false), leaf("z", 10, false), leaf("w", 20, true)],
        1,
    );
    assert!(n.is_dir);
    assert_eq!(n.size, 70);
    let names: Vec<&str> = n.children.iter().map(|c| c.name.as_str()).collect();
    assert_eq!(names, vec!["y", "w", "x", "z"]);
    let top: Vec<&Node> = largest_children(&n, 2);
    assert_eq!(top.len(), 2);
    assert_eq!(top[1].name, "w");
}

#[test]
fn depth_limit_keeps_totals_but_drops_children() {
    let deep = dir_node("a", vec![dir_node("b", vec![leaf("deep.bin", 2000, false)], 0)], 1);
    let root = dir_node("root", vec![deep], 1);
    assert_eq!(root.size, 2000);
    assert_eq!(root.children[0].name, "a");
    let cut = dir_node("a", vec![leaf("deep.bin", 2000, false)], 0);
    assert_eq!(cut.size, 2000);
    assert!(cut.children.is_empty());
}

#[test]
fn sizes_saturate_instead_of_overflowing() {
    let n = dir_node("d", vec![leaf("a", u64::MAX, false), leaf("b", 5, false)], 1);
    assert_eq!(n.size, u64::MAX);
    assert!(is_checkpoint(512));
    assert!(is_checkpoint(1024));
    assert!(!is_checkpoint(513));
}

// ----- language-model explanations -----

/// The model the tests configure.
const MODEL: &str = "model-under-test";

fn offline() -> Explanation {
    Explanation {
        cause: "Files filled the disk".into(),
        dangerous: "Yes".into(),
        impact: "Writes fail".into(),
        remedy: "Delete old logs".into(),
        risk_if_ignored: "Crashes".into(),
        title: None,
        summary: None,
    }
}

#[test]
fn request_body_carries_model_system_and_evidence() {
    let ex = LlmExplainer::new("test-key", MODEL);
    let body = ex.build_request("storage.disk_nearly_full", "88% used on /", Lang::En, Some(&offline()));
    assert!(body.starts_with(&format!("{{\"max_tokens\":{MAX_TOKENS},\"messages\":[{{\"content\":\"")));
    assert!(body.contains(&format!(",\"model\":\"{MODEL}\",\"system\":\"You are SysMedic")));
    assert!(body.contains("storage.disk_nearly_full"));
    assert!(body.contains("88% used on /"));
    assert!(body.contains("Remedy:"));
    assert!(body.contains("\\n- Remedy: Delete old logs\\n"));
    assert!(body.ends_with("Respond in English.\"}"));
}

#[test]
fn arabic_uses_arabic_system_prompt() {
    let ex = LlmExplainer::new("test-key", MODEL);
    let body = ex.build_request("net.dns_unreachable", "", Lang::Ar, None);
    assert!(body.contains("لينكس"));
    assert!(system_prompt(Lang::Ar).contains("لينكس"));
}

#[test]
fn the_question_trims_evidence_and_quotes_nothing_twice() {
    assert_eq!(user_message("a.b", "  \n ", None), "Diagnostic finding id: a.b\n");
    assert_eq!(
        user_message("a.b", "  x \"y\" ", None),
        "Diagnostic finding id: a.b\nEvidence from this machine: x \"y\"\n"
    );
    let ex = LlmExplainer::new("k", "m");
    let body = ex.build_request("a.b", "tab\there \"q\" \\ \u{1}", Lang::En, None);
    assert!(body.contains("tab\\there \\\"q\\\" \\\\ \\u0001"));
}

#[test]
fn requests_carry_the_key_and_api_version() {
    let kb = KnowledgeBase::new(vec![KnowledgeEntry {
        id: "storage.disk_nearly_full".into(),
        en: offline(),
        ar: offline(),
    }]);
    let ex = LlmExplainer::new("test-key", MODEL);
    let req = ex.request(&kb, "storage.disk_nearly_full", "88% used on /", Lang::En);
    assert_eq!(req.url, "https://api.anthropic.com/v1/messages");
    assert!(req.headers.iter().any(|(k, v)| k == "x-api-key" && v == "test-key"));
    assert!(req.headers.iter().any(|(k, v)| k == "anthropic-version" && v == API_VERSION));
    assert!(req.body.contains("Baseline offline answer"));
    assert_eq!(ex.model(), MODEL);
}

fn blocks(v: &[(&str, &str)]) -> ApiReply {
    ApiReply::Content(v.iter().map(|(k, t)| ContentBlock { kind: (*k).into(), text: (*t).into() }).collect())
}

#[test]
fn parses_text_from_content_blocks() {
    assert_eq!(reply_text(&blocks(&[("text", "Your disk is nearly full.")])), Ok("Your disk is nearly full.".to_string()));
}

#[test]
fn concatenates_multiple_text_blocks() {
    assert_eq!(reply_text(&blocks(&[("text", "A "), ("tool_use", "x"), ("text", "B")])), Ok("A B".to_string()));
}

#[test]
fn surfaces_api_errors() {
    let err = reply_text(&ApiReply::Error("invalid x-api-key".into())).unwrap_err();
    assert!(err.contains("invalid x-api-key"));
    assert_eq!(reply_text(&blocks(&[("text", "  \n")])), Err("empty response".to_string()));
    assert_eq!(
        reply_text(&ApiReply::Unreadable("EOF".into())),
        Err("could not parse response: EOF".to_string())
    );
}

#[test]
fn explain_returns_none_on_transport_error() {
    assert!(answer(Err("network down".into())).is_none());
    assert!(answer(Ok(ApiReply::Error("x".into()))).is_none());
    assert_eq!(answer(Ok(blocks(&[("text", "Deep answer.")]))), Some("Deep answer.".to_string()));
}

// ----- paths and helper messages -----

#[test]
fn state_dir_prefers_xdg_then_home() {
    assert_eq!(state_dir(Some("/x/state"), Some("/home/a")), Some("/x/state".to_string()));
    assert_eq!(state_dir(Some(""), Some("/home/a")), Some("/home/a/.local/state".to_string()));
    assert_eq!(state_dir(None, Some("/home/a/")), Some("/home/a/.local/state".to_string()));
    assert_eq!(state_dir(None, Some("")), None);
    assert_eq!(state_dir(None, None), None);
}

#[test]
fn journal_and_history_locations() {
    assert_eq!(journal_path(true, Some("/home/a/.local/state")), Some(SYSTEM_JOURNAL.to_string()));
    assert_eq!(
        journal_path(false, Some("/home/a/.local/state")),
        Some("/home/a/.local/state/sysmedic/journal.json".to_string())
    );
    assert_eq!(journal_path(false, None), None);
    assert_eq!(history_path(None, Some("/home/a")), "/home/a/.local/state/sysmedic/history.jsonl");
    assert_eq!(history_path(None, None), "/tmp/sysmedic/history.jsonl");
    assert_eq!(history_path(Some("/s"), None), "/s/sysmedic/history.jsonl");
    assert_eq!(join("", "x"), "x");
}

#[test]
fn helper_reports_name_the_journal() {
    assert_eq!(
        applied_message("fix.apt_clean", "Clean the APT cache"),
        "Applied fix.apt_clean (Clean the APT cache). Journal: /var/lib/sysmedic/journal.json"
    );
    assert_eq!(reverted_message("Enable the firewall"), "Reverted: Enable the firewall");
}

#[test]
fn end_to_end_explain_returns_text_and_sends_headers() {
    let kb = KnowledgeBase::new(vec![KnowledgeEntry {
        id: "storage.disk_nearly_full".into(),
        en: offline(),
        ar: offline(),
    }]);
    let ex = LlmExplainer::new("test-key", MODEL);
    let req = ex.request(&kb, "storage.disk_nearly_full", "88% used on /", Lang::En);
    // What the transport would hand back for this request.
    let reply = blocks(&[("text", "Deep answer.")]);
    assert_eq!(answer(Ok(reply)).as_deref(), Some("Deep answer."));
    assert!(req.headers.iter().any(|(k, v)| k == "x-api-key" && v == "test-key"));
    assert!(req.headers.iter().any(|(k, v)| k == "anthropic-version" && v == API_VERSION));
}

#[test]
fn each_tier_has_its_own_helper() {
    assert_eq!(helper_for_tier(FixTier::Routine), "/usr/libexec/sysmedic-fix-helper");
    assert_eq!(
        helper_for_tier(FixTier::Destructive),
        "/usr/libexec/sysmedic-fix-helper-destructive"
    );
}
