use sysmedic::apply::{begin_apply, finish_undo, plan_undo, undo_title_in, ApplyOutcome, ApplyStep, FixError};
use sysmedic::finding::Severity;
use sysmedic::fix::{FixCommand, FixPlan};
use sysmedic::fixes::{
    all, applicable_plans, find, fix_for_finding, plan, fix_ids, fix_ids_for, package_list, tier_of, undo_commands,
    AptClean, AutoremoveKernels, EnableUfw, FixTier, SnapRetain,
};
use sysmedic::helper::{check_undo_tier, journal_listing, parse_action, Action};
use sysmedic::journal::{EntryState, Journal, JournalEntry};
use sysmedic::lang::Lang;
use sysmedic::snapshot::{FlatpakInfo, LogInfo, PackageInfo, SecurityInfo, SnapInfo, Snapshot};

fn unhealthy() -> Snapshot {
    Snapshot {
        packages: Some(PackageInfo {
            manager: Some("apt".into()),
            apt_cache_bytes: Some(2 * 1024 * 1024 * 1024),
            old_kernels: vec!["a".into(), "b".into(), "c".into()],
            autoremovable: vec!["linux-image-a".into()],
            ..Default::default()
        }),
        logs: Some(LogInfo {
            journal_bytes: Some(5 * 1024 * 1024 * 1024),
            large_files: vec![],
        }),
        snap: Some(SnapInfo {
            disabled_revisions: 3,
            snaps_dir_bytes: None,
            refresh_retain: Some(5),
        }),
        flatpak: Some(FlatpakInfo {
            unused_refs: vec!["runtime/org.freedesktop.Platform/x86_64/23.08".into()],
        }),
        security: Some(SecurityInfo {
            firewall_active: Some(false),
            ssh_permit_root_login: None,
            ssh_password_auth: None,
        }),
        ..Default::default()
    }
}

#[test]
fn registry_and_ids_agree() {
    let ids: Vec<&str> = all().iter().map(|f| f.id()).collect();
    assert_eq!(ids, fix_ids());
    for id in fix_ids() {
        assert!(find(id).is_some(), "no fix for {id}");
    }
    assert!(find("fix.nonexistent").is_none());
}

#[test]
fn fix_ids_are_unique() {
    let mut ids: Vec<&str> = fix_ids().to_vec();
    let before = ids.len();
    ids.sort_unstable();
    ids.dedup();
    assert_eq!(ids.len(), before, "duplicate fix id in the registry");
}

#[test]
fn undo_commands_come_from_the_registry() {
    assert_eq!(
        undo_commands("fix.enable_ufw").unwrap()[0].display(),
        "ufw disable"
    );
    assert_eq!(
        undo_commands("fix.snap_retain").unwrap()[0].display(),
        "snap set system refresh.retain=3"
    );
    assert!(undo_commands("fix.apt_clean").unwrap().is_empty());
    assert!(undo_commands("fix.nonexistent").is_none());
}

#[test]
fn finding_to_fix_mapping_targets_real_fixes() {
    for finding in [
        "packages.apt_cache_large",
        "logs.journal_large",
        "packages.old_kernels",
        "storage.snap_old_revisions",
        "flatpak.unused_runtimes",
        "security.firewall_inactive",
    ] {
        let fix_id = fix_for_finding(finding).expect("mapping exists");
        assert!(fix_ids().contains(&fix_id), "{fix_id} not a real fix");
    }
    assert!(fix_for_finding("cpu.high_load").is_none());
}

#[test]
fn declared_tiers_match_the_plans_they_produce() {
    let s = unhealthy();
    for fix in all() {
        let plan = fix
            .plan(&s)
            .unwrap_or_else(|| panic!("{} did not apply", fix.id()));
        assert_eq!(
            fix.tier(),
            FixTier::of(&plan),
            "{} declares {:?} but its plan is reversible={} risk={:?}",
            fix.id(),
            fix.tier(),
            plan.reversible,
            plan.risk
        );
    }
}

#[test]
fn the_two_tiers_partition_the_registry() {
    let routine = fix_ids_for(FixTier::Routine);
    let destructive = fix_ids_for(FixTier::Destructive);
    assert_eq!(routine.len() + destructive.len(), fix_ids().len());
    assert!(routine.iter().all(|id| !destructive.contains(id)));
    assert!(destructive.contains(&"fix.autoremove"));
    assert!(destructive.contains(&"fix.apt_clean"));
    assert!(routine.contains(&"fix.enable_ufw"));
    assert_eq!(tier_of("fix.enable_ufw"), Some(FixTier::Routine));
    assert_eq!(tier_of("fix.autoremove"), Some(FixTier::Destructive));
    assert_eq!(tier_of("fix.nope"), None);
}

#[test]
fn fixes_are_quiet_on_a_clean_system() {
    let s = Snapshot::default();
    for fix in all() {
        assert!(fix.plan(&s).is_none(), "{} fired on clean system", fix.id());
    }
}

#[test]
fn apt_clean_applies_above_threshold() {
    let s = Snapshot {
        packages: Some(PackageInfo {
            manager: Some("apt".into()),
            pacman_cache_bytes: None,
            apt_cache_bytes: Some(2 * 1024 * 1024 * 1024),
            ..Default::default()
        }),
        ..Default::default()
    };
    let plan = AptClean.plan(&s).unwrap();
    assert_eq!(plan.commands[0].display(), "apt-get clean");
    assert!(!plan.reversible);
    assert!(plan.description.en.contains("freeing about 2.0 GiB"));
}

#[test]
fn enable_ufw_is_reversible() {
    let mut s = Snapshot {
        security: Some(SecurityInfo {
            firewall_active: Some(false),
            ssh_permit_root_login: None,
            ssh_password_auth: None,
        }),
        ..Default::default()
    };
    let plan = EnableUfw.plan(&s).unwrap();
    assert!(plan.reversible);
    assert_eq!(plan.undo[0].display(), "ufw disable");
    s.security.as_mut().unwrap().firewall_active = Some(true);
    assert!(EnableUfw.plan(&s).is_none());
}

#[test]
fn snap_retain_undo_restores_the_users_value() {
    let s = Snapshot {
        snap: Some(SnapInfo {
            disabled_revisions: 4,
            snaps_dir_bytes: None,
            refresh_retain: Some(10),
        }),
        ..Default::default()
    };
    let plan = SnapRetain.plan(&s).unwrap();
    assert_eq!(plan.commands[0].display(), "snap set system refresh.retain=2");
    assert_eq!(plan.undo[0].display(), "snap set system refresh.retain=10");
    assert_eq!(plan.restore.as_deref(), Some("10"));
    assert!(plan.description.en.contains("refresh.retain is 10"));
}

#[test]
fn snap_retain_falls_back_to_the_default_when_the_value_is_unknown() {
    let s = Snapshot {
        snap: Some(SnapInfo {
            disabled_revisions: 4,
            snaps_dir_bytes: None,
            refresh_retain: None,
        }),
        ..Default::default()
    };
    let plan = SnapRetain.plan(&s).unwrap();
    assert_eq!(plan.undo[0].display(), "snap set system refresh.retain=3");
    assert!(plan.restore.is_none());
}

#[test]
fn snap_retain_validates_the_value_read_back_from_the_journal() {
    for hostile in [
        "3; rm -rf /",
        "$(id)",
        "-1",
        "0",
        "999",
        "",
        "../../etc/passwd",
    ] {
        let commands = SnapRetain.undo_from(Some(hostile));
        assert_eq!(
            commands[0].display(),
            "snap set system refresh.retain=3",
            "hostile value {hostile:?} was not rejected"
        );
    }
    assert_eq!(
        SnapRetain.undo_from(Some("7"))[0].display(),
        "snap set system refresh.retain=7"
    );
}

#[test]
fn autoremove_preview_names_what_it_actually_removes() {
    let s = Snapshot {
        packages: Some(PackageInfo {
            manager: Some("apt".into()),
            old_kernels: vec!["a".into(), "b".into(), "c".into()],
            autoremovable: vec![
                "linux-image-6.8.0-45-generic".into(),
                "libpython3.11-minimal".into(),
                "nodejs-doc".into(),
            ],
            ..Default::default()
        }),
        ..Default::default()
    };
    let plan = AutoremoveKernels.plan(&s).unwrap();
    assert!(plan.description.en.contains("nodejs-doc"), "{:?}", plan.description.en);
    assert!(plan.description.en.contains("3 package(s) in total"));
    assert!(plan.description.ar.contains("nodejs-doc"));
    assert!(plan.description.en.contains("/etc"));
    assert!(plan.affected_paths.iter().any(|p| p == "/etc"));
}

#[test]
fn autoremove_preview_truncates_a_long_package_list() {
    let many: Vec<String> = (0..30).map(|i| format!("pkg{i}")).collect();
    let listed = package_list(&many);
    assert!(listed.contains("pkg0") && listed.contains("pkg11"));
    assert!(listed.contains("(+18)"), "got: {listed}");
    assert!(!listed.contains("pkg12"));
}

#[test]
fn autoremove_needs_more_than_two_old_kernels() {
    let mut s = Snapshot {
        packages: Some(PackageInfo {
            manager: Some("apt".into()),
            old_kernels: vec!["a".into(), "b".into()],
            ..Default::default()
        }),
        ..Default::default()
    };
    assert!(AutoremoveKernels.plan(&s).is_none());
    s.packages.as_mut().unwrap().old_kernels.push("c".into());
    assert_eq!(AutoremoveKernels.plan(&s).unwrap().risk, Severity::Medium);
}

#[test]
fn a_short_package_list_is_joined_in_full() {
    let few: Vec<String> = vec!["a".into(), "b".into()];
    assert_eq!(package_list(&few), "a, b");
}

fn args(v: &[&str]) -> Vec<String> {
    v.iter().map(|s| s.to_string()).collect()
}

#[test]
fn lib_apply_accepts_only_known_fix_ids() {
    assert_eq!(
        parse_action(FixTier::Routine, &args(&["apply", "fix.enable_ufw"])),
        Ok(Action::Apply("fix.enable_ufw".into()))
    );
    for hostile in [
        "fix.enable_ufw; rm -rf /",
        "../../etc/passwd",
        "fix.nonexistent",
    ] {
        assert!(parse_action(FixTier::Routine, &args(&["apply", hostile])).is_err());
        assert!(parse_action(FixTier::Destructive, &args(&["apply", hostile])).is_err());
    }
}

#[test]
fn a_helper_refuses_fixes_from_the_other_tier() {
    let err = parse_action(FixTier::Routine, &args(&["apply", "fix.autoremove"]))
        .expect_err("routine helper must refuse a destructive fix");
    assert!(err.contains("only runs"), "unhelpful error: {err}");

    let err = parse_action(FixTier::Destructive, &args(&["apply", "fix.enable_ufw"]))
        .expect_err("destructive helper must refuse a routine fix");
    assert!(err.contains("only runs"), "unhelpful error: {err}");

    assert!(parse_action(FixTier::Destructive, &args(&["apply", "fix.autoremove"])).is_ok());
    assert!(parse_action(FixTier::Routine, &args(&["apply", "fix.enable_ufw"])).is_ok());
}

#[test]
fn lib_apply_requires_exactly_one_id() {
    assert!(parse_action(FixTier::Routine, &args(&["apply"])).is_err());
    assert!(parse_action(FixTier::Routine, &args(&["apply", "fix.enable_ufw", "extra"])).is_err());
}

#[test]
fn lib_undo_and_list_take_no_arguments() {
    assert_eq!(parse_action(FixTier::Routine, &args(&["undo"])), Ok(Action::Undo));
    assert_eq!(
        parse_action(FixTier::Routine, &args(&["list-journal"])),
        Ok(Action::ListJournal)
    );
    assert!(parse_action(FixTier::Routine, &args(&["undo", "x"])).is_err());
}

#[test]
fn lib_unknown_verbs_are_rejected() {
    assert!(parse_action(FixTier::Routine, &args(&["delete-everything"])).is_err());
    assert!(parse_action(FixTier::Routine, &args(&[])).is_err());
}

#[test]
fn refusals_name_both_tiers() {
    assert_eq!(
        parse_action(FixTier::Routine, &args(&["apply", "fix.autoremove"])),
        Err("fix 'fix.autoremove' is Destructive; this helper only runs Routine fixes".to_string())
    );
    assert_eq!(
        parse_action(FixTier::Routine, &args(&["apply", "fix.nope"])),
        Err("unknown fix id 'fix.nope'".to_string())
    );
}

fn entry(id: &str, reversible: bool) -> JournalEntry {
    JournalEntry {
        fix_id: id.into(),
        title: id.into(),
        applied_at: "2026-07-23T00:00:00Z".into(),
        reversible,
        undo: if reversible {
            vec![FixCommand::new("ufw", &["disable"])]
        } else {
            vec![]
        },
        restore: None,
        undone: false,
        state: EntryState::Applied,
    }
}

#[test]
fn last_undoable_skips_irreversible_and_undone() {
    let mut j = Journal::new();
    j.record(entry("fix.enable_ufw", true));
    j.record(entry("fix.apt_clean", false));
    let (idx, e) = j.last_undoable().unwrap();
    assert_eq!(e.fix_id, "fix.enable_ufw");
    j.mark_undone(idx);
    assert!(j.last_undoable().is_none());
}

#[test]
fn a_new_journal_has_nothing_to_undo() {
    let j = Journal::new();
    assert!(j.entries().is_empty());
    assert!(j.last_undoable().is_none());
}

/// Drive an apply the way the privileged helper does, with a runner that
/// fails on `fail_on`; returns the outcome and the commands that ran.
fn run_apply(
    plan: &FixPlan,
    journal: &mut Journal,
    fail_on: Option<&str>,
) -> (Result<ApplyOutcome, FixError>, Vec<String>) {
    let mut ran = Vec::new();
    let mut applying = begin_apply(plan, journal, "2026-07-24T00:00:00Z".into());
    assert_eq!(journal.entries()[applying.index].state, EntryState::Pending);
    loop {
        match applying.next(plan, journal) {
            ApplyStep::Run(command) => {
                let result = if Some(command.program.as_str()) == fail_on {
                    Err(format!("simulated failure of {}", command.program))
                } else {
                    ran.push(command.display());
                    Ok(String::new())
                };
                // A failure is reported back; the next step says to stop.
                let _ = applying.ran(journal, result);
            }
            ApplyStep::Finished(outcome) => return (Ok(outcome), ran),
            ApplyStep::Stopped(error) => return (Err(error), ran),
        }
    }
}

/// Drive an undo the way the privileged helper does.
fn run_undo(journal: &mut Journal) -> (Result<String, FixError>, Vec<String>) {
    match plan_undo(journal) {
        Ok(undo) => {
            let ran = undo.commands.iter().map(|c| c.display()).collect();
            (Ok(finish_undo(journal, &undo, Lang::En)), ran)
        }
        Err(e) => (Err(e), vec![]),
    }
}

fn ufw_disabled() -> Snapshot {
    Snapshot {
        security: Some(SecurityInfo {
            firewall_active: Some(false),
            ssh_permit_root_login: None,
            ssh_password_auth: None,
        }),
        ..Default::default()
    }
}

#[test]
fn apply_runs_commands_and_records() {
    let plan = find("fix.enable_ufw").unwrap().plan(&ufw_disabled()).unwrap();
    let mut journal = Journal::new();
    let (outcome, ran) = run_apply(&plan, &mut journal, None);
    assert_eq!(outcome.unwrap().fix_id, "fix.enable_ufw");
    assert_eq!(ran[0], "ufw --force enable");
    assert_eq!(journal.entries().len(), 1);
    assert_eq!(journal.entries()[0].state, EntryState::Applied);
}

#[test]
fn apply_then_undo_runs_the_undo_command() {
    let plan = find("fix.enable_ufw").unwrap().plan(&ufw_disabled()).unwrap();
    let mut journal = Journal::new();
    run_apply(&plan, &mut journal, None).0.unwrap();
    let (title, ran) = run_undo(&mut journal);
    assert_eq!(title.unwrap(), "Enable the firewall");
    assert_eq!(ran.last().unwrap(), "ufw disable");
    assert!(run_undo(&mut journal).0.is_err());
}

#[test]
fn undo_ignores_tampered_commands_in_the_journal() {
    let mut journal = Journal::new();
    journal.record(JournalEntry {
        fix_id: "fix.enable_ufw".into(),
        title: "Enable the firewall".into(),
        applied_at: "2026-07-24T00:00:00Z".into(),
        reversible: true,
        undo: vec![FixCommand::new("rm", &["-rf", "/"])],
        restore: None,
        undone: false,
        state: EntryState::Applied,
    });
    let (result, ran) = run_undo(&mut journal);
    result.unwrap();
    assert_eq!(ran.len(), 1);
    assert_eq!(ran[0], "ufw disable");
}

#[test]
fn a_failing_command_aborts_and_is_recorded_as_failed() {
    let plan = find("fix.enable_ufw").unwrap().plan(&ufw_disabled()).unwrap();
    let mut journal = Journal::new();
    let (outcome, ran) = run_apply(&plan, &mut journal, Some("ufw"));
    assert!(matches!(outcome, Err(FixError::CommandFailed(_))));
    assert!(ran.is_empty());
    assert_eq!(journal.entries().len(), 1);
    assert_eq!(journal.entries()[0].state, EntryState::Failed);
}

#[test]
fn a_pending_entry_is_still_undoable() {
    let mut journal = Journal::new();
    journal.record(JournalEntry {
        fix_id: "fix.enable_ufw".into(),
        title: "Enable the firewall".into(),
        applied_at: "2026-08-03T00:00:00Z".into(),
        reversible: true,
        undo: vec![],
        restore: None,
        undone: false,
        state: EntryState::Pending,
    });
    let (result, ran) = run_undo(&mut journal);
    assert!(result.is_ok());
    assert_eq!(ran[0], "ufw disable");
}

#[test]
fn undo_restores_the_recorded_retention_count() {
    let s = Snapshot {
        snap: Some(SnapInfo {
            disabled_revisions: 4,
            snaps_dir_bytes: None,
            refresh_retain: Some(10),
        }),
        ..Default::default()
    };
    let plan = SnapRetain.plan(&s).unwrap();
    let mut journal = Journal::new();
    run_apply(&plan, &mut journal, None).0.unwrap();
    assert_eq!(journal.entries()[0].restore.as_deref(), Some("10"));
    let (_, ran) = run_undo(&mut journal);
    assert_eq!(ran, vec!["snap set system refresh.retain=10"]);
}

#[test]
fn undo_of_an_unknown_fix_is_refused() {
    let mut journal = Journal::new();
    journal.record(entry("fix.gone", true));
    assert!(matches!(plan_undo(&journal), Err(FixError::UnknownFix(id)) if id == "fix.gone"));
    assert!(matches!(plan_undo(&Journal::new()), Err(FixError::NothingToUndo)));
}

#[test]
fn undo_titles_follow_the_language() {
    let mut journal = Journal::new();
    journal.record(entry("fix.enable_ufw", true));
    assert_eq!(undo_title_in(&journal, Lang::Ar).as_deref(), Some("تفعيل الجدار الناري"));
    journal.record(entry("fix.gone", true));
    assert_eq!(undo_title_in(&journal, Lang::En).as_deref(), Some("fix.gone"));
    assert!(undo_title_in(&Journal::new(), Lang::En).is_none());
}

#[test]
fn a_helper_refuses_to_undo_the_other_tiers_fix() {
    let mut journal = Journal::new();
    journal.record(entry("fix.enable_ufw", true));
    assert!(check_undo_tier(FixTier::Routine, &journal).is_ok());
    assert_eq!(
        check_undo_tier(FixTier::Destructive, &journal),
        Err("the last undoable fix 'fix.enable_ufw' is Routine; run the Routine helper instead"
            .to_string())
    );
}

#[test]
fn the_journal_listing_shows_state_and_undo() {
    let mut journal = Journal::new();
    journal.record(entry("fix.enable_ufw", true));
    journal.mark_undone(0);
    assert_eq!(
        journal_listing(&journal),
        "2026-07-23T00:00:00Z  fix.enable_ufw  applied  fix.enable_ufw  (undone)\n"
    );
}

#[test]
fn plans_by_id_follow_the_registry() {
    let s = unhealthy();
    let p = plan("fix.enable_ufw", &s).unwrap();
    assert_eq!(p.id, "fix.enable_ufw");
    assert_eq!(p.commands[0].display(), "ufw --force enable");
    assert!(plan("fix.enable_ufw", &Snapshot::default()).is_none());
    assert!(plan("fix.nonexistent", &s).is_none());
}

#[test]
fn applicable_plans_list_every_fix_that_fires_in_registry_order() {
    let ids: Vec<String> = applicable_plans(&unhealthy()).into_iter().map(|p| p.id).collect();
    let expected: Vec<String> = all()
        .into_iter()
        .filter(|f| f.plan(&unhealthy()).is_some())
        .map(|f| f.id().to_string())
        .collect();
    assert_eq!(ids, expected);
    assert!(ids.len() >= 5);
    assert!(applicable_plans(&Snapshot::default()).is_empty());
}

/// The helper run for whichever tier owns `id`, as a single helper that
/// accepts every registered fix would.
fn any_tier_action(a: &[&str]) -> Result<Action, String> {
    let tier = match a {
        [_, id] => tier_of(id).unwrap_or(FixTier::Routine),
        _ => FixTier::Routine,
    };
    parse_action(tier, &args(a))
}

#[test]
fn main_apply_accepts_only_known_fix_ids() {
    assert_eq!(
        any_tier_action(&["apply", "fix.enable_ufw"]),
        Ok(Action::Apply("fix.enable_ufw".into()))
    );
    assert!(any_tier_action(&["apply", "fix.enable_ufw; rm -rf /"]).is_err());
    assert!(any_tier_action(&["apply", "../../etc/passwd"]).is_err());
    assert!(any_tier_action(&["apply", "fix.nonexistent"]).is_err());
}

#[test]
fn main_apply_requires_exactly_one_id() {
    assert!(any_tier_action(&["apply"]).is_err());
    assert!(any_tier_action(&["apply", "fix.enable_ufw", "extra"]).is_err());
}

#[test]
fn main_undo_and_list_take_no_arguments() {
    assert_eq!(any_tier_action(&["undo"]), Ok(Action::Undo));
    assert_eq!(any_tier_action(&["list-journal"]), Ok(Action::ListJournal));
    assert!(any_tier_action(&["undo", "x"]).is_err());
}

#[test]
fn main_unknown_verbs_are_rejected() {
    assert!(any_tier_action(&["delete-everything"]).is_err());
    assert!(any_tier_action(&[]).is_err());
}

#[test]
fn nothing_runs_after_a_failed_command() {
    let plan = FixPlan {
        id: "fix.test".into(),
        title: sysmedic::lang::LocalizedText::new("T".into(), "T".into()),
        description: sysmedic::lang::LocalizedText::new("D".into(), "D".into()),
        commands: vec![FixCommand::new("a", &[]), FixCommand::new("b", &[])],
        affected_paths: vec![],
        reversible: false,
        undo: vec![],
        restore: None,
        risk: Severity::Low,
        needs_root: true,
    };
    let mut journal = Journal::new();
    let mut applying = begin_apply(&plan, &mut journal, "t".into());
    assert!(matches!(applying.next(&plan, &mut journal), ApplyStep::Run(_)));
    let err = applying.ran(&mut journal, Err("boom".into()));
    assert!(matches!(err, Some(FixError::CommandFailed(ref m)) if m == "boom"));
    assert_eq!(journal.entries()[0].state, EntryState::Failed);
    for _ in 0..2 {
        match applying.next(&plan, &mut journal) {
            ApplyStep::Stopped(FixError::CommandFailed(m)) => assert_eq!(m, "boom"),
            _ => panic!("a failed apply went on"),
        }
    }
    assert_eq!(journal.entries()[0].state, EntryState::Failed);
}
