use sysmedic::alert::{evaluate, evaluate_in, sort_by_urgency, Alert};
use sysmedic::diagnostics::{
    diagnose, disk_nearly_full, finding_ids, low_available, rule_names, run_rules,
    security_updates, sort_findings, ssh_root_login, zombies, FINDING_IDS,
};
use sysmedic::finding::{Category, Finding, Severity};
use sysmedic::lang::Lang;
use sysmedic::snapshot::{
    DiskInfo, FlatpakInfo, LargeFile, ListeningPort, LogInfo, MemoryInfo, NetworkInfo,
    PackageInfo, ProcessStats, Readings, SecurityInfo, ServiceStats, SmartDevice, SnapInfo,
    Snapshot,
};

fn snapshot() -> Snapshot {
    Snapshot::default()
}

/// The ids raised by the rules over fractional readings (load, temperature,
/// boot time, battery health), which the application evaluates.
const FRACTIONAL_IDS: [&str; 4] = ["cpu.high_load", "thermal.overheating", "boot.slow", "battery.degraded"];

fn unhealthy_snapshot() -> Snapshot {
    let mut s = snapshot();
    s.disks = Some(vec![DiskInfo {
        mount_point: "/".into(),
        fs_type: "ext4".into(),
        total_bytes: 100,
        available_bytes: 1,
    }]);
    s.memory = Some(MemoryInfo {
        total_kb: 1000,
        available_kb: 10,
        swap_total_kb: 1000,
        swap_free_kb: 100,
    });
    s.processes = Some(ProcessStats {
        total: 10,
        zombies: vec!["1 z".into()],
        top_memory: vec![],
    });
    s.services = Some(ServiceStats {
        running: 10,
        failed: vec!["broken.service".into()],
    });
    s.packages = Some(PackageInfo {
        broken: vec!["libfoo".into()],
        old_kernels: vec!["a".into(), "b".into(), "c".into()],
        apt_cache_bytes: Some(2 * 1024 * 1024 * 1024),
        pacman_cache_bytes: Some(3 * 1024 * 1024 * 1024),
        upgradable: Some(50),
        security_upgrades: Some(2),
        index_age_days: Some(30),
        ..Default::default()
    });
    s.logs = Some(LogInfo {
        journal_bytes: Some(5 * 1024 * 1024 * 1024),
        large_files: vec![LargeFile {
            path: "/var/log/huge.log".into(),
            bytes: 2 * 1024 * 1024 * 1024,
        }],
    });
    s.snap = Some(SnapInfo {
        disabled_revisions: 3,
        snaps_dir_bytes: None,
        refresh_retain: None,
    });
    s.flatpak = Some(FlatpakInfo {
        unused_refs: vec!["runtime/org.freedesktop.Platform/x86_64/23.08".into()],
    });
    s.network = Some(NetworkInfo {
        has_default_route: false,
        dns_servers: vec![],
    });
    s.security = Some(SecurityInfo {
        firewall_active: Some(false),
        ssh_permit_root_login: Some(true),
        ssh_password_auth: Some(true),
    });
    s.smart = Some(vec![SmartDevice {
        device: "/dev/sda".into(),
        model: "Test SSD".into(),
        health_passed: Some(false),
        temperature_c: Some(40),
        reallocated_sectors: Some(60),
        wear_percent: Some(95),
        power_on_hours: Some(1000),
    }]);
    s.ports = Some(vec![ListeningPort {
        proto: "tcp",
        address: "0.0.0.0".into(),
        port: 22,
        exposed: true,
    }]);
    s
}

#[test]
fn declared_rule_count_matches_the_documentation() {
    assert_eq!(FINDING_IDS.len(), 29, "rule count changed — update the docs listed above");
}

#[test]
fn every_rule_emits_a_declared_id_and_ids_are_unique() {
    let mut ids: Vec<&str> = FINDING_IDS.to_vec();
    let before = ids.len();
    ids.sort_unstable();
    ids.dedup();
    assert_eq!(ids.len(), before, "duplicate id in FINDING_IDS");
    assert_eq!(rule_names().len(), before, "rule count and declared-id count disagree");
}

#[test]
fn the_declared_ids_are_listed_in_order() {
    assert_eq!(finding_ids(), FINDING_IDS.to_vec());
    let names = rule_names();
    assert!(names.contains(&"disk-nearly-full"));
    let mut unique = names.clone();
    unique.sort_unstable();
    unique.dedup();
    assert_eq!(unique.len(), names.len());
}

#[test]
fn empty_snapshot_yields_no_findings() {
    assert!(run_rules(&snapshot()).is_empty());
}

#[test]
fn full_disk_is_critical() {
    let mut s = snapshot();
    s.disks = Some(vec![DiskInfo {
        mount_point: "/".into(),
        fs_type: "ext4".into(),
        total_bytes: 100_000_000_000,
        available_bytes: 3_000_000_000,
    }]);
    let findings = disk_nearly_full(&s);
    assert_eq!(findings.len(), 1);
    assert_eq!(findings[0].severity, Severity::Critical);
    assert_eq!(findings[0].title, "Filesystem / is 97% full");
}

#[test]
fn healthy_disk_is_quiet() {
    let mut s = snapshot();
    s.disks = Some(vec![DiskInfo {
        mount_point: "/".into(),
        fs_type: "ext4".into(),
        total_bytes: 100_000_000_000,
        available_bytes: 60_000_000_000,
    }]);
    assert!(disk_nearly_full(&s).is_empty());
}

#[test]
fn low_memory_severities() {
    let mut s = snapshot();
    s.memory = Some(MemoryInfo {
        total_kb: 16_000_000,
        available_kb: 640_000, // 4%
        swap_total_kb: 0,
        swap_free_kb: 0,
    });
    let findings = low_available(&s);
    assert_eq!(findings[0].severity, Severity::Critical);
}

#[test]
fn zombie_finding_carries_evidence() {
    let mut s = snapshot();
    s.processes = Some(ProcessStats {
        total: 200,
        zombies: vec!["4242 defunct-worker".into()],
        top_memory: vec![],
    });
    let findings = zombies(&s);
    assert_eq!(findings[0].evidence, vec!["4242 defunct-worker"]);
    assert_eq!(findings[0].severity, Severity::Low);
}

#[test]
fn security_updates_are_high_severity() {
    let mut s = snapshot();
    s.packages = Some(PackageInfo {
        security_upgrades: Some(3),
        ..Default::default()
    });
    let findings = security_updates(&s);
    assert_eq!(findings[0].severity, Severity::High);
}

#[test]
fn ssh_root_login_only_fires_on_explicit_yes() {
    let mut s = snapshot();
    s.security = Some(SecurityInfo {
        firewall_active: Some(true),
        ssh_permit_root_login: Some(false),
        ssh_password_auth: None,
    });
    assert!(ssh_root_login(&s).is_empty());
    s.security.as_mut().unwrap().ssh_permit_root_login = Some(true);
    assert_eq!(ssh_root_login(&s).len(), 1);
}

#[test]
fn every_emitted_id_is_declared() {
    let s = unhealthy_snapshot();
    let mut fired: Vec<String> = vec![];
    for finding in run_rules(&s) {
        assert!(
            FINDING_IDS.contains(&finding.id.as_str()),
            "undeclared finding id {}",
            finding.id
        );
        fired.push(finding.id);
    }
    // The unhealthy snapshot must trip every declared rule this module runs.
    for id in FINDING_IDS {
        if FRACTIONAL_IDS.contains(&id) {
            continue;
        }
        assert!(fired.iter().any(|f| f == id), "rule for {id} never fired");
    }
}

#[test]
fn finding_id_prefixes_match_their_category() {
    let expected = |c: Category| match c {
        Category::Boot => "boot",
        Category::Cpu => "cpu",
        Category::Memory => "memory",
        Category::Storage => "storage",
        Category::Thermal => "thermal",
        Category::Processes => "processes",
        Category::Services => "services",
        Category::Packages => "packages",
        Category::Logs => "logs",
        Category::Network => "network",
        Category::Security => "security",
        Category::Battery => "battery",
    };
    let s = unhealthy_snapshot();
    let mut checked = 0;
    for finding in run_rules(&s) {
        let prefix = finding.id.split('.').next().unwrap_or("");
        if matches!(prefix, "smart" | "flatpak") {
            continue;
        }
        assert_eq!(
            prefix,
            expected(finding.category),
            "id {} is scored under {:?}",
            finding.id,
            finding.category
        );
        checked += 1;
    }
    assert!(checked > 15, "fixture fired too few rules ({checked})");
}

#[test]
fn findings_are_sorted_most_severe_first_then_by_id() {
    let fs = vec![
        Finding::new("b.low", Category::Logs, Severity::Low, "t", "s"),
        Finding::new("z.crit", Category::Storage, Severity::Critical, "t", "s"),
        Finding::new("a.low", Category::Logs, Severity::Low, "t", "s"),
        Finding::new("m.high", Category::Memory, Severity::High, "t", "s"),
    ];
    let sorted = sort_findings(fs);
    let ids: Vec<&str> = sorted.iter().map(|f| f.id.as_str()).collect();
    assert_eq!(ids, vec!["z.crit", "m.high", "a.low", "b.low"]);
}

#[test]
fn diagnose_scores_the_sorted_findings_of_every_rule() {
    let s = unhealthy_snapshot();
    let fractional = vec![Finding::new(
        "thermal.overheating",
        Category::Thermal,
        Severity::Critical,
        "Hot",
        "Very hot",
    )];
    let measured = s.measured_categories(Readings { cpu: false, thermal: true, boot: false, battery: false });
    let report = diagnose(&s, fractional, &measured, "2026-01-01T00:00:00Z".into());
    assert_eq!(report.findings.len(), run_rules(&s).len() + 1);
    assert_eq!(report.findings[0].severity, Severity::Critical);
    for w in report.findings.windows(2) {
        assert!(w[0].severity >= w[1].severity);
    }
    assert!(report.score <= 59, "a critical finding caps the score");
    assert_eq!(report.generated_at, "2026-01-01T00:00:00Z");
    assert_eq!(report.coverage.total, 12);
}

#[test]
fn measured_categories_follow_the_gathered_sections() {
    let mut s = snapshot();
    let none = Readings { cpu: false, thermal: false, boot: false, battery: false };
    assert!(s.measured_categories(none).is_empty());
    s.memory = Some(MemoryInfo { total_kb: 1, available_kb: 1, swap_total_kb: 0, swap_free_kb: 0 });
    s.ports = Some(vec![]);
    let m = s.measured_categories(Readings { cpu: true, thermal: false, boot: false, battery: false });
    assert_eq!(m, vec![Category::Cpu, Category::Memory, Category::Security]);
}

// ----- alerts -----

fn overheating(temp: &str, urgency: Severity) -> Alert {
    Alert {
        id: "alert.overheating",
        urgency,
        title: "System overheating".into(),
        body: format!("pkg at {temp}°C"),
    }
}

#[test]
fn healthy_snapshot_has_no_alerts() {
    assert!(evaluate(&Snapshot::default(), None).is_empty());
}

#[test]
fn full_disk_triggers_critical_alert() {
    let s = Snapshot {
        disks: Some(vec![DiskInfo {
            mount_point: "/".into(),
            fs_type: "ext4".into(),
            total_bytes: 100,
            available_bytes: 2,
        }]),
        ..Default::default()
    };
    let alerts = evaluate(&s, None);
    assert_eq!(alerts.len(), 1);
    assert_eq!(alerts[0].id, "alert.disk_full");
    assert_eq!(alerts[0].urgency, Severity::Critical);
    assert_eq!(alerts[0].body, "98% used on /");
}

#[test]
fn alert_text_is_localized() {
    let s = Snapshot {
        memory: Some(MemoryInfo {
            total_kb: 1000,
            available_kb: 10,
            swap_total_kb: 0,
            swap_free_kb: 0,
        }),
        ..Default::default()
    };
    let en = evaluate_in(&s, None, Lang::En);
    assert_eq!(en[0].title, "Low memory");
    assert_eq!(en[0].body, "Only 1% of RAM available");
    let ar = evaluate_in(&s, None, Lang::Ar);
    assert_eq!(ar[0].title, "الذاكرة منخفضة");
    assert!(ar[0].body.contains('%'));
    // Same condition, same id — only the presentation differs.
    assert_eq!(en[0].id, ar[0].id);
}

#[test]
fn alerts_sorted_by_urgency() {
    let s = Snapshot {
        disks: Some(vec![DiskInfo {
            mount_point: "/".into(),
            fs_type: "ext4".into(),
            total_bytes: 100,
            available_bytes: 8, // 92% -> High
        }]),
        ..Default::default()
    };
    let alerts = evaluate(&s, Some(overheating("99", Severity::Critical)));
    assert_eq!(alerts.len(), 2);
    // Critical overheating sorts before the High disk alert.
    assert_eq!(alerts[0].id, "alert.overheating");
}

#[test]
fn equal_urgencies_keep_the_order_they_were_raised_in() {
    let s = Snapshot {
        disks: Some(vec![DiskInfo {
            mount_point: "/".into(),
            fs_type: "ext4".into(),
            total_bytes: 100,
            available_bytes: 8,
        }]),
        memory: Some(MemoryInfo { total_kb: 100, available_kb: 5, swap_total_kb: 0, swap_free_kb: 0 }),
        packages: Some(PackageInfo { security_upgrades: Some(4), ..Default::default() }),
        ..Default::default()
    };
    let alerts = evaluate(&s, Some(overheating("88", Severity::High)));
    let ids: Vec<&str> = alerts.iter().map(|a| a.id).collect();
    assert_eq!(
        ids,
        vec!["alert.disk_full", "alert.overheating", "alert.low_memory", "alert.security_updates"]
    );
    assert_eq!(alerts[3].title, "4 security update(s) available");
    let again = sort_by_urgency(&alerts);
    assert_eq!(again.iter().map(|a| a.id).collect::<Vec<_>>(), ids);
}

#[test]
fn arabic_alerts_raise_the_same_ids_in_the_same_order() {
    let s = Snapshot {
        disks: Some(vec![DiskInfo {
            mount_point: "/home".into(),
            fs_type: "ext4".into(),
            total_bytes: 1000,
            available_bytes: 30,
        }]),
        packages: Some(PackageInfo { security_upgrades: Some(1), ..Default::default() }),
        ..Default::default()
    };
    let en = evaluate_in(&s, None, Lang::En);
    let ar = evaluate_in(&s, None, Lang::Ar);
    let kinds = |v: &Vec<Alert>| v.iter().map(|a| (a.id, a.urgency)).collect::<Vec<_>>();
    assert_eq!(kinds(&en), kinds(&ar));
    assert_eq!(ar[0].title, "القرص شارف على الامتلاء: /home");
    assert_eq!(ar[1].title, "يتوفّر 1 تحديث أمني");
}

#[test]
fn checks_lists_every_rule() {
    let names = rule_names();
    assert_eq!(
        names.len(),
        FINDING_IDS.len(),
        "`sysmedic checks` and the declared rule set disagree"
    );
    assert!(names.contains(&"disk-nearly-full"));
}
