use sysmedic::collectors::cpu::parse_cpuinfo;
use sysmedic::collectors::disk::{df_args, parse_df};
use sysmedic::collectors::flatpak::unused_refs;
use sysmedic::collectors::logs::{is_large_log, keep_largest, parse_journal_usage};
use sysmedic::collectors::memory::{meminfo_fits, parse_meminfo};
use sysmedic::collectors::network::{parse_has_default_route, parse_resolv};
use sysmedic::collectors::packages::{
    parse_autoremovable, parse_dnf_check, parse_dnf_check_update, parse_dnf_security,
    parse_dpkg_audit, parse_old_kernels, parse_pacman_dk, parse_pacman_upgrades,
    parse_upgradable, Manager,
};
use sysmedic::collectors::ports::{dedup_ports, parse_proc_net_tcp, parse_proc_net_udp};
use sysmedic::collectors::process::{parse_stat_state, parse_statm_rss_kb, statm_fits, top_by_memory};
use sysmedic::collectors::security::{
    parse_directive_bool, parse_password_auth, parse_permit_root_login, parse_ufw_conf,
    glob_match, include_directive, ufw_status_active, unit_active,
};
use sysmedic::collectors::services::parse_unit_names;
use sysmedic::collectors::sizes::parse_size;
use sysmedic::collectors::smart::{parse_device, parse_scan};
use sysmedic::collectors::snap::parse_disabled_revisions;
use sysmedic::snapshot::{LargeFile, ListeningPort, ProcessTop};

#[test]
fn parses_cpuinfo() {
    let fixture = "processor\t: 0\nmodel name\t: AMD Ryzen 7 5800X\nprocessor\t: 1\nmodel name\t: AMD Ryzen 7 5800X\n";
    let (model, cores) = parse_cpuinfo(fixture);
    assert_eq!(model, "AMD Ryzen 7 5800X");
    assert_eq!(cores, 2);
}

#[test]
fn parses_df_output() {
    let fixture = "\
Filesystem     Mounted on     Type      1B-blocks        Avail
/dev/sda2      /              ext4   502392610816  50239261081
/dev/sda1      /boot/efi      vfat      535805952    529530880
";
    let disks = parse_df(fixture);
    assert_eq!(disks.len(), 2);
    assert_eq!(disks[0].mount_point, "/");
    let used = disks[0].total_bytes - disks[0].available_bytes;
    let pct = used as f64 / disks[0].total_bytes as f64 * 100.0;
    assert!((pct - 90.0).abs() < 0.5);
}

#[test]
fn handles_mount_points_with_spaces() {
    let fixture = "\
Filesystem     Mounted on        Type   1B-blocks       Avail
/dev/sdb1      /media/My Disk    ext4   1000000000   500000000
";
    let disks = parse_df(fixture);
    assert_eq!(disks.len(), 1);
    assert_eq!(disks[0].mount_point, "/media/My Disk");
    assert_eq!(disks[0].fs_type, "ext4");
    assert_eq!(disks[0].total_bytes, 1_000_000_000);
}

#[test]
fn read_only_images_are_not_reported_as_full_disks() {
    let fixture = "\
Filesystem     Mounted on          Type      1B-blocks   Avail
/dev/sda2      /                   ext4     1000000000   500000000
/dev/sr0       /media/user/ubuntu  iso9660  4700000000           0
/dev/loop3     /snap/core22/1122   squashfs   77000000           0
/dev/loop9     /media/img          erofs      12000000           0
";
    let disks = parse_df(fixture);
    assert_eq!(disks.len(), 1, "only the real filesystem should remain");
    assert_eq!(disks[0].mount_point, "/");
}

#[test]
fn deduplicates_bind_mounts_by_source() {
    let fixture = "\
Filesystem     Mounted on     Type   1B-blocks       Avail
/dev/sda2      /              ext4   1000000000   500000000
/dev/sda2      /var/lib/x     ext4   1000000000   500000000
";
    let disks = parse_df(fixture);
    assert_eq!(disks.len(), 1);
    assert_eq!(disks[0].mount_point, "/");
}

#[test]
fn identifies_unused_runtime() {
    let runtimes = "org.freedesktop.Platform runtime/org.freedesktop.Platform/x86_64/23.08\norg.gnome.Platform runtime/org.gnome.Platform/x86_64/45\n";
    let app_runtimes = "org.gnome.Platform/x86_64/45\n";
    let unused = unused_refs(runtimes, app_runtimes);
    assert_eq!(unused, vec!["runtime/org.freedesktop.Platform/x86_64/23.08"]);
}

#[test]
fn nothing_unused_when_all_referenced() {
    let runtimes = "org.gnome.Platform runtime/org.gnome.Platform/x86_64/45\n";
    let app_runtimes = "org.gnome.Platform/x86_64/45\n";
    assert!(unused_refs(runtimes, app_runtimes).is_empty());
}

#[test]
fn parses_meminfo() {
    let fixture = "MemTotal:       16303428 kB\nMemFree:         1234567 kB\nMemAvailable:    8151714 kB\nBuffers:          200000 kB\nSwapTotal:       2097148 kB\nSwapFree:        2097148 kB\n";
    let mem = parse_meminfo(fixture).unwrap();
    assert_eq!(mem.total_kb, 16_303_428);
    assert_eq!(mem.available_kb, 8_151_714);
    let available_percent = mem.available_kb as f64 / mem.total_kb as f64 * 100.0;
    assert!((available_percent - 50.0).abs() < 0.1);
    let swap_used = mem.swap_total_kb.saturating_sub(mem.swap_free_kb);
    assert_eq!(swap_used as f64 / mem.swap_total_kb as f64 * 100.0, 0.0);
}

#[test]
fn falls_back_when_memavailable_absent() {
    let fixture = "MemTotal:    1000 kB\nMemFree:      300 kB\nBuffers:      100 kB\nCached:       200 kB\n";
    let mem = parse_meminfo(fixture).unwrap();
    assert_eq!(mem.total_kb, 1000);
    assert_eq!(mem.available_kb, 600);
    assert_eq!(mem.swap_total_kb, 0);
}

#[test]
fn tolerates_a_line_without_a_colon() {
    let fixture = "some junk line\nMemTotal: 1000 kB\nMemAvailable: 500 kB\n";
    assert_eq!(parse_meminfo(fixture).unwrap().available_kb, 500);
}

#[test]
fn no_memtotal_is_still_a_failure() {
    assert!(parse_meminfo("MemFree: 100 kB\n").is_none());
}

#[test]
fn detects_default_route() {
    let fixture =
        "Iface\tDestination\tGateway\neth0\t00000000\t0100007F\neth0\t0000A8C0\t00000000\n";
    assert!(parse_has_default_route(fixture));
    let no_default = "Iface\tDestination\tGateway\neth0\t0000A8C0\t00000000\n";
    assert!(!parse_has_default_route(no_default));
}

#[test]
fn parses_nameservers() {
    let fixture = "# comment\nnameserver 127.0.0.53\nnameserver 1.1.1.1\nsearch lan\n";
    assert_eq!(parse_resolv(fixture), vec!["127.0.0.53", "1.1.1.1"]);
}

#[test]
fn audit_of_healthy_system_is_empty() {
    assert!(parse_dpkg_audit("").is_empty());
}

#[test]
fn autoremove_simulation_lists_every_package_not_just_kernels() {
    let sim = "\
NOTE: This is only a simulation!
Reading package lists...
Building dependency tree...
The following packages will be REMOVED:
  libpython3.11-minimal* linux-image-6.8.0-45-generic* nodejs-doc*
Remv libpython3.11-minimal [3.11.9-1]
Purg linux-image-6.8.0-45-generic [6.8.0-45.45]
Remv nodejs-doc [18.19.0]
";
    assert_eq!(
        parse_autoremovable(sim),
        vec![
            "libpython3.11-minimal",
            "linux-image-6.8.0-45-generic",
            "nodejs-doc"
        ]
    );
}

#[test]
fn autoremove_simulation_with_nothing_to_do_is_empty() {
    let sim = "Reading package lists...\n0 upgraded, 0 newly installed, 0 to remove.\n";
    assert!(parse_autoremovable(sim).is_empty());
}

#[test]
fn audit_extracts_package_names() {
    let fixture = "The following packages are only half configured:\n libfoo1 a broken library\n bar-tools some tools\n";
    assert_eq!(parse_dpkg_audit(fixture), vec!["libfoo1", "bar-tools"]);
}

#[test]
fn old_kernels_exclude_running_and_meta() {
    let fixture = "linux-image-6.8.0-40-generic\tinstall ok installed\nlinux-image-6.8.0-45-generic\tinstall ok installed\nlinux-image-generic\tinstall ok installed\nlinux-image-5.15.0-1-generic\tdeinstall ok config-files\n";
    let old = parse_old_kernels(fixture, "6.8.0-45-generic");
    assert_eq!(old, vec!["linux-image-6.8.0-40-generic"]);
}

#[test]
fn counts_upgradable_and_security() {
    let fixture = "Listing...\nbash/noble-updates 5.2-1 amd64 [upgradable from: 5.1-1]\nopenssl/noble-security 3.0.2 amd64 [upgradable from: 3.0.1]\n";
    assert_eq!(parse_upgradable(fixture), (2, 1));
}

#[test]
fn counts_dnf_updates_and_skips_obsoleting() {
    let fixture = "\
firefox.x86_64                 128.0-1.fc40                 updates\n\
kernel-core.x86_64             6.9.7-200.fc40               updates\n\
\n\
Obsoleting Packages\n\
grub2-tools.x86_64             1:2.06-123.fc40              updates\n";
    assert_eq!(parse_dnf_check_update(fixture), 2);
    assert_eq!(parse_dnf_check_update(""), 0);
}

#[test]
fn dnf_check_lists_problem_packages() {
    let fixture = "bar-2.0-1.x86_64 has missing requires of libfoo.so.1\n";
    assert_eq!(parse_dnf_check(fixture), vec!["bar-2.0-1.x86_64"]);
    assert!(parse_dnf_check("\n").is_empty());
}

#[test]
fn counts_dnf_security_advisories() {
    let fixture = "\
Last metadata expiration check: 0:20:11 ago on Sat 26 Jul 2026.\n\
FEDORA-2026-0a1b2c3d4e Important/Sec. openssl-3.2.1-2.fc40.x86_64\n\
FEDORA-2026-5f6a7b8c9d Moderate/Sec.  curl-8.6.0-3.fc40.x86_64\n";
    assert_eq!(parse_dnf_security(fixture), 2);
    assert_eq!(parse_dnf_security(""), 0);
}

#[test]
fn counts_pacman_upgrades_and_skips_ignored() {
    let fixture = "linux 6.9.6.arch1-1 -> 6.9.7.arch1-1\n\
                   firefox 127.0-1 -> 128.0-1 [ignored]\n";
    assert_eq!(parse_pacman_upgrades(fixture), 1);
    assert_eq!(parse_pacman_upgrades(""), 0);
}

#[test]
fn pacman_dk_extracts_affected_package() {
    let fixture = "error: dependency 'libfoo' of package bar is missing\n";
    assert_eq!(parse_pacman_dk(fixture), vec!["bar"]);
    assert!(parse_pacman_dk("").is_empty());
}

#[test]
fn package_manager_ids() {
    assert_eq!(Manager::Apt.id(), "apt");
    assert_eq!(Manager::Dnf.id(), "dnf");
    assert_eq!(Manager::Pacman.id(), "pacman");
}

const V4: &str = "\
  sl  local_address rem_address   st tx_queue rx_queue tr tm->when retrnsmt
   0: 00000000:0016 00000000:0000 0A 00000000:00000000 00:00000000 00000000
   1: 0100007F:0035 00000000:0000 0A 00000000:00000000 00:00000000 00000000
   2: 0100007F:C1B6 0100007F:0035 01 00000000:00000000 00:00000000 00000000
";

#[test]
fn extracts_listening_ports_only() {
    let ports = parse_proc_net_tcp(V4, "tcp", false);
    assert_eq!(ports.len(), 2);
}

#[test]
fn wildcard_is_exposed_loopback_is_not() {
    let ports = parse_proc_net_tcp(V4, "tcp", false);
    let ssh = ports.iter().find(|p| p.port == 22).unwrap();
    assert_eq!(ssh.address, "0.0.0.0");
    assert!(ssh.exposed);
    let dns = ports.iter().find(|p| p.port == 53).unwrap();
    assert_eq!(dns.address, "127.0.0.1");
    assert!(!dns.exposed);
}

#[test]
fn v6_wildcard_and_loopback() {
    let v6 = "  sl  local_address\n   0: 00000000000000000000000000000000:0050 00000000000000000000000000000000:0000 0A x\n   1: 00000000000000000000000001000000:0277 00000000000000000000000000000000:0000 0A x\n";
    let ports = parse_proc_net_tcp(v6, "tcp6", true);
    let http = ports.iter().find(|p| p.port == 80).unwrap();
    assert_eq!(http.address, "::");
    assert!(http.exposed);
    let local = ports.iter().find(|p| p.port == 631).unwrap();
    assert_eq!(local.address, "::1");
    assert!(!local.exposed);
}

#[test]
fn udp_sockets_are_collected_regardless_of_state() {
    let udp = "\
  sl  local_address rem_address   st tx_queue rx_queue tr tm->when retrnsmt
   0: 00000000:14E9 00000000:0000 07 00000000:00000000 00:00000000 00000000
   1: 3500007F:0035 00000000:0000 07 00000000:00000000 00:00000000 00000000
   2: 0100007F:0044 0100007F:0043 01 00000000:00000000 00:00000000 00000000
   3: 00000000:0000 00000000:0000 07 00000000:00000000 00:00000000 00000000
";
    let ports = parse_proc_net_udp(udp, "udp", false);
    assert_eq!(ports.len(), 3, "port 0 is unbound and must be skipped");

    let mdns = ports.iter().find(|p| p.port == 5353).unwrap();
    assert_eq!(mdns.address, "0.0.0.0");
    assert!(mdns.exposed, "mDNS on all interfaces is network-exposed");
    assert_eq!(mdns.proto, "udp");

    let resolver = ports.iter().find(|p| p.port == 53).unwrap();
    assert_eq!(resolver.address, "127.0.0.53");
    assert!(!resolver.exposed);

    assert!(ports.iter().any(|p| p.port == 68));
}

#[test]
fn tcp_still_keeps_only_listening_sockets() {
    let ports = parse_proc_net_tcp(V4, "tcp", false);
    assert_eq!(ports.len(), 2);
    assert!(ports.iter().all(|p| p.port == 22 || p.port == 53));
}

#[test]
fn v4_mapped_loopback_is_not_exposed() {
    let v6 = "  sl  local_address\n   0: 0000000000000000FFFF00000100007F:0050 00000000000000000000000000000000:0000 0A x\n";
    let ports = parse_proc_net_tcp(v6, "tcp6", true);
    let p = ports.iter().find(|p| p.port == 80).unwrap();
    assert!(!p.exposed, "v4-mapped loopback must not be exposed");
    assert_eq!(p.address, "::ffff:127.0.0.1");
}

#[test]
fn v6_addresses_compress_the_longest_zero_run() {
    // fe80::1 stored as four little-endian words.
    let v6 = "  sl  local_address\n   0: 000080FE000000000000000001000000:0016 00000000000000000000000000000000:0000 0A x\n";
    let ports = parse_proc_net_tcp(v6, "tcp6", true);
    assert_eq!(ports[0].address, "fe80::1");
    assert!(ports[0].exposed);
}

#[test]
fn parses_state_with_parens_in_comm() {
    let stat = "1234 (weird) name) Z 1 1234 1234 0 -1 4194560";
    assert_eq!(parse_stat_state(stat), Some('Z'));
}

#[test]
fn parses_statm_rss() {
    assert_eq!(parse_statm_rss_kb("2500 1250 300 50 0 400 0", 4), Some(5000));
}

#[test]
fn statm_rss_scales_with_page_size() {
    assert_eq!(parse_statm_rss_kb("2500 1250 300 50 0 400 0", 16), Some(20000));
}

#[test]
fn explicit_yes_is_flagged() {
    assert_eq!(parse_permit_root_login("PermitRootLogin yes\n"), Some(true));
}

#[test]
fn prohibit_password_is_safe() {
    assert_eq!(
        parse_permit_root_login("PermitRootLogin prohibit-password\n"),
        Some(false)
    );
}

#[test]
fn commented_directive_is_ignored() {
    assert_eq!(parse_permit_root_login("#PermitRootLogin yes\n"), None);
}

#[test]
fn password_auth_parsed() {
    assert_eq!(parse_password_auth("PasswordAuthentication yes\n"), Some(true));
    assert_eq!(parse_password_auth("PasswordAuthentication no\n"), Some(false));
    assert_eq!(parse_password_auth("# nothing here\n"), None);
}

#[test]
fn first_match_wins_not_last() {
    let cfg = "PermitRootLogin no\nPermitRootLogin yes\n";
    assert_eq!(parse_permit_root_login(cfg), Some(false));
}

#[test]
fn keyword_is_case_insensitive() {
    assert_eq!(parse_permit_root_login("permitrootlogin yes\n"), Some(true));
}

#[test]
fn directives_inside_match_blocks_are_ignored() {
    let cfg = "PermitRootLogin no\nMatch Address 10.0.0.0/8\n    PermitRootLogin yes\n";
    assert_eq!(parse_permit_root_login(cfg), Some(false));
}

#[test]
fn ufw_conf_reports_the_disabled_state_without_root() {
    let conf = "# /etc/ufw/ufw.conf\nENABLED=no\nLOGLEVEL=low\n";
    assert_eq!(parse_ufw_conf(conf), Some(false));
}

#[test]
fn ufw_conf_reports_the_enabled_state() {
    assert_eq!(parse_ufw_conf("ENABLED=yes\nLOGLEVEL=low\n"), Some(true));
    assert_eq!(parse_ufw_conf("enabled=\"YES\"\n"), Some(true));
    assert_eq!(parse_ufw_conf("ENABLED = no\n"), Some(false));
}

#[test]
fn ufw_conf_without_the_key_is_unknown() {
    assert_eq!(parse_ufw_conf("LOGLEVEL=low\n"), None);
    assert_eq!(parse_ufw_conf("#ENABLED=yes\n"), None);
    assert_eq!(parse_ufw_conf(""), None);
}

#[test]
fn word_boundary_avoids_prefix_false_match() {
    assert_eq!(
        parse_directive_bool("PermitRootLoginXYZ yes\n", "PermitRootLogin"),
        None
    );
}

#[test]
fn parses_failed_units() {
    let fixture = "fwupd-refresh.service loaded failed failed Refresh fwupd metadata\nsnap.lxd.activate.service loaded failed failed Service for snap\n";
    let units = parse_unit_names(fixture);
    assert_eq!(units, vec!["fwupd-refresh.service", "snap.lxd.activate.service"]);
}

#[test]
fn empty_output_means_no_units() {
    assert!(parse_unit_names("").is_empty());
}

#[test]
fn handles_status_marker_as_a_separate_column() {
    let fixture = "× nginx.service loaded failed failed A high performance web server\n● redis.service loaded failed failed Advanced key-value store\n";
    assert_eq!(parse_unit_names(fixture), vec!["nginx.service", "redis.service"]);
}

#[test]
fn does_not_mangle_units_starting_with_x() {
    let fixture = "xrdp.service loaded failed failed xrdp daemon\n";
    assert_eq!(parse_unit_names(fixture), vec!["xrdp.service"]);
}

#[test]
fn counts_disabled_revisions() {
    let fixture = "\
Name     Version  Rev    Tracking       Publisher   Notes
core22   20240111 1122   latest/stable  canonical✓  base,disabled
core22   20240220 1380   latest/stable  canonical✓  base
firefox  122.0    3836   latest/stable  mozilla✓    disabled
firefox  123.0    3941   latest/stable  mozilla✓    -
";
    assert_eq!(parse_disabled_revisions(fixture), 2);
}

#[test]
fn parses_journal_usage() {
    let fixture = "Archived and active journals take up 3.9G in the file system.\n";
    assert_eq!(parse_journal_usage(fixture), Some((3.9 * 1024.0 * 1024.0 * 1024.0) as u64));
}

#[test]
fn parses_journalctl_style_sizes() {
    assert_eq!(parse_size("895B"), Some(895));
    assert_eq!(parse_size("16.0K"), Some(16384));
    assert_eq!(parse_size("512.0M"), Some(512 * 1024 * 1024));
    assert_eq!(parse_size("3.9G"), Some((3.9 * 1024.0 * 1024.0 * 1024.0) as u64));
    assert_eq!(parse_size("1234"), Some(1234));
    assert_eq!(parse_size("bogus"), None);
}

#[test]
fn sizes_accept_spaced_units_and_bare_fractions() {
    assert_eq!(parse_size("  1.5 GiB "), Some(1610612736));
    assert_eq!(parse_size(".5K"), Some(512));
    assert_eq!(parse_size("2."), Some(2));
    assert_eq!(parse_size("0.0009765625K"), Some(1));
    assert_eq!(parse_size("1.2.3"), None);
    assert_eq!(parse_size("K"), None);
    assert_eq!(parse_size("3X"), None);
    assert_eq!(parse_size("99999999999999999999T"), Some(u64::MAX));
    assert_eq!(parse_journal_usage("no usage here"), None);
    assert_eq!(parse_journal_usage("journals take up"), None);
}

#[test]
fn the_ten_largest_logs_are_kept_largest_first() {
    let files: Vec<LargeFile> = (0..12u64)
        .map(|i| LargeFile { path: format!("/var/log/f{i}"), bytes: 100 + (i % 4) * 10 })
        .collect();
    let kept = keep_largest(files);
    assert_eq!(kept.len(), 10);
    let paths: Vec<&str> = kept.iter().map(|f| f.path.as_str()).collect();
    assert_eq!(&paths[..3], &["/var/log/f3", "/var/log/f7", "/var/log/f11"]);
    assert!(kept.windows(2).all(|w| w[0].bytes >= w[1].bytes));
    assert!(is_large_log(100 * 1024 * 1024));
    assert!(!is_large_log(100 * 1024 * 1024 - 1));
}

fn port(proto: &'static str, address: &str, port: u16, exposed: bool) -> ListeningPort {
    ListeningPort { proto, address: address.to_string(), port, exposed }
}

#[test]
fn duplicate_sockets_collapse_whatever_order_the_kernel_lists_them() {
    let a = vec![
        port("tcp", "127.0.0.1", 53, false),
        port("tcp", "0.0.0.0", 22, true),
        port("udp", "127.0.0.53", 53, false),
        port("tcp", "0.0.0.0", 53, true),
        port("tcp", "::", 22, true),
        port("tcp", "127.0.0.2", 53, false),
    ];
    let mut b = a.clone();
    b.reverse();
    for input in [a, b] {
        let r = dedup_ports(input);
        let rows: Vec<(u16, &str, bool, String)> =
            r.iter().map(|p| (p.port, p.proto, p.exposed, p.address.clone())).collect();
        assert_eq!(
            rows,
            vec![
                (22, "tcp", true, "0.0.0.0".to_string()),
                (53, "tcp", false, "127.0.0.1".to_string()),
                (53, "tcp", true, "0.0.0.0".to_string()),
                (53, "udp", false, "127.0.0.53".to_string()),
            ]
        );
    }
}

fn proc(pid: u32, rss_kb: u64) -> ProcessTop {
    ProcessTop { pid, name: format!("p{pid}"), rss_kb }
}

#[test]
fn the_five_largest_processes_are_kept_largest_first() {
    let procs = vec![
        proc(1, 10),
        proc(2, 500),
        proc(3, 30),
        proc(4, 500),
        proc(5, 70),
        proc(6, 5),
        proc(7, 90),
    ];
    let top: Vec<u32> = top_by_memory(procs).iter().map(|p| p.pid).collect();
    assert_eq!(top, vec![2, 4, 7, 5, 3]);
    assert!(top_by_memory(vec![]).is_empty());
    let two: Vec<u32> = top_by_memory(vec![proc(1, 1), proc(2, 2)]).iter().map(|p| p.pid).collect();
    assert_eq!(two, vec![2, 1]);
}

#[test]
fn firewall_status_outputs_are_read() {
    assert!(ufw_status_active("Status: active\n\nTo Action From\n"));
    assert!(!ufw_status_active("Status: inactive\n"));
    assert!(unit_active("active\n"));
    assert!(!unit_active("inactive\n"));
    assert!(!unit_active("activating\n"));
}

#[test]
fn oversized_readings_are_recognised_before_parsing() {
    assert!(meminfo_fits("MemTotal: 100 kB\nMemAvailable: 50 kB\n"));
    assert!(meminfo_fits("MemTotal: 100 kB\nMemFree: 10 kB\nCached: 5 kB\n"));
    assert!(meminfo_fits("MemFree: 18446744073709551615 kB\nCached: 5 kB\n"));
    assert!(!meminfo_fits("MemTotal: 1 kB\nMemFree: 18446744073709551615 kB\nCached: 5 kB\n"));
    assert!(meminfo_fits("MemTotal: 1 kB\nMemAvailable: 2 kB\nMemFree: 18446744073709551615 kB\nCached: 5 kB\n"));
    assert!(statm_fits("100 25 0 0 0 0 0", 4));
    assert!(statm_fits("garbage", 4));
    assert!(!statm_fits("1 18446744073709551615 0", 4));
    assert!(statm_fits("1 18446744073709551615 0", 1));
}

#[test]
fn include_lines_name_their_pattern() {
    assert_eq!(
        include_directive("Include /etc/ssh/sshd_config.d/*.conf"),
        Some(Some("/etc/ssh/sshd_config.d/*.conf".to_string()))
    );
    assert_eq!(include_directive("  include  a.conf b.conf"), Some(Some("a.conf".to_string())));
    assert_eq!(include_directive("INCLUDE"), Some(None));
    assert_eq!(include_directive("PermitRootLogin no"), None);
    assert_eq!(include_directive("IncludeX foo"), None);
    assert_eq!(include_directive(""), None);
}

#[test]
fn glob_patterns_match_prefix_and_suffix() {
    assert!(glob_match("*.conf", "50-cloud-init.conf"));
    assert!(!glob_match("*.conf", "50-cloud-init.conf.bak"));
    assert!(glob_match("50-*.conf", "50-x.conf"));
    assert!(!glob_match("50-*.conf", "60-x.conf"));
    assert!(glob_match("a*a", "a"));
    assert!(glob_match("sshd_config", "sshd_config"));
    assert!(!glob_match("sshd_config", "sshd_config2"));
    assert!(!glob_match("long*", "lo"));
}

#[test]
fn parses_scan_list() {
    let json =
        r#"{"devices":[{"name":"/dev/sda","type":"sat"},{"name":"/dev/nvme0","type":"nvme"}]}"#;
    assert_eq!(parse_scan(json), vec!["/dev/sda", "/dev/nvme0"]);
}

#[test]
fn parses_ata_device_with_reallocated_sectors() {
    let json = r#"{
        "device": {"name": "/dev/sda"},
        "model_name": "Samsung SSD 860",
        "smart_status": {"passed": true},
        "temperature": {"current": 34},
        "power_on_time": {"hours": 12000},
        "ata_smart_attributes": {"table": [
            {"id": 5, "name": "Reallocated_Sector_Ct", "raw": {"value": 8}},
            {"id": 9, "name": "Power_On_Hours", "raw": {"value": 12000}}
        ]}
    }"#;
    let d = parse_device(json).unwrap();
    assert_eq!(d.device, "/dev/sda");
    assert_eq!(d.health_passed, Some(true));
    assert_eq!(d.temperature_c, Some(34));
    assert_eq!(d.reallocated_sectors, Some(8));
    assert_eq!(d.power_on_hours, Some(12000));
    assert_eq!(d.wear_percent, None);
}

#[test]
fn keeps_a_failing_drive_reported_with_passed_false() {
    let json = r#"{
        "device": {"name": "/dev/sda"},
        "model_name": "Seagate ST2000",
        "smart_status": {"passed": false},
        "temperature": {"current": 41}
    }"#;
    let d = parse_device(json).unwrap();
    assert_eq!(d.health_passed, Some(false));
}

#[test]
fn drops_device_with_no_health_signal() {
    let json = r#"{"device":{"name":"/dev/sda"},"smartctl":{"exit_status":2}}"#;
    assert!(parse_device(json).is_none());
}

#[test]
fn parses_nvme_wear() {
    let json = r#"{
        "device": {"name": "/dev/nvme0"},
        "model_name": "WD Black SN770",
        "smart_status": {"passed": false},
        "nvme_smart_health_information_log": {
            "percentage_used": 87, "temperature": 45, "power_on_hours": 9000
        }
    }"#;
    let d = parse_device(json).unwrap();
    assert_eq!(d.health_passed, Some(false));
    assert_eq!(d.wear_percent, Some(87));
    assert_eq!(d.power_on_hours, Some(9000));
}

#[test]
fn smart_reports_fall_back_and_skip_oddities() {
    let json = r#"{
        "model_family": "Some Family",
        "temperature": {"current": -3},
        "ata_smart_attributes": {"table": [
            {"id": 9, "raw": {"value": 1}},
            "junk",
            {"id": 5, "raw": {"value": 2}},
            {"id": 5, "raw": {"value": 3}}
        ]}
    }"#;
    let d = parse_device(json).unwrap();
    assert_eq!(d.device, "?");
    assert_eq!(d.model, "Some Family");
    assert_eq!(d.temperature_c, Some(-3));
    assert_eq!(d.reallocated_sectors, Some(2));
    assert_eq!(d.power_on_hours, None);
    assert!(parse_device("not json").is_none());
    assert!(parse_scan("not json").is_empty());
    assert_eq!(parse_scan(r#"{"devices":[{"type":"sat"},{"name":"/dev/sdb"}]}"#), vec!["/dev/sdb"]);
}

#[test]
fn df_is_told_to_skip_pseudo_and_image_filesystems() {
    let args = df_args();
    assert_eq!(&args[..2], &["-B1", "--output=source,target,fstype,size,avail"]);
    for fs in ["tmpfs", "devtmpfs", "ramfs", "overlay", "efivarfs", "squashfs", "iso9660", "udf", "erofs"] {
        assert!(args.windows(2).any(|w| w[0] == "-x" && w[1] == fs), "{fs} not excluded");
    }
    assert_eq!(args.len(), 20);
}
