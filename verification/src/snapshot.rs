//! The observed state of a system: the sections of a checkup snapshot that
//! hold integers, flags and text. (Readings that are fractional — load
//! averages, temperatures, boot durations, battery health — are kept by the
//! application alongside these.)

use vstd::prelude::*;

use crate::finding::{all_categories, Category};

verus! {

#[derive(Debug, Clone, Copy, PartialEq, Eq, Structural)]
pub struct MemoryInfo {
    pub total_kb: u64,
    pub available_kb: u64,
    pub swap_total_kb: u64,
    pub swap_free_kb: u64,
}

#[derive(Debug, Clone)]
pub struct DiskInfo {
    pub mount_point: String,
    pub fs_type: String,
    pub total_bytes: u64,
    pub available_bytes: u64,
}

#[derive(Debug, Clone)]
pub struct ProcessTop {
    pub pid: u32,
    pub name: String,
    pub rss_kb: u64,
}

#[derive(Debug, Clone)]
pub struct ProcessStats {
    pub total: u32,
    /// `"pid name"` of each zombie process.
    pub zombies: Vec<String>,
    pub top_memory: Vec<ProcessTop>,
}

#[derive(Debug, Clone)]
pub struct ServiceStats {
    pub running: u32,
    pub failed: Vec<String>,
}

/// Package hygiene as the system's package manager reports it.
#[derive(Debug, Clone)]
pub struct PackageInfo {
    /// Which package manager answered (`apt`, `dnf`, `pacman`).
    pub manager: Option<String>,
    pub broken: Vec<String>,
    /// Installed kernel image packages other than the running kernel.
    pub old_kernels: Vec<String>,
    /// What `autoremove --purge` would delete.
    pub autoremovable: Vec<String>,
    pub apt_cache_bytes: Option<u64>,
    pub pacman_cache_bytes: Option<u64>,
    pub upgradable: Option<u32>,
    pub security_upgrades: Option<u32>,
    /// Days since the package index was last refreshed.
    pub index_age_days: Option<u64>,
}

impl PackageInfo {
    /// Nothing known yet.
    pub fn empty() -> (p: PackageInfo)
        ensures
            p.manager is None,
            p.broken@.len() == 0,
            p.old_kernels@.len() == 0,
            p.autoremovable@.len() == 0,
            p.apt_cache_bytes is None,
            p.pacman_cache_bytes is None,
            p.upgradable is None,
            p.security_upgrades is None,
            p.index_age_days is None,
    {
        PackageInfo {
            manager: None,
            broken: Vec::new(),
            old_kernels: Vec::new(),
            autoremovable: Vec::new(),
            apt_cache_bytes: None,
            pacman_cache_bytes: None,
            upgradable: None,
            security_upgrades: None,
            index_age_days: None,
        }
    }
}

#[derive(Debug, Clone)]
pub struct LargeFile {
    pub path: String,
    pub bytes: u64,
}

#[derive(Debug, Clone)]
pub struct LogInfo {
    pub journal_bytes: Option<u64>,
    pub large_files: Vec<LargeFile>,
}

#[derive(Debug, Clone)]
pub struct NetworkInfo {
    pub has_default_route: bool,
    pub dns_servers: Vec<String>,
}

#[derive(Debug, Clone, Copy, PartialEq, Eq, Structural)]
pub struct SecurityInfo {
    /// `None` when no known firewall frontend could be queried.
    pub firewall_active: Option<bool>,
    /// `None` when sshd is not installed or its config is unreadable.
    pub ssh_permit_root_login: Option<bool>,
    /// Effective `PasswordAuthentication`; `None` when sshd is absent.
    pub ssh_password_auth: Option<bool>,
}

/// One disk's SMART health, as reported by `smartctl`.
#[derive(Debug, Clone)]
pub struct SmartDevice {
    pub device: String,
    pub model: String,
    /// Overall SMART self-assessment; `None` if the drive didn't report it.
    pub health_passed: Option<bool>,
    pub temperature_c: Option<i64>,
    /// ATA "Reallocated_Sector_Ct" raw value.
    pub reallocated_sectors: Option<u64>,
    /// NVMe "percentage_used" wear indicator.
    pub wear_percent: Option<u64>,
    pub power_on_hours: Option<u64>,
}

/// A bound socket, from `/proc/net/{tcp,udp}{,6}`.
#[derive(Debug, Clone)]
pub struct ListeningPort {
    pub proto: &'static str,
    pub address: String,
    pub port: u16,
    /// True when bound to an address reachable from the network rather than
    /// only the loopback interface.
    pub exposed: bool,
}

#[derive(Debug, Clone, Copy, PartialEq, Eq, Structural)]
pub struct SnapInfo {
    pub disabled_revisions: u32,
    pub snaps_dir_bytes: Option<u64>,
    /// snapd's current `refresh.retain` setting, when known.
    pub refresh_retain: Option<u32>,
}

#[derive(Debug, Clone)]
pub struct FlatpakInfo {
    /// Runtimes/extensions no application depends on any more.
    pub unused_refs: Vec<String>,
}


/// What the checkup observed, section by section. A section is `None` when
/// it could not be gathered (missing tool, denied permission); the problems
/// are recorded in `collection_errors` instead of failing the checkup.
#[derive(Debug, Clone)]
pub struct Snapshot {
    pub memory: Option<MemoryInfo>,
    pub disks: Option<Vec<DiskInfo>>,
    pub processes: Option<ProcessStats>,
    pub services: Option<ServiceStats>,
    pub packages: Option<PackageInfo>,
    pub logs: Option<LogInfo>,
    pub network: Option<NetworkInfo>,
    pub security: Option<SecurityInfo>,
    pub snap: Option<SnapInfo>,
    pub flatpak: Option<FlatpakInfo>,
    pub smart: Option<Vec<SmartDevice>>,
    pub ports: Option<Vec<ListeningPort>>,
    pub collection_errors: Vec<String>,
}

impl Snapshot {
    /// A snapshot in which nothing was gathered.
    pub fn empty() -> (s: Snapshot)
        ensures
            s.memory is None,
            s.disks is None,
            s.processes is None,
            s.services is None,
            s.packages is None,
            s.logs is None,
            s.network is None,
            s.security is None,
            s.snap is None,
            s.flatpak is None,
            s.smart is None,
            s.ports is None,
            s.collection_errors@.len() == 0,
    {
        Snapshot {
            memory: None,
            disks: None,
            processes: None,
            services: None,
            packages: None,
            logs: None,
            network: None,
            security: None,
            snap: None,
            flatpak: None,
            smart: None,
            ports: None,
            collection_errors: Vec::new(),
        }
    }
}

impl Default for Snapshot {
    fn default() -> (s: Snapshot)
        ensures
            s.memory is None,
            s.disks is None,
            s.processes is None,
            s.services is None,
            s.packages is None,
            s.logs is None,
            s.network is None,
            s.security is None,
            s.snap is None,
            s.flatpak is None,
            s.smart is None,
            s.ports is None,
            s.collection_errors@.len() == 0,
    {
        Snapshot::empty()
    }
}

impl Default for PackageInfo {
    fn default() -> (p: PackageInfo)
        ensures
            p.manager is None,
            p.broken@.len() == 0,
            p.old_kernels@.len() == 0,
            p.autoremovable@.len() == 0,
            p.apt_cache_bytes is None,
            p.pacman_cache_bytes is None,
            p.upgradable is None,
            p.security_upgrades is None,
            p.index_age_days is None,
    {
        PackageInfo::empty()
    }
}

impl Default for LogInfo {
    fn default() -> (l: LogInfo)
        ensures
            l.journal_bytes is None,
            l.large_files@.len() == 0,
    {
        LogInfo { journal_bytes: None, large_files: Vec::new() }
    }
}

impl Default for SecurityInfo {
    fn default() -> (s: SecurityInfo)
        ensures
            s.firewall_active is None,
            s.ssh_permit_root_login is None,
            s.ssh_password_auth is None,
    {
        SecurityInfo { firewall_active: None, ssh_permit_root_login: None, ssh_password_auth: None }
    }
}

impl Default for SnapInfo {
    fn default() -> (s: SnapInfo)
        ensures
            s.disabled_revisions == 0,
            s.snaps_dir_bytes is None,
            s.refresh_retain is None,
    {
        SnapInfo { disabled_revisions: 0, snaps_dir_bytes: None, refresh_retain: None }
    }
}

/// Which of the fractional readings the application gathered: load
/// averages, temperatures, boot timing, battery health.
#[derive(Debug, Clone, Copy)]
pub struct Readings {
    pub cpu: bool,
    pub thermal: bool,
    pub boot: bool,
    pub battery: bool,
}

/// Whether the checkup gathered the data category `c` is scored from.
pub open spec fn gathered(s: Snapshot, r: Readings, c: Category) -> bool {
    match c {
        Category::Boot => r.boot,
        Category::Cpu => r.cpu,
        Category::Memory => s.memory is Some,
        Category::Storage => s.disks is Some || s.smart is Some,
        Category::Thermal => r.thermal,
        Category::Processes => s.processes is Some,
        Category::Services => s.services is Some,
        Category::Packages => s.packages is Some || s.snap is Some || s.flatpak is Some,
        Category::Logs => s.logs is Some,
        Category::Network => s.network is Some,
        Category::Security => s.security is Some || s.ports is Some,
        Category::Battery => r.battery,
    }
}

impl Snapshot {
    /// The categories this checkup measured, in report order: those whose
    /// data was gathered. The others are reported as not measured and left
    /// out of the overall score.
    pub fn measured_categories(&self, readings: Readings) -> (v: Vec<Category>)
        ensures
            v@ == all_categories().filter(|c: Category| gathered(*self, readings, c)),
    {
        let all = Category::all();
        let mut v: Vec<Category> = Vec::new();
        for i in 0..all.len()
            invariant
                all@ == all_categories(),
                v@ == all_categories().take(i as int).filter(|c: Category| gathered(*self, readings, c)),
        {
            let c = all[i];
            let keep = match c {
                Category::Boot => readings.boot,
                Category::Cpu => readings.cpu,
                Category::Memory => self.memory.is_some(),
                Category::Storage => self.disks.is_some() || self.smart.is_some(),
                Category::Thermal => readings.thermal,
                Category::Processes => self.processes.is_some(),
                Category::Services => self.services.is_some(),
                Category::Packages => self.packages.is_some() || self.snap.is_some()
                    || self.flatpak.is_some(),
                Category::Logs => self.logs.is_some(),
                Category::Network => self.network.is_some(),
                Category::Security => self.security.is_some() || self.ports.is_some(),
                Category::Battery => readings.battery,
            };
            proof {
                let t = all_categories().take(i + 1);
                assert(t.drop_last() == all_categories().take(i as int));
                assert(t.last() == c);
                assert(t == all_categories().take(i as int).push(c));
                all_categories().take(i as int).lemma_filter_push(
                    c,
                    |c: Category| gathered(*self, readings, c),
                );
            }
            if keep {
                v.push(c);
            }
        }
        assert(all_categories().take(12) == all_categories());
        v
    }
}

} // verus!
