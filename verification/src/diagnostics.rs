//! The diagnostic rules: each turns a [`Snapshot`] into the findings it
//! raises, with no I/O. Rules over measurements the snapshot keeps as
//! integers or flags stand here; finding ids are stable and name the
//! category a finding is scored under (the `smart` and `flatpak` ids name
//! their data source instead).

use vstd::prelude::*;
use vstd::string::StringExecFns;

use crate::finding::{Category, Finding, Severity};
use crate::report::HealthReport;
use crate::score::{category_scores_spec, grade_of, measured_count, overall_score, worst_severity};
use crate::fixes::opt_view;
use crate::snapshot::{DiskInfo, LargeFile, ListeningPort, SmartDevice, Snapshot};
use crate::text::{clone_strings, decimal, filter_map, lemma_filter_map_step, push_decimal, push_str, views};
use crate::units::{
    gib_hundredths, gib_tenths, hundredths_text, push_gib, push_gib_hundredths, rounded, round_div,
    tenths_text,
};

verus! {

/// What a finding says: id, category, severity, title, summary, evidence
/// and fix hint.
pub type FindingView = (
    Seq<char>,
    Category,
    Severity,
    Seq<char>,
    Seq<char>,
    Seq<Seq<char>>,
    Option<Seq<char>>,
);

/// What `f` says.
pub open spec fn fview(f: Finding) -> FindingView {
    (f.id@, f.category, f.severity, f.title@, f.summary@, views(f.evidence@), opt_view(f.fix_hint))
}

/// What each finding says, in order.
pub open spec fn fviews(v: Seq<Finding>) -> Seq<FindingView> {
    v.map_values(|f: Finding| fview(f))
}

fn finding(
    id: &str,
    category: Category,
    severity: Severity,
    title: &str,
    summary: &str,
    evidence: Vec<String>,
    hint: Option<&str>,
) -> (f: Finding)
    ensures
        fview(f) == (
            id@,
            category,
            severity,
            title@,
            summary@,
            views(evidence@),
            match hint {
                Some(h) => Some(h@),
                None => None::<Seq<char>>,
            },
        ),
{
    let f = Finding::new(id, category, severity, title, summary).with_evidence(evidence);
    match hint {
        Some(h) => f.with_fix_hint(h),
        None => f,
    }
}

fn just(f: Finding) -> (v: Vec<Finding>)
    ensures
        fviews(v@) == seq![fview(f)],
{
    let v = vec![f];
    assert(fviews(v@) =~= seq![fview(f)]);
    v
}

fn none() -> (v: Vec<Finding>)
    ensures
        fviews(v@) == Seq::<FindingView>::empty(),
{
    let v: Vec<Finding> = Vec::new();
    assert(fviews(v@) =~= Seq::<FindingView>::empty());
    v
}

/// What the zombie rule raises: one finding listing the zombies, Medium
/// from ten of them, else Low.
pub open spec fn zombies_spec(s: Snapshot) -> Seq<FindingView> {
    match s.processes {
        Some(p) if p.zombies@.len() > 0 => seq![
            (
                "processes.zombies"@,
                Category::Processes,
                if p.zombies@.len() >= 10 {
                    Severity::Medium
                } else {
                    Severity::Low
                },
                decimal(p.zombies@.len()) + " zombie process(es) found"@,
                "Zombie processes are dead but their parent never collected their exit status."@,
                views(p.zombies@),
                None,
            ),
        ],
        _ => Seq::empty(),
    }
}

pub fn zombies(s: &Snapshot) -> (r: Vec<Finding>)
    ensures
        fviews(r@) == zombies_spec(*s),
{
    match &s.processes {
        Some(p) if p.zombies.len() > 0 => {
            let n = p.zombies.len();
            let mut title = String::new();
            push_decimal(&mut title, n as u64);
            push_str(&mut title, " zombie process(es) found");
            just(
                finding(
                    "processes.zombies",
                    Category::Processes,
                    if n >= 10 {
                        Severity::Medium
                    } else {
                        Severity::Low
                    },
                    title.as_str(),
                    "Zombie processes are dead but their parent never collected their exit status.",
                    clone_strings(&p.zombies),
                    None,
                ),
            )
        },
        _ => none(),
    }
}

/// What the failed-units rule raises: one High finding listing the units.
pub open spec fn failed_units_spec(s: Snapshot) -> Seq<FindingView> {
    match s.services {
        Some(sv) if sv.failed@.len() > 0 => seq![
            (
                "services.failed"@,
                Category::Services,
                Severity::High,
                decimal(sv.failed@.len()) + " systemd unit(s) in failed state"@,
                "Failed units mean something the system was asked to run is broken."@,
                views(sv.failed@),
                Some("systemctl status <unit> && journalctl -u <unit> -b"@),
            ),
        ],
        _ => Seq::empty(),
    }
}

pub fn failed_units(s: &Snapshot) -> (r: Vec<Finding>)
    ensures
        fviews(r@) == failed_units_spec(*s),
{
    match &s.services {
        Some(sv) if sv.failed.len() > 0 => {
            let mut title = String::new();
            push_decimal(&mut title, sv.failed.len() as u64);
            push_str(&mut title, " systemd unit(s) in failed state");
            just(
                finding(
                    "services.failed",
                    Category::Services,
                    Severity::High,
                    title.as_str(),
                    "Failed units mean something the system was asked to run is broken.",
                    clone_strings(&sv.failed),
                    Some("systemctl status <unit> && journalctl -u <unit> -b"),
                ),
            )
        },
        _ => none(),
    }
}

/// What the broken-packages rule raises: one High finding listing them.
pub open spec fn broken_spec(s: Snapshot) -> Seq<FindingView> {
    match s.packages {
        Some(p) if p.broken@.len() > 0 => seq![
            (
                "packages.broken"@,
                Category::Packages,
                Severity::High,
                decimal(p.broken@.len()) + " broken package(s)"@,
                "The dpkg database reports packages in an inconsistent state."@,
                views(p.broken@),
                Some("sudo apt --fix-broken install"@),
            ),
        ],
        _ => Seq::empty(),
    }
}

pub fn broken(s: &Snapshot) -> (r: Vec<Finding>)
    ensures
        fviews(r@) == broken_spec(*s),
{
    match &s.packages {
        Some(p) if p.broken.len() > 0 => {
            let mut title = String::new();
            push_decimal(&mut title, p.broken.len() as u64);
            push_str(&mut title, " broken package(s)");
            just(
                finding(
                    "packages.broken",
                    Category::Packages,
                    Severity::High,
                    title.as_str(),
                    "The dpkg database reports packages in an inconsistent state.",
                    clone_strings(&p.broken),
                    Some("sudo apt --fix-broken install"),
                ),
            )
        },
        _ => none(),
    }
}

/// Old kernels beyond this many raise a finding (the running kernel and one
/// fallback stay).
pub const OLD_KERNELS_KEPT: usize = 2;

/// What the old-kernels rule raises: one Low finding, when more than
/// [`OLD_KERNELS_KEPT`] old kernels are installed.
pub open spec fn old_kernels_spec(s: Snapshot) -> Seq<FindingView> {
    match s.packages {
        Some(p) if p.old_kernels@.len() > OLD_KERNELS_KEPT => seq![
            (
                "packages.old_kernels"@,
                Category::Packages,
                Severity::Low,
                decimal(p.old_kernels@.len()) + " old kernel(s) installed"@,
                "Old kernel images take space in /boot; keeping one fallback is enough."@,
                views(p.old_kernels@),
                Some("sudo apt autoremove --purge"@),
            ),
        ],
        _ => Seq::empty(),
    }
}

pub fn old_kernels(s: &Snapshot) -> (r: Vec<Finding>)
    ensures
        fviews(r@) == old_kernels_spec(*s),
{
    match &s.packages {
        Some(p) if p.old_kernels.len() > OLD_KERNELS_KEPT => {
            let mut title = String::new();
            push_decimal(&mut title, p.old_kernels.len() as u64);
            push_str(&mut title, " old kernel(s) installed");
            just(
                finding(
                    "packages.old_kernels",
                    Category::Packages,
                    Severity::Low,
                    title.as_str(),
                    "Old kernel images take space in /boot; keeping one fallback is enough.",
                    clone_strings(&p.old_kernels),
                    Some("sudo apt autoremove --purge"),
                ),
            )
        },
        _ => none(),
    }
}

/// APT cache size that raises `packages.apt_cache_large`.
pub const APT_CACHE_LARGE_BYTES: u64 = 1073741824;

/// What the APT-cache rule raises: one Low finding from 1 GiB.
pub open spec fn apt_cache_large_spec(s: Snapshot) -> Seq<FindingView> {
    match s.packages {
        Some(p) => match p.apt_cache_bytes {
            Some(b) if b >= APT_CACHE_LARGE_BYTES => seq![
                (
                    "packages.apt_cache_large"@,
                    Category::Packages,
                    Severity::Low,
                    "APT package cache holds "@ + tenths_text(gib_tenths(b as nat)) + " GiB"@,
                    "Downloaded .deb files in /var/cache/apt/archives are safe to delete."@,
                    Seq::empty(),
                    Some("sudo apt clean"@),
                ),
            ],
            _ => Seq::empty(),
        },
        None => Seq::empty(),
    }
}

pub fn apt_cache_large(s: &Snapshot) -> (r: Vec<Finding>)
    ensures
        fviews(r@) == apt_cache_large_spec(*s),
{
    let b = match &s.packages {
        Some(p) => match p.apt_cache_bytes {
            Some(b) => b,
            None => return none(),
        },
        None => return none(),
    };
    if b < APT_CACHE_LARGE_BYTES {
        return none();
    }
    let mut title = String::from_str("APT package cache holds ");
    push_gib(&mut title, b);
    push_str(&mut title, " GiB");
    let ev: Vec<String> = Vec::new();
    assert(views(ev@) =~= Seq::<Seq<char>>::empty());
    just(
        finding(
            "packages.apt_cache_large",
            Category::Packages,
            Severity::Low,
            title.as_str(),
            "Downloaded .deb files in /var/cache/apt/archives are safe to delete.",
            ev,
            Some("sudo apt clean"),
        ),
    )
}

/// Pending updates beyond this many raise `packages.upgrades_pending`.
pub const UPGRADABLE_BACKLOG: u32 = 20;

/// What the security-updates rule raises: one High finding when any
/// security update is pending.
pub open spec fn security_updates_spec(s: Snapshot) -> Seq<FindingView> {
    match s.packages {
        Some(p) => match p.security_upgrades {
            Some(n) if n > 0 => seq![
                (
                    "security.updates_pending"@,
                    Category::Security,
                    Severity::High,
                    decimal(n as nat) + " security update(s) pending"@,
                    "Packages with known security fixes are waiting to be installed."@,
                    Seq::empty(),
                    Some("sudo apt update && sudo apt upgrade"@),
                ),
            ],
            _ => Seq::empty(),
        },
        None => Seq::empty(),
    }
}

fn no_evidence() -> (v: Vec<String>)
    ensures
        views(v@) == Seq::<Seq<char>>::empty(),
{
    let v: Vec<String> = Vec::new();
    assert(views(v@) =~= Seq::<Seq<char>>::empty());
    v
}

pub fn security_updates(s: &Snapshot) -> (r: Vec<Finding>)
    ensures
        fviews(r@) == security_updates_spec(*s),
{
    let n = match &s.packages {
        Some(p) => match p.security_upgrades {
            Some(n) => n,
            None => return none(),
        },
        None => return none(),
    };
    if n == 0 {
        return none();
    }
    let mut title = String::new();
    push_decimal(&mut title, n as u64);
    push_str(&mut title, " security update(s) pending");
    just(
        finding(
            "security.updates_pending",
            Category::Security,
            Severity::High,
            title.as_str(),
            "Packages with known security fixes are waiting to be installed.",
            no_evidence(),
            Some("sudo apt update && sudo apt upgrade"),
        ),
    )
}

/// What the pending-upgrades rule raises: one Low finding beyond
/// [`UPGRADABLE_BACKLOG`] pending updates.
pub open spec fn upgrades_pending_spec(s: Snapshot) -> Seq<FindingView> {
    match s.packages {
        Some(p) => match p.upgradable {
            Some(n) if n > UPGRADABLE_BACKLOG => seq![
                (
                    "packages.upgrades_pending"@,
                    Category::Packages,
                    Severity::Low,
                    decimal(n as nat) + " package update(s) pending"@,
                    "A large backlog of updates accumulates bugs already fixed upstream."@,
                    Seq::empty(),
                    Some("sudo apt update && sudo apt upgrade"@),
                ),
            ],
            _ => Seq::empty(),
        },
        None => Seq::empty(),
    }
}

pub fn upgrades_pending(s: &Snapshot) -> (r: Vec<Finding>)
    ensures
        fviews(r@) == upgrades_pending_spec(*s),
{
    let n = match &s.packages {
        Some(p) => match p.upgradable {
            Some(n) => n,
            None => return none(),
        },
        None => return none(),
    };
    if n <= UPGRADABLE_BACKLOG {
        return none();
    }
    let mut title = String::new();
    push_decimal(&mut title, n as u64);
    push_str(&mut title, " package update(s) pending");
    just(
        finding(
            "packages.upgrades_pending",
            Category::Packages,
            Severity::Low,
            title.as_str(),
            "A large backlog of updates accumulates bugs already fixed upstream.",
            no_evidence(),
            Some("sudo apt update && sudo apt upgrade"),
        ),
    )
}

/// Journal size from which `logs.journal_large` is raised (Medium).
pub const JOURNAL_LARGE_BYTES: u64 = 1073741824;

/// Journal size from which the finding is High.
pub const JOURNAL_HUGE_BYTES: u64 = 4294967296;

/// What the journal rule raises: Medium from 1 GiB, High from 4 GiB.
pub open spec fn journal_large_spec(s: Snapshot) -> Seq<FindingView> {
    match s.logs {
        Some(l) => match l.journal_bytes {
            Some(b) if b >= JOURNAL_LARGE_BYTES => seq![
                (
                    "logs.journal_large"@,
                    Category::Logs,
                    if b >= JOURNAL_HUGE_BYTES {
                        Severity::High
                    } else {
                        Severity::Medium
                    },
                    "systemd journal uses "@ + tenths_text(gib_tenths(b as nat)) + " GiB"@,
                    "The journal grows unbounded unless a size limit is set."@,
                    Seq::empty(),
                    Some("sudo journalctl --vacuum-size=200M"@),
                ),
            ],
            _ => Seq::empty(),
        },
        None => Seq::empty(),
    }
}

pub fn journal_large(s: &Snapshot) -> (r: Vec<Finding>)
    ensures
        fviews(r@) == journal_large_spec(*s),
{
    let b = match &s.logs {
        Some(l) => match l.journal_bytes {
            Some(b) => b,
            None => return none(),
        },
        None => return none(),
    };
    if b < JOURNAL_LARGE_BYTES {
        return none();
    }
    let mut title = String::from_str("systemd journal uses ");
    push_gib(&mut title, b);
    push_str(&mut title, " GiB");
    just(
        finding(
            "logs.journal_large",
            Category::Logs,
            if b >= JOURNAL_HUGE_BYTES {
                Severity::High
            } else {
                Severity::Medium
            },
            title.as_str(),
            "The journal grows unbounded unless a size limit is set.",
            no_evidence(),
            Some("sudo journalctl --vacuum-size=200M"),
        ),
    )
}

/// The largest size among `files` (0 for none).
pub open spec fn biggest(files: Seq<LargeFile>) -> nat
    decreases files.len(),
{
    if files.len() == 0 {
        0
    } else {
        let rest = biggest(files.drop_last());
        if files.last().bytes as nat > rest {
            files.last().bytes as nat
        } else {
            rest
        }
    }
}

/// How a large log file is listed: its size in GiB with two decimals, then
/// its path.
pub open spec fn large_file_line(f: LargeFile) -> Seq<char> {
    hundredths_text(gib_hundredths(f.bytes as nat)) + " GiB "@ + f.path@
}

/// What the large-log-files rule raises: one finding listing them, Medium
/// when the biggest reaches 1 GiB, else Low.
pub open spec fn large_files_spec(s: Snapshot) -> Seq<FindingView> {
    match s.logs {
        Some(l) if l.large_files@.len() > 0 => seq![
            (
                "logs.large_files"@,
                Category::Logs,
                if biggest(l.large_files@) >= 1073741824 {
                    Severity::Medium
                } else {
                    Severity::Low
                },
                decimal(l.large_files@.len()) + " oversized log file(s) in /var/log"@,
                "A log growing this large usually means a service is erroring in a loop."@,
                l.large_files@.map_values(|f: LargeFile| large_file_line(f)),
                None,
            ),
        ],
        _ => Seq::empty(),
    }
}

pub fn large_files(s: &Snapshot) -> (r: Vec<Finding>)
    ensures
        fviews(r@) == large_files_spec(*s),
{
    let files = match &s.logs {
        Some(l) if l.large_files.len() > 0 => &l.large_files,
        _ => return none(),
    };
    let mut big: u64 = 0;
    let mut evidence: Vec<String> = Vec::new();
    for i in 0..files.len()
        invariant
            big == biggest(files@.take(i as int)),
            views(evidence@) == files@.take(i as int).map_values(|f: LargeFile| large_file_line(f)),
    {
        let f = &files[i];
        proof {
            let t = files@.take(i + 1);
            assert(t.drop_last() == files@.take(i as int));
            assert(t.last() == files@[i as int]);
        }
        if f.bytes > big {
            big = f.bytes;
        }
        let mut line = String::new();
        push_gib_hundredths(&mut line, f.bytes);
        push_str(&mut line, " GiB ");
        push_str(&mut line, f.path.as_str());
        let ghost before = evidence@;
        evidence.push(line);
        assert(views(evidence@) =~= views(before).push(large_file_line(files@[i as int])));
        assert(files@.take(i + 1).map_values(|f: LargeFile| large_file_line(f)) =~= files@.take(
            i as int,
        ).map_values(|f: LargeFile| large_file_line(f)).push(large_file_line(files@[i as int])));
    }
    assert(files@.take(files@.len() as int) == files@);
    let mut title = String::new();
    push_decimal(&mut title, files.len() as u64);
    push_str(&mut title, " oversized log file(s) in /var/log");
    just(
        finding(
            "logs.large_files",
            Category::Logs,
            if big >= 1073741824 {
                Severity::Medium
            } else {
                Severity::Low
            },
            title.as_str(),
            "A log growing this large usually means a service is erroring in a loop.",
            evidence,
            None,
        ),
    )
}

/// What the snap rule raises: one Low finding while snapd keeps disabled
/// revisions, naming the store's size when it is known.
pub open spec fn old_revisions_spec(s: Snapshot) -> Seq<FindingView> {
    match s.snap {
        Some(sn) if sn.disabled_revisions != 0 => seq![
            (
                "storage.snap_old_revisions"@,
                Category::Storage,
                Severity::Low,
                decimal(sn.disabled_revisions as nat) + " disabled snap revision(s) kept on disk"@,
                "Snapd keeps old revisions of every snap after updates."@ + match sn.snaps_dir_bytes {
                    Some(b) => " Snap store on disk: "@ + tenths_text(gib_tenths(b as nat)) + " GiB."@,
                    None => Seq::empty(),
                },
                Seq::empty(),
                Some("sudo snap set system refresh.retain=2"@),
            ),
        ],
        _ => Seq::empty(),
    }
}

pub fn old_revisions(s: &Snapshot) -> (r: Vec<Finding>)
    ensures
        fviews(r@) == old_revisions_spec(*s),
{
    let sn = match &s.snap {
        Some(sn) if sn.disabled_revisions != 0 => sn,
        _ => return none(),
    };
    let mut title = String::new();
    push_decimal(&mut title, sn.disabled_revisions as u64);
    push_str(&mut title, " disabled snap revision(s) kept on disk");
    let mut summary = String::from_str("Snapd keeps old revisions of every snap after updates.");
    match sn.snaps_dir_bytes {
        Some(b) => {
            push_str(&mut summary, " Snap store on disk: ");
            push_gib(&mut summary, b);
            push_str(&mut summary, " GiB.");
        },
        None => {},
    }
    assert(summary@ =~= "Snapd keeps old revisions of every snap after updates."@ + match sn.snaps_dir_bytes {
        Some(b) => " Snap store on disk: "@ + tenths_text(gib_tenths(b as nat)) + " GiB."@,
        None => Seq::<char>::empty(),
    });
    just(
        finding(
            "storage.snap_old_revisions",
            Category::Storage,
            Severity::Low,
            title.as_str(),
            summary.as_str(),
            no_evidence(),
            Some("sudo snap set system refresh.retain=2"),
        ),
    )
}

/// What the Flatpak rule raises: one Low finding listing unused runtimes.
pub open spec fn unused_runtimes_spec(s: Snapshot) -> Seq<FindingView> {
    match s.flatpak {
        Some(f) if f.unused_refs@.len() > 0 => seq![
            (
                "flatpak.unused_runtimes"@,
                Category::Storage,
                Severity::Low,
                decimal(f.unused_refs@.len()) + " unused Flatpak runtime(s) installed"@,
                "Flatpak runtimes left behind by removed apps still occupy disk space."@,
                views(f.unused_refs@),
                Some("flatpak uninstall --unused"@),
            ),
        ],
        _ => Seq::empty(),
    }
}

pub fn unused_runtimes(s: &Snapshot) -> (r: Vec<Finding>)
    ensures
        fviews(r@) == unused_runtimes_spec(*s),
{
    match &s.flatpak {
        Some(f) if f.unused_refs.len() > 0 => {
            let mut title = String::new();
            push_decimal(&mut title, f.unused_refs.len() as u64);
            push_str(&mut title, " unused Flatpak runtime(s) installed");
            just(
                finding(
                    "flatpak.unused_runtimes",
                    Category::Storage,
                    Severity::Low,
                    title.as_str(),
                    "Flatpak runtimes left behind by removed apps still occupy disk space.",
                    clone_strings(&f.unused_refs),
                    Some("flatpak uninstall --unused"),
                ),
            )
        },
        _ => none(),
    }
}

/// What the default-route rule raises: one High finding without a route.
pub open spec fn no_default_route_spec(s: Snapshot) -> Seq<FindingView> {
    match s.network {
        Some(n) if !n.has_default_route => seq![
            (
                "network.no_default_route"@,
                Category::Network,
                Severity::High,
                "No default network route"@,
                "Without a default route the system cannot reach the internet."@,
                Seq::empty(),
                None,
            ),
        ],
        _ => Seq::empty(),
    }
}

pub fn no_default_route(s: &Snapshot) -> (r: Vec<Finding>)
    ensures
        fviews(r@) == no_default_route_spec(*s),
{
    match &s.network {
        Some(n) if !n.has_default_route => just(
            finding(
                "network.no_default_route",
                Category::Network,
                Severity::High,
                "No default network route",
                "Without a default route the system cannot reach the internet.",
                no_evidence(),
                None,
            ),
        ),
        _ => none(),
    }
}

/// What the DNS rule raises: one Medium finding without nameservers.
pub open spec fn no_dns_spec(s: Snapshot) -> Seq<FindingView> {
    match s.network {
        Some(n) if n.dns_servers@.len() == 0 => seq![
            (
                "network.no_dns"@,
                Category::Network,
                Severity::Medium,
                "No DNS servers configured"@,
                "Name resolution will fail: /etc/resolv.conf lists no nameservers."@,
                Seq::empty(),
                None,
            ),
        ],
        _ => Seq::empty(),
    }
}

pub fn no_dns(s: &Snapshot) -> (r: Vec<Finding>)
    ensures
        fviews(r@) == no_dns_spec(*s),
{
    match &s.network {
        Some(n) if n.dns_servers.len() == 0 => just(
            finding(
                "network.no_dns",
                Category::Network,
                Severity::Medium,
                "No DNS servers configured",
                "Name resolution will fail: /etc/resolv.conf lists no nameservers.",
                no_evidence(),
                None,
            ),
        ),
        _ => none(),
    }
}

/// What the root-login rule raises: one High finding only when sshd is
/// known to allow root login outright.
pub open spec fn ssh_root_login_spec(s: Snapshot) -> Seq<FindingView> {
    match s.security {
        Some(sec) if sec.ssh_permit_root_login == Some(true) => seq![
            (
                "security.ssh_root_login"@,
                Category::Security,
                Severity::High,
                "SSH allows direct root login"@,
                "sshd_config sets PermitRootLogin yes, exposing the root account to password guessing."@,
                Seq::empty(),
                Some("set 'PermitRootLogin prohibit-password' in /etc/ssh/sshd_config"@),
            ),
        ],
        _ => Seq::empty(),
    }
}

pub fn ssh_root_login(s: &Snapshot) -> (r: Vec<Finding>)
    ensures
        fviews(r@) == ssh_root_login_spec(*s),
{
    match &s.security {
        Some(sec) if sec.ssh_permit_root_login == Some(true) => just(
            finding(
                "security.ssh_root_login",
                Category::Security,
                Severity::High,
                "SSH allows direct root login",
                "sshd_config sets PermitRootLogin yes, exposing the root account to password guessing.",
                no_evidence(),
                Some("set 'PermitRootLogin prohibit-password' in /etc/ssh/sshd_config"),
            ),
        ),
        _ => none(),
    }
}

/// What the firewall rule raises: one Medium finding when ufw is known to
/// be inactive.
pub open spec fn firewall_inactive_spec(s: Snapshot) -> Seq<FindingView> {
    match s.security {
        Some(sec) if sec.firewall_active == Some(false) => seq![
            (
                "security.firewall_inactive"@,
                Category::Security,
                Severity::Medium,
                "Firewall is installed but inactive"@,
                "ufw is present but not enabled; all listening services are exposed to the local network."@,
                Seq::empty(),
                Some("sudo ufw enable"@),
            ),
        ],
        _ => Seq::empty(),
    }
}

pub fn firewall_inactive(s: &Snapshot) -> (r: Vec<Finding>)
    ensures
        fviews(r@) == firewall_inactive_spec(*s),
{
    match &s.security {
        Some(sec) if sec.firewall_active == Some(false) => just(
            finding(
                "security.firewall_inactive",
                Category::Security,
                Severity::Medium,
                "Firewall is installed but inactive",
                "ufw is present but not enabled; all listening services are exposed to the local network.",
                no_evidence(),
                Some("sudo ufw enable"),
            ),
        ),
        _ => none(),
    }
}

/// What the password-login rule raises: one Medium finding when sshd is
/// known to accept passwords.
pub open spec fn ssh_password_auth_spec(s: Snapshot) -> Seq<FindingView> {
    match s.security {
        Some(sec) if sec.ssh_password_auth == Some(true) => seq![
            (
                "security.ssh_password_auth"@,
                Category::Security,
                Severity::Medium,
                "SSH accepts password logins"@,
                "sshd allows password authentication, which is vulnerable to brute-force guessing."@,
                Seq::empty(),
                Some("use key-based auth and set 'PasswordAuthentication no'"@),
            ),
        ],
        _ => Seq::empty(),
    }
}

pub fn ssh_password_auth(s: &Snapshot) -> (r: Vec<Finding>)
    ensures
        fviews(r@) == ssh_password_auth_spec(*s),
{
    match &s.security {
        Some(sec) if sec.ssh_password_auth == Some(true) => just(
            finding(
                "security.ssh_password_auth",
                Category::Security,
                Severity::Medium,
                "SSH accepts password logins",
                "sshd allows password authentication, which is vulnerable to brute-force guessing.",
                no_evidence(),
                Some("use key-based auth and set 'PasswordAuthentication no'"),
            ),
        ),
        _ => none(),
    }
}

/// How an exposed port is listed: `port/proto on address`.
pub open spec fn exposed_line(p: ListeningPort) -> Option<Seq<char>> {
    if p.exposed {
        Some(decimal(p.port as nat) + "/"@ + p.proto@ + " on "@ + p.address@)
    } else {
        None
    }
}

/// [`exposed_line`] as a function value.
pub open spec fn exposed_fn() -> spec_fn(ListeningPort) -> Option<Seq<char>> {
    |p: ListeningPort| exposed_line(p)
}

/// What the exposed-ports rule raises: one Low finding listing every port
/// reachable from the network.
pub open spec fn exposed_ports_spec(s: Snapshot) -> Seq<FindingView> {
    match s.ports {
        Some(ps) => {
            let ev = filter_map(ps@, exposed_fn());
            if ev.len() > 0 {
                seq![
                    (
                        "security.exposed_ports"@,
                        Category::Security,
                        Severity::Low,
                        decimal(ev.len()) + " service(s) listening on the network"@,
                        "These ports accept connections from other machines. Make sure each is intended, and let the firewall cover the rest."@,
                        ev,
                        Some("review with `ss -tulnp`; enable ufw to gate access"@),
                    ),
                ]
            } else {
                Seq::empty()
            }
        },
        None => Seq::empty(),
    }
}

pub fn exposed_ports(s: &Snapshot) -> (r: Vec<Finding>)
    ensures
        fviews(r@) == exposed_ports_spec(*s),
{
    let ps = match &s.ports {
        Some(ps) => ps,
        None => return none(),
    };
    let ghost f = exposed_fn();
    let mut ev: Vec<String> = Vec::new();
    for i in 0..ps.len()
        invariant
            f == exposed_fn(),
            views(ev@) == filter_map(ps@.take(i as int), f),
    {
        proof {
            lemma_filter_map_step(ps@, f, i as int);
        }
        let p = &ps[i];
        assert(f(ps@[i as int]) == exposed_line(*p));
        if p.exposed {
            let mut line = String::new();
            push_decimal(&mut line, p.port as u64);
            push_str(&mut line, "/");
            push_str(&mut line, p.proto);
            push_str(&mut line, " on ");
            push_str(&mut line, p.address.as_str());
            let ghost before = ev@;
            ev.push(line);
            assert(views(ev@) =~= views(before).push(exposed_line(*p).unwrap()));
        }
    }
    assert(ps@.take(ps@.len() as int) == ps@);
    if ev.len() == 0 {
        return none();
    }
    let mut title = String::new();
    push_decimal(&mut title, ev.len() as u64);
    push_str(&mut title, " service(s) listening on the network");
    just(
        finding(
            "security.exposed_ports",
            Category::Security,
            Severity::Low,
            title.as_str(),
            "These ports accept connections from other machines. Make sure each is intended, and let the firewall cover the rest.",
            ev,
            Some("review with `ss -tulnp`; enable ufw to gate access"),
        ),
    )
}

/// What the SMART rule says of a drive that failed its self-assessment.
pub open spec fn failing_of(d: SmartDevice) -> Option<FindingView> {
    if d.health_passed == Some(false) {
        Some(
            (
                "smart.failing"@,
                Category::Storage,
                Severity::Critical,
                "Drive "@ + d.device@ + " reports SMART failure"@,
                d.device@ + " ("@ + d.model@ + ") failed its SMART self-assessment — the disk is predicting imminent failure."@,
                Seq::empty(),
                Some("back up immediately and plan to replace the drive"@),
            ),
        )
    } else {
        None
    }
}

/// Reallocated sectors from which the finding is High.
pub const REALLOCATED_HIGH: u64 = 50;

/// What the SMART rule says of a drive with reallocated sectors: Medium,
/// High from [`REALLOCATED_HIGH`].
pub open spec fn reallocated_of(d: SmartDevice) -> Option<FindingView> {
    match d.reallocated_sectors {
        Some(n) if n > 0 => Some(
            (
                "smart.reallocated_sectors"@,
                Category::Storage,
                if n >= REALLOCATED_HIGH {
                    Severity::High
                } else {
                    Severity::Medium
                },
                d.device@ + " has "@ + decimal(n as nat) + " reallocated sector(s)"@,
                "The drive has remapped bad sectors. A rising count signals physical degradation."@,
                Seq::empty(),
                Some("back up important data and monitor the count over time"@),
            ),
        ),
        _ => None,
    }
}

/// Wear from which `smart.ssd_wear` is raised (Medium).
pub const WEAR_PCT: u64 = 80;

/// Wear from which the finding is High.
pub const WEAR_HIGH_PCT: u64 = 100;

/// What the SMART rule says of a worn SSD: Medium from [`WEAR_PCT`], High
/// from [`WEAR_HIGH_PCT`].
pub open spec fn wear_of(d: SmartDevice) -> Option<FindingView> {
    match d.wear_percent {
        Some(w) if w >= WEAR_PCT => Some(
            (
                "smart.ssd_wear"@,
                Category::Storage,
                if w >= WEAR_HIGH_PCT {
                    Severity::High
                } else {
                    Severity::Medium
                },
                "SSD "@ + d.device@ + " is "@ + decimal(w as nat) + "% through its rated write life"@,
                "NVMe wear indicator is high; the drive is nearing the endurance it was rated for."@,
                Seq::empty(),
                Some("ensure backups; plan replacement as it approaches 100%"@),
            ),
        ),
        _ => None,
    }
}

/// The three SMART rules, by number.
pub open spec fn smart_rule(k: nat) -> spec_fn(SmartDevice) -> Option<FindingView> {
    if k == 0 {
        |d: SmartDevice| failing_of(d)
    } else if k == 1 {
        |d: SmartDevice| reallocated_of(d)
    } else {
        |d: SmartDevice| wear_of(d)
    }
}

/// What SMART rule `k` raises: one finding per drive it applies to.
pub open spec fn smart_spec(s: Snapshot, k: nat) -> Seq<FindingView> {
    match s.smart {
        Some(ds) => filter_map(ds@, smart_rule(k)),
        None => Seq::empty(),
    }
}

fn smart_finding(d: &SmartDevice, k: u8) -> (r: Option<Finding>)
    requires
        k <= 2,
    ensures
        match r {
            Some(f) => smart_rule(k as nat)(*d) == Some(fview(f)),
            None => smart_rule(k as nat)(*d) is None,
        },
{
    if k == 0 {
        if d.health_passed != Some(false) {
            return None;
        }
        let mut title = String::from_str("Drive ");
        push_str(&mut title, d.device.as_str());
        push_str(&mut title, " reports SMART failure");
        let mut summary = String::from_str(d.device.as_str());
        push_str(&mut summary, " (");
        push_str(&mut summary, d.model.as_str());
        push_str(
            &mut summary,
            ") failed its SMART self-assessment — the disk is predicting imminent failure.",
        );
        Some(
            finding(
                "smart.failing",
                Category::Storage,
                Severity::Critical,
                title.as_str(),
                summary.as_str(),
                no_evidence(),
                Some("back up immediately and plan to replace the drive"),
            ),
        )
    } else if k == 1 {
        let n = match d.reallocated_sectors {
            Some(n) if n > 0 => n,
            _ => return None,
        };
        let mut title = String::from_str(d.device.as_str());
        push_str(&mut title, " has ");
        push_decimal(&mut title, n);
        push_str(&mut title, " reallocated sector(s)");
        Some(
            finding(
                "smart.reallocated_sectors",
                Category::Storage,
                if n >= REALLOCATED_HIGH {
                    Severity::High
                } else {
                    Severity::Medium
                },
                title.as_str(),
                "The drive has remapped bad sectors. A rising count signals physical degradation.",
                no_evidence(),
                Some("back up important data and monitor the count over time"),
            ),
        )
    } else {
        let w = match d.wear_percent {
            Some(w) if w >= WEAR_PCT => w,
            _ => return None,
        };
        let mut title = String::from_str("SSD ");
        push_str(&mut title, d.device.as_str());
        push_str(&mut title, " is ");
        push_decimal(&mut title, w);
        push_str(&mut title, "% through its rated write life");
        Some(
            finding(
                "smart.ssd_wear",
                Category::Storage,
                if w >= WEAR_HIGH_PCT {
                    Severity::High
                } else {
                    Severity::Medium
                },
                title.as_str(),
                "NVMe wear indicator is high; the drive is nearing the endurance it was rated for.",
                no_evidence(),
                Some("ensure backups; plan replacement as it approaches 100%"),
            ),
        )
    }
}

fn smart_findings(s: &Snapshot, k: u8) -> (r: Vec<Finding>)
    requires
        k <= 2,
    ensures
        fviews(r@) == smart_spec(*s, k as nat),
{
    let ds = match &s.smart {
        Some(ds) => ds,
        None => return none(),
    };
    let ghost f = smart_rule(k as nat);
    let mut r: Vec<Finding> = Vec::new();
    for i in 0..ds.len()
        invariant
            k <= 2,
            f == smart_rule(k as nat),
            fviews(r@) == filter_map(ds@.take(i as int), f),
    {
        proof {
            lemma_filter_map_step(ds@, f, i as int);
        }
        match smart_finding(&ds[i], k) {
            Some(x) => {
                let ghost before = r@;
                r.push(x);
                assert(fviews(r@) =~= fviews(before).push(fview(x)));
            },
            None => {},
        }
    }
    assert(ds@.take(ds@.len() as int) == ds@);
    r
}

/// Drives that failed their SMART self-assessment: one Critical finding each.
pub fn failing(s: &Snapshot) -> (r: Vec<Finding>)
    ensures
        fviews(r@) == smart_spec(*s, 0),
{
    smart_findings(s, 0)
}

/// Drives with reallocated sectors: one finding each.
pub fn reallocated_sectors(s: &Snapshot) -> (r: Vec<Finding>)
    ensures
        fviews(r@) == smart_spec(*s, 1),
{
    smart_findings(s, 1)
}

/// Worn SSDs: one finding each.
pub fn ssd_wear(s: &Snapshot) -> (r: Vec<Finding>)
    ensures
        fviews(r@) == smart_spec(*s, 2),
{
    smart_findings(s, 2)
}

/// Bytes of a filesystem in use: its size less what is available (never
/// below zero).
pub open spec fn used_bytes(d: DiskInfo) -> nat {
    if d.total_bytes >= d.available_bytes {
        (d.total_bytes - d.available_bytes) as nat
    } else {
        0
    }
}

/// Percent used from which `storage.disk_nearly_full` is raised (Medium).
pub const DISK_FINDING_PCT: u64 = 85;

/// Percent used from which it is Critical.
pub const DISK_CRITICAL_PCT: u64 = 95;

/// What the disk rule says of one filesystem: Medium from 85% used,
/// Critical from 95%; the title gives the whole percentage (halves to
/// even), the summary the free and total size in GiB with one decimal.
pub open spec fn disk_of(d: DiskInfo) -> Option<FindingView> {
    let used = used_bytes(d);
    let total = d.total_bytes as nat;
    if total > 0 && used * 100 >= DISK_FINDING_PCT * total {
        Some(
            (
                "storage.disk_nearly_full"@,
                Category::Storage,
                if used * 100 >= DISK_CRITICAL_PCT * total {
                    Severity::Critical
                } else {
                    Severity::Medium
                },
                "Filesystem "@ + d.mount_point@ + " is "@ + decimal(rounded(used * 100, total))
                    + "% full"@,
                "Only "@ + tenths_text(gib_tenths(d.available_bytes as nat)) + " GiB free of "@
                    + tenths_text(gib_tenths(total)) + " GiB on "@ + d.mount_point@ + "."@,
                Seq::empty(),
                Some("sudo journalctl --vacuum-size=200M"@),
            ),
        )
    } else {
        None
    }
}

/// Law: the disk rule raises `storage.disk_nearly_full`, under Storage,
/// exactly for a filesystem of some size at least 85% of which is in use
/// (used being its size less what is available); the finding is Critical
/// from 95% used and Medium below, and its title names the mount point.
pub proof fn lemma_disk_rule_fires_from_85_percent(d: DiskInfo)
    ensures
        DISK_FINDING_PCT == 85,
        DISK_CRITICAL_PCT == 95,
        disk_of(d) is Some <==> d.total_bytes > 0 && (if d.total_bytes >= d.available_bytes {
            d.total_bytes - d.available_bytes
        } else {
            0
        }) * 100 >= 85 * d.total_bytes,
        disk_of(d) matches Some(v) ==> {
            &&& v.0 == "storage.disk_nearly_full"@
            &&& v.1 == Category::Storage
            &&& (v.2 == Severity::Critical) == ((if d.total_bytes >= d.available_bytes {
                d.total_bytes - d.available_bytes
            } else {
                0
            }) * 100 >= 95 * d.total_bytes)
            &&& (v.2 == Severity::Critical || v.2 == Severity::Medium)
            &&& v.3.take(11) == "Filesystem "@
            &&& v.3.subrange(11, 11 + d.mount_point@.len() as int) == d.mount_point@
        },
{
    if disk_of(d) is Some {
        let v = disk_of(d).unwrap();
        let t = "Filesystem "@ + d.mount_point@ + " is "@ + decimal(rounded(used_bytes(d) * 100, d.total_bytes as nat)) + "% full"@;
        reveal_strlit("Filesystem ");
        assert(v.3 == t);
        assert(t.take(11) =~= "Filesystem "@);
        assert(t.subrange(11, 11 + d.mount_point@.len() as int) =~= d.mount_point@);
    }
}

/// Law: on a system whose only filesystem `d` is mounted, the disk rule
/// raises one finding when `d` is at least 85% used and none otherwise.
pub proof fn lemma_one_filesystem_one_finding(s: Snapshot, d: DiskInfo)
    requires
        s.disks matches Some(ds) && ds@ == seq![d],
    ensures
        disk_nearly_full_spec(s).len() == if d.total_bytes > 0 && (if d.total_bytes
            >= d.available_bytes {
            d.total_bytes - d.available_bytes
        } else {
            0
        }) * 100 >= 85 * d.total_bytes {
            1nat
        } else {
            0nat
        },
        disk_nearly_full_spec(s).len() == 1 ==> disk_nearly_full_spec(s)[0] == disk_of(d).unwrap(),
{
    lemma_disk_rule_fires_from_85_percent(d);
    let ds = s.disks.unwrap()@;
    lemma_filter_map_step(ds, disk_fn(), 0);
    assert(ds.take(1) == ds);
    assert(ds.take(0) =~= Seq::<DiskInfo>::empty());
}

/// [`disk_of`] as a function value.
pub open spec fn disk_fn() -> spec_fn(DiskInfo) -> Option<FindingView> {
    |d: DiskInfo| disk_of(d)
}

/// What the disk rule raises: one finding per nearly full filesystem.
pub open spec fn disk_nearly_full_spec(s: Snapshot) -> Seq<FindingView> {
    match s.disks {
        Some(ds) => filter_map(ds@, disk_fn()),
        None => Seq::empty(),
    }
}

fn disk_finding(d: &DiskInfo) -> (r: Option<Finding>)
    ensures
        match r {
            Some(f) => disk_of(*d) == Some(fview(f)),
            None => disk_of(*d) is None,
        },
{
    let total = d.total_bytes;
    let used: u64 = if total >= d.available_bytes {
        total - d.available_bytes
    } else {
        0
    };
    let used100 = used as u128 * 100;
    let total128 = total as u128;
    if total == 0 || used100 < DISK_FINDING_PCT as u128 * total128 {
        return None;
    }
    let severity = if used100 >= DISK_CRITICAL_PCT as u128 * total128 {
        Severity::Critical
    } else {
        Severity::Medium
    };
    let pct = round_div(used100, total128);
    assert(pct <= 101) by (nonlinear_arith)
        requires
            pct <= used100 / total128 + 1,
            used <= total,
            used100 == used * 100,
            total128 == total,
            total > 0,
    ;
    let mut title = String::from_str("Filesystem ");
    push_str(&mut title, d.mount_point.as_str());
    push_str(&mut title, " is ");
    push_decimal(&mut title, pct as u64);
    push_str(&mut title, "% full");
    let mut summary = String::from_str("Only ");
    push_gib(&mut summary, d.available_bytes);
    push_str(&mut summary, " GiB free of ");
    push_gib(&mut summary, total);
    push_str(&mut summary, " GiB on ");
    push_str(&mut summary, d.mount_point.as_str());
    push_str(&mut summary, ".");
    Some(
        finding(
            "storage.disk_nearly_full",
            Category::Storage,
            severity,
            title.as_str(),
            summary.as_str(),
            no_evidence(),
            Some("sudo journalctl --vacuum-size=200M"),
        ),
    )
}

pub fn disk_nearly_full(s: &Snapshot) -> (r: Vec<Finding>)
    ensures
        fviews(r@) == disk_nearly_full_spec(*s),
{
    let ds = match &s.disks {
        Some(ds) => ds,
        None => return none(),
    };
    let ghost f = disk_fn();
    let mut r: Vec<Finding> = Vec::new();
    for i in 0..ds.len()
        invariant
            f == disk_fn(),
            fviews(r@) == filter_map(ds@.take(i as int), f),
    {
        proof {
            lemma_filter_map_step(ds@, f, i as int);
        }
        match disk_finding(&ds[i]) {
            Some(x) => {
                let ghost before = r@;
                r.push(x);
                assert(fviews(r@) =~= fviews(before).push(fview(x)));
            },
            None => {},
        }
    }
    assert(ds@.take(ds@.len() as int) == ds@);
    r
}

/// Percent of RAM available below which memory is flagged High.
pub const MEMORY_LOW_PCT: u64 = 10;

/// Percent of RAM available below which it is Critical.
pub const MEMORY_CRITICAL_PCT: u64 = 5;

/// What the low-memory rule raises: High below 10% of RAM available,
/// Critical below 5% (a machine reporting no RAM counts as all available).
pub open spec fn low_available_spec(s: Snapshot) -> Seq<FindingView> {
    match s.memory {
        Some(m) if m.total_kb > 0 && m.available_kb * 100 < MEMORY_LOW_PCT * m.total_kb => seq![
            (
                "memory.low_available"@,
                Category::Memory,
                if m.available_kb * 100 < MEMORY_CRITICAL_PCT * m.total_kb {
                    Severity::Critical
                } else {
                    Severity::High
                },
                "Only "@ + decimal(rounded(m.available_kb as nat * 100, m.total_kb as nat))
                    + "% of RAM is available"@,
                decimal(m.available_kb as nat / 1024) + " MiB available of "@ + decimal(
                    m.total_kb as nat / 1024,
                ) + " MiB total."@,
                Seq::empty(),
                None,
            ),
        ],
        _ => Seq::empty(),
    }
}

pub fn low_available(s: &Snapshot) -> (r: Vec<Finding>)
    ensures
        fviews(r@) == low_available_spec(*s),
{
    let m = match s.memory {
        Some(m) => m,
        None => return none(),
    };
    let avail100 = m.available_kb as u128 * 100;
    let total = m.total_kb as u128;
    if m.total_kb == 0 || avail100 >= MEMORY_LOW_PCT as u128 * total {
        return none();
    }
    assert(total <= u64::MAX);
    let severity = if avail100 < 5 * total {
        Severity::Critical
    } else {
        Severity::High
    };
    let pct = round_div(avail100, total);
    assert(pct <= 11) by (nonlinear_arith)
        requires
            pct <= avail100 / total + 1,
            avail100 < 10 * total,
            total > 0,
    ;
    let mut title = String::from_str("Only ");
    push_decimal(&mut title, pct as u64);
    push_str(&mut title, "% of RAM is available");
    let mut summary = String::new();
    push_decimal(&mut summary, m.available_kb / 1024);
    push_str(&mut summary, " MiB available of ");
    push_decimal(&mut summary, m.total_kb / 1024);
    push_str(&mut summary, " MiB total.");
    just(
        finding(
            "memory.low_available",
            Category::Memory,
            severity,
            title.as_str(),
            summary.as_str(),
            no_evidence(),
            None,
        ),
    )
}

/// What the swap rule raises: one Medium finding when more than half of
/// the swap is in use while less than a fifth of RAM is available.
pub open spec fn swap_pressure_spec(s: Snapshot) -> Seq<FindingView> {
    match s.memory {
        Some(m) => {
            let used: nat = if m.swap_total_kb >= m.swap_free_kb {
                (m.swap_total_kb - m.swap_free_kb) as nat
            } else {
                0
            };
            if m.swap_total_kb > 0 && used * 100 > 50 * m.swap_total_kb && m.total_kb > 0
                && m.available_kb * 100 < 20 * m.total_kb {
                seq![
                    (
                        "memory.swap_pressure"@,
                        Category::Memory,
                        Severity::Medium,
                        "System is under memory pressure and swapping heavily"@,
                        decimal(rounded(used * 100, m.swap_total_kb as nat))
                            + "% of swap in use while available RAM is low — the system will feel sluggish."@,
                        Seq::empty(),
                        None,
                    ),
                ]
            } else {
                Seq::empty()
            }
        },
        None => Seq::empty(),
    }
}

pub fn swap_pressure(s: &Snapshot) -> (r: Vec<Finding>)
    ensures
        fviews(r@) == swap_pressure_spec(*s),
{
    let m = match s.memory {
        Some(m) => m,
        None => return none(),
    };
    let used: u64 = if m.swap_total_kb >= m.swap_free_kb {
        m.swap_total_kb - m.swap_free_kb
    } else {
        0
    };
    let used100 = used as u128 * 100;
    let swap = m.swap_total_kb as u128;
    if m.swap_total_kb == 0 || used100 <= 50 * swap || m.total_kb == 0 || m.available_kb as u128
        * 100 >= 20 * (m.total_kb as u128) {
        return none();
    }
    let pct = round_div(used100, swap);
    assert(pct <= 101) by (nonlinear_arith)
        requires
            pct <= used100 / swap + 1,
            used <= swap,
            used100 == used * 100,
            swap > 0,
    ;
    let mut summary = String::new();
    push_decimal(&mut summary, pct as u64);
    push_str(
        &mut summary,
        "% of swap in use while available RAM is low — the system will feel sluggish.",
    );
    just(
        finding(
            "memory.swap_pressure",
            Category::Memory,
            Severity::Medium,
            "System is under memory pressure and swapping heavily",
            summary.as_str(),
            no_evidence(),
            None,
        ),
    )
}

/// Every finding id a rule can emit, in rule order. Each has an entry in
/// the knowledge base.
pub const FINDING_IDS: [&'static str; 29] = [
    "storage.disk_nearly_full",
    "memory.low_available",
    "memory.swap_pressure",
    "cpu.high_load",
    "thermal.overheating",
    "processes.zombies",
    "services.failed",
    "boot.slow",
    "packages.broken",
    "packages.old_kernels",
    "packages.apt_cache_large",
    "packages.pacman_cache_large",
    "security.updates_pending",
    "security.index_stale",
    "packages.upgrades_pending",
    "logs.journal_large",
    "logs.large_files",
    "storage.snap_old_revisions",
    "flatpak.unused_runtimes",
    "battery.degraded",
    "network.no_default_route",
    "network.no_dns",
    "security.ssh_root_login",
    "security.firewall_inactive",
    "security.ssh_password_auth",
    "security.exposed_ports",
    "smart.failing",
    "smart.reallocated_sectors",
    "smart.ssd_wear",
];

/// The declared finding ids.
pub open spec fn declared_ids() -> Seq<Seq<char>> {
    seq![
        "storage.disk_nearly_full"@,
        "memory.low_available"@,
        "memory.swap_pressure"@,
        "cpu.high_load"@,
        "thermal.overheating"@,
        "processes.zombies"@,
        "services.failed"@,
        "boot.slow"@,
        "packages.broken"@,
        "packages.old_kernels"@,
        "packages.apt_cache_large"@,
        "packages.pacman_cache_large"@,
        "security.updates_pending"@,
        "security.index_stale"@,
        "packages.upgrades_pending"@,
        "logs.journal_large"@,
        "logs.large_files"@,
        "storage.snap_old_revisions"@,
        "flatpak.unused_runtimes"@,
        "battery.degraded"@,
        "network.no_default_route"@,
        "network.no_dns"@,
        "security.ssh_root_login"@,
        "security.firewall_inactive"@,
        "security.ssh_password_auth"@,
        "security.exposed_ports"@,
        "smart.failing"@,
        "smart.reallocated_sectors"@,
        "smart.ssd_wear"@,
    ]
}

/// The declared finding ids, as a list.
pub fn finding_ids() -> (v: Vec<&'static str>)
    ensures
        v@.map_values(|s: &str| s@) == declared_ids(),
{
    let v = vec![
        "storage.disk_nearly_full",
        "memory.low_available",
        "memory.swap_pressure",
        "cpu.high_load",
        "thermal.overheating",
        "processes.zombies",
        "services.failed",
        "boot.slow",
        "packages.broken",
        "packages.old_kernels",
        "packages.apt_cache_large",
        "packages.pacman_cache_large",
        "security.updates_pending",
        "security.index_stale",
        "packages.upgrades_pending",
        "logs.journal_large",
        "logs.large_files",
        "storage.snap_old_revisions",
        "flatpak.unused_runtimes",
        "battery.degraded",
        "network.no_default_route",
        "network.no_dns",
        "security.ssh_root_login",
        "security.firewall_inactive",
        "security.ssh_password_auth",
        "security.exposed_ports",
        "smart.failing",
        "smart.reallocated_sectors",
        "smart.ssd_wear",
    ];
    assert(v@.map_values(|s: &str| s@) =~= declared_ids());
    v
}

/// The names of the rules a checkup runs, in order, the n-th raising the
/// n-th declared finding id (rules over fractional readings included).
pub open spec fn declared_rule_names() -> Seq<Seq<char>> {
    seq![
        "disk-nearly-full"@,
        "memory-low-available"@,
        "memory-swap-pressure"@,
        "cpu-high-load"@,
        "thermal-overheating"@,
        "processes-zombies"@,
        "services-failed"@,
        "boot-slow"@,
        "packages-broken"@,
        "packages-old-kernels"@,
        "packages-apt-cache-large"@,
        "packages-pacman-cache-large"@,
        "security-updates-pending"@,
        "security-index-stale"@,
        "packages-upgrades-pending"@,
        "logs-journal-large"@,
        "logs-large-files"@,
        "storage-snap-old-revisions"@,
        "flatpak-unused-runtimes"@,
        "battery-degraded"@,
        "network-no-default-route"@,
        "network-no-dns"@,
        "security-ssh-root-login"@,
        "security-firewall-inactive"@,
        "security-ssh-password-auth"@,
        "security-exposed-ports"@,
        "smart-failing"@,
        "smart-reallocated-sectors"@,
        "smart-ssd-wear"@,
    ]
}

/// The rule names, as `sysmedic checks` lists them.
pub fn rule_names() -> (v: Vec<&'static str>)
    ensures
        v@.map_values(|s: &str| s@) == declared_rule_names(),
        v@.len() == declared_ids().len(),
{
    let v = vec![
        "disk-nearly-full",
        "memory-low-available",
        "memory-swap-pressure",
        "cpu-high-load",
        "thermal-overheating",
        "processes-zombies",
        "services-failed",
        "boot-slow",
        "packages-broken",
        "packages-old-kernels",
        "packages-apt-cache-large",
        "packages-pacman-cache-large",
        "security-updates-pending",
        "security-index-stale",
        "packages-upgrades-pending",
        "logs-journal-large",
        "logs-large-files",
        "storage-snap-old-revisions",
        "flatpak-unused-runtimes",
        "battery-degraded",
        "network-no-default-route",
        "network-no-dns",
        "security-ssh-root-login",
        "security-firewall-inactive",
        "security-ssh-password-auth",
        "security-exposed-ports",
        "smart-failing",
        "smart-reallocated-sectors",
        "smart-ssd-wear",
    ];
    assert(v@.map_values(|s: &str| s@) =~= declared_rule_names());
    v
}

/// pacman cache size that raises `packages.pacman_cache_large` (Low):
/// higher than for APT, since pacman keeps every downloaded version.
pub const PACMAN_CACHE_LARGE_BYTES: u64 = 2147483648;

/// What the pacman-cache rule raises: one Low finding from 2 GiB.
pub open spec fn pacman_cache_large_spec(s: Snapshot) -> Seq<FindingView> {
    match s.packages {
        Some(p) => match p.pacman_cache_bytes {
            Some(b) if b >= PACMAN_CACHE_LARGE_BYTES => seq![
                (
                    "packages.pacman_cache_large"@,
                    Category::Packages,
                    Severity::Low,
                    "pacman package cache holds "@ + tenths_text(gib_tenths(b as nat)) + " GiB"@,
                    "pacman keeps every downloaded package version in /var/cache/pacman/pkg."@,
                    Seq::empty(),
                    Some("sudo paccache -r"@),
                ),
            ],
            _ => Seq::empty(),
        },
        None => Seq::empty(),
    }
}

pub fn pacman_cache_large(s: &Snapshot) -> (r: Vec<Finding>)
    ensures
        fviews(r@) == pacman_cache_large_spec(*s),
{
    let b = match &s.packages {
        Some(p) => match p.pacman_cache_bytes {
            Some(b) => b,
            None => return none(),
        },
        None => return none(),
    };
    if b < PACMAN_CACHE_LARGE_BYTES {
        return none();
    }
    let mut title = String::from_str("pacman package cache holds ");
    push_gib(&mut title, b);
    push_str(&mut title, " GiB");
    just(
        finding(
            "packages.pacman_cache_large",
            Category::Packages,
            Severity::Low,
            title.as_str(),
            "pacman keeps every downloaded package version in /var/cache/pacman/pkg.",
            no_evidence(),
            Some("sudo paccache -r"),
        ),
    )
}

/// A package index older than this many days raises
/// `security.index_stale`: without a refresh the count of pending security
/// updates is no longer evidence of anything.
pub const INDEX_STALE_DAYS: u64 = 7;

/// What the stale-index rule raises: one Medium finding beyond
/// [`INDEX_STALE_DAYS`].
pub open spec fn index_stale_spec(s: Snapshot) -> Seq<FindingView> {
    match s.packages {
        Some(p) => match p.index_age_days {
            Some(d) if d > INDEX_STALE_DAYS => seq![
                (
                    "security.index_stale"@,
                    Category::Security,
                    Severity::Medium,
                    "Package index last refreshed "@ + decimal(d as nat) + " day(s) ago"@,
                    "With a stale index, pending security updates go unnoticed."@,
                    Seq::empty(),
                    Some("sudo apt update"@),
                ),
            ],
            _ => Seq::empty(),
        },
        None => Seq::empty(),
    }
}

pub fn index_stale(s: &Snapshot) -> (r: Vec<Finding>)
    ensures
        fviews(r@) == index_stale_spec(*s),
{
    let d = match &s.packages {
        Some(p) => match p.index_age_days {
            Some(d) => d,
            None => return none(),
        },
        None => return none(),
    };
    if d <= INDEX_STALE_DAYS {
        return none();
    }
    let mut title = String::from_str("Package index last refreshed ");
    push_decimal(&mut title, d);
    push_str(&mut title, " day(s) ago");
    just(
        finding(
            "security.index_stale",
            Category::Security,
            Severity::Medium,
            title.as_str(),
            "With a stale index, pending security updates go unnoticed.",
            no_evidence(),
            Some("sudo apt update"),
        ),
    )
}

/// What every rule of this module raises, in rule order.
pub open spec fn rules_spec(s: Snapshot) -> Seq<FindingView> {
    disk_nearly_full_spec(s) + low_available_spec(s) + swap_pressure_spec(s) + zombies_spec(s)
        + failed_units_spec(s) + broken_spec(s) + old_kernels_spec(s) + apt_cache_large_spec(s)
        + pacman_cache_large_spec(s) + security_updates_spec(s) + index_stale_spec(s)
        + upgrades_pending_spec(s) + journal_large_spec(s) + large_files_spec(s)
        + old_revisions_spec(s) + unused_runtimes_spec(s) + no_default_route_spec(s)
        + no_dns_spec(s) + ssh_root_login_spec(s) + firewall_inactive_spec(s)
        + ssh_password_auth_spec(s) + exposed_ports_spec(s) + smart_spec(s, 0) + smart_spec(s, 1)
        + smart_spec(s, 2)
}

fn extend_findings(all: &mut Vec<Finding>, more: Vec<Finding>)
    ensures
        fviews(final(all)@) == fviews(old(all)@) + fviews(more@),
{
    let ghost m = more@;
    let ghost before = all@;
    let mut more = more;
    all.append(&mut more);
    assert(fviews(all@) =~= fviews(before) + fviews(m));
}

/// Run every rule of this module on `s`, in rule order.
pub fn run_rules(s: &Snapshot) -> (r: Vec<Finding>)
    ensures
        fviews(r@) == rules_spec(*s),
{
    let mut r = disk_nearly_full(s);
    extend_findings(&mut r, low_available(s));
    extend_findings(&mut r, swap_pressure(s));
    extend_findings(&mut r, zombies(s));
    extend_findings(&mut r, failed_units(s));
    extend_findings(&mut r, broken(s));
    extend_findings(&mut r, old_kernels(s));
    extend_findings(&mut r, apt_cache_large(s));
    extend_findings(&mut r, pacman_cache_large(s));
    extend_findings(&mut r, security_updates(s));
    extend_findings(&mut r, index_stale(s));
    extend_findings(&mut r, upgrades_pending(s));
    extend_findings(&mut r, journal_large(s));
    extend_findings(&mut r, large_files(s));
    extend_findings(&mut r, old_revisions(s));
    extend_findings(&mut r, unused_runtimes(s));
    extend_findings(&mut r, no_default_route(s));
    extend_findings(&mut r, no_dns(s));
    extend_findings(&mut r, ssh_root_login(s));
    extend_findings(&mut r, firewall_inactive(s));
    extend_findings(&mut r, ssh_password_auth(s));
    extend_findings(&mut r, exposed_ports(s));
    extend_findings(&mut r, failing(s));
    extend_findings(&mut r, reallocated_sectors(s));
    extend_findings(&mut r, ssd_wear(s));
    r
}

/// No rule fires on a snapshot in which nothing was collected.
pub proof fn lemma_quiet_on_empty_snapshot(s: Snapshot)
    requires
        s.memory is None,
        s.disks is None,
        s.processes is None,
        s.services is None,
        s.packages is None,
        s.logs is None,
        s.network is None,
        s.security is None,
        s.snap is None,
        s.flatpak is None,
        s.smart is None,
        s.ports is None,
    ensures
        rules_spec(s).len() == 0,
{
}

/// The prefix of the ids of findings scored under `c`.
pub open spec fn category_prefix(c: Category) -> Seq<char> {
    match c {
        Category::Boot => "boot"@,
        Category::Cpu => "cpu"@,
        Category::Memory => "memory"@,
        Category::Storage => "storage"@,
        Category::Thermal => "thermal"@,
        Category::Processes => "processes"@,
        Category::Services => "services"@,
        Category::Packages => "packages"@,
        Category::Logs => "logs"@,
        Category::Network => "network"@,
        Category::Security => "security"@,
        Category::Battery => "battery"@,
    }
}

/// `id` is `p`, a dot, then more.
pub open spec fn prefixed(id: Seq<char>, p: Seq<char>) -> bool {
    id.len() > p.len() + 1 && id.take(p.len() as int) == p && id[p.len() as int] == '.'
}

/// A finding id is declared, and its prefix is the category it is scored
/// under, or names its data source (`smart`, `flatpak`).
pub open spec fn well_named(id: Seq<char>, c: Category) -> bool {
    &&& declared_ids().contains(id)
    &&& (prefixed(id, category_prefix(c)) || prefixed(id, "smart"@) || prefixed(id, "flatpak"@))
}

proof fn lemma_ids_well_named()
    ensures
        well_named("storage.disk_nearly_full"@, Category::Storage),
        well_named("memory.low_available"@, Category::Memory),
        well_named("memory.swap_pressure"@, Category::Memory),
        well_named("processes.zombies"@, Category::Processes),
        well_named("services.failed"@, Category::Services),
        well_named("packages.broken"@, Category::Packages),
        well_named("packages.old_kernels"@, Category::Packages),
        well_named("packages.apt_cache_large"@, Category::Packages),
        well_named("packages.pacman_cache_large"@, Category::Packages),
        well_named("security.updates_pending"@, Category::Security),
        well_named("security.index_stale"@, Category::Security),
        well_named("packages.upgrades_pending"@, Category::Packages),
        well_named("logs.journal_large"@, Category::Logs),
        well_named("logs.large_files"@, Category::Logs),
        well_named("storage.snap_old_revisions"@, Category::Storage),
        well_named("flatpak.unused_runtimes"@, Category::Storage),
        well_named("network.no_default_route"@, Category::Network),
        well_named("network.no_dns"@, Category::Network),
        well_named("security.ssh_root_login"@, Category::Security),
        well_named("security.firewall_inactive"@, Category::Security),
        well_named("security.ssh_password_auth"@, Category::Security),
        well_named("security.exposed_ports"@, Category::Security),
        well_named("smart.failing"@, Category::Storage),
        well_named("smart.reallocated_sectors"@, Category::Storage),
        well_named("smart.ssd_wear"@, Category::Storage),
{
    reveal_strlit("storage.disk_nearly_full");
    reveal_strlit("memory.low_available");
    reveal_strlit("memory.swap_pressure");
    reveal_strlit("processes.zombies");
    reveal_strlit("services.failed");
    reveal_strlit("packages.broken");
    reveal_strlit("packages.old_kernels");
    reveal_strlit("packages.apt_cache_large");
    reveal_strlit("packages.pacman_cache_large");
    reveal_strlit("security.updates_pending");
    reveal_strlit("security.index_stale");
    reveal_strlit("packages.upgrades_pending");
    reveal_strlit("logs.journal_large");
    reveal_strlit("logs.large_files");
    reveal_strlit("storage.snap_old_revisions");
    reveal_strlit("flatpak.unused_runtimes");
    reveal_strlit("network.no_default_route");
    reveal_strlit("network.no_dns");
    reveal_strlit("security.ssh_root_login");
    reveal_strlit("security.firewall_inactive");
    reveal_strlit("security.ssh_password_auth");
    reveal_strlit("security.exposed_ports");
    reveal_strlit("smart.failing");
    reveal_strlit("smart.reallocated_sectors");
    reveal_strlit("smart.ssd_wear");
    reveal_strlit("flatpak");
    reveal_strlit("logs");
    reveal_strlit("memory");
    reveal_strlit("network");
    reveal_strlit("packages");
    reveal_strlit("processes");
    reveal_strlit("security");
    reveal_strlit("services");
    reveal_strlit("smart");
    reveal_strlit("storage");
    assert(declared_ids()[0] == "storage.disk_nearly_full"@);
    assert("storage.disk_nearly_full"@.take(7) =~= "storage"@);
    assert(declared_ids()[1] == "memory.low_available"@);
    assert("memory.low_available"@.take(6) =~= "memory"@);
    assert(declared_ids()[2] == "memory.swap_pressure"@);
    assert("memory.swap_pressure"@.take(6) =~= "memory"@);
    assert(declared_ids()[5] == "processes.zombies"@);
    assert("processes.zombies"@.take(9) =~= "processes"@);
    assert(declared_ids()[6] == "services.failed"@);
    assert("services.failed"@.take(8) =~= "services"@);
    assert(declared_ids()[8] == "packages.broken"@);
    assert("packages.broken"@.take(8) =~= "packages"@);
    assert(declared_ids()[9] == "packages.old_kernels"@);
    assert("packages.old_kernels"@.take(8) =~= "packages"@);
    assert(declared_ids()[10] == "packages.apt_cache_large"@);
    assert("packages.apt_cache_large"@.take(8) =~= "packages"@);
    assert(declared_ids()[11] == "packages.pacman_cache_large"@);
    assert("packages.pacman_cache_large"@.take(8) =~= "packages"@);
    assert(declared_ids()[12] == "security.updates_pending"@);
    assert("security.updates_pending"@.take(8) =~= "security"@);
    assert(declared_ids()[13] == "security.index_stale"@);
    assert("security.index_stale"@.take(8) =~= "security"@);
    assert(declared_ids()[14] == "packages.upgrades_pending"@);
    assert("packages.upgrades_pending"@.take(8) =~= "packages"@);
    assert(declared_ids()[15] == "logs.journal_large"@);
    assert("logs.journal_large"@.take(4) =~= "logs"@);
    assert(declared_ids()[16] == "logs.large_files"@);
    assert("logs.large_files"@.take(4) =~= "logs"@);
    assert(declared_ids()[17] == "storage.snap_old_revisions"@);
    assert("storage.snap_old_revisions"@.take(7) =~= "storage"@);
    assert(declared_ids()[18] == "flatpak.unused_runtimes"@);
    assert("flatpak.unused_runtimes"@.take(7) =~= "flatpak"@);
    assert(declared_ids()[20] == "network.no_default_route"@);
    assert("network.no_default_route"@.take(7) =~= "network"@);
    assert(declared_ids()[21] == "network.no_dns"@);
    assert("network.no_dns"@.take(7) =~= "network"@);
    assert(declared_ids()[22] == "security.ssh_root_login"@);
    assert("security.ssh_root_login"@.take(8) =~= "security"@);
    assert(declared_ids()[23] == "security.firewall_inactive"@);
    assert("security.firewall_inactive"@.take(8) =~= "security"@);
    assert(declared_ids()[24] == "security.ssh_password_auth"@);
    assert("security.ssh_password_auth"@.take(8) =~= "security"@);
    assert(declared_ids()[25] == "security.exposed_ports"@);
    assert("security.exposed_ports"@.take(8) =~= "security"@);
    assert(declared_ids()[26] == "smart.failing"@);
    assert("smart.failing"@.take(5) =~= "smart"@);
    assert(declared_ids()[27] == "smart.reallocated_sectors"@);
    assert("smart.reallocated_sectors"@.take(5) =~= "smart"@);
    assert(declared_ids()[28] == "smart.ssd_wear"@);
    assert("smart.ssd_wear"@.take(5) =~= "smart"@);
}

/// [`well_named`] of what a finding says.
pub open spec fn view_well_named(v: FindingView) -> bool {
    well_named(v.0, v.1)
}

proof fn lemma_filter_map_all_well_named<A>(s: Seq<A>, f: spec_fn(A) -> Option<FindingView>)
    requires
        forall|x: A| #[trigger] f(x) matches Some(v) ==> view_well_named(v),
    ensures
        forall|i: int| 0 <= i < filter_map(s, f).len() ==> view_well_named(#[trigger] filter_map(s, f)[i]),
    decreases s.len(),
{
    if s.len() > 0 {
        lemma_filter_map_all_well_named(s.drop_last(), f);
        let r = filter_map(s.drop_last(), f);
        if let Some(b) = f(s.last()) {
            assert(filter_map(s, f) == r.push(b));
            assert forall|i: int| 0 <= i < r.push(b).len() implies view_well_named(#[trigger] r.push(b)[i]) by {
                if i < r.len() {
                    assert(r.push(b)[i] == r[i]);
                }
            }
        }
    }
}

/// Every finding in `v` is [`view_well_named`].
pub open spec fn all_well_named(v: Seq<FindingView>) -> bool {
    forall|i: int| 0 <= i < v.len() ==> view_well_named(#[trigger] v[i])
}

proof fn lemma_join_well_named(a: Seq<FindingView>, b: Seq<FindingView>)
    requires
        all_well_named(a),
        all_well_named(b),
    ensures
        all_well_named(a + b),
{
    assert forall|i: int| 0 <= i < (a + b).len() implies view_well_named(#[trigger] (a + b)[i]) by {
        if i < a.len() {
            assert((a + b)[i] == a[i]);
        } else {
            assert((a + b)[i] == b[i - a.len()]);
        }
    }
}

proof fn lemma_each_rule_well_named(s: Snapshot)
    ensures
        all_well_named(disk_nearly_full_spec(s)),
        all_well_named(low_available_spec(s)),
        all_well_named(swap_pressure_spec(s)),
        all_well_named(zombies_spec(s)),
        all_well_named(failed_units_spec(s)),
        all_well_named(broken_spec(s)),
        all_well_named(old_kernels_spec(s)),
        all_well_named(apt_cache_large_spec(s)),
        all_well_named(pacman_cache_large_spec(s)),
        all_well_named(security_updates_spec(s)),
        all_well_named(index_stale_spec(s)),
        all_well_named(upgrades_pending_spec(s)),
        all_well_named(journal_large_spec(s)),
        all_well_named(large_files_spec(s)),
        all_well_named(old_revisions_spec(s)),
        all_well_named(unused_runtimes_spec(s)),
        all_well_named(no_default_route_spec(s)),
        all_well_named(no_dns_spec(s)),
        all_well_named(ssh_root_login_spec(s)),
        all_well_named(firewall_inactive_spec(s)),
        all_well_named(ssh_password_auth_spec(s)),
        all_well_named(exposed_ports_spec(s)),
        all_well_named(smart_spec(s, 0)),
        all_well_named(smart_spec(s, 1)),
        all_well_named(smart_spec(s, 2)),
{
    lemma_ids_well_named();
    let ds = match s.disks {
        Some(ds) => ds@,
        None => Seq::<DiskInfo>::empty(),
    };
    lemma_filter_map_all_well_named(ds, disk_fn());
    let sm = match s.smart {
        Some(d) => d@,
        None => Seq::<SmartDevice>::empty(),
    };
    lemma_filter_map_all_well_named(sm, smart_rule(0));
    lemma_filter_map_all_well_named(sm, smart_rule(1));
    lemma_filter_map_all_well_named(sm, smart_rule(2));
}

/// Every finding a rule raises carries a declared id, whose prefix is the
/// category it is scored under (or names its data source, for the SMART and
/// Flatpak findings).
pub proof fn lemma_findings_are_well_named(s: Snapshot)
    ensures
        all_well_named(rules_spec(s)),
{
    lemma_each_rule_well_named(s);
    lemma_join_well_named(disk_nearly_full_spec(s), low_available_spec(s));
    lemma_join_well_named(disk_nearly_full_spec(s) + low_available_spec(s), swap_pressure_spec(s));
    lemma_join_well_named(disk_nearly_full_spec(s) + low_available_spec(s) + swap_pressure_spec(s), zombies_spec(s));
    lemma_join_well_named(disk_nearly_full_spec(s) + low_available_spec(s) + swap_pressure_spec(s) + zombies_spec(s), failed_units_spec(s));
    lemma_join_well_named(disk_nearly_full_spec(s) + low_available_spec(s) + swap_pressure_spec(s) + zombies_spec(s) + failed_units_spec(s), broken_spec(s));
    lemma_join_well_named(disk_nearly_full_spec(s) + low_available_spec(s) + swap_pressure_spec(s) + zombies_spec(s) + failed_units_spec(s) + broken_spec(s), old_kernels_spec(s));
    lemma_join_well_named(disk_nearly_full_spec(s) + low_available_spec(s) + swap_pressure_spec(s) + zombies_spec(s) + failed_units_spec(s) + broken_spec(s) + old_kernels_spec(s), apt_cache_large_spec(s));
    lemma_join_well_named(disk_nearly_full_spec(s) + low_available_spec(s) + swap_pressure_spec(s) + zombies_spec(s) + failed_units_spec(s) + broken_spec(s) + old_kernels_spec(s) + apt_cache_large_spec(s), pacman_cache_large_spec(s));
    lemma_join_well_named(disk_nearly_full_spec(s) + low_available_spec(s) + swap_pressure_spec(s) + zombies_spec(s) + failed_units_spec(s) + broken_spec(s) + old_kernels_spec(s) + apt_cache_large_spec(s) + pacman_cache_large_spec(s), security_updates_spec(s));
    lemma_join_well_named(disk_nearly_full_spec(s) + low_available_spec(s) + swap_pressure_spec(s) + zombies_spec(s) + failed_units_spec(s) + broken_spec(s) + old_kernels_spec(s) + apt_cache_large_spec(s) + pacman_cache_large_spec(s) + security_updates_spec(s), index_stale_spec(s));
    lemma_join_well_named(disk_nearly_full_spec(s) + low_available_spec(s) + swap_pressure_spec(s) + zombies_spec(s) + failed_units_spec(s) + broken_spec(s) + old_kernels_spec(s) + apt_cache_large_spec(s) + pacman_cache_large_spec(s) + security_updates_spec(s) + index_stale_spec(s), upgrades_pending_spec(s));
    lemma_join_well_named(disk_nearly_full_spec(s) + low_available_spec(s) + swap_pressure_spec(s) + zombies_spec(s) + failed_units_spec(s) + broken_spec(s) + old_kernels_spec(s) + apt_cache_large_spec(s) + pacman_cache_large_spec(s) + security_updates_spec(s) + index_stale_spec(s) + upgrades_pending_spec(s), journal_large_spec(s));
    lemma_join_well_named(disk_nearly_full_spec(s) + low_available_spec(s) + swap_pressure_spec(s) + zombies_spec(s) + failed_units_spec(s) + broken_spec(s) + old_kernels_spec(s) + apt_cache_large_spec(s) + pacman_cache_large_spec(s) + security_updates_spec(s) + index_stale_spec(s) + upgrades_pending_spec(s) + journal_large_spec(s), large_files_spec(s));
    lemma_join_well_named(disk_nearly_full_spec(s) + low_available_spec(s) + swap_pressure_spec(s) + zombies_spec(s) + failed_units_spec(s) + broken_spec(s) + old_kernels_spec(s) + apt_cache_large_spec(s) + pacman_cache_large_spec(s) + security_updates_spec(s) + index_stale_spec(s) + upgrades_pending_spec(s) + journal_large_spec(s) + large_files_spec(s), old_revisions_spec(s));
    lemma_join_well_named(disk_nearly_full_spec(s) + low_available_spec(s) + swap_pressure_spec(s) + zombies_spec(s) + failed_units_spec(s) + broken_spec(s) + old_kernels_spec(s) + apt_cache_large_spec(s) + pacman_cache_large_spec(s) + security_updates_spec(s) + index_stale_spec(s) + upgrades_pending_spec(s) + journal_large_spec(s) + large_files_spec(s) + old_revisions_spec(s), unused_runtimes_spec(s));
    lemma_join_well_named(disk_nearly_full_spec(s) + low_available_spec(s) + swap_pressure_spec(s) + zombies_spec(s) + failed_units_spec(s) + broken_spec(s) + old_kernels_spec(s) + apt_cache_large_spec(s) + pacman_cache_large_spec(s) + security_updates_spec(s) + index_stale_spec(s) + upgrades_pending_spec(s) + journal_large_spec(s) + large_files_spec(s) + old_revisions_spec(s) + unused_runtimes_spec(s), no_default_route_spec(s));
    lemma_join_well_named(disk_nearly_full_spec(s) + low_available_spec(s) + swap_pressure_spec(s) + zombies_spec(s) + failed_units_spec(s) + broken_spec(s) + old_kernels_spec(s) + apt_cache_large_spec(s) + pacman_cache_large_spec(s) + security_updates_spec(s) + index_stale_spec(s) + upgrades_pending_spec(s) + journal_large_spec(s) + large_files_spec(s) + old_revisions_spec(s) + unused_runtimes_spec(s) + no_default_route_spec(s), no_dns_spec(s));
    lemma_join_well_named(disk_nearly_full_spec(s) + low_available_spec(s) + swap_pressure_spec(s) + zombies_spec(s) + failed_units_spec(s) + broken_spec(s) + old_kernels_spec(s) + apt_cache_large_spec(s) + pacman_cache_large_spec(s) + security_updates_spec(s) + index_stale_spec(s) + upgrades_pending_spec(s) + journal_large_spec(s) + large_files_spec(s) + old_revisions_spec(s) + unused_runtimes_spec(s) + no_default_route_spec(s) + no_dns_spec(s), ssh_root_login_spec(s));
    lemma_join_well_named(disk_nearly_full_spec(s) + low_available_spec(s) + swap_pressure_spec(s) + zombies_spec(s) + failed_units_spec(s) + broken_spec(s) + old_kernels_spec(s) + apt_cache_large_spec(s) + pacman_cache_large_spec(s) + security_updates_spec(s) + index_stale_spec(s) + upgrades_pending_spec(s) + journal_large_spec(s) + large_files_spec(s) + old_revisions_spec(s) + unused_runtimes_spec(s) + no_default_route_spec(s) + no_dns_spec(s) + ssh_root_login_spec(s), firewall_inactive_spec(s));
    lemma_join_well_named(disk_nearly_full_spec(s) + low_available_spec(s) + swap_pressure_spec(s) + zombies_spec(s) + failed_units_spec(s) + broken_spec(s) + old_kernels_spec(s) + apt_cache_large_spec(s) + pacman_cache_large_spec(s) + security_updates_spec(s) + index_stale_spec(s) + upgrades_pending_spec(s) + journal_large_spec(s) + large_files_spec(s) + old_revisions_spec(s) + unused_runtimes_spec(s) + no_default_route_spec(s) + no_dns_spec(s) + ssh_root_login_spec(s) + firewall_inactive_spec(s), ssh_password_auth_spec(s));
    lemma_join_well_named(disk_nearly_full_spec(s) + low_available_spec(s) + swap_pressure_spec(s) + zombies_spec(s) + failed_units_spec(s) + broken_spec(s) + old_kernels_spec(s) + apt_cache_large_spec(s) + pacman_cache_large_spec(s) + security_updates_spec(s) + index_stale_spec(s) + upgrades_pending_spec(s) + journal_large_spec(s) + large_files_spec(s) + old_revisions_spec(s) + unused_runtimes_spec(s) + no_default_route_spec(s) + no_dns_spec(s) + ssh_root_login_spec(s) + firewall_inactive_spec(s) + ssh_password_auth_spec(s), exposed_ports_spec(s));
    lemma_join_well_named(disk_nearly_full_spec(s) + low_available_spec(s) + swap_pressure_spec(s) + zombies_spec(s) + failed_units_spec(s) + broken_spec(s) + old_kernels_spec(s) + apt_cache_large_spec(s) + pacman_cache_large_spec(s) + security_updates_spec(s) + index_stale_spec(s) + upgrades_pending_spec(s) + journal_large_spec(s) + large_files_spec(s) + old_revisions_spec(s) + unused_runtimes_spec(s) + no_default_route_spec(s) + no_dns_spec(s) + ssh_root_login_spec(s) + firewall_inactive_spec(s) + ssh_password_auth_spec(s) + exposed_ports_spec(s), smart_spec(s, 0));
    lemma_join_well_named(disk_nearly_full_spec(s) + low_available_spec(s) + swap_pressure_spec(s) + zombies_spec(s) + failed_units_spec(s) + broken_spec(s) + old_kernels_spec(s) + apt_cache_large_spec(s) + pacman_cache_large_spec(s) + security_updates_spec(s) + index_stale_spec(s) + upgrades_pending_spec(s) + journal_large_spec(s) + large_files_spec(s) + old_revisions_spec(s) + unused_runtimes_spec(s) + no_default_route_spec(s) + no_dns_spec(s) + ssh_root_login_spec(s) + firewall_inactive_spec(s) + ssh_password_auth_spec(s) + exposed_ports_spec(s) + smart_spec(s, 0), smart_spec(s, 1));
    lemma_join_well_named(disk_nearly_full_spec(s) + low_available_spec(s) + swap_pressure_spec(s) + zombies_spec(s) + failed_units_spec(s) + broken_spec(s) + old_kernels_spec(s) + apt_cache_large_spec(s) + pacman_cache_large_spec(s) + security_updates_spec(s) + index_stale_spec(s) + upgrades_pending_spec(s) + journal_large_spec(s) + large_files_spec(s) + old_revisions_spec(s) + unused_runtimes_spec(s) + no_default_route_spec(s) + no_dns_spec(s) + ssh_root_login_spec(s) + firewall_inactive_spec(s) + ssh_password_auth_spec(s) + exposed_ports_spec(s) + smart_spec(s, 0) + smart_spec(s, 1), smart_spec(s, 2));
}

/// `a` comes before `b` in lexicographic order of characters (as strings
/// compare).
pub open spec fn lex_lt(a: Seq<char>, b: Seq<char>) -> bool
    decreases a.len(),
{
    if a.len() == 0 {
        b.len() > 0
    } else if b.len() == 0 {
        false
    } else if a[0] != b[0] {
        a[0] < b[0]
    } else {
        lex_lt(a.drop_first(), b.drop_first())
    }
}

pub proof fn lemma_lex_lt_transitive(a: Seq<char>, b: Seq<char>, c: Seq<char>)
    requires
        lex_lt(a, b),
        lex_lt(b, c),
    ensures
        lex_lt(a, c),
    decreases a.len(),
{
    if a.len() > 0 && b.len() > 0 && c.len() > 0 && a[0] == b[0] && b[0] == c[0] {
        lemma_lex_lt_transitive(a.drop_first(), b.drop_first(), c.drop_first());
    }
}

pub proof fn lemma_lex_lt_asymmetric(a: Seq<char>, b: Seq<char>)
    ensures
        !(lex_lt(a, b) && lex_lt(b, a)),
    decreases a.len(),
{
    if a.len() > 0 && b.len() > 0 && a[0] == b[0] {
        lemma_lex_lt_asymmetric(a.drop_first(), b.drop_first());
    }
}

/// Distinct texts are ordered one way or the other.
pub proof fn lemma_lex_lt_total(a: Seq<char>, b: Seq<char>)
    ensures
        a != b ==> lex_lt(a, b) || lex_lt(b, a),
        !lex_lt(a, a),
    decreases a.len(),
{
    if a.len() > 0 && b.len() > 0 && a[0] == b[0] {
        lemma_lex_lt_total(a.drop_first(), b.drop_first());
        if a.drop_first() == b.drop_first() {
            assert(a.len() == b.len());
            assert forall|i: int| 0 <= i < a.len() implies a[i] == b[i] by {
                if i > 0 {
                    assert(a[i] == a.drop_first()[i - 1]);
                    assert(b[i] == b.drop_first()[i - 1]);
                }
            }
            assert(a =~= b);
        }
    }
    if a.len() > 0 {
        lemma_lex_lt_total(a.drop_first(), a.drop_first());
    }
    if a.len() == 0 && b.len() == 0 {
        assert(a =~= b);
    }
}

/// `a` is reported before `b`: it is more severe, or as severe with an id
/// that sorts first.
pub open spec fn precedes(a: Finding, b: Finding) -> bool {
    crate::finding::severity_rank(a.severity) > crate::finding::severity_rank(b.severity) || (
    crate::finding::severity_rank(a.severity) == crate::finding::severity_rank(b.severity)
        && lex_lt(a.id@, b.id@))
}

/// Findings in report order: none precedes one listed before it.
pub open spec fn in_report_order(fs: Seq<Finding>) -> bool {
    forall|i: int, j: int| 0 <= i < j < fs.len() ==> !precedes(#[trigger] fs[j], #[trigger] fs[i])
}

pub fn lex_lt_exec(a: &Vec<char>, b: &Vec<char>) -> (r: bool)
    ensures
        r == lex_lt(a@, b@),
{
    let mut i: usize = 0;
    assert(a@.skip(0) == a@ && b@.skip(0) == b@);
    while i < a.len() && i < b.len() && a[i] == b[i]
        invariant
            i <= a@.len(),
            i <= b@.len(),
            a@.take(i as int) == b@.take(i as int),
            lex_lt(a@, b@) == lex_lt(a@.skip(i as int), b@.skip(i as int)),
        decreases a@.len() - i,
    {
        proof {
            assert(a@.skip(i as int).drop_first() == a@.skip(i + 1));
            assert(b@.skip(i as int).drop_first() == b@.skip(i + 1));
            assert(a@.skip(i as int)[0] == a@[i as int]);
            assert(b@.skip(i as int)[0] == b@[i as int]);
            assert(a@.take(i + 1) == a@.take(i as int).push(a@[i as int]));
            assert(b@.take(i + 1) == b@.take(i as int).push(b@[i as int]));
        }
        i = i + 1;
    }
    if i == a.len() {
        i < b.len()
    } else if i == b.len() {
        false
    } else {
        assert(a@.skip(i as int)[0] == a@[i as int]);
        assert(b@.skip(i as int)[0] == b@[i as int]);
        a[i] < b[i]
    }
}

fn precedes_exec(a: &Finding, b: &Finding) -> (r: bool)
    ensures
        r == precedes(*a, *b),
{
    let ra = a.severity.rank();
    let rb = b.severity.rank();
    if ra != rb {
        ra > rb
    } else {
        lex_lt_exec(&crate::text::chars_of(a.id.as_str()), &crate::text::chars_of(b.id.as_str()))
    }
}

/// Where `x` goes among `s`, looking from index `i`: before the first
/// finding it precedes, else at the end.
pub open spec fn report_slot(s: Seq<Finding>, x: Finding, i: int) -> int
    decreases s.len() - i,
{
    if i >= s.len() {
        s.len() as int
    } else if precedes(x, s[i]) {
        i
    } else {
        report_slot(s, x, i + 1)
    }
}

/// `s` in report order, each finding placed after every earlier one it
/// does not precede: findings that tie keep the order they came in.
pub open spec fn report_sorted(s: Seq<Finding>) -> Seq<Finding>
    decreases s.len(),
{
    if s.len() == 0 {
        Seq::empty()
    } else {
        let r = report_sorted(s.drop_last());
        r.insert(report_slot(r, s.last(), 0), s.last())
    }
}

/// Put findings in report order: most severe first, then by id; findings
/// that tie keep the order they came in.
pub fn sort_findings(findings: Vec<Finding>) -> (r: Vec<Finding>)
    ensures
        r@ == report_sorted(findings@),
        in_report_order(r@),
        r@.to_multiset() == findings@.to_multiset(),
{
    broadcast use vstd::seq_lib::group_to_multiset_ensures;

    let mut r: Vec<Finding> = Vec::new();
    let mut rest = findings;
    let ghost all = rest@;
    let total = rest.len();
    let mut consumed: usize = 0;
    assert(rest@ == all.skip(0));
    while rest.len() > 0
        invariant
            in_report_order(r@),
            r@.to_multiset().add(rest@.to_multiset()) == all.to_multiset(),
            consumed + rest@.len() == all.len(),
            all.len() == total,
            rest@ == all.skip(consumed as int),
            r@ == report_sorted(all.take(consumed as int)),
        decreases rest@.len(),
    {
        let ghost rest_before = rest@;
        let x = rest.remove(0);
        assert(rest_before[0] == x);
        assert(x == all[consumed as int]);
        let ghost t = all.take(consumed + 1);
        assert(t.drop_last() == all.take(consumed as int));
        assert(t.last() == x);
        // The first place where `x` goes before what is there.
        let mut k: usize = 0;
        while k < r.len() && !precedes_exec(&x, &r[k])
            invariant
                k <= r@.len(),
                forall|j: int| 0 <= j < k ==> !precedes(x, #[trigger] r@[j]),
                report_slot(r@, x, k as int) == report_slot(r@, x, 0),
            decreases r@.len() - k,
        {
            k = k + 1;
        }
        assert(report_slot(r@, x, k as int) == k);
        let ghost before = r@;
        proof {
            assert forall|j: int| k <= j < before.len() implies !precedes(#[trigger] before[j], x) by {
                if precedes(before[j], x) {
                    assert(k < before.len());
                    assert(precedes(x, before[k as int]));
                    if j == k {
                        lemma_lex_lt_asymmetric(before[j].id@, x.id@);
                    } else {
                        assert(!precedes(before[j], before[k as int]));
                        if crate::finding::severity_rank(before[j].severity)
                            == crate::finding::severity_rank(x.severity)
                            && crate::finding::severity_rank(x.severity)
                            == crate::finding::severity_rank(before[k as int].severity) {
                            lemma_lex_lt_transitive(before[j].id@, x.id@, before[k as int].id@);
                        }
                    }
                }
            }
        }
        r.insert(k, x);
        proof {
            let after = r@;
            assert(after == before.insert(k as int, x));
            assert forall|i: int, j: int| 0 <= i < j < after.len() implies !precedes(#[trigger] after[j], #[trigger] after[i]) by {
                if j < k {
                    assert(after[i] == before[i] && after[j] == before[j]);
                } else if j == k {
                    assert(after[j] == x && after[i] == before[i]);
                } else if i == k {
                    assert(after[i] == x && after[j] == before[j - 1]);
                } else if i < k {
                    assert(after[i] == before[i] && after[j] == before[j - 1]);
                } else {
                    assert(after[i] == before[i - 1] && after[j] == before[j - 1]);
                }
            }
            vstd::seq_lib::to_multiset_insert(before, k as int, x);
            vstd::seq_lib::to_multiset_remove(rest_before, 0);
            assert(before.insert(k as int, x).to_multiset() == before.to_multiset().insert(x));
            assert(rest_before.remove(0).to_multiset() == rest_before.to_multiset().remove(
                rest_before[0],
            ));
            assert(rest@ == rest_before.remove(0));
            vstd::seq_lib::to_multiset_contains(rest_before, x);
            assert(rest_before.contains(x)) by {
                assert(rest_before[0] == x);
            }
            assert(rest_before.to_multiset().count(x) > 0);
            assert(after.to_multiset().add(rest@.to_multiset()) =~= before.to_multiset().add(
                rest_before.to_multiset(),
            )) by {
                broadcast use vstd::multiset::group_multiset_axioms;
            }
        }
        consumed = consumed + 1;
        assert(rest@ =~= all.skip(consumed as int));
    }
    assert(all.take(all.len() as int) == all);
    r
}

/// Permuting a sequence permutes what a function maps it to.
pub proof fn lemma_map_keeps_permutation<A, B>(a: Seq<A>, b: Seq<A>, f: spec_fn(A) -> B)
    requires
        a.to_multiset() == b.to_multiset(),
    ensures
        a.map_values(f).to_multiset() == b.map_values(f).to_multiset(),
    decreases a.len(),
{
    broadcast use vstd::seq_lib::group_to_multiset_ensures;

    if a.len() == 0 {
        assert(a.to_multiset().len() == a.len());
        assert(b.to_multiset().len() == b.len());
        assert(b.len() == 0);
        assert(a.map_values(f) =~= Seq::<B>::empty());
        assert(b.map_values(f) =~= Seq::<B>::empty());
    } else {
        let x = a.last();
        assert(a == a.drop_last().push(x));
        assert(a.to_multiset().count(x) > 0);
        assert(b.contains(x));
        let j = choose|j: int| 0 <= j < b.len() && b[j] == x;
        let b2 = b.remove(j);
        assert(a.drop_last().to_multiset() =~= b2.to_multiset());
        lemma_map_keeps_permutation(a.drop_last(), b2, f);
        assert(a.map_values(f) =~= a.drop_last().map_values(f).push(f(x)));
        assert(b.map_values(f) =~= b2.map_values(f).insert(j, f(x)));
    }
}

/// Report order on what findings say (see [`precedes`]).
pub open spec fn view_precedes(a: FindingView, b: FindingView) -> bool {
    crate::finding::severity_rank(a.2) > crate::finding::severity_rank(b.2) || (
    crate::finding::severity_rank(a.2) == crate::finding::severity_rank(b.2) && lex_lt(a.0, b.0))
}

/// [`report_slot`] on what findings say.
pub open spec fn view_slot(s: Seq<FindingView>, x: FindingView, i: int) -> int
    decreases s.len() - i,
{
    if i >= s.len() {
        s.len() as int
    } else if view_precedes(x, s[i]) {
        i
    } else {
        view_slot(s, x, i + 1)
    }
}

/// [`report_sorted`] on what findings say: the findings of a report, in
/// the order it lists them.
pub open spec fn views_sorted(s: Seq<FindingView>) -> Seq<FindingView>
    decreases s.len(),
{
    if s.len() == 0 {
        Seq::empty()
    } else {
        let r = views_sorted(s.drop_last());
        r.insert(view_slot(r, s.last(), 0), s.last())
    }
}

proof fn lemma_slot_views(s: Seq<Finding>, x: Finding, i: int)
    requires
        0 <= i <= s.len(),
    ensures
        report_slot(s, x, i) == view_slot(fviews(s), fview(x), i),
    decreases s.len() - i,
{
    if i < s.len() {
        assert(fviews(s)[i] == fview(s[i]));
        lemma_slot_views(s, x, i + 1);
    }
}

proof fn lemma_slot_range(s: Seq<Finding>, x: Finding, i: int)
    requires
        0 <= i <= s.len(),
    ensures
        i <= report_slot(s, x, i) <= s.len(),
    decreases s.len() - i,
{
    if i < s.len() {
        lemma_slot_range(s, x, i + 1);
    }
}

proof fn lemma_sorted_len(s: Seq<Finding>)
    ensures
        report_sorted(s).len() == s.len(),
    decreases s.len(),
{
    if s.len() > 0 {
        lemma_sorted_len(s.drop_last());
        lemma_slot_range(report_sorted(s.drop_last()), s.last(), 0);
    }
}

/// Sorting findings and then reading what they say is reading them and
/// then sorting.
proof fn lemma_sorted_views(s: Seq<Finding>)
    ensures
        fviews(report_sorted(s)) == views_sorted(fviews(s)),
    decreases s.len(),
{
    if s.len() > 0 {
        let r = report_sorted(s.drop_last());
        lemma_sorted_views(s.drop_last());
        lemma_sorted_len(s.drop_last());
        lemma_slot_range(r, s.last(), 0);
        lemma_slot_views(r, s.last(), 0);
        assert(fviews(s).drop_last() =~= fviews(s.drop_last()));
        assert(fviews(s).last() == fview(s.last()));
        let k = report_slot(r, s.last(), 0);
        assert(fviews(r.insert(k, s.last())) =~= fviews(r).insert(k, fview(s.last())));
    }
}

/// A checkup's report: the rules of this module run on `snapshot`,
/// together with `fractional`, the findings of the rules over fractional
/// readings (load, temperature, boot time, battery health), which the
/// application evaluates; all put in report order and scored over the
/// `measured` categories. The checks that could not run are carried over
/// from the snapshot.
pub fn diagnose(
    snapshot: &Snapshot,
    fractional: Vec<Finding>,
    measured: &Vec<Category>,
    generated_at: String,
) -> (r: HealthReport)
    ensures
        fviews(r.findings@) == views_sorted(rules_spec(*snapshot) + fviews(fractional@)),
        fviews(r.findings@).to_multiset() == (rules_spec(*snapshot) + fviews(
            fractional@,
        )).to_multiset(),
        in_report_order(r.findings@),
        r.generated_at == generated_at,
        views(r.collection_errors@) == views(snapshot.collection_errors@),
        r.category_scores@ == category_scores_spec(r.findings@, measured@),
        r.score == overall_score(r.category_scores@, worst_severity(r.findings@)),
        r.grade@ == grade_of(r.score as nat),
        r.coverage.measured == measured_count(r.category_scores@),
        r.coverage.total == 12,
{
    let mut all = run_rules(snapshot);
    let ghost before = all@;
    let ghost more = fractional@;
    let mut more_v = fractional;
    all.append(&mut more_v);
    assert(all@ == before + more);
    assert(fviews(all@) =~= fviews(before) + fviews(more));
    let ghost unsorted = all@;
    let sorted = sort_findings(all);
    proof {
        lemma_map_keeps_permutation(sorted@, unsorted, |f: Finding| fview(f));
        lemma_sorted_views(unsorted);
    }
    let errors = clone_strings(&snapshot.collection_errors);
    HealthReport::build(generated_at, sorted, measured, errors)
}

} // verus!
