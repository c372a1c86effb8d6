//! The concrete fixes. Each turns a [`Snapshot`] into a [`FixPlan`] (or
//! nothing, when it does not apply). Building a plan runs no command.

use vstd::prelude::*;
use vstd::string::StringExecFns;

use crate::diagnostics::{
    apt_cache_large_spec, firewall_inactive_spec, journal_large_spec, old_kernels_spec,
    old_revisions_spec, unused_runtimes_spec,
};
use crate::finding::{severity_rank, Severity};
use crate::fix::{str_views, FixCommand, FixPlan};
use crate::lang::LocalizedText;
use crate::snapshot::Snapshot;
use crate::units::{gib_tenths, push_gib, tenths_text};
use crate::text::{
    all_digits, chars_of, decimal, digits_value, join, lemma_decimal_reads_back, parse_u64_chars,
    parse_u64_spec, push_decimal, push_str, str_eq, trim, trim_chars, views, filter_map,
    lemma_filter_map_step,
};

verus! {

/// Which polkit action — and therefore which privileged helper — may run a
/// fix.
#[derive(Debug, Clone, Copy, PartialEq, Eq, Structural)]
pub enum FixTier {
    /// Undoable, and touches only a setting.
    Routine,
    /// Deletes something `undo` cannot bring back.
    Destructive,
}

/// The tier a plan belongs to: routine when it is reversible and its risk is
/// below Medium, destructive otherwise.
pub open spec fn tier_of_plan(reversible: bool, risk: Severity) -> FixTier {
    if reversible && severity_rank(risk) < severity_rank(Severity::Medium) {
        FixTier::Routine
    } else {
        FixTier::Destructive
    }
}

impl FixTier {
    /// The tier a plan belongs to (see [`tier_of_plan`]).
    pub fn of(plan: &FixPlan) -> (t: FixTier)
        ensures
            t == tier_of_plan(plan.reversible, plan.risk),
    {
        if plan.reversible && plan.risk.rank() < Severity::Medium.rank() {
            FixTier::Routine
        } else {
            FixTier::Destructive
        }
    }
}

/// What a command records: its program and arguments.
pub open spec fn cmd_view(c: FixCommand) -> (Seq<char>, Seq<Seq<char>>) {
    (c.program@, views(c.args@))
}

/// What a list of commands records.
pub open spec fn cmds_view(cs: Seq<FixCommand>) -> Seq<(Seq<char>, Seq<Seq<char>>)> {
    cs.map_values(|c: FixCommand| cmd_view(c))
}

/// Whether `p` is the plan with these contents.
pub open spec fn plan_is(
    p: FixPlan,
    id: Seq<char>,
    title: (Seq<char>, Seq<char>),
    description: (Seq<char>, Seq<char>),
    commands: Seq<(Seq<char>, Seq<Seq<char>>)>,
    paths: Seq<Seq<char>>,
    reversible: bool,
    undo: Seq<(Seq<char>, Seq<Seq<char>>)>,
    restore: Option<Seq<char>>,
    risk: Severity,
) -> bool {
    &&& p.id@ == id
    &&& p.title.en@ == title.0 && p.title.ar@ == title.1
    &&& p.description.en@ == description.0 && p.description.ar@ == description.1
    &&& cmds_view(p.commands@) == commands
    &&& views(p.affected_paths@) == paths
    &&& p.reversible == reversible
    &&& cmds_view(p.undo@) == undo
    &&& match p.restore {
        Some(r) => restore == Some(r@),
        None => restore is None,
    }
    &&& p.risk == risk
    &&& p.needs_root
}

fn cmd(program: &str, a: &str) -> (c: FixCommand)
    ensures
        cmd_view(c) == (program@, seq![a@]),
{
    let mut args: Vec<String> = Vec::new();
    args.push(String::from_str(a));
    assert(views(args@) =~= seq![a@]);
    FixCommand { program: String::from_str(program), args }
}

fn cmd2(program: &str, a: &str, b: &str) -> (c: FixCommand)
    ensures
        cmd_view(c) == (program@, seq![a@, b@]),
{
    let mut args: Vec<String> = Vec::new();
    args.push(String::from_str(a));
    args.push(String::from_str(b));
    assert(views(args@) =~= seq![a@, b@]);
    FixCommand { program: String::from_str(program), args }
}

fn cmd3(program: &str, a: &str, b: &str, c: &str) -> (r: FixCommand)
    ensures
        cmd_view(r) == (program@, seq![a@, b@, c@]),
{
    let mut args: Vec<String> = Vec::new();
    args.push(String::from_str(a));
    args.push(String::from_str(b));
    args.push(String::from_str(c));
    assert(views(args@) =~= seq![a@, b@, c@]);
    FixCommand { program: String::from_str(program), args }
}

fn one_cmd(c: FixCommand) -> (v: Vec<FixCommand>)
    ensures
        cmds_view(v@) == seq![cmd_view(c)],
{
    let mut v: Vec<FixCommand> = Vec::new();
    v.push(c);
    assert(cmds_view(v@) =~= seq![cmd_view(c)]);
    v
}

fn no_cmds() -> (v: Vec<FixCommand>)
    ensures
        cmds_view(v@) == Seq::<(Seq<char>, Seq<Seq<char>>)>::empty(),
{
    let v: Vec<FixCommand> = Vec::new();
    assert(cmds_view(v@) =~= Seq::<(Seq<char>, Seq<Seq<char>>)>::empty());
    v
}

fn paths1(a: &str) -> (v: Vec<String>)
    ensures
        views(v@) == seq![a@],
{
    let mut v: Vec<String> = Vec::new();
    v.push(String::from_str(a));
    assert(views(v@) =~= seq![a@]);
    v
}

fn paths2(a: &str, b: &str) -> (v: Vec<String>)
    ensures
        views(v@) == seq![a@, b@],
{
    let mut v: Vec<String> = Vec::new();
    v.push(String::from_str(a));
    v.push(String::from_str(b));
    assert(views(v@) =~= seq![a@, b@]);
    v
}

fn paths3(a: &str, b: &str, c: &str) -> (v: Vec<String>)
    ensures
        views(v@) == seq![a@, b@, c@],
{
    let mut v: Vec<String> = Vec::new();
    v.push(String::from_str(a));
    v.push(String::from_str(b));
    v.push(String::from_str(c));
    assert(views(v@) =~= seq![a@, b@, c@]);
    v
}

fn text(en: &str, ar: &str) -> (t: LocalizedText)
    ensures
        t.en@ == en@,
        t.ar@ == ar@,
{
    LocalizedText::new(String::from_str(en), String::from_str(ar))
}

/// The contents of an optional string.
pub open spec fn opt_view(o: Option<String>) -> Option<Seq<char>> {
    match o {
        Some(r) => Some(r@),
        None => None,
    }
}

fn make_plan(
    id: &str,
    title: LocalizedText,
    description: LocalizedText,
    commands: Vec<FixCommand>,
    affected_paths: Vec<String>,
    reversible: bool,
    undo: Vec<FixCommand>,
    restore: Option<String>,
    risk: Severity,
) -> (p: FixPlan)
    ensures
        plan_is(
            p,
            id@,
            (title.en@, title.ar@),
            (description.en@, description.ar@),
            cmds_view(commands@),
            views(affected_paths@),
            reversible,
            cmds_view(undo@),
            opt_view(restore),
            risk,
        ),
{
    FixPlan {
        id: String::from_str(id),
        title,
        description,
        commands,
        affected_paths,
        reversible,
        undo,
        restore,
        risk,
        needs_root: true,
    }
}

/// APT download cache size from which clearing it is worth offering.
pub const APT_CACHE_FIX_BYTES: u64 = 104857600;

/// Journal size from which trimming it is worth offering (the same limit at
/// which the journal is reported as large).
pub const JOURNAL_LARGE_BYTES: u64 = 1073741824;

/// Old kernels beyond this many make the autoremove fix applicable (the
/// running kernel and one fallback stay).
pub const OLD_KERNELS_KEPT: usize = 2;

/// What the APT clean fix tells the user, in English.
pub open spec fn apt_clean_en(bytes: nat) -> Seq<char> {
    "Delete cached .deb files in /var/cache/apt/archives, freeing about "@ + tenths_text(
        gib_tenths(bytes),
    ) + " GiB. Packages re-download on demand if needed."@
}

/// What the APT clean fix tells the user, in Arabic.
pub open spec fn apt_clean_ar(bytes: nat) -> Seq<char> {
    "حذف ملفات .deb المخزّنة في \u{200E}/var/cache/apt/archives، ما يحرّر نحو "@ + tenths_text(
        gib_tenths(bytes),
    ) + " غيغابايت. تُعاد الحزم تنزيلاً عند الحاجة إليها."@
}

/// Clear the APT download cache.
pub struct AptClean;

impl AptClean {
    pub fn id(&self) -> (s: &'static str)
        ensures
            s@ == "fix.apt_clean"@,
    {
        "fix.apt_clean"
    }

    pub fn title(&self) -> (t: LocalizedText)
        ensures
            t.en@ == "Clear the APT download cache"@,
            t.ar@ == "تفريغ ذاكرة تنزيل APT"@,
    {
        text("Clear the APT download cache", "تفريغ ذاكرة تنزيل APT")
    }

    /// Applicable when the APT cache holds at least 100 MiB: runs
    /// `apt-get clean`; not reversible; low risk.
    pub fn plan(&self, s: &Snapshot) -> (r: Option<FixPlan>)
        ensures
            r is Some <==> (s.packages matches Some(p) && p.apt_cache_bytes matches Some(b) && b
                >= APT_CACHE_FIX_BYTES),
            r matches Some(p) ==> plan_is(
                p,
                "fix.apt_clean"@,
                ("Clear the APT download cache"@, "تفريغ ذاكرة تنزيل APT"@),
                (
                    apt_clean_en(s.packages.unwrap().apt_cache_bytes.unwrap() as nat),
                    apt_clean_ar(s.packages.unwrap().apt_cache_bytes.unwrap() as nat),
                ),
                seq![("apt-get"@, seq!["clean"@])],
                seq!["/var/cache/apt/archives"@],
                false,
                Seq::empty(),
                None,
                Severity::Low,
            ),
    {
        let bytes = match &s.packages {
            Some(p) => match p.apt_cache_bytes {
                Some(b) => b,
                None => return None,
            },
            None => return None,
        };
        if bytes < APT_CACHE_FIX_BYTES {
            return None;
        }
        let mut en = String::from_str(
            "Delete cached .deb files in /var/cache/apt/archives, freeing about ",
        );
        push_gib(&mut en, bytes);
        push_str(&mut en, " GiB. Packages re-download on demand if needed.");
        let mut ar = String::from_str(
            "حذف ملفات .deb المخزّنة في \u{200E}/var/cache/apt/archives، ما يحرّر نحو ",
        );
        push_gib(&mut ar, bytes);
        push_str(&mut ar, " غيغابايت. تُعاد الحزم تنزيلاً عند الحاجة إليها.");
        Some(
            make_plan(
                self.id(),
                self.title(),
                LocalizedText::new(en, ar),
                one_cmd(cmd("apt-get", "clean")),
                paths1("/var/cache/apt/archives"),
                false,
                no_cmds(),
                None,
                Severity::Low,
            ),
        )
    }
}

/// What the journal fix tells the user, in English.
pub open spec fn journal_vacuum_en(bytes: nat) -> Seq<char> {
    "The journal currently uses "@ + tenths_text(gib_tenths(bytes))
        + " GiB. This keeps the most recent 200 MB of logs and deletes older archived entries."@
}

/// What the journal fix tells the user, in Arabic.
pub open spec fn journal_vacuum_ar(bytes: nat) -> Seq<char> {
    "يستهلك السجلّ حالياً "@ + tenths_text(gib_tenths(bytes))
        + " غيغابايت. سيُبقي هذا الإجراء أحدث 200 ميغابايت من السجلّات ويحذف المدخلات المؤرشفة الأقدم."@
}

/// Trim the systemd journal.
pub struct JournalVacuum;

impl JournalVacuum {
    pub fn id(&self) -> (s: &'static str)
        ensures
            s@ == "fix.journal_vacuum"@,
    {
        "fix.journal_vacuum"
    }

    pub fn title(&self) -> (t: LocalizedText)
        ensures
            t.en@ == "Trim the systemd journal"@,
            t.ar@ == "تقليص سجلّ systemd"@,
    {
        text("Trim the systemd journal", "تقليص سجلّ systemd")
    }

    /// Applicable when the journal holds at least 1 GiB: runs
    /// `journalctl --vacuum-size=200M`; not reversible; low risk.
    pub fn plan(&self, s: &Snapshot) -> (r: Option<FixPlan>)
        ensures
            r is Some <==> (s.logs matches Some(l) && l.journal_bytes matches Some(b) && b
                >= JOURNAL_LARGE_BYTES),
            r matches Some(p) ==> plan_is(
                p,
                "fix.journal_vacuum"@,
                ("Trim the systemd journal"@, "تقليص سجلّ systemd"@),
                (
                    journal_vacuum_en(s.logs.unwrap().journal_bytes.unwrap() as nat),
                    journal_vacuum_ar(s.logs.unwrap().journal_bytes.unwrap() as nat),
                ),
                seq![("journalctl"@, seq!["--vacuum-size=200M"@])],
                seq!["/var/log/journal"@],
                false,
                Seq::empty(),
                None,
                Severity::Low,
            ),
    {
        let bytes = match &s.logs {
            Some(l) => match l.journal_bytes {
                Some(b) => b,
                None => return None,
            },
            None => return None,
        };
        if bytes < JOURNAL_LARGE_BYTES {
            return None;
        }
        let mut en = String::from_str("The journal currently uses ");
        push_gib(&mut en, bytes);
        push_str(
            &mut en,
            " GiB. This keeps the most recent 200 MB of logs and deletes older archived entries.",
        );
        let mut ar = String::from_str("يستهلك السجلّ حالياً ");
        push_gib(&mut ar, bytes);
        push_str(
            &mut ar,
            " غيغابايت. سيُبقي هذا الإجراء أحدث 200 ميغابايت من السجلّات ويحذف المدخلات المؤرشفة الأقدم.",
        );
        Some(
            make_plan(
                self.id(),
                self.title(),
                LocalizedText::new(en, ar),
                one_cmd(cmd("journalctl", "--vacuum-size=200M")),
                paths1("/var/log/journal"),
                false,
                no_cmds(),
                None,
                Severity::Low,
            ),
        )
    }
}

/// What the Flatpak fix tells the user, in English.
pub open spec fn flatpak_unused_en(n: nat) -> Seq<char> {
    "Uninstall "@ + decimal(n) + " Flatpak runtime(s) that no installed app needs."@
}

/// What the Flatpak fix tells the user, in Arabic.
pub open spec fn flatpak_unused_ar(n: nat) -> Seq<char> {
    "إلغاء تثبيت "@ + decimal(n) + " من بيئات تشغيل Flatpak لا يحتاجها أي تطبيق مُثبَّت."@
}

/// Remove Flatpak runtimes that no installed app needs.
pub struct FlatpakRemoveUnused;

impl FlatpakRemoveUnused {
    pub fn id(&self) -> (s: &'static str)
        ensures
            s@ == "fix.flatpak_unused"@,
    {
        "fix.flatpak_unused"
    }

    pub fn title(&self) -> (t: LocalizedText)
        ensures
            t.en@ == "Remove unused Flatpak runtimes"@,
            t.ar@ == "إزالة بيئات تشغيل Flatpak غير المستخدمة"@,
    {
        text("Remove unused Flatpak runtimes", "إزالة بيئات تشغيل Flatpak غير المستخدمة")
    }

    /// Applicable when at least one runtime is unused: runs
    /// `flatpak uninstall --unused -y`; not reversible; low risk.
    pub fn plan(&self, s: &Snapshot) -> (r: Option<FixPlan>)
        ensures
            r is Some <==> (s.flatpak matches Some(f) && f.unused_refs@.len() > 0),
            r matches Some(p) ==> plan_is(
                p,
                "fix.flatpak_unused"@,
                ("Remove unused Flatpak runtimes"@, "إزالة بيئات تشغيل Flatpak غير المستخدمة"@),
                (
                    flatpak_unused_en(s.flatpak.unwrap().unused_refs@.len()),
                    flatpak_unused_ar(s.flatpak.unwrap().unused_refs@.len()),
                ),
                seq![("flatpak"@, seq!["uninstall"@, "--unused"@, "-y"@])],
                seq!["/var/lib/flatpak"@],
                false,
                Seq::empty(),
                None,
                Severity::Low,
            ),
    {
        let n = match &s.flatpak {
            Some(f) => f.unused_refs.len(),
            None => return None,
        };
        if n == 0 {
            return None;
        }
        let mut en = String::from_str("Uninstall ");
        push_decimal(&mut en, n as u64);
        push_str(&mut en, " Flatpak runtime(s) that no installed app needs.");
        let mut ar = String::from_str("إلغاء تثبيت ");
        push_decimal(&mut ar, n as u64);
        push_str(&mut ar, " من بيئات تشغيل Flatpak لا يحتاجها أي تطبيق مُثبَّت.");
        Some(
            make_plan(
                self.id(),
                self.title(),
                LocalizedText::new(en, ar),
                one_cmd(cmd3("flatpak", "uninstall", "--unused", "-y")),
                paths1("/var/lib/flatpak"),
                false,
                no_cmds(),
                None,
                Severity::Low,
            ),
        )
    }
}

/// What the firewall fix tells the user, in English.
pub open spec fn enable_ufw_en() -> Seq<char> {
    "Turn on ufw with its default policy: deny incoming, allow outgoing. Suitable for a desktop with no server software."@
}

/// What the firewall fix tells the user, in Arabic.
pub open spec fn enable_ufw_ar() -> Seq<char> {
    "تشغيل ufw بسياسته الافتراضية: منع الوارد، والسماح بالصادر. مناسب لجهاز مكتبي لا يشغّل برمجيات خادم."@
}

/// Enable the ufw firewall.
pub struct EnableUfw;

impl EnableUfw {
    pub fn id(&self) -> (s: &'static str)
        ensures
            s@ == "fix.enable_ufw"@,
    {
        "fix.enable_ufw"
    }

    pub fn title(&self) -> (t: LocalizedText)
        ensures
            t.en@ == "Enable the firewall"@,
            t.ar@ == "تفعيل الجدار الناري"@,
    {
        text("Enable the firewall", "تفعيل الجدار الناري")
    }

    /// Undoable and touching only a setting.
    pub fn tier(&self) -> (t: FixTier)
        ensures
            t == FixTier::Routine,
    {
        FixTier::Routine
    }

    /// `ufw disable`.
    pub fn undo(&self) -> (v: Vec<FixCommand>)
        ensures
            cmds_view(v@) == seq![("ufw"@, seq!["disable"@])],
    {
        one_cmd(cmd("ufw", "disable"))
    }

    /// Applicable when the firewall is known to be inactive: runs
    /// `ufw --force enable`; reversible by `ufw disable`; low risk.
    pub fn plan(&self, s: &Snapshot) -> (r: Option<FixPlan>)
        ensures
            r is Some <==> (s.security matches Some(sec) && sec.firewall_active == Some(false)),
            r matches Some(p) ==> plan_is(
                p,
                "fix.enable_ufw"@,
                ("Enable the firewall"@, "تفعيل الجدار الناري"@),
                (enable_ufw_en(), enable_ufw_ar()),
                seq![("ufw"@, seq!["--force"@, "enable"@])],
                seq!["/etc/ufw"@, "/lib/systemd/system/ufw.service"@],
                true,
                seq![("ufw"@, seq!["disable"@])],
                None,
                Severity::Low,
            ),
    {
        match &s.security {
            Some(sec) => {
                if sec.firewall_active != Some(false) {
                    return None;
                }
            },
            None => return None,
        }
        Some(
            make_plan(
                self.id(),
                self.title(),
                text(
                    "Turn on ufw with its default policy: deny incoming, allow outgoing. Suitable for a desktop with no server software.",
                    "تشغيل ufw بسياسته الافتراضية: منع الوارد، والسماح بالصادر. مناسب لجهاز مكتبي لا يشغّل برمجيات خادم.",
                ),
                one_cmd(cmd2("ufw", "--force", "enable")),
                paths2("/etc/ufw", "/lib/systemd/system/ufw.service"),
                true,
                self.undo(),
                None,
                Severity::Low,
            ),
        )
    }
}

/// How many package names a preview lists before summarising the rest.
pub const PREVIEW_PACKAGE_LIMIT: usize = 12;

/// A package list for a preview: every name joined with `", "` when there
/// are at most [`PREVIEW_PACKAGE_LIMIT`], else the first ones followed by
/// `", … (+N)"` for the `N` left out.
pub open spec fn package_list_text(ps: Seq<Seq<char>>) -> Seq<char> {
    if ps.len() <= PREVIEW_PACKAGE_LIMIT {
        join(ps, ", "@)
    } else {
        join(ps.take(PREVIEW_PACKAGE_LIMIT as int), ", "@) + ", … (+"@ + decimal(
            (ps.len() - PREVIEW_PACKAGE_LIMIT) as nat,
        ) + ")"@
    }
}

proof fn lemma_join_step(ps: Seq<Seq<char>>, sep: Seq<char>, i: int)
    requires
        0 <= i < ps.len(),
    ensures
        join(ps.take(i + 1), sep) == if i == 0 {
            ps[0]
        } else {
            join(ps.take(i), sep) + sep + ps[i]
        },
{
    let t = ps.take(i + 1);
    if i > 0 {
        assert(t.drop_last() == ps.take(i));
        assert(t.last() == ps[i]);
    } else {
        assert(t.len() == 1);
    }
}

/// Append `v[..n]` joined with `sep`.
fn push_joined(out: &mut String, v: &Vec<String>, n: usize, sep: &str)
    requires
        n <= v@.len(),
    ensures
        final(out)@ == old(out)@ + join(views(v@).take(n as int), sep@),
{
    let ghost start = out@;
    let ghost vs = views(v@);
    for i in 0..n
        invariant
            n <= v@.len(),
            vs == views(v@),
            out@ == start + join(vs.take(i as int), sep@),
    {
        proof {
            lemma_join_step(vs, sep@, i as int);
        }
        if i > 0 {
            push_str(out, sep);
        }
        push_str(out, v[i].as_str());
        assert(v@[i as int]@ == vs[i as int]);
    }
}

/// The package list shown in a preview (see [`package_list_text`]).
pub fn package_list(packages: &Vec<String>) -> (s: String)
    ensures
        s@ == package_list_text(views(packages@)),
{
    let mut s = String::new();
    let n = packages.len();
    if n <= PREVIEW_PACKAGE_LIMIT {
        push_joined(&mut s, packages, n, ", ");
        assert(views(packages@).take(n as int) == views(packages@));
    } else {
        push_joined(&mut s, packages, PREVIEW_PACKAGE_LIMIT, ", ");
        push_str(&mut s, ", … (+");
        push_decimal(&mut s, (n - PREVIEW_PACKAGE_LIMIT) as u64);
        push_str(&mut s, ")");
    }
    s
}

/// What the autoremove fix adds when it knows the packages it removes, in
/// English.
pub open spec fn autoremove_extra_en(removed: Seq<Seq<char>>) -> Seq<char> {
    if removed.len() == 0 {
        Seq::empty()
    } else {
        "\n\nIt will remove "@ + decimal(removed.len()) + " package(s) in total: "@
            + package_list_text(removed) + "."@
    }
}

/// The same, in Arabic.
pub open spec fn autoremove_extra_ar(removed: Seq<Seq<char>>) -> Seq<char> {
    if removed.len() == 0 {
        Seq::empty()
    } else {
        "\n\nسيزيل "@ + decimal(removed.len()) + " حزمة إجمالاً: "@ + package_list_text(removed)
            + "."@
    }
}

/// What the autoremove fix tells the user, in English.
pub open spec fn autoremove_en(kernels: nat, removed: Seq<Seq<char>>) -> Seq<char> {
    "Purge "@ + decimal(kernels)
        + " old kernel image(s) and any auto-installed packages no longer needed, including their configuration files in /etc. The running kernel and one fallback are always kept."@
        + autoremove_extra_en(removed)
}

/// What the autoremove fix tells the user, in Arabic.
pub open spec fn autoremove_ar(kernels: nat, removed: Seq<Seq<char>>) -> Seq<char> {
    "إزالة "@ + decimal(kernels)
        + " من صور النواة القديمة وأي حزم مُثبَّتة تلقائياً لم تعد لازمة، بما في ذلك ملفات إعداداتها في \u{200E}/etc. تُحفَظ دائماً النواة العاملة ونواة احتياطية واحدة."@
        + autoremove_extra_ar(removed)
}

/// Purge old kernels and every auto-installed package nothing needs.
pub struct AutoremoveKernels;

impl AutoremoveKernels {
    pub fn id(&self) -> (s: &'static str)
        ensures
            s@ == "fix.autoremove"@,
    {
        "fix.autoremove"
    }

    pub fn title(&self) -> (t: LocalizedText)
        ensures
            t.en@ == "Remove old kernels and orphaned packages"@,
            t.ar@ == "إزالة النوى القديمة والحزم اليتيمة"@,
    {
        text("Remove old kernels and orphaned packages", "إزالة النوى القديمة والحزم اليتيمة")
    }

    /// Applicable when more than [`OLD_KERNELS_KEPT`] old kernels are
    /// installed: runs `apt-get autoremove --purge -y`, which also purges the
    /// configuration in /etc of every package it removes, and names those
    /// packages; not reversible; medium risk.
    pub fn plan(&self, s: &Snapshot) -> (r: Option<FixPlan>)
        ensures
            r is Some <==> (s.packages matches Some(p) && p.old_kernels@.len()
                > OLD_KERNELS_KEPT),
            r matches Some(p) ==> plan_is(
                p,
                "fix.autoremove"@,
                ("Remove old kernels and orphaned packages"@, "إزالة النوى القديمة والحزم اليتيمة"@),
                (
                    autoremove_en(
                        s.packages.unwrap().old_kernels@.len(),
                        views(s.packages.unwrap().autoremovable@),
                    ),
                    autoremove_ar(
                        s.packages.unwrap().old_kernels@.len(),
                        views(s.packages.unwrap().autoremovable@),
                    ),
                ),
                seq![("apt-get"@, seq!["autoremove"@, "--purge"@, "-y"@])],
                seq!["/boot"@, "/lib/modules"@, "/etc"@],
                false,
                Seq::empty(),
                None,
                Severity::Medium,
            ),
    {
        let packages = match &s.packages {
            Some(p) => p,
            None => return None,
        };
        let k = packages.old_kernels.len();
        if k <= OLD_KERNELS_KEPT {
            return None;
        }
        let removed = &packages.autoremovable;
        let mut en = String::from_str("Purge ");
        push_decimal(&mut en, k as u64);
        push_str(
            &mut en,
            " old kernel image(s) and any auto-installed packages no longer needed, including their configuration files in /etc. The running kernel and one fallback are always kept.",
        );
        let mut ar = String::from_str("إزالة ");
        push_decimal(&mut ar, k as u64);
        push_str(
            &mut ar,
            " من صور النواة القديمة وأي حزم مُثبَّتة تلقائياً لم تعد لازمة، بما في ذلك ملفات إعداداتها في \u{200E}/etc. تُحفَظ دائماً النواة العاملة ونواة احتياطية واحدة.",
        );
        let n = removed.len();
        if n > 0 {
            let listed = package_list(removed);
            push_str(&mut en, "\n\nIt will remove ");
            push_decimal(&mut en, n as u64);
            push_str(&mut en, " package(s) in total: ");
            push_str(&mut en, listed.as_str());
            push_str(&mut en, ".");
            push_str(&mut ar, "\n\nسيزيل ");
            push_decimal(&mut ar, n as u64);
            push_str(&mut ar, " حزمة إجمالاً: ");
            push_str(&mut ar, listed.as_str());
            push_str(&mut ar, ".");
        }
        assert(en@ =~= autoremove_en(k as nat, views(removed@)));
        assert(ar@ =~= autoremove_ar(k as nat, views(removed@)));
        Some(
            make_plan(
                self.id(),
                self.title(),
                LocalizedText::new(en, ar),
                one_cmd(cmd3("apt-get", "autoremove", "--purge", "-y")),
                paths3("/boot", "/lib/modules", "/etc"),
                false,
                no_cmds(),
                None,
                Severity::Medium,
            ),
        )
    }
}

/// snapd's own default for `refresh.retain`.
pub const SNAPD_DEFAULT_RETAIN: u32 = 3;

/// The smallest `refresh.retain` snapd accepts.
pub const MIN_RETAIN: u32 = 2;

/// The largest `refresh.retain` snapd accepts.
pub const MAX_RETAIN: u32 = 20;

/// What the fix sets: the current revision plus one to roll back to.
pub const TARGET_RETAIN: u32 = 2;

/// The command that sets `refresh.retain` to `value`.
pub open spec fn retain_cmd(value: nat) -> (Seq<char>, Seq<Seq<char>>) {
    ("snap"@, seq!["set"@, "system"@, "refresh.retain="@ + decimal(value)])
}

/// The retention count an undo restores, given the value recorded when the
/// fix was applied: that value, trimmed and read as a decimal integer, when
/// it lies in `MIN_RETAIN..=MAX_RETAIN`; snapd's default otherwise.
pub open spec fn restored_retain(restore: Option<Seq<char>>) -> nat {
    match restore {
        Some(v) => match parse_u64_spec(trim(v)) {
            Some(n) => if MIN_RETAIN <= n <= MAX_RETAIN {
                n as nat
            } else {
                SNAPD_DEFAULT_RETAIN as nat
            },
            None => SNAPD_DEFAULT_RETAIN as nat,
        },
        None => SNAPD_DEFAULT_RETAIN as nat,
    }
}

/// The optional contents of an optional string slice.
pub open spec fn opt_str_view(o: Option<&str>) -> Option<Seq<char>> {
    match o {
        Some(r) => Some(r@),
        None => None,
    }
}

/// The value a snapshot's `refresh.retain` is recorded as.
pub open spec fn recorded_retain(r: Option<u32>) -> Option<Seq<char>> {
    match r {
        Some(v) => Some(decimal(v as nat)),
        None => None,
    }
}

/// What the snap fix adds when it knows the current setting, in English.
pub open spec fn snap_current_en(r: Option<u32>) -> Seq<char> {
    match r {
        Some(v) => ", and refresh.retain is "@ + decimal(v as nat),
        None => Seq::empty(),
    }
}

/// The same, in Arabic.
pub open spec fn snap_current_ar(r: Option<u32>) -> Seq<char> {
    match r {
        Some(v) => "، وقيمة refresh.retain الحالية "@ + decimal(v as nat),
        None => Seq::empty(),
    }
}

/// What the snap fix tells the user, in English.
pub open spec fn snap_retain_en(disabled: nat, r: Option<u32>) -> Seq<char> {
    "Set snapd to retain only 2 revisions per snap (currently "@ + decimal(disabled)
        + " disabled revision(s) are held"@ + snap_current_en(r)
        + "). snapd prunes the extras on the next refresh."@
}

/// What the snap fix tells the user, in Arabic.
pub open spec fn snap_retain_ar(disabled: nat, r: Option<u32>) -> Seq<char> {
    "ضبط snapd للاحتفاظ بـ 2 نسختين فقط لكل snap (يُحتفظ حالياً بـ "@ + decimal(disabled)
        + " نسخة معطّلة"@ + snap_current_ar(r) + "). يحذف snapd الزائد عند التحديث التالي."@
}

/// Keep fewer old snap revisions.
pub struct SnapRetain;

impl SnapRetain {
    fn set_retain(value: u32) -> (v: Vec<FixCommand>)
        ensures
            cmds_view(v@) == seq![retain_cmd(value as nat)],
    {
        let mut arg = String::from_str("refresh.retain=");
        push_decimal(&mut arg, value as u64);
        one_cmd(cmd3("snap", "set", "system", arg.as_str()))
    }

    pub fn id(&self) -> (s: &'static str)
        ensures
            s@ == "fix.snap_retain"@,
    {
        "fix.snap_retain"
    }

    pub fn title(&self) -> (t: LocalizedText)
        ensures
            t.en@ == "Keep fewer old snap revisions"@,
            t.ar@ == "الإبقاء على عدد أقل من نسخ snap القديمة"@,
    {
        text("Keep fewer old snap revisions", "الإبقاء على عدد أقل من نسخ snap القديمة")
    }

    /// Undoable and touching only a setting.
    pub fn tier(&self) -> (t: FixTier)
        ensures
            t == FixTier::Routine,
    {
        FixTier::Routine
    }

    /// Without a recorded previous value: snapd's own default.
    pub fn undo(&self) -> (v: Vec<FixCommand>)
        ensures
            cmds_view(v@) == seq![retain_cmd(SNAPD_DEFAULT_RETAIN as nat)],
    {
        Self::set_retain(SNAPD_DEFAULT_RETAIN)
    }

    /// Restore the value recorded when the fix was applied. The value comes
    /// from a file and runs as root, so only a count snapd accepts is put
    /// back; anything else gives snapd's default.
    pub fn undo_from(&self, restore: Option<&str>) -> (v: Vec<FixCommand>)
        ensures
            cmds_view(v@) == seq![retain_cmd(restored_retain(opt_str_view(restore)))],
            MIN_RETAIN <= restored_retain(opt_str_view(restore)) <= MAX_RETAIN,
    {
        let value: u32 = match restore {
            Some(r) => {
                let t = trim_chars(&chars_of(r));
                match parse_u64_chars(&t) {
                    Some(n) => if MIN_RETAIN as u64 <= n && n <= MAX_RETAIN as u64 {
                        n as u32
                    } else {
                        SNAPD_DEFAULT_RETAIN
                    },
                    None => SNAPD_DEFAULT_RETAIN,
                }
            },
            None => SNAPD_DEFAULT_RETAIN,
        };
        Self::set_retain(value)
    }

    /// Applicable when snapd holds disabled revisions: sets
    /// `refresh.retain=2`; reversible, and the undo puts back the value the
    /// system had when that value is known and valid; low risk.
    pub fn plan(&self, s: &Snapshot) -> (r: Option<FixPlan>)
        ensures
            r is Some <==> (s.snap matches Some(sn) && sn.disabled_revisions != 0),
            r matches Some(p) ==> plan_is(
                p,
                "fix.snap_retain"@,
                ("Keep fewer old snap revisions"@, "الإبقاء على عدد أقل من نسخ snap القديمة"@),
                (
                    snap_retain_en(
                        s.snap.unwrap().disabled_revisions as nat,
                        s.snap.unwrap().refresh_retain,
                    ),
                    snap_retain_ar(
                        s.snap.unwrap().disabled_revisions as nat,
                        s.snap.unwrap().refresh_retain,
                    ),
                ),
                seq![retain_cmd(TARGET_RETAIN as nat)],
                seq!["/var/lib/snapd/snaps"@],
                true,
                seq![retain_cmd(restored_retain(recorded_retain(s.snap.unwrap().refresh_retain)))],
                recorded_retain(s.snap.unwrap().refresh_retain),
                Severity::Low,
            ),
    {
        let snap = match &s.snap {
            Some(sn) => sn,
            None => return None,
        };
        if snap.disabled_revisions == 0 {
            return None;
        }
        let mut en = String::from_str("Set snapd to retain only 2 revisions per snap (currently ");
        push_decimal(&mut en, snap.disabled_revisions as u64);
        push_str(&mut en, " disabled revision(s) are held");
        let mut ar = String::from_str("ضبط snapd للاحتفاظ بـ 2 نسختين فقط لكل snap (يُحتفظ حالياً بـ ");
        push_decimal(&mut ar, snap.disabled_revisions as u64);
        push_str(&mut ar, " نسخة معطّلة");
        let restore: Option<String> = match snap.refresh_retain {
            Some(v) => {
                push_str(&mut en, ", and refresh.retain is ");
                push_decimal(&mut en, v as u64);
                push_str(&mut ar, "، وقيمة refresh.retain الحالية ");
                push_decimal(&mut ar, v as u64);
                let mut t = String::new();
                push_decimal(&mut t, v as u64);
                Some(t)
            },
            None => None,
        };
        push_str(&mut en, "). snapd prunes the extras on the next refresh.");
        push_str(&mut ar, "). يحذف snapd الزائد عند التحديث التالي.");
        assert(en@ =~= snap_retain_en(snap.disabled_revisions as nat, snap.refresh_retain));
        assert(ar@ =~= snap_retain_ar(snap.disabled_revisions as nat, snap.refresh_retain));
        assert(opt_view(restore) == recorded_retain(snap.refresh_retain));
        let undo = match &restore {
            Some(t) => self.undo_from(Some(t.as_str())),
            None => self.undo_from(None),
        };
        Some(
            make_plan(
                self.id(),
                self.title(),
                LocalizedText::new(en, ar),
                Self::set_retain(TARGET_RETAIN),
                paths1("/var/lib/snapd/snaps"),
                true,
                undo,
                restore,
                Severity::Low,
            ),
        )
    }
}

/// An undo restores any retention count snapd accepts exactly as it was
/// recorded.
pub proof fn lemma_undo_restores_recorded_retain(v: u32)
    requires
        MIN_RETAIN <= v <= MAX_RETAIN,
    ensures
        restored_retain(recorded_retain(Some(v))) == v,
{
    lemma_decimal_reads_back(v as nat);
    let d = decimal(v as nat);
    assert(d[0] != '+');
}

/// One of the fixes SysMedic can offer.
#[derive(Debug, Clone, Copy, PartialEq, Eq, Structural)]
pub enum Fix {
    AptClean,
    JournalVacuum,
    AutoremoveKernels,
    SnapRetain,
    FlatpakRemoveUnused,
    EnableUfw,
}

/// Every fix, in the registry's order.
pub open spec fn registry() -> Seq<Fix> {
    seq![
        Fix::AptClean,
        Fix::JournalVacuum,
        Fix::AutoremoveKernels,
        Fix::SnapRetain,
        Fix::FlatpakRemoveUnused,
        Fix::EnableUfw,
    ]
}

/// A fix's stable id.
pub open spec fn fix_id(f: Fix) -> Seq<char> {
    match f {
        Fix::AptClean => "fix.apt_clean"@,
        Fix::JournalVacuum => "fix.journal_vacuum"@,
        Fix::AutoremoveKernels => "fix.autoremove"@,
        Fix::SnapRetain => "fix.snap_retain"@,
        Fix::FlatpakRemoveUnused => "fix.flatpak_unused"@,
        Fix::EnableUfw => "fix.enable_ufw"@,
    }
}

/// The ids of the registry, in order.
pub open spec fn registry_ids() -> Seq<Seq<char>> {
    registry().map_values(|f: Fix| fix_id(f))
}

/// The tier a fix declares: routine for the two that only flip a setting,
/// destructive for the rest.
pub open spec fn fix_tier(f: Fix) -> FixTier {
    match f {
        Fix::SnapRetain | Fix::EnableUfw => FixTier::Routine,
        _ => FixTier::Destructive,
    }
}

/// A fix's compiled-in undo commands (empty when it cannot be undone).
pub open spec fn fix_undo(f: Fix) -> Seq<(Seq<char>, Seq<Seq<char>>)> {
    match f {
        Fix::SnapRetain => seq![retain_cmd(SNAPD_DEFAULT_RETAIN as nat)],
        Fix::EnableUfw => seq![("ufw"@, seq!["disable"@])],
        _ => Seq::empty(),
    }
}

/// A fix's undo commands, given the value it overwrote as recorded.
pub open spec fn fix_undo_from(f: Fix, restore: Option<Seq<char>>) -> Seq<(Seq<char>, Seq<Seq<char>>)> {
    match f {
        Fix::SnapRetain => seq![retain_cmd(restored_retain(restore))],
        _ => fix_undo(f),
    }
}

/// A fix's title.
pub open spec fn fix_title(f: Fix) -> (Seq<char>, Seq<char>) {
    match f {
        Fix::AptClean => ("Clear the APT download cache"@, "تفريغ ذاكرة تنزيل APT"@),
        Fix::JournalVacuum => ("Trim the systemd journal"@, "تقليص سجلّ systemd"@),
        Fix::AutoremoveKernels => (
            "Remove old kernels and orphaned packages"@,
            "إزالة النوى القديمة والحزم اليتيمة"@,
        ),
        Fix::SnapRetain => ("Keep fewer old snap revisions"@, "الإبقاء على عدد أقل من نسخ snap القديمة"@),
        Fix::FlatpakRemoveUnused => (
            "Remove unused Flatpak runtimes"@,
            "إزالة بيئات تشغيل Flatpak غير المستخدمة"@,
        ),
        Fix::EnableUfw => ("Enable the firewall"@, "تفعيل الجدار الناري"@),
    }
}

/// Whether a fix applies to a snapshot.
pub open spec fn fix_applies(f: Fix, s: Snapshot) -> bool {
    match f {
        Fix::AptClean => s.packages matches Some(p) && p.apt_cache_bytes matches Some(b) && b
            >= APT_CACHE_FIX_BYTES,
        Fix::JournalVacuum => s.logs matches Some(l) && l.journal_bytes matches Some(b) && b
            >= JOURNAL_LARGE_BYTES,
        Fix::AutoremoveKernels => s.packages matches Some(p) && p.old_kernels@.len()
            > OLD_KERNELS_KEPT,
        Fix::SnapRetain => s.snap matches Some(sn) && sn.disabled_revisions != 0,
        Fix::FlatpakRemoveUnused => s.flatpak matches Some(fl) && fl.unused_refs@.len() > 0,
        Fix::EnableUfw => s.security matches Some(sec) && sec.firewall_active == Some(false),
    }
}

/// The plan a fix builds for a snapshot it applies to.
pub open spec fn fix_plan_is(f: Fix, s: Snapshot, p: FixPlan) -> bool {
    match f {
        Fix::AptClean => plan_is(
            p,
            fix_id(f),
            fix_title(f),
            (
                apt_clean_en(s.packages.unwrap().apt_cache_bytes.unwrap() as nat),
                apt_clean_ar(s.packages.unwrap().apt_cache_bytes.unwrap() as nat),
            ),
            seq![("apt-get"@, seq!["clean"@])],
            seq!["/var/cache/apt/archives"@],
            false,
            Seq::empty(),
            None,
            Severity::Low,
        ),
        Fix::JournalVacuum => plan_is(
            p,
            fix_id(f),
            fix_title(f),
            (
                journal_vacuum_en(s.logs.unwrap().journal_bytes.unwrap() as nat),
                journal_vacuum_ar(s.logs.unwrap().journal_bytes.unwrap() as nat),
            ),
            seq![("journalctl"@, seq!["--vacuum-size=200M"@])],
            seq!["/var/log/journal"@],
            false,
            Seq::empty(),
            None,
            Severity::Low,
        ),
        Fix::AutoremoveKernels => plan_is(
            p,
            fix_id(f),
            fix_title(f),
            (
                autoremove_en(
                    s.packages.unwrap().old_kernels@.len(),
                    views(s.packages.unwrap().autoremovable@),
                ),
                autoremove_ar(
                    s.packages.unwrap().old_kernels@.len(),
                    views(s.packages.unwrap().autoremovable@),
                ),
            ),
            seq![("apt-get"@, seq!["autoremove"@, "--purge"@, "-y"@])],
            seq!["/boot"@, "/lib/modules"@, "/etc"@],
            false,
            Seq::empty(),
            None,
            Severity::Medium,
        ),
        Fix::SnapRetain => plan_is(
            p,
            fix_id(f),
            fix_title(f),
            (
                snap_retain_en(
                    s.snap.unwrap().disabled_revisions as nat,
                    s.snap.unwrap().refresh_retain,
                ),
                snap_retain_ar(
                    s.snap.unwrap().disabled_revisions as nat,
                    s.snap.unwrap().refresh_retain,
                ),
            ),
            seq![retain_cmd(TARGET_RETAIN as nat)],
            seq!["/var/lib/snapd/snaps"@],
            true,
            seq![retain_cmd(restored_retain(recorded_retain(s.snap.unwrap().refresh_retain)))],
            recorded_retain(s.snap.unwrap().refresh_retain),
            Severity::Low,
        ),
        Fix::FlatpakRemoveUnused => plan_is(
            p,
            fix_id(f),
            fix_title(f),
            (
                flatpak_unused_en(s.flatpak.unwrap().unused_refs@.len()),
                flatpak_unused_ar(s.flatpak.unwrap().unused_refs@.len()),
            ),
            seq![("flatpak"@, seq!["uninstall"@, "--unused"@, "-y"@])],
            seq!["/var/lib/flatpak"@],
            false,
            Seq::empty(),
            None,
            Severity::Low,
        ),
        Fix::EnableUfw => plan_is(
            p,
            fix_id(f),
            fix_title(f),
            (enable_ufw_en(), enable_ufw_ar()),
            seq![("ufw"@, seq!["--force"@, "enable"@])],
            seq!["/etc/ufw"@, "/lib/systemd/system/ufw.service"@],
            true,
            seq![("ufw"@, seq!["disable"@])],
            None,
            Severity::Low,
        ),
    }
}

impl Fix {
    /// The fix's stable id.
    pub fn id(&self) -> (s: &'static str)
        ensures
            s@ == fix_id(*self),
    {
        match self {
            Fix::AptClean => AptClean.id(),
            Fix::JournalVacuum => JournalVacuum.id(),
            Fix::AutoremoveKernels => AutoremoveKernels.id(),
            Fix::SnapRetain => SnapRetain.id(),
            Fix::FlatpakRemoveUnused => FlatpakRemoveUnused.id(),
            Fix::EnableUfw => EnableUfw.id(),
        }
    }

    /// The fix's bilingual title; it does not depend on any snapshot.
    pub fn title(&self) -> (t: LocalizedText)
        ensures
            (t.en@, t.ar@) == fix_title(*self),
    {
        match self {
            Fix::AptClean => AptClean.title(),
            Fix::JournalVacuum => JournalVacuum.title(),
            Fix::AutoremoveKernels => AutoremoveKernels.title(),
            Fix::SnapRetain => SnapRetain.title(),
            Fix::FlatpakRemoveUnused => FlatpakRemoveUnused.title(),
            Fix::EnableUfw => EnableUfw.title(),
        }
    }

    /// The plan for this system, or `None` when there is nothing to do.
    pub fn plan(&self, s: &Snapshot) -> (r: Option<FixPlan>)
        ensures
            r is Some <==> fix_applies(*self, *s),
            r matches Some(p) ==> fix_plan_is(*self, *s, p),
    {
        match self {
            Fix::AptClean => AptClean.plan(s),
            Fix::JournalVacuum => JournalVacuum.plan(s),
            Fix::AutoremoveKernels => AutoremoveKernels.plan(s),
            Fix::SnapRetain => SnapRetain.plan(s),
            Fix::FlatpakRemoveUnused => FlatpakRemoveUnused.plan(s),
            Fix::EnableUfw => EnableUfw.plan(s),
        }
    }

    /// Which privileged helper may run this fix. Declared per fix, since the
    /// helper must be chosen before any plan exists.
    pub fn tier(&self) -> (t: FixTier)
        ensures
            t == fix_tier(*self),
    {
        match self {
            Fix::SnapRetain => SnapRetain.tier(),
            Fix::EnableUfw => EnableUfw.tier(),
            _ => FixTier::Destructive,
        }
    }

    /// The commands that reverse this fix; empty when it cannot be undone.
    pub fn undo(&self) -> (v: Vec<FixCommand>)
        ensures
            cmds_view(v@) == fix_undo(*self),
    {
        match self {
            Fix::SnapRetain => SnapRetain.undo(),
            Fix::EnableUfw => EnableUfw.undo(),
            _ => no_cmds(),
        }
    }

    /// [`Fix::undo`], given the value the fix overwrote as recorded in the
    /// journal; only a fix that replaces a setting uses it, and only after
    /// validating it.
    pub fn undo_from(&self, restore: Option<&str>) -> (v: Vec<FixCommand>)
        ensures
            cmds_view(v@) == fix_undo_from(*self, opt_str_view(restore)),
    {
        match self {
            Fix::SnapRetain => SnapRetain.undo_from(restore),
            _ => self.undo(),
        }
    }
}

/// Every fix, in the registry's order.
pub fn all() -> (v: Vec<Fix>)
    ensures
        v@ == registry(),
{
    let v = vec![
        Fix::AptClean,
        Fix::JournalVacuum,
        Fix::AutoremoveKernels,
        Fix::SnapRetain,
        Fix::FlatpakRemoveUnused,
        Fix::EnableUfw,
    ];
    assert(v@ =~= registry());
    v
}

/// The first fix of the registry whose id is `id`.
pub open spec fn find_spec(id: Seq<char>) -> Option<Fix> {
    if exists|i: int| 0 <= i < registry().len() && fix_id(registry()[i]) == id {
        Some(registry()[first_index(id)])
    } else {
        None
    }
}

/// The index of the first fix whose id is `id` (when there is one).
pub open spec fn first_index(id: Seq<char>) -> int {
    choose|i: int|
        0 <= i < registry().len() && fix_id(registry()[i]) == id && forall|j: int|
            0 <= j < i ==> fix_id(#[trigger] registry()[j]) != id
}

/// No two fixes share an id.
pub proof fn lemma_fix_ids_unique()
    ensures
        forall|i: int, j: int|
            0 <= i < j < registry().len() ==> fix_id(#[trigger] registry()[i]) != fix_id(
                #[trigger] registry()[j],
            ),
{
    reveal_strlit("fix.apt_clean");
    reveal_strlit("fix.journal_vacuum");
    reveal_strlit("fix.autoremove");
    reveal_strlit("fix.snap_retain");
    reveal_strlit("fix.flatpak_unused");
    reveal_strlit("fix.enable_ufw");
    assert forall|i: int, j: int| 0 <= i < j < registry().len() implies fix_id(
        #[trigger] registry()[i],
    ) != fix_id(#[trigger] registry()[j]) by {
        let a = fix_id(registry()[i]);
        let b = fix_id(registry()[j]);
        if a == b {
            assert(a.len() == b.len());
            assert(a[4] == b[4]);
            assert(a[5] == b[5]);
        }
    }
}

/// Look up a fix by id.
pub fn find(id: &str) -> (r: Option<Fix>)
    ensures
        r == find_spec(id@),
        r matches Some(f) ==> fix_id(f) == id@,
{
    let fixes = all();
    proof {
        lemma_fix_ids_unique();
    }
    for i in 0..fixes.len()
        invariant
            fixes@ == registry(),
            forall|j: int| 0 <= j < i ==> fix_id(#[trigger] registry()[j]) != id@,
    {
        if str_eq(fixes[i].id(), id) {
            proof {
                let k = first_index(id@);
                assert(0 <= k < registry().len() && fix_id(registry()[k]) == id@);
                if k != i {
                    assert(fix_id(registry()[k]) != fix_id(registry()[i as int]));
                }
            }
            return Some(fixes[i]);
        }
    }
    None
}

/// The compiled-in undo commands for a fix id: `None` for an unknown id,
/// an empty list for a known fix that cannot be undone.
pub fn undo_commands(id: &str) -> (r: Option<Vec<FixCommand>>)
    ensures
        r is Some <==> find_spec(id@) is Some,
        r matches Some(v) ==> cmds_view(v@) == fix_undo(find_spec(id@).unwrap()),
{
    match find(id) {
        Some(f) => Some(f.undo()),
        None => None,
    }
}

/// Every fix id, in the registry's order, derived from the registry.
pub fn fix_ids() -> (v: Vec<&'static str>)
    ensures
        str_views(v@) == registry_ids(),
{
    let fixes = all();
    let mut v: Vec<&'static str> = Vec::new();
    for i in 0..fixes.len()
        invariant
            fixes@ == registry(),
            str_views(v@) == registry_ids().take(i as int),
    {
        let ghost before = v@;
        v.push(fixes[i].id());
        assert(str_views(v@) =~= str_views(before).push(fix_id(registry()[i as int])));
        assert(registry_ids().take(i + 1) =~= registry_ids().take(i as int).push(
            fix_id(registry()[i as int]),
        ));
    }
    assert(registry_ids().take(6) =~= registry_ids());
    v
}

/// The id of a fix when it has the tier `t`.
pub open spec fn id_if_tier(t: FixTier) -> spec_fn(Fix) -> Option<Seq<char>> {
    |f: Fix|
        if fix_tier(f) == t {
            Some(fix_id(f))
        } else {
            None
        }
}

/// The ids of the fixes of tier `t`, in the registry's order.
pub open spec fn tier_ids(t: FixTier) -> Seq<Seq<char>> {
    filter_map(registry(), id_if_tier(t))
}

/// The fix ids a helper of `tier` may run.
pub fn fix_ids_for(tier: FixTier) -> (v: Vec<&'static str>)
    ensures
        str_views(v@) == tier_ids(tier),
{
    let fixes = all();
    let mut v: Vec<&'static str> = Vec::new();
    for i in 0..fixes.len()
        invariant
            fixes@ == registry(),
            str_views(v@) == filter_map(registry().take(i as int), id_if_tier(tier)),
    {
        proof {
            lemma_filter_map_step(registry(), id_if_tier(tier), i as int);
        }
        let f = fixes[i];
        if f.tier() == tier {
            let ghost before = v@;
            v.push(f.id());
            assert(str_views(v@) =~= str_views(before).push(fix_id(f)));
        }
    }
    assert(registry().take(6) =~= registry());
    v
}

/// The tier of a fix id, or `None` when the id is unknown.
pub fn tier_of(id: &str) -> (r: Option<FixTier>)
    ensures
        r == match find_spec(id@) {
            Some(f) => Some(fix_tier(f)),
            None => None::<FixTier>,
        },
{
    match find(id) {
        Some(f) => Some(f.tier()),
        None => None,
    }
}

/// The fix that resolves a finding, by the finding's id.
pub open spec fn finding_fix(finding: Seq<char>) -> Option<Seq<char>> {
    if finding == "packages.apt_cache_large"@ {
        Some("fix.apt_clean"@)
    } else if finding == "logs.journal_large"@ {
        Some("fix.journal_vacuum"@)
    } else if finding == "packages.old_kernels"@ {
        Some("fix.autoremove"@)
    } else if finding == "storage.snap_old_revisions"@ {
        Some("fix.snap_retain"@)
    } else if finding == "flatpak.unused_runtimes"@ {
        Some("fix.flatpak_unused"@)
    } else if finding == "security.firewall_inactive"@ {
        Some("fix.enable_ufw"@)
    } else {
        None
    }
}

/// The fix that resolves a finding, if one exists; what it names is always
/// a fix of the registry.
pub fn fix_for_finding(finding_id: &str) -> (r: Option<&'static str>)
    ensures
        match r {
            Some(f) => finding_fix(finding_id@) == Some(f@),
            None => finding_fix(finding_id@) is None,
        },
        r matches Some(f) ==> registry_ids().contains(f@),
{
    proof {
        lemma_findings_map_to_registered_fixes(finding_id@);
    }
    if str_eq(finding_id, "packages.apt_cache_large") {
        Some("fix.apt_clean")
    } else if str_eq(finding_id, "logs.journal_large") {
        Some("fix.journal_vacuum")
    } else if str_eq(finding_id, "packages.old_kernels") {
        Some("fix.autoremove")
    } else if str_eq(finding_id, "storage.snap_old_revisions") {
        Some("fix.snap_retain")
    } else if str_eq(finding_id, "flatpak.unused_runtimes") {
        Some("fix.flatpak_unused")
    } else if str_eq(finding_id, "security.firewall_inactive") {
        Some("fix.enable_ufw")
    } else {
        None
    }
}

/// Every finding that has a fix maps to a fix the registry holds.
pub proof fn lemma_findings_map_to_registered_fixes(finding: Seq<char>)
    ensures
        finding_fix(finding) matches Some(f) ==> registry_ids().contains(f),
{
    if let Some(f) = finding_fix(finding) {
        let i: int = if f == "fix.apt_clean"@ {
            0
        } else if f == "fix.journal_vacuum"@ {
            1
        } else if f == "fix.autoremove"@ {
            2
        } else if f == "fix.snap_retain"@ {
            3
        } else if f == "fix.flatpak_unused"@ {
            4
        } else {
            5
        };
        assert(registry_ids()[i] == f);
    }
}

/// The fix named for `finding` is a fix of the registry that applies to
/// the system `s`.
pub open spec fn resolved_by_its_fix(finding: Seq<char>, s: Snapshot) -> bool {
    finding_fix(finding) matches Some(fid) && exists|i: int|
        0 <= i < registry().len() && fix_id(registry()[i]) == fid && #[trigger] fix_applies(
            registry()[i],
            s,
        )
}

/// Law: the fix named for a finding resolves it — whenever a rule raises a
/// finding that has a fix (a large APT cache or journal, old kernels, old
/// snap revisions, unused Flatpak runtimes, an inactive firewall), that
/// fix applies to the very system the finding was raised on.
pub proof fn lemma_a_findings_fix_applies(s: Snapshot)
    ensures
        forall|k: int| 0 <= k < apt_cache_large_spec(s).len() ==> resolved_by_its_fix(#[trigger] apt_cache_large_spec(s)[k].0, s),
        forall|k: int| 0 <= k < journal_large_spec(s).len() ==> resolved_by_its_fix(#[trigger] journal_large_spec(s)[k].0, s),
        forall|k: int| 0 <= k < old_kernels_spec(s).len() ==> resolved_by_its_fix(#[trigger] old_kernels_spec(s)[k].0, s),
        forall|k: int| 0 <= k < old_revisions_spec(s).len() ==> resolved_by_its_fix(#[trigger] old_revisions_spec(s)[k].0, s),
        forall|k: int| 0 <= k < unused_runtimes_spec(s).len() ==> resolved_by_its_fix(#[trigger] unused_runtimes_spec(s)[k].0, s),
        forall|k: int| 0 <= k < firewall_inactive_spec(s).len() ==> resolved_by_its_fix(#[trigger] firewall_inactive_spec(s)[k].0, s),
{
    reveal_strlit("packages.apt_cache_large");
    reveal_strlit("logs.journal_large");
    reveal_strlit("packages.old_kernels");
    reveal_strlit("storage.snap_old_revisions");
    reveal_strlit("flatpak.unused_runtimes");
    reveal_strlit("security.firewall_inactive");
    assert("packages.apt_cache_large"@.len() == 24);
    assert("logs.journal_large"@.len() == 18);
    assert("packages.old_kernels"@.len() == 20);
    assert("storage.snap_old_revisions"@.len() == 26);
    assert("flatpak.unused_runtimes"@.len() == 23);
    assert("security.firewall_inactive"@.len() == 26);
    assert("security.firewall_inactive"@[1] != "storage.snap_old_revisions"@[1]);
    let r = registry();
    if apt_cache_large_spec(s).len() > 0 {
        assert(fix_applies(r[0], s));
    }
    if journal_large_spec(s).len() > 0 {
        assert(fix_applies(r[1], s));
    }
    if old_kernels_spec(s).len() > 0 {
        assert(fix_applies(r[2], s));
    }
    if old_revisions_spec(s).len() > 0 {
        assert(fix_applies(r[3], s));
    }
    if unused_runtimes_spec(s).len() > 0 {
        assert(fix_applies(r[4], s));
    }
    if firewall_inactive_spec(s).len() > 0 {
        assert(fix_applies(r[5], s));
    }
}

/// The tier a fix declares is the tier of every plan it builds.
pub proof fn lemma_declared_tier_matches_plan(f: Fix, s: Snapshot, p: FixPlan)
    requires
        fix_plan_is(f, s, p),
    ensures
        tier_of_plan(p.reversible, p.risk) == fix_tier(f),
{
}

/// The two tiers split the registry: every id is in exactly one of them.
pub proof fn lemma_tiers_partition_registry()
    ensures
        forall|id: Seq<char>|
            registry_ids().contains(id) <==> (tier_ids(FixTier::Routine).contains(id)
                || tier_ids(FixTier::Destructive).contains(id)),
        forall|id: Seq<char>|
            !(tier_ids(FixTier::Routine).contains(id) && tier_ids(
                FixTier::Destructive,
            ).contains(id)),
        tier_ids(FixTier::Routine).len() + tier_ids(FixTier::Destructive).len()
            == registry_ids().len(),
{
    lemma_fix_ids_unique();
    let r = registry();
    reveal_with_fuel(filter_map, 7);
    assert(r.drop_last() =~= seq![r[0], r[1], r[2], r[3], r[4]]);
    let routine = tier_ids(FixTier::Routine);
    let destructive = tier_ids(FixTier::Destructive);
    assert(routine =~= seq![fix_id(r[3]), fix_id(r[5])]);
    assert(destructive =~= seq![fix_id(r[0]), fix_id(r[1]), fix_id(r[2]), fix_id(r[4])]);
    let ids = registry_ids();
    assert forall|id: Seq<char>| ids.contains(id) implies (routine.contains(id)
        || destructive.contains(id)) by {
        let k = choose|k: int| 0 <= k < ids.len() && ids[k] == id;
        if k == 3 {
            assert(routine[0] == id);
        } else if k == 5 {
            assert(routine[1] == id);
        } else if k == 0 {
            assert(destructive[0] == id);
        } else if k == 1 {
            assert(destructive[1] == id);
        } else if k == 2 {
            assert(destructive[2] == id);
        } else {
            assert(destructive[3] == id);
        }
    }
    assert forall|id: Seq<char>| (routine.contains(id) || destructive.contains(id)) implies ids.contains(id) by {
        if routine.contains(id) {
            let k = choose|k: int| 0 <= k < routine.len() && routine[k] == id;
            if k == 0 { assert(ids[3] == id); } else { assert(ids[5] == id); }
        } else {
            let k = choose|k: int| 0 <= k < destructive.len() && destructive[k] == id;
            if k == 0 { assert(ids[0] == id); } else if k == 1 { assert(ids[1] == id); }
            else if k == 2 { assert(ids[2] == id); } else { assert(ids[4] == id); }
        }
    }
    assert forall|id: Seq<char>| !(routine.contains(id) && destructive.contains(id)) by {
        if routine.contains(id) && destructive.contains(id) {
            let a = choose|k: int| 0 <= k < routine.len() && routine[k] == id;
            let b = choose|k: int| 0 <= k < destructive.len() && destructive[k] == id;
            let ia: int = if a == 0 { 3 } else { 5 };
            let ib: int = if b == 0 { 0 } else if b == 1 { 1 } else if b == 2 { 2 } else { 4 };
            assert(fix_id(r[ia]) == fix_id(r[ib]));
            if ia < ib {
                assert(fix_id(r[ia]) != fix_id(r[ib]));
            } else {
                assert(fix_id(r[ib]) != fix_id(r[ia]));
            }
        }
    }
}

/// On a snapshot in which no section a fix reads was collected, no fix
/// applies.
pub proof fn lemma_fixes_quiet_without_data(s: Snapshot)
    requires
        s.packages is None,
        s.logs is None,
        s.snap is None,
        s.flatpak is None,
        s.security is None,
    ensures
        forall|f: Fix| !fix_applies(f, s),
{
}

/// The plan for the fix `fix_id` on this system; `None` when the id is
/// unknown or the fix does not apply.
pub fn plan(fix_id: &str, s: &Snapshot) -> (r: Option<FixPlan>)
    ensures
        match find_spec(fix_id@) {
            Some(f) => (r is Some <==> fix_applies(f, *s)) && (r matches Some(p) ==> fix_plan_is(
                f,
                *s,
                p,
            )),
            None => r is None,
        },
{
    match find(fix_id) {
        Some(f) => f.plan(s),
        None => None,
    }
}

/// The fixes of the registry that apply to `s`, in registry order.
pub open spec fn applicable(s: Snapshot) -> Seq<Fix> {
    registry().filter(|f: Fix| fix_applies(f, s))
}

/// Every fix that applies to this system right now, as ready-to-preview
/// plans, in registry order.
pub fn applicable_plans(s: &Snapshot) -> (v: Vec<FixPlan>)
    ensures
        v@.len() == applicable(*s).len(),
        forall|i: int| 0 <= i < v@.len() ==> fix_plan_is(applicable(*s)[i], *s, #[trigger] v@[i]),
{
    let fs = all();
    let mut v: Vec<FixPlan> = Vec::new();
    let ghost pred = |f: Fix| fix_applies(f, *s);
    for i in 0..fs.len()
        invariant
            fs@ == registry(),
            pred == (|f: Fix| fix_applies(f, *s)),
            v@.len() == registry().take(i as int).filter(pred).len(),
            forall|k: int|
                0 <= k < v@.len() ==> fix_plan_is(
                    registry().take(i as int).filter(pred)[k],
                    *s,
                    #[trigger] v@[k],
                ),
    {
        proof {
            assert(registry().take(i + 1) == registry().take(i as int).push(fs@[i as int]));
            registry().take(i as int).lemma_filter_push(fs@[i as int], pred);
        }
        match fs[i].plan(s) {
            Some(p) => {
                v.push(p);
            },
            None => {},
        }
    }
    assert(registry().take(fs@.len() as int) == registry());
    v
}

} // verus!
