//! What the terminal prints around the data: the localized labels, and the
//! cleaning of text before it reaches a terminal.

use vstd::prelude::*;

use crate::lang::Lang;
use crate::text::{chars_of, push_char, push_stripped, strip_controls};

verus! {

/// The terminal chrome of the commands beyond `checkup` and `explain`.
pub struct Tools {
    pub no_fixes: &'static str,
    pub applicable_fixes: &'static str,
    pub reversible: &'static str,
    pub not_reversible: &'static str,
    pub dry_run_note: &'static str,
    pub rerun_to_apply: &'static str,
    pub applied: &'static str,
    pub would_undo: &'static str,
    pub rerun_to_undo: &'static str,
    pub nothing_to_undo: &'static str,
    pub cannot_read_journal: &'static str,
    pub reverted: &'static str,
    pub requesting_auth: &'static str,
    pub scanning: &'static str,
    pub empty_or_unreadable: &'static str,
    pub network: &'static str,
    pub default_route: &'static str,
    pub yes: &'static str,
    pub no: &'static str,
    pub dns_servers: &'static str,
    pub none: &'static str,
    pub latency: &'static str,
    pub latency_unavailable: &'static str,
    pub network_unavailable: &'static str,
    pub listening_ports: &'static str,
    pub no_listening_ports: &'static str,
    pub scope_network: &'static str,
    pub scope_localhost: &'static str,
    pub health_score: &'static str,
    pub alerts: &'static str,
    pub no_history_location: &'static str,
    pub no_history_yet: &'static str,
    pub history_title: &'static str,
    pub trend_since_first: &'static str,
    pub findings_count: &'static str,
    pub schedule_enabled: &'static str,
    pub schedule_not_activated: &'static str,
    pub schedule_disabled: &'static str,
    pub schedule_status_off: &'static str,
    pub schedule_status_on: &'static str,
    pub cadence_daily: &'static str,
    pub cadence_weekly: &'static str,
    pub cadence_monthly: &'static str,
}

/// The text of every field of a [`Tools`], in declaration order.
pub open spec fn tools_view(t: Tools) -> Seq<Seq<char>> {
    seq![
        t.no_fixes@,
        t.applicable_fixes@,
        t.reversible@,
        t.not_reversible@,
        t.dry_run_note@,
        t.rerun_to_apply@,
        t.applied@,
        t.would_undo@,
        t.rerun_to_undo@,
        t.nothing_to_undo@,
        t.cannot_read_journal@,
        t.reverted@,
        t.requesting_auth@,
        t.scanning@,
        t.empty_or_unreadable@,
        t.network@,
        t.default_route@,
        t.yes@,
        t.no@,
        t.dns_servers@,
        t.none@,
        t.latency@,
        t.latency_unavailable@,
        t.network_unavailable@,
        t.listening_ports@,
        t.no_listening_ports@,
        t.scope_network@,
        t.scope_localhost@,
        t.health_score@,
        t.alerts@,
        t.no_history_location@,
        t.no_history_yet@,
        t.history_title@,
        t.trend_since_first@,
        t.findings_count@,
        t.schedule_enabled@,
        t.schedule_not_activated@,
        t.schedule_disabled@,
        t.schedule_status_off@,
        t.schedule_status_on@,
        t.cadence_daily@,
        t.cadence_weekly@,
        t.cadence_monthly@,
    ]
}

/// The [`Tools`] table for `lang`, field by field in declaration order.
pub open spec fn tools_text(lang: Lang) -> Seq<Seq<char>> {
    match lang {
        Lang::En => seq![
            "No fixes needed — nothing to prescribe."@,
            "Applicable fixes (run `sysmedic fix <id> --dry-run` to preview):"@,
            "reversible"@,
            "not reversible"@,
            "(dry run — nothing was changed)"@,
            "Re-run with --yes to apply this fix."@,
            "applied"@,
            "Would undo:"@,
            "Re-run with --yes to undo."@,
            "Nothing to undo."@,
            "(cannot read journal:"@,
            "reverted"@,
            "Requesting authorization"@,
            "Scanning"@,
            "(empty or unreadable)"@,
            "Network"@,
            "Default route:"@,
            "yes"@,
            "no"@,
            "DNS servers:"@,
            "(none)"@,
            "Latency:"@,
            "unavailable (no ping)"@,
            "network info unavailable"@,
            "Listening ports"@,
            "no listening ports found"@,
            "network"@,
            "localhost"@,
            "Health score:"@,
            "alert(s)."@,
            "No history location available (neither HOME nor XDG_STATE_HOME is set)."@,
            "No history yet. Run `sysmedic monitor` or enable `sysmedic schedule daily`."@,
            "Health-score history"@,
            "Trend since first record:"@,
            "finding(s)"@,
            "Scheduled checkups. See status with `systemctl --user list-timers`."@,
            "timer units installed, but they could not be activated here (no user systemd session). On your desktop run:"@,
            "Scheduled checkups disabled."@,
            "Scheduled checkups:"@,
            "Scheduled checkups:"@,
            "daily"@,
            "weekly"@,
            "monthly"@,
        ],
        Lang::Ar => seq![
            "لا حاجة لأي إصلاح — لا شيء يُوصف."@,
            "الإصلاحات المنطبقة (شغّل \u{200E}`sysmedic fix <id> --dry-run`\u{200E} للمعاينة):"@,
            "قابل للتراجع"@,
            "غير قابل للتراجع"@,
            "(تشغيل تجريبي — لم يُغيَّر شيء)"@,
            "أعد التشغيل مع \u{200E}--yes\u{200E} لتطبيق هذا الإصلاح."@,
            "طُبّق"@,
            "سيُتراجَع عن:"@,
            "أعد التشغيل مع \u{200E}--yes\u{200E} للتراجع."@,
            "لا يوجد ما يُتراجَع عنه."@,
            "(تعذّرت قراءة السجل:"@,
            "تُراجِع عن"@,
            "جارٍ طلب التفويض"@,
            "جارٍ فحص"@,
            "(فارغ أو غير قابل للقراءة)"@,
            "الشبكة"@,
            "المسار الافتراضي:"@,
            "نعم"@,
            "لا"@,
            "خوادم DNS:"@,
            "(لا يوجد)"@,
            "زمن الاستجابة:"@,
            "غير متاح (لا يوجد ping)"@,
            "معلومات الشبكة غير متاحة"@,
            "المنافذ المُنصتة"@,
            "لم يُعثر على منافذ مُنصتة"@,
            "الشبكة"@,
            "محلي"@,
            "الدرجة الصحية:"@,
            "تنبيه."@,
            "لا يوجد مكان لحفظ السجل (لا HOME ولا XDG_STATE_HOME مضبوط)."@,
            "لا يوجد سجل بعد. شغّل \u{200E}`sysmedic monitor`\u{200E} أو فعّل \u{200E}`sysmedic schedule daily`\u{200E}."@,
            "سجل الدرجة الصحية"@,
            "التغيّر منذ أول تسجيل:"@,
            "نتيجة"@,
            "جُدولت الفحوص. اعرض الحالة بـ \u{200E}`systemctl --user list-timers`\u{200E}."@,
            "رُكِّبت وحدات المؤقّت، لكن تعذّر تفعيلها هنا (لا توجد جلسة systemd للمستخدم). على جهازك المكتبي نفّذ:"@,
            "أُوقفت الفحوص المجدولة."@,
            "الفحوص المجدولة:"@,
            "الفحوص المجدولة:"@,
            "يومية"@,
            "أسبوعية"@,
            "شهرية"@,
        ],
    }
}

/// The chrome for those commands, in `lang`.
pub fn tools(lang: Lang) -> (t: &'static Tools)
    ensures
        tools_view(*t) == tools_text(lang),
{
    match lang {
        Lang::En => &Tools {
            no_fixes: "No fixes needed — nothing to prescribe.",
            applicable_fixes: "Applicable fixes (run `sysmedic fix <id> --dry-run` to preview):",
            reversible: "reversible",
            not_reversible: "not reversible",
            dry_run_note: "(dry run — nothing was changed)",
            rerun_to_apply: "Re-run with --yes to apply this fix.",
            applied: "applied",
            would_undo: "Would undo:",
            rerun_to_undo: "Re-run with --yes to undo.",
            nothing_to_undo: "Nothing to undo.",
            cannot_read_journal: "(cannot read journal:",
            reverted: "reverted",
            requesting_auth: "Requesting authorization",
            scanning: "Scanning",
            empty_or_unreadable: "(empty or unreadable)",
            network: "Network",
            default_route: "Default route:",
            yes: "yes",
            no: "no",
            dns_servers: "DNS servers:",
            none: "(none)",
            latency: "Latency:",
            latency_unavailable: "unavailable (no ping)",
            network_unavailable: "network info unavailable",
            listening_ports: "Listening ports",
            no_listening_ports: "no listening ports found",
            scope_network: "network",
            scope_localhost: "localhost",
            health_score: "Health score:",
            alerts: "alert(s).",
            no_history_location: "No history location available (neither HOME nor XDG_STATE_HOME is set).",
            no_history_yet: "No history yet. Run `sysmedic monitor` or enable `sysmedic schedule daily`.",
            history_title: "Health-score history",
            trend_since_first: "Trend since first record:",
            findings_count: "finding(s)",
            schedule_enabled: "Scheduled checkups. See status with `systemctl --user list-timers`.",
            schedule_not_activated: "timer units installed, but they could not be activated here (no user systemd session). On your desktop run:",
            schedule_disabled: "Scheduled checkups disabled.",
            schedule_status_off: "Scheduled checkups:",
            schedule_status_on: "Scheduled checkups:",
            cadence_daily: "daily",
            cadence_weekly: "weekly",
            cadence_monthly: "monthly",
        },
        Lang::Ar => &Tools {
            no_fixes: "لا حاجة لأي إصلاح — لا شيء يُوصف.",
            applicable_fixes: "الإصلاحات المنطبقة (شغّل \u{200E}`sysmedic fix <id> --dry-run`\u{200E} للمعاينة):",
            reversible: "قابل للتراجع",
            not_reversible: "غير قابل للتراجع",
            dry_run_note: "(تشغيل تجريبي — لم يُغيَّر شيء)",
            rerun_to_apply: "أعد التشغيل مع \u{200E}--yes\u{200E} لتطبيق هذا الإصلاح.",
            applied: "طُبّق",
            would_undo: "سيُتراجَع عن:",
            rerun_to_undo: "أعد التشغيل مع \u{200E}--yes\u{200E} للتراجع.",
            nothing_to_undo: "لا يوجد ما يُتراجَع عنه.",
            cannot_read_journal: "(تعذّرت قراءة السجل:",
            reverted: "تُراجِع عن",
            requesting_auth: "جارٍ طلب التفويض",
            scanning: "جارٍ فحص",
            empty_or_unreadable: "(فارغ أو غير قابل للقراءة)",
            network: "الشبكة",
            default_route: "المسار الافتراضي:",
            yes: "نعم",
            no: "لا",
            dns_servers: "خوادم DNS:",
            none: "(لا يوجد)",
            latency: "زمن الاستجابة:",
            latency_unavailable: "غير متاح (لا يوجد ping)",
            network_unavailable: "معلومات الشبكة غير متاحة",
            listening_ports: "المنافذ المُنصتة",
            no_listening_ports: "لم يُعثر على منافذ مُنصتة",
            scope_network: "الشبكة",
            scope_localhost: "محلي",
            health_score: "الدرجة الصحية:",
            alerts: "تنبيه.",
            no_history_location: "لا يوجد مكان لحفظ السجل (لا HOME ولا XDG_STATE_HOME مضبوط).",
            no_history_yet: "لا يوجد سجل بعد. شغّل \u{200E}`sysmedic monitor`\u{200E} أو فعّل \u{200E}`sysmedic schedule daily`\u{200E}.",
            history_title: "سجل الدرجة الصحية",
            trend_since_first: "التغيّر منذ أول تسجيل:",
            findings_count: "نتيجة",
            schedule_enabled: "جُدولت الفحوص. اعرض الحالة بـ \u{200E}`systemctl --user list-timers`\u{200E}.",
            schedule_not_activated: "رُكِّبت وحدات المؤقّت، لكن تعذّر تفعيلها هنا (لا توجد جلسة systemd للمستخدم). على جهازك المكتبي نفّذ:",
            schedule_disabled: "أُوقفت الفحوص المجدولة.",
            schedule_status_off: "الفحوص المجدولة:",
            schedule_status_on: "الفحوص المجدولة:",
            cadence_daily: "يومية",
            cadence_weekly: "أسبوعية",
            cadence_monthly: "شهرية",
        },
    }
}

/// The labels around a rendered health report.
pub struct Chrome {
    pub health_score: &'static str,
    pub healthy: &'static str,
    pub findings_intro_prefix: &'static str,
    pub findings_intro_suffix: &'static str,
    pub remedy: &'static str,
    pub try_: &'static str,
    pub skipped: &'static str,
    pub coverage: &'static str,
    pub coverage_note: &'static str,
    pub not_measured: &'static str,
}

/// The text of every field of a [`Chrome`], in declaration order.
pub open spec fn chrome_view(t: Chrome) -> Seq<Seq<char>> {
    seq![
        t.health_score@,
        t.healthy@,
        t.findings_intro_prefix@,
        t.findings_intro_suffix@,
        t.remedy@,
        t.try_@,
        t.skipped@,
        t.coverage@,
        t.coverage_note@,
        t.not_measured@,
    ]
}

/// The [`Chrome`] table for `lang`, field by field in declaration order.
pub open spec fn chrome_text(lang: Lang) -> Seq<Seq<char>> {
    match lang {
        Lang::En => seq![
            "Health score"@,
            "No problems found — the system looks healthy."@,
            ""@,
            " finding(s), most severe first:"@,
            "Remedy:"@,
            "Try:"@,
            "Skipped checks:"@,
            "Coverage"@,
            "categories measured; the score is computed from those only"@,
            "not measured"@,
        ],
        Lang::Ar => seq![
            "الدرجة الصحية"@,
            "لا توجد مشاكل — النظام يبدو سليماً."@,
            "عدد النتائج: "@,
            "، الأخطر أولاً:"@,
            "العلاج:"@,
            "جرّب:"@,
            "فحوص متخطاة:"@,
            "التغطية"@,
            "فئة مقيسة؛ والدرجة محسوبة منها وحدها"@,
            "غير مقيس"@,
        ],
    }
}

/// The report labels in `lang`.
pub fn chrome(lang: Lang) -> (c: Chrome)
    ensures
        chrome_view(c) == chrome_text(lang),
{
    match lang {
        Lang::En => Chrome {
            health_score: "Health score",
            healthy: "No problems found — the system looks healthy.",
            findings_intro_prefix: "",
            findings_intro_suffix: " finding(s), most severe first:",
            remedy: "Remedy:",
            try_: "Try:",
            skipped: "Skipped checks:",
            coverage: "Coverage",
            coverage_note: "categories measured; the score is computed from those only",
            not_measured: "not measured",
        },
        Lang::Ar => Chrome {
            health_score: "الدرجة الصحية",
            healthy: "لا توجد مشاكل — النظام يبدو سليماً.",
            findings_intro_prefix: "عدد النتائج: ",
            findings_intro_suffix: "، الأخطر أولاً:",
            remedy: "العلاج:",
            try_: "جرّب:",
            skipped: "فحوص متخطاة:",
            coverage: "التغطية",
            coverage_note: "فئة مقيسة؛ والدرجة محسوبة منها وحدها",
            not_measured: "غير مقيس",
        },
    }
}

/// Field labels for `sysmedic explain`, aligned so the answers line up.
pub struct ExplainLabels {
    pub cause: &'static str,
    pub dangerous: &'static str,
    pub impact: &'static str,
    pub remedy: &'static str,
    pub if_ignored: &'static str,
}

/// The text of every field of a [`ExplainLabels`], in declaration order.
pub open spec fn explain_labels_view(t: ExplainLabels) -> Seq<Seq<char>> {
    seq![
        t.cause@,
        t.dangerous@,
        t.impact@,
        t.remedy@,
        t.if_ignored@,
    ]
}

/// The [`ExplainLabels`] table for `lang`, field by field in declaration order.
pub open spec fn explain_labels_text(lang: Lang) -> Seq<Seq<char>> {
    match lang {
        Lang::En => seq![
            "Cause:         "@,
            "Dangerous?     "@,
            "Impact:        "@,
            "Remedy:        "@,
            "If ignored:    "@,
        ],
        Lang::Ar => seq![
            "السبب:"@,
            "هل هي خطيرة؟"@,
            "التأثير:"@,
            "العلاج:"@,
            "إذا أُهملت:"@,
        ],
    }
}

/// Labels for the five explanation questions, in `lang`.
pub fn explain_labels(lang: Lang) -> (l: ExplainLabels)
    ensures
        explain_labels_view(l) == explain_labels_text(lang),
{
    match lang {
        Lang::En => ExplainLabels {
            cause: "Cause:         ",
            dangerous: "Dangerous?     ",
            impact: "Impact:        ",
            remedy: "Remedy:        ",
            if_ignored: "If ignored:    ",
        },
        Lang::Ar => ExplainLabels {
            cause: "السبب:",
            dangerous: "هل هي خطيرة؟",
            impact: "التأثير:",
            remedy: "العلاج:",
            if_ignored: "إذا أُهملت:",
        },
    }
}

/// `s` without control characters, newlines and tabs excepted: text that
/// embeds system data (process names, mount labels) cannot slip terminal
/// control sequences into the output.
pub fn sanitize(s: &str) -> (r: String)
    ensures
        r@ == strip_controls(s@, true),
{
    let mut r = String::new();
    push_stripped(&mut r, &chars_of(s), true);
    r
}

/// The escape character that starts a terminal control sequence.
pub open spec fn esc() -> char {
    '\u{1b}'
}

/// An ASCII letter.
pub open spec fn ascii_alpha(c: char) -> bool {
    ('a' <= c && c <= 'z') || ('A' <= c && c <= 'Z')
}

/// Where a control sequence whose parameters start at `j` ends: just past
/// the first letter at or after `j`, or the end of `s`.
pub open spec fn csi_end(s: Seq<char>, j: int) -> int
    decreases s.len() - j,
{
    if j >= s.len() {
        s.len() as int
    } else if ascii_alpha(s[j]) {
        j + 1
    } else {
        csi_end(s, j + 1)
    }
}

/// `s[i..]` with its escape sequences removed: an escape followed by `[`
/// goes with everything up to and including the next letter; a lone escape
/// goes by itself.
pub open spec fn strip_ansi_from(s: Seq<char>, i: int) -> Seq<char>
    decreases s.len() - i, 1int,
{
    if i < 0 || i >= s.len() {
        Seq::empty()
    } else if s[i] == esc() {
        if i + 1 < s.len() && s[i + 1] == '[' {
            strip_ansi_tail(s, i + 2)
        } else {
            strip_ansi_from(s, i + 1)
        }
    } else {
        seq![s[i]] + strip_ansi_from(s, i + 1)
    }
}

/// [`strip_ansi_from`] after the parameters starting at `j`.
pub open spec fn strip_ansi_tail(s: Seq<char>, j: int) -> Seq<char>
    decreases s.len() - j, 0int,
{
    if j < 0 || j >= s.len() {
        Seq::empty()
    } else {
        proof {
            lemma_csi_end_range(s, j);
        }
        strip_ansi_from(s, csi_end(s, j))
    }
}

/// A control sequence's end lies between its start and the end of `s`,
/// and past its start unless that is the end.
pub proof fn lemma_csi_end_range(s: Seq<char>, j: int)
    requires
        0 <= j <= s.len(),
    ensures
        j <= csi_end(s, j) <= s.len(),
        csi_end(s, j) > j || j == s.len(),
    decreases s.len() - j,
{
    if j < s.len() && !ascii_alpha(s[j]) {
        lemma_csi_end_range(s, j + 1);
    }
}

/// `s` with its escape sequences removed.
pub open spec fn strip_ansi_text(s: Seq<char>) -> Seq<char> {
    strip_ansi_from(s, 0)
}

fn csi_end_exec(s: &Vec<char>, j: usize) -> (k: usize)
    requires
        j <= s@.len(),
    ensures
        k == csi_end(s@, j as int),
        j <= k <= s@.len(),
{
    let mut k = j;
    while k < s.len() && !(('a' <= s[k] && s[k] <= 'z') || ('A' <= s[k] && s[k] <= 'Z'))
        invariant
            j <= k <= s@.len(),
            csi_end(s@, k as int) == csi_end(s@, j as int),
        decreases s@.len() - k,
    {
        k = k + 1;
    }
    if k < s.len() {
        k + 1
    } else {
        k
    }
}

/// Remove ANSI escape sequences, as when a report goes to a file or a pipe.
pub fn strip_ansi(s: &str) -> (r: String)
    ensures
        r@ == strip_ansi_text(s@),
{
    let v = chars_of(s);
    let mut out = String::new();
    let mut i: usize = 0;
    while i < v.len()
        invariant
            i <= v@.len(),
            v@ == s@,
            out@ + strip_ansi_from(v@, i as int) == strip_ansi_text(s@),
        decreases v@.len() - i,
    {
        let c = v[i];
        if c == '\u{1b}' {
            if i + 1 < v.len() && v[i + 1] == '[' {
                let k = csi_end_exec(&v, i + 2);
                proof {
                    lemma_csi_end_range(v@, i + 2);
                    assert(strip_ansi_from(v@, i as int) == strip_ansi_tail(v@, i + 2));
                    if i + 2 < v@.len() {
                        assert(strip_ansi_tail(v@, i + 2) == strip_ansi_from(v@, k as int));
                    } else {
                        assert(strip_ansi_from(v@, k as int) == Seq::<char>::empty());
                    }
                }
                i = k;
            } else {
                assert(strip_ansi_from(v@, i as int) == strip_ansi_from(v@, i + 1));
                i = i + 1;
            }
        } else {
            let ghost before = out@;
            push_char(&mut out, c);
            assert(before + strip_ansi_from(v@, i as int) == out@ + strip_ansi_from(v@, i + 1));
            i = i + 1;
        }
    }
    assert(strip_ansi_from(v@, i as int) == Seq::<char>::empty());
    assert(out@ + Seq::<char>::empty() == out@);
    out
}

/// Text with no escape character passes through unchanged.
pub proof fn lemma_strip_ansi_keeps_plain_text(s: Seq<char>, i: int)
    requires
        0 <= i <= s.len(),
        forall|k: int| 0 <= k < s.len() ==> s[k] != esc(),
    ensures
        strip_ansi_from(s, i) == s.subrange(i, s.len() as int),
    decreases s.len() - i,
{
    if i < s.len() {
        lemma_strip_ansi_keeps_plain_text(s, i + 1);
        assert(seq![s[i]] + s.subrange(i + 1, s.len() as int) =~= s.subrange(i, s.len() as int));
    } else {
        assert(s.subrange(i, s.len() as int) =~= Seq::<char>::empty());
    }
}

} // verus!
