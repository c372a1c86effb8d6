//! Proactive alerts: the conditions worth interrupting the user for with a
//! desktop notification (disk nearly full, overheating, low memory, pending
//! security updates), with their text in the user's language.
//!
//! The evaluation is pure; the caller decides how to deliver the alerts.
//! Temperatures are fractional readings the application keeps, so the
//! overheating alert is built there and handed in.

use vstd::prelude::*;
use vstd::string::StringExecFns;

use crate::diagnostics::{low_available_spec, used_bytes, DISK_CRITICAL_PCT, MEMORY_LOW_PCT};
use crate::finding::Severity;
use crate::lang::Lang;
use crate::snapshot::{DiskInfo, Snapshot};
use crate::text::{decimal, filter_map, lemma_filter_map_step, push_decimal, push_str};
use crate::units::{round_div, rounded};

verus! {

/// A condition worth a desktop notification.
#[derive(Debug)]
pub struct Alert {
    pub id: &'static str,
    pub urgency: Severity,
    pub title: String,
    pub body: String,
}

/// An alert as plain values: id, urgency, title and body.
pub type AlertView = (Seq<char>, Severity, Seq<char>, Seq<char>);

pub open spec fn alert_view(a: Alert) -> AlertView {
    (a.id@, a.urgency, a.title@, a.body@)
}

pub open spec fn alert_views(s: Seq<Alert>) -> Seq<AlertView> {
    s.map_values(|a: Alert| alert_view(a))
}

pub open spec fn opt_alert_view(a: Option<Alert>) -> Option<AlertView> {
    match a {
        Some(a) => Some(alert_view(a)),
        None => None,
    }
}

/// Percent used from which a filesystem raises the "disk almost full"
/// alert (High; Critical from 95%).
pub const DISK_ALERT_PCT: u64 = 90;

/// What one filesystem alerts: from 90% used, Critical from 95%; the body
/// gives the whole percentage used (halves to even).
pub open spec fn disk_alert_of(d: DiskInfo, lang: Lang) -> Option<AlertView> {
    let used = used_bytes(d);
    let total = d.total_bytes as nat;
    if total > 0 && used * 100 >= DISK_ALERT_PCT * total {
        let pct = decimal(rounded(used * 100, total));
        Some(
            (
                "alert.disk_full"@,
                if used * 100 >= DISK_CRITICAL_PCT * total {
                    Severity::Critical
                } else {
                    Severity::High
                },
                match lang {
                    Lang::En => "Disk almost full: "@ + d.mount_point@,
                    Lang::Ar => "القرص شارف على الامتلاء: "@ + d.mount_point@,
                },
                match lang {
                    Lang::En => pct + "% used on "@ + d.mount_point@,
                    Lang::Ar => "استُخدم "@ + pct + "% من "@ + d.mount_point@,
                },
            ),
        )
    } else {
        None
    }
}

/// The disk alerts of a snapshot, one per nearly full filesystem, in order.
pub open spec fn disk_alerts_spec(s: Snapshot, lang: Lang) -> Seq<AlertView> {
    match s.disks {
        Some(ds) => filter_map(ds@, |d: DiskInfo| disk_alert_of(d, lang)),
        None => Seq::empty(),
    }
}

/// The low-memory alert: High when less than 10% of RAM is available (a
/// machine reporting no RAM counts as all available).
pub open spec fn memory_alert_spec(s: Snapshot, lang: Lang) -> Seq<AlertView> {
    match s.memory {
        Some(m) if m.total_kb > 0 && m.available_kb * 100 < MEMORY_LOW_PCT * m.total_kb => {
            let pct = decimal(rounded(m.available_kb as nat * 100, m.total_kb as nat));
            seq![
                (
                    "alert.low_memory"@,
                    Severity::High,
                    match lang {
                        Lang::En => "Low memory"@,
                        Lang::Ar => "الذاكرة منخفضة"@,
                    },
                    match lang {
                        Lang::En => "Only "@ + pct + "% of RAM available"@,
                        Lang::Ar => "لم يتبقَّ سوى "@ + pct + "% من الذاكرة"@,
                    },
                ),
            ]
        },
        _ => Seq::empty(),
    }
}

/// Law: the low-memory alert is raised, once and with High urgency,
/// exactly when a machine with some RAM has less than 10% of it available
/// — the same condition under which a checkup reports
/// `memory.low_available`.
pub proof fn lemma_low_memory_alert_below_10_percent(s: Snapshot, lang: Lang)
    ensures
        MEMORY_LOW_PCT == 10,
        memory_alert_spec(s, lang).len() <= 1,
        memory_alert_spec(s, lang).len() == 1 <==> (s.memory matches Some(m) && m.total_kb > 0
            && m.available_kb * 100 < 10 * m.total_kb),
        memory_alert_spec(s, lang).len() == 1 <==> low_available_spec(s).len() == 1,
        memory_alert_spec(s, lang).len() == 1 ==> memory_alert_spec(s, lang)[0].0
            == "alert.low_memory"@ && memory_alert_spec(s, lang)[0].1 == Severity::High,
{
}

/// Law: a filesystem raises the "disk almost full" alert exactly when it
/// has some size and at least 90% of it is in use (used being its size less
/// what is available); Critical from 95% used, High below.
pub proof fn lemma_disk_alert_from_90_percent(d: DiskInfo, lang: Lang)
    ensures
        DISK_ALERT_PCT == 90,
        disk_alert_of(d, lang) is Some <==> d.total_bytes > 0 && (if d.total_bytes
            >= d.available_bytes {
            d.total_bytes - d.available_bytes
        } else {
            0
        }) * 100 >= 90 * d.total_bytes,
        disk_alert_of(d, lang) matches Some(a) ==> a.0 == "alert.disk_full"@ && (a.1
            == Severity::Critical) == ((if d.total_bytes >= d.available_bytes {
            d.total_bytes - d.available_bytes
        } else {
            0
        }) * 100 >= 95 * d.total_bytes) && (a.1 == Severity::Critical || a.1 == Severity::High),
{
}

/// The security-updates alert: High when any security update is pending.
pub open spec fn security_alert_spec(s: Snapshot, lang: Lang) -> Seq<AlertView> {
    match s.packages {
        Some(p) => match p.security_upgrades {
            Some(n) if n > 0 => seq![
                (
                    "alert.security_updates"@,
                    Severity::High,
                    match lang {
                        Lang::En => decimal(n as nat) + " security update(s) available"@,
                        Lang::Ar => "يتوفّر "@ + decimal(n as nat) + " تحديث أمني"@,
                    },
                    match lang {
                        Lang::En => "Install them to stay protected."@,
                        Lang::Ar => "ثبّتها للحفاظ على حماية النظام."@,
                    },
                ),
            ],
            _ => Seq::empty(),
        },
        None => Seq::empty(),
    }
}

/// The alerts of one urgency, in the order they were raised.
pub open spec fn of_urgency(s: Seq<AlertView>, u: Severity) -> Seq<AlertView> {
    filter_map(s, urgency_pick(u))
}

/// Keeps an alert of urgency `u`.
pub open spec fn urgency_pick(u: Severity) -> spec_fn(AlertView) -> Option<AlertView> {
    |a: AlertView| if a.1 == u { Some(a) } else { None }
}

/// Most urgent first; alerts of equal urgency keep the order they were
/// raised in (a stable sort by urgency, highest first).
pub open spec fn by_urgency(s: Seq<AlertView>) -> Seq<AlertView> {
    of_urgency(s, Severity::Critical) + of_urgency(s, Severity::High) + of_urgency(
        s,
        Severity::Medium,
    ) + of_urgency(s, Severity::Low) + of_urgency(s, Severity::Info)
}

/// The alerts in the order they are raised: the filesystems, overheating,
/// memory, then security updates.
pub open spec fn raised(s: Snapshot, overheating: Option<AlertView>, lang: Lang) -> Seq<
    AlertView,
> {
    disk_alerts_spec(s, lang) + match overheating {
        Some(a) => seq![a],
        None => Seq::empty(),
    } + memory_alert_spec(s, lang) + security_alert_spec(s, lang)
}

fn disk_alert(d: &DiskInfo, lang: Lang) -> (r: Option<Alert>)
    ensures
        match r {
            Some(a) => disk_alert_of(*d, lang) == Some(alert_view(a)),
            None => disk_alert_of(*d, lang) is None,
        },
{
    let total = d.total_bytes;
    let used: u64 = if total >= d.available_bytes {
        total - d.available_bytes
    } else {
        0
    };
    let used100 = used as u128 * 100;
    let total128 = total as u128;
    if total == 0 || used100 < DISK_ALERT_PCT as u128 * total128 {
        return None;
    }
    let urgency = if used100 >= DISK_CRITICAL_PCT as u128 * total128 {
        Severity::Critical
    } else {
        Severity::High
    };
    let pct = round_div(used100, total128);
    assert(pct <= 101) by (nonlinear_arith)
        requires
            pct <= used100 / total128 + 1,
            used <= total,
            used100 == used * 100,
            total128 == total,
            total > 0,
    ;
    let mut title = String::new();
    let mut body = String::new();
    match lang {
        Lang::En => {
            push_str(&mut title, "Disk almost full: ");
            push_str(&mut title, d.mount_point.as_str());
            push_decimal(&mut body, pct as u64);
            push_str(&mut body, "% used on ");
            push_str(&mut body, d.mount_point.as_str());
        },
        Lang::Ar => {
            push_str(&mut title, "القرص شارف على الامتلاء: ");
            push_str(&mut title, d.mount_point.as_str());
            push_str(&mut body, "استُخدم ");
            push_decimal(&mut body, pct as u64);
            push_str(&mut body, "% من ");
            push_str(&mut body, d.mount_point.as_str());
        },
    }
    let a = Alert { id: "alert.disk_full", urgency, title, body };
    assert(disk_alert_of(*d, lang) == Some(alert_view(a)));
    Some(a)
}

fn push_alert(v: &mut Vec<Alert>, a: Alert)
    ensures
        alert_views(final(v)@) == alert_views(old(v)@).push(alert_view(a)),
{
    v.push(a);
    assert(alert_views(v@) =~= alert_views(old(v)@).push(alert_view(a)));
}

fn disk_alerts(s: &Snapshot, lang: Lang, out: &mut Vec<Alert>)
    ensures
        alert_views(final(out)@) == alert_views(old(out)@) + disk_alerts_spec(*s, lang),
{
    let ds = match &s.disks {
        Some(ds) => ds,
        None => {
            assert(alert_views(out@) =~= alert_views(out@) + disk_alerts_spec(*s, lang));
            return;
        },
    };
    let ghost f = |d: DiskInfo| disk_alert_of(d, lang);
    let ghost start = alert_views(out@);
    for i in 0..ds.len()
        invariant
            f == (|d: DiskInfo| disk_alert_of(d, lang)),
            alert_views(out@) == start + filter_map(ds@.take(i as int), f),
    {
        proof {
            lemma_filter_map_step(ds@, f, i as int);
        }
        match disk_alert(&ds[i], lang) {
            Some(a) => {
                push_alert(out, a);
            },
            None => {},
        }
        assert(alert_views(out@) =~= start + filter_map(ds@.take(i + 1), f));
    }
    assert(ds@.take(ds@.len() as int) == ds@);
}

fn memory_alert(s: &Snapshot, lang: Lang, out: &mut Vec<Alert>)
    ensures
        alert_views(final(out)@) == alert_views(old(out)@) + memory_alert_spec(*s, lang),
{
    let m = match s.memory {
        Some(m) => m,
        None => {
            assert(alert_views(out@) =~= alert_views(out@) + memory_alert_spec(*s, lang));
            return;
        },
    };
    let avail100 = m.available_kb as u128 * 100;
    let total = m.total_kb as u128;
    if m.total_kb == 0 || avail100 >= MEMORY_LOW_PCT as u128 * total {
        assert(alert_views(out@) =~= alert_views(out@) + memory_alert_spec(*s, lang));
        return;
    }
    assert(total <= u64::MAX);
    let pct = round_div(avail100, total);
    assert(pct <= 11) by (nonlinear_arith)
        requires
            pct <= avail100 / total + 1,
            avail100 < 10 * total,
            total > 0,
    ;
    let mut body = String::new();
    let title = match lang {
        Lang::En => {
            push_str(&mut body, "Only ");
            push_decimal(&mut body, pct as u64);
            push_str(&mut body, "% of RAM available");
            String::from_str("Low memory")
        },
        Lang::Ar => {
            push_str(&mut body, "لم يتبقَّ سوى ");
            push_decimal(&mut body, pct as u64);
            push_str(&mut body, "% من الذاكرة");
            String::from_str("الذاكرة منخفضة")
        },
    };
    let ghost before = alert_views(out@);
    push_alert(out, Alert { id: "alert.low_memory", urgency: Severity::High, title, body });
    assert(alert_views(out@) =~= before + memory_alert_spec(*s, lang));
}

fn security_alert(s: &Snapshot, lang: Lang, out: &mut Vec<Alert>)
    ensures
        alert_views(final(out)@) == alert_views(old(out)@) + security_alert_spec(*s, lang),
{
    let n = match &s.packages {
        Some(p) => match p.security_upgrades {
            Some(n) => n,
            None => 0,
        },
        None => 0,
    };
    if n == 0 {
        assert(alert_views(out@) =~= alert_views(out@) + security_alert_spec(*s, lang));
        return;
    }
    let mut title = String::new();
    let body = match lang {
        Lang::En => {
            push_decimal(&mut title, n as u64);
            push_str(&mut title, " security update(s) available");
            String::from_str("Install them to stay protected.")
        },
        Lang::Ar => {
            push_str(&mut title, "يتوفّر ");
            push_decimal(&mut title, n as u64);
            push_str(&mut title, " تحديث أمني");
            String::from_str("ثبّتها للحفاظ على حماية النظام.")
        },
    };
    let ghost before = alert_views(out@);
    push_alert(
        out,
        Alert { id: "alert.security_updates", urgency: Severity::High, title, body },
    );
    assert(alert_views(out@) =~= before + security_alert_spec(*s, lang));
}

fn copy_alert(a: &Alert) -> (r: Alert)
    ensures
        alert_view(r) == alert_view(*a),
{
    Alert { id: a.id, urgency: a.urgency, title: a.title.clone(), body: a.body.clone() }
}

fn same_urgency(a: Severity, b: Severity) -> (r: bool)
    ensures
        r == (a == b),
{
    match (a, b) {
        (Severity::Info, Severity::Info) => true,
        (Severity::Low, Severity::Low) => true,
        (Severity::Medium, Severity::Medium) => true,
        (Severity::High, Severity::High) => true,
        (Severity::Critical, Severity::Critical) => true,
        _ => false,
    }
}

/// Append, in order, the alerts of `v` whose urgency is `u`.
fn push_of_urgency(out: &mut Vec<Alert>, v: &Vec<Alert>, u: Severity)
    ensures
        alert_views(final(out)@) == alert_views(old(out)@) + of_urgency(alert_views(v@), u),
{
    let ghost f = urgency_pick(u);
    let ghost vs = alert_views(v@);
    let ghost start = alert_views(out@);
    for i in 0..v.len()
        invariant
            f == urgency_pick(u),
            vs == alert_views(v@),
            alert_views(out@) == start + filter_map(vs.take(i as int), f),
    {
        proof {
            lemma_filter_map_step(vs, f, i as int);
        }
        if same_urgency(v[i].urgency, u) {
            let a = copy_alert(&v[i]);
            push_alert(out, a);
        }
        assert(alert_views(out@) =~= start + filter_map(vs.take(i + 1), f));
    }
    assert(vs.take(vs.len() as int) == vs);
}

/// Sort `v` most urgent first, keeping the order of alerts of equal
/// urgency.
pub fn sort_by_urgency(v: &Vec<Alert>) -> (r: Vec<Alert>)
    ensures
        alert_views(r@) == by_urgency(alert_views(v@)),
{
    let mut r: Vec<Alert> = Vec::new();
    push_of_urgency(&mut r, v, Severity::Critical);
    push_of_urgency(&mut r, v, Severity::High);
    push_of_urgency(&mut r, v, Severity::Medium);
    push_of_urgency(&mut r, v, Severity::Low);
    push_of_urgency(&mut r, v, Severity::Info);
    assert(alert_views(r@) =~= by_urgency(alert_views(v@)));
    r
}

/// The conditions of `snapshot` worth a proactive notification, most
/// urgent first, with their text in `lang` (see [`raised`] and
/// [`by_urgency`]). `overheating` is the alert for the hottest sensor when
/// it runs at 85 °C or more, which the application builds from its
/// temperature readings.
pub fn evaluate_in(snapshot: &Snapshot, overheating: Option<Alert>, lang: Lang) -> (r: Vec<Alert>)
    ensures
        alert_views(r@) == by_urgency(
            raised(
                *snapshot,
                opt_alert_view(overheating),
                lang,
            ),
        ),
{
    let ghost hot = opt_alert_view(overheating);
    let mut all: Vec<Alert> = Vec::new();
    disk_alerts(snapshot, lang, &mut all);
    let ghost a = alert_views(all@);
    match overheating {
        Some(x) => push_alert(&mut all, x),
        None => {},
    }
    assert(alert_views(all@) =~= a + match hot {
        Some(h) => seq![h],
        None => Seq::<AlertView>::empty(),
    });
    memory_alert(snapshot, lang, &mut all);
    security_alert(snapshot, lang, &mut all);
    assert(alert_views(all@) =~= raised(*snapshot, hot, lang));
    sort_by_urgency(&all)
}

/// [`evaluate_in`] in English, for callers with no locale.
pub fn evaluate(snapshot: &Snapshot, overheating: Option<Alert>) -> (r: Vec<Alert>)
    ensures
        alert_views(r@) == by_urgency(
            raised(
                *snapshot,
                opt_alert_view(overheating),
                Lang::En,
            ),
        ),
{
    evaluate_in(snapshot, overheating, Lang::En)
}

/// What an alert is, apart from its wording: its id and urgency.
pub open spec fn alert_kinds(s: Seq<AlertView>) -> Seq<(Seq<char>, Severity)> {
    s.map_values(|a: AlertView| (a.0, a.1))
}

/// Keeps a kind of urgency `u`.
pub open spec fn kind_pick(u: Severity) -> spec_fn((Seq<char>, Severity)) -> Option<
    (Seq<char>, Severity),
> {
    |k: (Seq<char>, Severity)| if k.1 == u { Some(k) } else { None }
}

proof fn lemma_kinds_of_urgency(s: Seq<AlertView>, u: Severity)
    ensures
        alert_kinds(of_urgency(s, u)) == filter_map(alert_kinds(s), kind_pick(u)),
    decreases s.len(),
{
    if s.len() > 0 {
        lemma_kinds_of_urgency(s.drop_last(), u);
        assert(alert_kinds(s).drop_last() == alert_kinds(s.drop_last()));
        assert(alert_kinds(s).last() == (s.last().0, s.last().1));
        let r = of_urgency(s.drop_last(), u);
        if s.last().1 == u {
            assert(alert_kinds(r.push(s.last())) == alert_kinds(r).push((s.last().0, s.last().1)));
        }
    }
}

proof fn lemma_kinds_of_disk_alerts(ds: Seq<DiskInfo>)
    ensures
        alert_kinds(filter_map(ds, |d: DiskInfo| disk_alert_of(d, Lang::En))) == alert_kinds(
            filter_map(ds, |d: DiskInfo| disk_alert_of(d, Lang::Ar)),
        ),
    decreases ds.len(),
{
    if ds.len() > 0 {
        lemma_kinds_of_disk_alerts(ds.drop_last());
        let en = filter_map(ds.drop_last(), |d: DiskInfo| disk_alert_of(d, Lang::En));
        let ar = filter_map(ds.drop_last(), |d: DiskInfo| disk_alert_of(d, Lang::Ar));
        match disk_alert_of(ds.last(), Lang::En) {
            Some(a) => {
                let b = disk_alert_of(ds.last(), Lang::Ar).unwrap();
                assert(alert_kinds(en.push(a)) == alert_kinds(en).push((a.0, a.1)));
                assert(alert_kinds(ar.push(b)) == alert_kinds(ar).push((b.0, b.1)));
            },
            None => {},
        }
    }
}

/// The language changes only the wording of the alerts: the same snapshot
/// raises the same alerts, by id and urgency and in the same order, in
/// English and in Arabic (given the same overheating condition).
pub proof fn lemma_alerts_differ_only_in_wording(
    s: Snapshot,
    hot_en: Option<AlertView>,
    hot_ar: Option<AlertView>,
)
    requires
        hot_en is Some <==> hot_ar is Some,
        hot_en is Some ==> hot_en.unwrap().0 == hot_ar.unwrap().0 && hot_en.unwrap().1
            == hot_ar.unwrap().1,
    ensures
        alert_kinds(by_urgency(raised(s, hot_en, Lang::En))) == alert_kinds(
            by_urgency(raised(s, hot_ar, Lang::Ar)),
        ),
{
    let en = raised(s, hot_en, Lang::En);
    let ar = raised(s, hot_ar, Lang::Ar);
    match s.disks {
        Some(ds) => lemma_kinds_of_disk_alerts(ds@),
        None => {},
    }
    let h_en: Seq<AlertView> = match hot_en {
        Some(a) => seq![a],
        None => Seq::empty(),
    };
    let h_ar: Seq<AlertView> = match hot_ar {
        Some(a) => seq![a],
        None => Seq::empty(),
    };
    assert(alert_kinds(h_en) =~= alert_kinds(h_ar));
    assert(alert_kinds(memory_alert_spec(s, Lang::En)) =~= alert_kinds(
        memory_alert_spec(s, Lang::Ar),
    ));
    assert(alert_kinds(security_alert_spec(s, Lang::En)) =~= alert_kinds(
        security_alert_spec(s, Lang::Ar),
    ));
    assert(alert_kinds(en) =~= alert_kinds(ar)) by {
        let d_en = disk_alerts_spec(s, Lang::En);
        let d_ar = disk_alerts_spec(s, Lang::Ar);
        let m_en = memory_alert_spec(s, Lang::En);
        let m_ar = memory_alert_spec(s, Lang::Ar);
        let x_en = security_alert_spec(s, Lang::En);
        let x_ar = security_alert_spec(s, Lang::Ar);
        assert(alert_kinds(d_en) == alert_kinds(d_ar));
        assert(en == d_en + h_en + m_en + x_en);
        assert(ar == d_ar + h_ar + m_ar + x_ar);
        assert(alert_kinds(en) =~= alert_kinds(d_en) + alert_kinds(h_en) + alert_kinds(m_en)
            + alert_kinds(x_en));
        assert(alert_kinds(ar) =~= alert_kinds(d_ar) + alert_kinds(h_ar) + alert_kinds(m_ar)
            + alert_kinds(x_ar));
    }
    lemma_kinds_of_urgency(en, Severity::Critical);
    lemma_kinds_of_urgency(en, Severity::High);
    lemma_kinds_of_urgency(en, Severity::Medium);
    lemma_kinds_of_urgency(en, Severity::Low);
    lemma_kinds_of_urgency(en, Severity::Info);
    lemma_kinds_of_urgency(ar, Severity::Critical);
    lemma_kinds_of_urgency(ar, Severity::High);
    lemma_kinds_of_urgency(ar, Severity::Medium);
    lemma_kinds_of_urgency(ar, Severity::Low);
    lemma_kinds_of_urgency(ar, Severity::Info);
    assert(alert_kinds(by_urgency(en)) =~= alert_kinds(of_urgency(en, Severity::Critical))
        + alert_kinds(of_urgency(en, Severity::High)) + alert_kinds(
        of_urgency(en, Severity::Medium),
    ) + alert_kinds(of_urgency(en, Severity::Low)) + alert_kinds(
        of_urgency(en, Severity::Info),
    ));
    assert(alert_kinds(by_urgency(ar)) =~= alert_kinds(of_urgency(ar, Severity::Critical))
        + alert_kinds(of_urgency(ar, Severity::High)) + alert_kinds(
        of_urgency(ar, Severity::Medium),
    ) + alert_kinds(of_urgency(ar, Severity::Low)) + alert_kinds(
        of_urgency(ar, Severity::Info),
    ));
}

} // verus!
