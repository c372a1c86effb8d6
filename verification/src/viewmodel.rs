//! What the desktop interface shows, decided without any widget: the
//! strings of both languages, how a failed privileged helper is explained,
//! and which style class a severity or a score gets.

use vstd::prelude::*;
use vstd::string::StringExecFns;

use crate::finding::{category_label_in, Category, Severity};
use crate::knowledge::{explanation_of, KnowledgeBase};
use crate::lang::Lang;
use crate::score::{grade_of, CategoryScore};
use crate::text::{
    char_views, chars_of, filter_map, is_ws, join, join_chars, lemma_filter_map_step, lines,
    eq_ignore_case, eq_ignore_case_exec, lit, push_str, push_stripped, slice_chars, split_lines,
    strip_controls, trim, trim_chars, trim_end,
    trim_end_chars,
};

verus! {

/// Every user-facing string of the desktop interface, in one language.
pub struct Strings {
    pub health_score: &'static str,
    pub run_checkup: &'static str,
    pub checking: &'static str,
    pub categories: &'static str,
    pub findings: &'static str,
    pub no_findings: &'static str,
    pub evidence: &'static str,
    pub suggested_command: &'static str,
    pub skipped_checks: &'static str,
    pub checkup_failed: &'static str,
    pub apply_fix: &'static str,
    pub confirm_fix_title: &'static str,
    pub cancel: &'static str,
    pub apply: &'static str,
    pub ok: &'static str,
    pub fix_failed_title: &'static str,
    pub fix_failed_body: &'static str,
    pub reversible_yes: &'static str,
    pub reversible_no: &'static str,
    pub about: &'static str,
    pub app_comment: &'static str,
    pub overview: &'static str,
    pub disk_usage: &'static str,
    pub disk_scan_failed: &'static str,
    pub disk_empty: &'static str,
    pub disk_largest: &'static str,
    pub history_tooltip: &'static str,
    pub fix_running: &'static str,
    pub fix_applied: &'static str,
    pub export_report: &'static str,
    pub export_first: &'static str,
    pub export_done: &'static str,
    pub export_failed: &'static str,
    pub treemap_a11y: &'static str,
    pub disk_choose_folder: &'static str,
    pub disk_cancel: &'static str,
    pub disk_cancelled: &'static str,
    pub disk_partial: &'static str,
    pub disk_pick_a_folder: &'static str,
    pub coverage_note: &'static str,
    pub not_measured: &'static str,
    pub trend_since_first: &'static str,
    pub undo_last_fix: &'static str,
    pub undo_action: &'static str,
    pub undo_confirm_title: &'static str,
    pub undo_nothing: &'static str,
    pub undo_running: &'static str,
    pub undo_done: &'static str,
    pub undo_failed_title: &'static str,
    pub fix_cancelled_body: &'static str,
    pub fix_unauthorized_body: &'static str,
    pub disk_scanning_path: &'static str,
    pub disk_entries: &'static str,
}

/// The text of every field of a [`Strings`], in declaration order.
pub open spec fn strings_view(t: Strings) -> Seq<Seq<char>> {
    seq![
        t.health_score@,
        t.run_checkup@,
        t.checking@,
        t.categories@,
        t.findings@,
        t.no_findings@,
        t.evidence@,
        t.suggested_command@,
        t.skipped_checks@,
        t.checkup_failed@,
        t.apply_fix@,
        t.confirm_fix_title@,
        t.cancel@,
        t.apply@,
        t.ok@,
        t.fix_failed_title@,
        t.fix_failed_body@,
        t.reversible_yes@,
        t.reversible_no@,
        t.about@,
        t.app_comment@,
        t.overview@,
        t.disk_usage@,
        t.disk_scan_failed@,
        t.disk_empty@,
        t.disk_largest@,
        t.history_tooltip@,
        t.fix_running@,
        t.fix_applied@,
        t.export_report@,
        t.export_first@,
        t.export_done@,
        t.export_failed@,
        t.treemap_a11y@,
        t.disk_choose_folder@,
        t.disk_cancel@,
        t.disk_cancelled@,
        t.disk_partial@,
        t.disk_pick_a_folder@,
        t.coverage_note@,
        t.not_measured@,
        t.trend_since_first@,
        t.undo_last_fix@,
        t.undo_action@,
        t.undo_confirm_title@,
        t.undo_nothing@,
        t.undo_running@,
        t.undo_done@,
        t.undo_failed_title@,
        t.fix_cancelled_body@,
        t.fix_unauthorized_body@,
        t.disk_scanning_path@,
        t.disk_entries@,
    ]
}

/// The [`Strings`] table for `lang`, field by field in declaration order.
pub open spec fn strings_text(lang: Lang) -> Seq<Seq<char>> {
    match lang {
        Lang::En => seq![
            "Health score"@,
            "Run checkup"@,
            "Examining your system…"@,
            "Categories"@,
            "Findings"@,
            "No problems found — the system looks healthy."@,
            "Evidence"@,
            "Suggested command"@,
            "Skipped checks"@,
            "The checkup failed unexpectedly. Please try again."@,
            "Apply fix"@,
            "Apply this fix?"@,
            "Cancel"@,
            "Apply"@,
            "OK"@,
            "The fix was not applied"@,
            "Authorization was cancelled or failed, or the fix helper is not installed."@,
            "This fix can be undone."@,
            "This fix cannot be undone."@,
            "About SysMedic"@,
            "A doctor for your Linux system: checkup, diagnose, explain, prescribe."@,
            "Overview"@,
            "Disk Usage"@,
            "The disk scan failed. The folder may be unreadable."@,
            "Nothing to show — the folder appears to be empty."@,
            "Largest entries"@,
            "Health-score history (most recent on the right)"@,
            "Applying the fix…"@,
            "Fix applied — re-checking…"@,
            "Export report…"@,
            "Run a checkup first."@,
            "Report exported"@,
            "Could not write the report"@,
            "Treemap of the largest folders; the list below has the same data"@,
            "Choose a folder to scan…"@,
            "Stop the scan"@,
            "Scan stopped — nothing measured yet."@,
            "Partial scan · "@,
            "Choose a folder to scan."@,
            "categories measured; the score is computed from those only"@,
            "not measured"@,
            "since first record"@,
            "Undo last fix…"@,
            "Undo"@,
            "Undo this fix?"@,
            "Nothing to undo."@,
            "Undoing…"@,
            "Fix undone — re-checking…"@,
            "The fix was not undone"@,
            "Authorization was cancelled, so nothing was changed."@,
            "Authorization was refused, or the fix helper is not installed. It ships with the .deb package."@,
            "Scanning"@,
            "entries"@,
        ],
        Lang::Ar => seq![
            "الدرجة الصحية"@,
            "تشغيل الفحص"@,
            "جارٍ فحص نظامك…"@,
            "الفئات"@,
            "المشاكل المكتشفة"@,
            "لا توجد مشاكل — النظام يبدو سليمًا."@,
            "الأدلة"@,
            "الأمر المقترح"@,
            "فحوص متخطاة"@,
            "فشل الفحص بشكل غير متوقع. حاول مرة أخرى."@,
            "تطبيق الإصلاح"@,
            "تطبيق هذا الإصلاح؟"@,
            "إلغاء"@,
            "تطبيق"@,
            "حسنًا"@,
            "لم يُطبَّق الإصلاح"@,
            "أُلغيت المصادقة أو فشلت، أو أن أداة الإصلاح غير مُثبَّتة."@,
            "يمكن التراجع عن هذا الإصلاح."@,
            "لا يمكن التراجع عن هذا الإصلاح."@,
            "عن SysMedic"@,
            "طبيب لنظام لينكس: فحص، تشخيص، شرح، ووصف علاج آمن."@,
            "النظرة العامة"@,
            "استخدام القرص"@,
            "فشل فحص القرص. قد يكون المجلد غير قابل للقراءة."@,
            "لا شيء لعرضه — يبدو المجلد فارغاً."@,
            "أكبر العناصر"@,
            "سجل الدرجة الصحية (الأحدث على اليمين)"@,
            "جارٍ تطبيق الإصلاح…"@,
            "طُبّق الإصلاح — إعادة فحص…"@,
            "تصدير التقرير…"@,
            "شغّل فحصاً أولاً."@,
            "صُدِّر التقرير"@,
            "تعذّرت كتابة التقرير"@,
            "خريطة شجرية لأكبر المجلدات؛ القائمة أدناه تعرض البيانات نفسها"@,
            "اختر مجلداً للفحص…"@,
            "إيقاف الفحص"@,
            "أُوقف الفحص — لم يُقَس شيء بعد."@,
            "فحص جزئي · "@,
            "اختر مجلداً لفحصه."@,
            "فئة مقيسة؛ والدرجة محسوبة منها وحدها"@,
            "غير مقيس"@,
            "منذ أول تسجيل"@,
            "التراجع عن آخر إصلاح…"@,
            "تراجع"@,
            "التراجع عن هذا الإصلاح؟"@,
            "لا يوجد ما يُتراجَع عنه."@,
            "جارٍ التراجع…"@,
            "تُراجِع عن الإصلاح — إعادة فحص…"@,
            "لم يتم التراجع"@,
            "أُلغيت المصادقة، فلم يتغيّر شيء."@,
            "رُفضت المصادقة، أو أن أداة الإصلاح غير مُثبَّتة. تأتي مع حزمة \u{200E}.deb\u{200E}."@,
            "جارٍ فحص"@,
            "عنصر"@,
        ],
    }
}

impl Strings {
    /// The strings for `lang`.
    pub fn for_lang(lang: Lang) -> (s: &'static Strings)
        ensures
            strings_view(*s) == strings_text(lang),
    {
match lang {
                Lang::En => &Strings {
                    health_score: "Health score",
                    run_checkup: "Run checkup",
                    checking: "Examining your system…",
                    categories: "Categories",
                    findings: "Findings",
                    no_findings: "No problems found — the system looks healthy.",
                    evidence: "Evidence",
                    suggested_command: "Suggested command",
                    skipped_checks: "Skipped checks",
                    checkup_failed: "The checkup failed unexpectedly. Please try again.",
                    apply_fix: "Apply fix",
                    confirm_fix_title: "Apply this fix?",
                    cancel: "Cancel",
                    apply: "Apply",
                    ok: "OK",
                    fix_failed_title: "The fix was not applied",
                    fix_failed_body: "Authorization was cancelled or failed, or the fix helper is not installed.",
                    reversible_yes: "This fix can be undone.",
                    reversible_no: "This fix cannot be undone.",
                    about: "About SysMedic",
                    app_comment: "A doctor for your Linux system: checkup, diagnose, explain, prescribe.",
                    overview: "Overview",
                    disk_usage: "Disk Usage",
                    disk_scan_failed: "The disk scan failed. The folder may be unreadable.",
                    disk_empty: "Nothing to show — the folder appears to be empty.",
                    disk_largest: "Largest entries",
                    history_tooltip: "Health-score history (most recent on the right)",
                    fix_running: "Applying the fix…",
                    fix_applied: "Fix applied — re-checking…",
                    export_report: "Export report…",
                    export_first: "Run a checkup first.",
                    export_done: "Report exported",
                    export_failed: "Could not write the report",
                    treemap_a11y: "Treemap of the largest folders; the list below has the same data",
                    disk_choose_folder: "Choose a folder to scan…",
                    disk_cancel: "Stop the scan",
                    disk_cancelled: "Scan stopped — nothing measured yet.",
                    disk_partial: "Partial scan · ",
                    disk_pick_a_folder: "Choose a folder to scan.",
                    coverage_note: "categories measured; the score is computed from those only",
                    not_measured: "not measured",
                    trend_since_first: "since first record",
                    undo_last_fix: "Undo last fix…",
                    undo_action: "Undo",
                    undo_confirm_title: "Undo this fix?",
                    undo_nothing: "Nothing to undo.",
                    undo_running: "Undoing…",
                    undo_done: "Fix undone — re-checking…",
                    undo_failed_title: "The fix was not undone",
                    fix_cancelled_body: "Authorization was cancelled, so nothing was changed.",
                    fix_unauthorized_body: "Authorization was refused, or the fix helper is not installed. It ships with the .deb package.",
                    disk_scanning_path: "Scanning",
                    disk_entries: "entries",
                },
                Lang::Ar => &Strings {
                    health_score: "الدرجة الصحية",
                    run_checkup: "تشغيل الفحص",
                    checking: "جارٍ فحص نظامك…",
                    categories: "الفئات",
                    findings: "المشاكل المكتشفة",
                    no_findings: "لا توجد مشاكل — النظام يبدو سليمًا.",
                    evidence: "الأدلة",
                    suggested_command: "الأمر المقترح",
                    skipped_checks: "فحوص متخطاة",
                    checkup_failed: "فشل الفحص بشكل غير متوقع. حاول مرة أخرى.",
                    apply_fix: "تطبيق الإصلاح",
                    confirm_fix_title: "تطبيق هذا الإصلاح؟",
                    cancel: "إلغاء",
                    apply: "تطبيق",
                    ok: "حسنًا",
                    fix_failed_title: "لم يُطبَّق الإصلاح",
                    fix_failed_body: "أُلغيت المصادقة أو فشلت، أو أن أداة الإصلاح غير مُثبَّتة.",
                    reversible_yes: "يمكن التراجع عن هذا الإصلاح.",
                    reversible_no: "لا يمكن التراجع عن هذا الإصلاح.",
                    about: "عن SysMedic",
                    app_comment: "طبيب لنظام لينكس: فحص، تشخيص، شرح، ووصف علاج آمن.",
                    overview: "النظرة العامة",
                    disk_usage: "استخدام القرص",
                    disk_scan_failed: "فشل فحص القرص. قد يكون المجلد غير قابل للقراءة.",
                    disk_empty: "لا شيء لعرضه — يبدو المجلد فارغاً.",
                    disk_largest: "أكبر العناصر",
                    history_tooltip: "سجل الدرجة الصحية (الأحدث على اليمين)",
                    fix_running: "جارٍ تطبيق الإصلاح…",
                    fix_applied: "طُبّق الإصلاح — إعادة فحص…",
                    export_report: "تصدير التقرير…",
                    export_first: "شغّل فحصاً أولاً.",
                    export_done: "صُدِّر التقرير",
                    export_failed: "تعذّرت كتابة التقرير",
                    treemap_a11y: "خريطة شجرية لأكبر المجلدات؛ القائمة أدناه تعرض البيانات نفسها",
                    disk_choose_folder: "اختر مجلداً للفحص…",
                    disk_cancel: "إيقاف الفحص",
                    disk_cancelled: "أُوقف الفحص — لم يُقَس شيء بعد.",
                    disk_partial: "فحص جزئي · ",
                    disk_pick_a_folder: "اختر مجلداً لفحصه.",
                    coverage_note: "فئة مقيسة؛ والدرجة محسوبة منها وحدها",
                    not_measured: "غير مقيس",
                    trend_since_first: "منذ أول تسجيل",
                    undo_last_fix: "التراجع عن آخر إصلاح…",
                    undo_action: "تراجع",
                    undo_confirm_title: "التراجع عن هذا الإصلاح؟",
                    undo_nothing: "لا يوجد ما يُتراجَع عنه.",
                    undo_running: "جارٍ التراجع…",
                    undo_done: "تُراجِع عن الإصلاح — إعادة فحص…",
                    undo_failed_title: "لم يتم التراجع",
                    fix_cancelled_body: "أُلغيت المصادقة، فلم يتغيّر شيء.",
                    fix_unauthorized_body: "رُفضت المصادقة، أو أن أداة الإصلاح غير مُثبَّتة. تأتي مع حزمة \u{200E}.deb\u{200E}.",
                    disk_scanning_path: "جارٍ فحص",
                    disk_entries: "عنصر",
                },
            }
    }
}

/// `s[j]` is not whitespace.
pub open spec fn visible_at(s: Seq<char>, j: int) -> bool {
    0 <= j < s.len() && !is_ws(s[j])
}

/// `s` holds something besides whitespace.
pub open spec fn visible(s: Seq<char>) -> bool {
    exists|j: int| visible_at(s, j)
}

/// `s[j]` is a letter of the Arabic block.
pub open spec fn arabic_at(s: Seq<char>, j: int) -> bool {
    0 <= j < s.len() && '\u{0600}' <= s[j] && s[j] <= '\u{06FF}'
}

/// `s` holds Arabic script.
pub open spec fn arabic(s: Seq<char>) -> bool {
    exists|j: int| arabic_at(s, j)
}

/// No English string is empty or blank.
pub proof fn lemma_english_strings_are_not_blank()
    ensures
        forall|i: int| 0 <= i < strings_text(Lang::En).len() ==> visible(#[trigger] strings_text(Lang::En)[i]),
{
    reveal_strlit("Health score");
    reveal_strlit("Run checkup");
    reveal_strlit("Examining your system…");
    reveal_strlit("Categories");
    reveal_strlit("Findings");
    reveal_strlit("No problems found — the system looks healthy.");
    reveal_strlit("Evidence");
    reveal_strlit("Suggested command");
    reveal_strlit("Skipped checks");
    reveal_strlit("The checkup failed unexpectedly. Please try again.");
    reveal_strlit("Apply fix");
    reveal_strlit("Apply this fix?");
    reveal_strlit("Cancel");
    reveal_strlit("Apply");
    reveal_strlit("OK");
    reveal_strlit("The fix was not applied");
    reveal_strlit("Authorization was cancelled or failed, or the fix helper is not installed.");
    reveal_strlit("This fix can be undone.");
    reveal_strlit("This fix cannot be undone.");
    reveal_strlit("About SysMedic");
    reveal_strlit("A doctor for your Linux system: checkup, diagnose, explain, prescribe.");
    reveal_strlit("Overview");
    reveal_strlit("Disk Usage");
    reveal_strlit("The disk scan failed. The folder may be unreadable.");
    reveal_strlit("Nothing to show — the folder appears to be empty.");
    reveal_strlit("Largest entries");
    reveal_strlit("Health-score history (most recent on the right)");
    reveal_strlit("Applying the fix…");
    reveal_strlit("Fix applied — re-checking…");
    reveal_strlit("Export report…");
    reveal_strlit("Run a checkup first.");
    reveal_strlit("Report exported");
    reveal_strlit("Could not write the report");
    reveal_strlit("Treemap of the largest folders; the list below has the same data");
    reveal_strlit("Choose a folder to scan…");
    reveal_strlit("Stop the scan");
    reveal_strlit("Scan stopped — nothing measured yet.");
    reveal_strlit("Partial scan · ");
    reveal_strlit("Choose a folder to scan.");
    reveal_strlit("categories measured; the score is computed from those only");
    reveal_strlit("not measured");
    reveal_strlit("since first record");
    reveal_strlit("Undo last fix…");
    reveal_strlit("Undo");
    reveal_strlit("Undo this fix?");
    reveal_strlit("Nothing to undo.");
    reveal_strlit("Undoing…");
    reveal_strlit("Fix undone — re-checking…");
    reveal_strlit("The fix was not undone");
    reveal_strlit("Authorization was cancelled, so nothing was changed.");
    reveal_strlit("Authorization was refused, or the fix helper is not installed. It ships with the .deb package.");
    reveal_strlit("Scanning");
    reveal_strlit("entries");
    let t = strings_text(Lang::En);
    assert forall|i: int| 0 <= i < t.len() implies visible(#[trigger] t[i]) by {
        if i == 0 {
            assert(visible_at(t[0], 0));
        } else if i == 1 {
            assert(visible_at(t[1], 0));
        } else if i == 2 {
            assert(visible_at(t[2], 0));
        } else if i == 3 {
            assert(visible_at(t[3], 0));
        } else if i == 4 {
            assert(visible_at(t[4], 0));
        } else if i == 5 {
            assert(visible_at(t[5], 0));
        } else if i == 6 {
            assert(visible_at(t[6], 0));
        } else if i == 7 {
            assert(visible_at(t[7], 0));
        } else if i == 8 {
            assert(visible_at(t[8], 0));
        } else if i == 9 {
            assert(visible_at(t[9], 0));
        } else if i == 10 {
            assert(visible_at(t[10], 0));
        } else if i == 11 {
            assert(visible_at(t[11], 0));
        } else if i == 12 {
            assert(visible_at(t[12], 0));
        } else if i == 13 {
            assert(visible_at(t[13], 0));
        } else if i == 14 {
            assert(visible_at(t[14], 0));
        } else if i == 15 {
            assert(visible_at(t[15], 0));
        } else if i == 16 {
            assert(visible_at(t[16], 0));
        } else if i == 17 {
            assert(visible_at(t[17], 0));
        } else if i == 18 {
            assert(visible_at(t[18], 0));
        } else if i == 19 {
            assert(visible_at(t[19], 0));
        } else if i == 20 {
            assert(visible_at(t[20], 0));
        } else if i == 21 {
            assert(visible_at(t[21], 0));
        } else if i == 22 {
            assert(visible_at(t[22], 0));
        } else if i == 23 {
            assert(visible_at(t[23], 0));
        } else if i == 24 {
            assert(visible_at(t[24], 0));
        } else if i == 25 {
            assert(visible_at(t[25], 0));
        } else if i == 26 {
            assert(visible_at(t[26], 0));
        } else if i == 27 {
            assert(visible_at(t[27], 0));
        } else if i == 28 {
            assert(visible_at(t[28], 0));
        } else if i == 29 {
            assert(visible_at(t[29], 0));
        } else if i == 30 {
            assert(visible_at(t[30], 0));
        } else if i == 31 {
            assert(visible_at(t[31], 0));
        } else if i == 32 {
            assert(visible_at(t[32], 0));
        } else if i == 33 {
            assert(visible_at(t[33], 0));
        } else if i == 34 {
            assert(visible_at(t[34], 0));
        } else if i == 35 {
            assert(visible_at(t[35], 0));
        } else if i == 36 {
            assert(visible_at(t[36], 0));
        } else if i == 37 {
            assert(visible_at(t[37], 0));
        } else if i == 38 {
            assert(visible_at(t[38], 0));
        } else if i == 39 {
            assert(visible_at(t[39], 0));
        } else if i == 40 {
            assert(visible_at(t[40], 0));
        } else if i == 41 {
            assert(visible_at(t[41], 0));
        } else if i == 42 {
            assert(visible_at(t[42], 0));
        } else if i == 43 {
            assert(visible_at(t[43], 0));
        } else if i == 44 {
            assert(visible_at(t[44], 0));
        } else if i == 45 {
            assert(visible_at(t[45], 0));
        } else if i == 46 {
            assert(visible_at(t[46], 0));
        } else if i == 47 {
            assert(visible_at(t[47], 0));
        } else if i == 48 {
            assert(visible_at(t[48], 0));
        } else if i == 49 {
            assert(visible_at(t[49], 0));
        } else if i == 50 {
            assert(visible_at(t[50], 0));
        } else if i == 51 {
            assert(visible_at(t[51], 0));
        } else if i == 52 {
            assert(visible_at(t[52], 0));
        }
    }
}
/// No Arabic string is empty or blank.
pub proof fn lemma_arabic_strings_are_not_blank()
    ensures
        forall|i: int| 0 <= i < strings_text(Lang::Ar).len() ==> visible(#[trigger] strings_text(Lang::Ar)[i]),
{
    reveal_strlit("الدرجة الصحية");
    reveal_strlit("تشغيل الفحص");
    reveal_strlit("جارٍ فحص نظامك…");
    reveal_strlit("الفئات");
    reveal_strlit("المشاكل المكتشفة");
    reveal_strlit("لا توجد مشاكل — النظام يبدو سليمًا.");
    reveal_strlit("الأدلة");
    reveal_strlit("الأمر المقترح");
    reveal_strlit("فحوص متخطاة");
    reveal_strlit("فشل الفحص بشكل غير متوقع. حاول مرة أخرى.");
    reveal_strlit("تطبيق الإصلاح");
    reveal_strlit("تطبيق هذا الإصلاح؟");
    reveal_strlit("إلغاء");
    reveal_strlit("تطبيق");
    reveal_strlit("حسنًا");
    reveal_strlit("لم يُطبَّق الإصلاح");
    reveal_strlit("أُلغيت المصادقة أو فشلت، أو أن أداة الإصلاح غير مُثبَّتة.");
    reveal_strlit("يمكن التراجع عن هذا الإصلاح.");
    reveal_strlit("لا يمكن التراجع عن هذا الإصلاح.");
    reveal_strlit("عن SysMedic");
    reveal_strlit("طبيب لنظام لينكس: فحص، تشخيص، شرح، ووصف علاج آمن.");
    reveal_strlit("النظرة العامة");
    reveal_strlit("استخدام القرص");
    reveal_strlit("فشل فحص القرص. قد يكون المجلد غير قابل للقراءة.");
    reveal_strlit("لا شيء لعرضه — يبدو المجلد فارغاً.");
    reveal_strlit("أكبر العناصر");
    reveal_strlit("سجل الدرجة الصحية (الأحدث على اليمين)");
    reveal_strlit("جارٍ تطبيق الإصلاح…");
    reveal_strlit("طُبّق الإصلاح — إعادة فحص…");
    reveal_strlit("تصدير التقرير…");
    reveal_strlit("شغّل فحصاً أولاً.");
    reveal_strlit("صُدِّر التقرير");
    reveal_strlit("تعذّرت كتابة التقرير");
    reveal_strlit("خريطة شجرية لأكبر المجلدات؛ القائمة أدناه تعرض البيانات نفسها");
    reveal_strlit("اختر مجلداً للفحص…");
    reveal_strlit("إيقاف الفحص");
    reveal_strlit("أُوقف الفحص — لم يُقَس شيء بعد.");
    reveal_strlit("فحص جزئي · ");
    reveal_strlit("اختر مجلداً لفحصه.");
    reveal_strlit("فئة مقيسة؛ والدرجة محسوبة منها وحدها");
    reveal_strlit("غير مقيس");
    reveal_strlit("منذ أول تسجيل");
    reveal_strlit("التراجع عن آخر إصلاح…");
    reveal_strlit("تراجع");
    reveal_strlit("التراجع عن هذا الإصلاح؟");
    reveal_strlit("لا يوجد ما يُتراجَع عنه.");
    reveal_strlit("جارٍ التراجع…");
    reveal_strlit("تُراجِع عن الإصلاح — إعادة فحص…");
    reveal_strlit("لم يتم التراجع");
    reveal_strlit("أُلغيت المصادقة، فلم يتغيّر شيء.");
    reveal_strlit("رُفضت المصادقة، أو أن أداة الإصلاح غير مُثبَّتة. تأتي مع حزمة \u{200E}.deb\u{200E}.");
    reveal_strlit("جارٍ فحص");
    reveal_strlit("عنصر");
    let t = strings_text(Lang::Ar);
    assert forall|i: int| 0 <= i < t.len() implies visible(#[trigger] t[i]) by {
        if i == 0 {
            assert(visible_at(t[0], 0));
        } else if i == 1 {
            assert(visible_at(t[1], 0));
        } else if i == 2 {
            assert(visible_at(t[2], 0));
        } else if i == 3 {
            assert(visible_at(t[3], 0));
        } else if i == 4 {
            assert(visible_at(t[4], 0));
        } else if i == 5 {
            assert(visible_at(t[5], 0));
        } else if i == 6 {
            assert(visible_at(t[6], 0));
        } else if i == 7 {
            assert(visible_at(t[7], 0));
        } else if i == 8 {
            assert(visible_at(t[8], 0));
        } else if i == 9 {
            assert(visible_at(t[9], 0));
        } else if i == 10 {
            assert(visible_at(t[10], 0));
        } else if i == 11 {
            assert(visible_at(t[11], 0));
        } else if i == 12 {
            assert(visible_at(t[12], 0));
        } else if i == 13 {
            assert(visible_at(t[13], 0));
        } else if i == 14 {
            assert(visible_at(t[14], 0));
        } else if i == 15 {
            assert(visible_at(t[15], 0));
        } else if i == 16 {
            assert(visible_at(t[16], 0));
        } else if i == 17 {
            assert(visible_at(t[17], 0));
        } else if i == 18 {
            assert(visible_at(t[18], 0));
        } else if i == 19 {
            assert(visible_at(t[19], 0));
        } else if i == 20 {
            assert(visible_at(t[20], 0));
        } else if i == 21 {
            assert(visible_at(t[21], 0));
        } else if i == 22 {
            assert(visible_at(t[22], 0));
        } else if i == 23 {
            assert(visible_at(t[23], 0));
        } else if i == 24 {
            assert(visible_at(t[24], 0));
        } else if i == 25 {
            assert(visible_at(t[25], 0));
        } else if i == 26 {
            assert(visible_at(t[26], 0));
        } else if i == 27 {
            assert(visible_at(t[27], 0));
        } else if i == 28 {
            assert(visible_at(t[28], 0));
        } else if i == 29 {
            assert(visible_at(t[29], 0));
        } else if i == 30 {
            assert(visible_at(t[30], 0));
        } else if i == 31 {
            assert(visible_at(t[31], 0));
        } else if i == 32 {
            assert(visible_at(t[32], 0));
        } else if i == 33 {
            assert(visible_at(t[33], 0));
        } else if i == 34 {
            assert(visible_at(t[34], 0));
        } else if i == 35 {
            assert(visible_at(t[35], 0));
        } else if i == 36 {
            assert(visible_at(t[36], 0));
        } else if i == 37 {
            assert(visible_at(t[37], 0));
        } else if i == 38 {
            assert(visible_at(t[38], 0));
        } else if i == 39 {
            assert(visible_at(t[39], 0));
        } else if i == 40 {
            assert(visible_at(t[40], 0));
        } else if i == 41 {
            assert(visible_at(t[41], 0));
        } else if i == 42 {
            assert(visible_at(t[42], 0));
        } else if i == 43 {
            assert(visible_at(t[43], 0));
        } else if i == 44 {
            assert(visible_at(t[44], 0));
        } else if i == 45 {
            assert(visible_at(t[45], 0));
        } else if i == 46 {
            assert(visible_at(t[46], 0));
        } else if i == 47 {
            assert(visible_at(t[47], 0));
        } else if i == 48 {
            assert(visible_at(t[48], 0));
        } else if i == 49 {
            assert(visible_at(t[49], 0));
        } else if i == 50 {
            assert(visible_at(t[50], 0));
        } else if i == 51 {
            assert(visible_at(t[51], 0));
        } else if i == 52 {
            assert(visible_at(t[52], 0));
        }
    }
}
/// Every string of the Arabic table carries Arabic script: none is an
/// English string left behind.
pub proof fn lemma_arabic_strings_are_arabic()
    ensures
        forall|i: int| 0 <= i < strings_text(Lang::Ar).len() ==> arabic(#[trigger] strings_text(Lang::Ar)[i]),
{
    reveal_strlit("الدرجة الصحية");
    reveal_strlit("تشغيل الفحص");
    reveal_strlit("جارٍ فحص نظامك…");
    reveal_strlit("الفئات");
    reveal_strlit("المشاكل المكتشفة");
    reveal_strlit("لا توجد مشاكل — النظام يبدو سليمًا.");
    reveal_strlit("الأدلة");
    reveal_strlit("الأمر المقترح");
    reveal_strlit("فحوص متخطاة");
    reveal_strlit("فشل الفحص بشكل غير متوقع. حاول مرة أخرى.");
    reveal_strlit("تطبيق الإصلاح");
    reveal_strlit("تطبيق هذا الإصلاح؟");
    reveal_strlit("إلغاء");
    reveal_strlit("تطبيق");
    reveal_strlit("حسنًا");
    reveal_strlit("لم يُطبَّق الإصلاح");
    reveal_strlit("أُلغيت المصادقة أو فشلت، أو أن أداة الإصلاح غير مُثبَّتة.");
    reveal_strlit("يمكن التراجع عن هذا الإصلاح.");
    reveal_strlit("لا يمكن التراجع عن هذا الإصلاح.");
    reveal_strlit("عن SysMedic");
    reveal_strlit("طبيب لنظام لينكس: فحص، تشخيص، شرح، ووصف علاج آمن.");
    reveal_strlit("النظرة العامة");
    reveal_strlit("استخدام القرص");
    reveal_strlit("فشل فحص القرص. قد يكون المجلد غير قابل للقراءة.");
    reveal_strlit("لا شيء لعرضه — يبدو المجلد فارغاً.");
    reveal_strlit("أكبر العناصر");
    reveal_strlit("سجل الدرجة الصحية (الأحدث على اليمين)");
    reveal_strlit("جارٍ تطبيق الإصلاح…");
    reveal_strlit("طُبّق الإصلاح — إعادة فحص…");
    reveal_strlit("تصدير التقرير…");
    reveal_strlit("شغّل فحصاً أولاً.");
    reveal_strlit("صُدِّر التقرير");
    reveal_strlit("تعذّرت كتابة التقرير");
    reveal_strlit("خريطة شجرية لأكبر المجلدات؛ القائمة أدناه تعرض البيانات نفسها");
    reveal_strlit("اختر مجلداً للفحص…");
    reveal_strlit("إيقاف الفحص");
    reveal_strlit("أُوقف الفحص — لم يُقَس شيء بعد.");
    reveal_strlit("فحص جزئي · ");
    reveal_strlit("اختر مجلداً لفحصه.");
    reveal_strlit("فئة مقيسة؛ والدرجة محسوبة منها وحدها");
    reveal_strlit("غير مقيس");
    reveal_strlit("منذ أول تسجيل");
    reveal_strlit("التراجع عن آخر إصلاح…");
    reveal_strlit("تراجع");
    reveal_strlit("التراجع عن هذا الإصلاح؟");
    reveal_strlit("لا يوجد ما يُتراجَع عنه.");
    reveal_strlit("جارٍ التراجع…");
    reveal_strlit("تُراجِع عن الإصلاح — إعادة فحص…");
    reveal_strlit("لم يتم التراجع");
    reveal_strlit("أُلغيت المصادقة، فلم يتغيّر شيء.");
    reveal_strlit("رُفضت المصادقة، أو أن أداة الإصلاح غير مُثبَّتة. تأتي مع حزمة \u{200E}.deb\u{200E}.");
    reveal_strlit("جارٍ فحص");
    reveal_strlit("عنصر");
    let t = strings_text(Lang::Ar);
    assert forall|i: int| 0 <= i < t.len() implies arabic(#[trigger] t[i]) by {
        if i == 0 {
            assert(arabic_at(t[0], 0));
        } else if i == 1 {
            assert(arabic_at(t[1], 0));
        } else if i == 2 {
            assert(arabic_at(t[2], 0));
        } else if i == 3 {
            assert(arabic_at(t[3], 0));
        } else if i == 4 {
            assert(arabic_at(t[4], 0));
        } else if i == 5 {
            assert(arabic_at(t[5], 0));
        } else if i == 6 {
            assert(arabic_at(t[6], 0));
        } else if i == 7 {
            assert(arabic_at(t[7], 0));
        } else if i == 8 {
            assert(arabic_at(t[8], 0));
        } else if i == 9 {
            assert(arabic_at(t[9], 0));
        } else if i == 10 {
            assert(arabic_at(t[10], 0));
        } else if i == 11 {
            assert(arabic_at(t[11], 0));
        } else if i == 12 {
            assert(arabic_at(t[12], 0));
        } else if i == 13 {
            assert(arabic_at(t[13], 0));
        } else if i == 14 {
            assert(arabic_at(t[14], 0));
        } else if i == 15 {
            assert(arabic_at(t[15], 0));
        } else if i == 16 {
            assert(arabic_at(t[16], 0));
        } else if i == 17 {
            assert(arabic_at(t[17], 0));
        } else if i == 18 {
            assert(arabic_at(t[18], 0));
        } else if i == 19 {
            assert(arabic_at(t[19], 0));
        } else if i == 20 {
            assert(arabic_at(t[20], 0));
        } else if i == 21 {
            assert(arabic_at(t[21], 0));
        } else if i == 22 {
            assert(arabic_at(t[22], 0));
        } else if i == 23 {
            assert(arabic_at(t[23], 0));
        } else if i == 24 {
            assert(arabic_at(t[24], 0));
        } else if i == 25 {
            assert(arabic_at(t[25], 0));
        } else if i == 26 {
            assert(arabic_at(t[26], 0));
        } else if i == 27 {
            assert(arabic_at(t[27], 0));
        } else if i == 28 {
            assert(arabic_at(t[28], 0));
        } else if i == 29 {
            assert(arabic_at(t[29], 0));
        } else if i == 30 {
            assert(arabic_at(t[30], 0));
        } else if i == 31 {
            assert(arabic_at(t[31], 0));
        } else if i == 32 {
            assert(arabic_at(t[32], 0));
        } else if i == 33 {
            assert(arabic_at(t[33], 0));
        } else if i == 34 {
            assert(arabic_at(t[34], 0));
        } else if i == 35 {
            assert(arabic_at(t[35], 0));
        } else if i == 36 {
            assert(arabic_at(t[36], 0));
        } else if i == 37 {
            assert(arabic_at(t[37], 0));
        } else if i == 38 {
            assert(arabic_at(t[38], 0));
        } else if i == 39 {
            assert(arabic_at(t[39], 0));
        } else if i == 40 {
            assert(arabic_at(t[40], 0));
        } else if i == 41 {
            assert(arabic_at(t[41], 0));
        } else if i == 42 {
            assert(arabic_at(t[42], 0));
        } else if i == 43 {
            assert(arabic_at(t[43], 0));
        } else if i == 44 {
            assert(arabic_at(t[44], 0));
        } else if i == 45 {
            assert(arabic_at(t[45], 0));
        } else if i == 46 {
            assert(arabic_at(t[46], 0));
        } else if i == 47 {
            assert(arabic_at(t[47], 0));
        } else if i == 48 {
            assert(arabic_at(t[48], 0));
        } else if i == 49 {
            assert(arabic_at(t[49], 0));
        } else if i == 50 {
            assert(arabic_at(t[50], 0));
        } else if i == 51 {
            assert(arabic_at(t[51], 0));
        } else if i == 52 {
            assert(arabic_at(t[52], 0));
        }
    }
}
/// The two tables have the same fields in the same order.
pub proof fn lemma_tables_align()
    ensures
        strings_text(Lang::En).len() == strings_text(Lang::Ar).len(),
{
}

/// Why a privileged operation did not happen.
#[derive(Debug, Clone, Copy, PartialEq, Eq, Structural)]
pub enum HelperFailure {
    /// pkexec exit 126: the user dismissed the authentication dialog.
    Cancelled,
    /// pkexec exit 127: authorization refused, or the helper is not there.
    NotAuthorized,
    /// The helper ran as root and failed; its stderr says why.
    Failed,
}

/// Classify a helper invocation from pkexec's exit code: pkexec keeps 126
/// and 127 for its own failures and otherwise passes the helper's status
/// through.
pub fn classify_failure(exit_code: Option<i32>) -> (f: HelperFailure)
    ensures
        f == match exit_code {
            Some(126) => HelperFailure::Cancelled,
            Some(127) => HelperFailure::NotAuthorized,
            _ => HelperFailure::Failed,
        },
{
    match exit_code {
        Some(126) => HelperFailure::Cancelled,
        Some(127) => HelperFailure::NotAuthorized,
        _ => HelperFailure::Failed,
    }
}

/// How many trailing lines of the helper's stderr are shown.
pub const STDERR_TAIL_LINES: usize = 6;

/// A line of stderr as the tail keeps it: without trailing whitespace, and
/// only when it holds something besides whitespace.
pub open spec fn tail_line(l: Seq<char>) -> Option<Seq<char>> {
    if trim(trim_end(l)).len() > 0 {
        Some(trim_end(l))
    } else {
        None
    }
}

/// [`tail_line`] as a function value.
pub open spec fn tail_fn() -> spec_fn(Seq<char>) -> Option<Seq<char>> {
    |l: Seq<char>| tail_line(l)
}

/// The lines of `stderr` the tail may show, in order.
pub open spec fn tail_lines(stderr: Seq<char>) -> Seq<Seq<char>> {
    filter_map(lines(stderr), tail_fn())
}

/// The last [`STDERR_TAIL_LINES`] non-blank lines of `stderr`, trimmed at
/// the end, joined with newlines and stripped of control characters; `None`
/// when there is no such line.
pub open spec fn stderr_tail_text(stderr: Seq<char>) -> Option<Seq<char>> {
    let ls = tail_lines(stderr);
    if ls.len() == 0 {
        None
    } else {
        let start = if ls.len() > STDERR_TAIL_LINES {
            ls.len() - STDERR_TAIL_LINES
        } else {
            0
        };
        Some(strip_controls(join(ls.subrange(start, ls.len() as int), "\n"@), false))
    }
}

/// The last few non-empty lines of `stderr`, with control characters
/// removed: the text comes from whatever tool the fix ran.
pub fn stderr_tail(stderr: &str) -> (r: Option<String>)
    ensures
        match r {
            Some(t) => stderr_tail_text(stderr@) == Some(t@),
            None => stderr_tail_text(stderr@) is None,
        },
{
    let chars = chars_of(stderr);
    let all = split_lines(&chars);
    let ghost f = tail_fn();
    let mut kept: Vec<Vec<char>> = Vec::new();
    for i in 0..all.len()
        invariant
            char_views(all@) == lines(stderr@),
            f == tail_fn(),
            char_views(kept@) == filter_map(lines(stderr@).take(i as int), f),
    {
        proof {
            lemma_filter_map_step(lines(stderr@), f, i as int);
        }
        let t = trim_end_chars(&all[i]);
        let inner = trim_chars(&t);
        assert(all@[i as int]@ == lines(stderr@)[i as int]);
        assert(f(lines(stderr@)[i as int]) == tail_line(lines(stderr@)[i as int]));
        if inner.len() > 0 {
            let ghost before = kept@;
            kept.push(t);
            assert(char_views(kept@) =~= char_views(before).push(trim_end(lines(stderr@)[i as int])));
        }
    }
    assert(lines(stderr@).take(all@.len() as int) == lines(stderr@));
    let n = kept.len();
    if n == 0 {
        return None;
    }
    let start: usize = if n > STDERR_TAIL_LINES {
        n - STDERR_TAIL_LINES
    } else {
        0
    };
    let joined = join_chars(&kept, start, n, &lit("\n"));
    let mut out = String::new();
    push_stripped(&mut out, &joined, false);
    Some(out)
}

/// The reason a dialog gives for a helper failure, in `lang`.
pub open spec fn failure_reason(failure: HelperFailure, lang: Lang) -> Seq<char> {
    match failure {
        HelperFailure::Cancelled => strings_text(lang)[49],
        HelperFailure::NotAuthorized => strings_text(lang)[50],
        HelperFailure::Failed => strings_text(lang)[16],
    }
}

/// The dialog body for a failure: the reason, and, when the helper itself
/// failed and said something, a blank line and the tail of what it said.
pub fn failure_body(failure: HelperFailure, stderr: &str, lang: Lang) -> (body: String)
    ensures
        body@ == match failure {
            HelperFailure::Failed => match stderr_tail_text(stderr@) {
                Some(detail) => failure_reason(failure, lang) + "\n\n"@ + detail,
                None => failure_reason(failure, lang),
            },
            _ => failure_reason(failure, lang),
        },
{
    let strings = Strings::for_lang(lang);
    let reason = match failure {
        HelperFailure::Cancelled => strings.fix_cancelled_body,
        HelperFailure::NotAuthorized => strings.fix_unauthorized_body,
        HelperFailure::Failed => strings.fix_failed_body,
    };
    let mut body = String::from_str(reason);
    match failure {
        HelperFailure::Failed => match stderr_tail(stderr) {
            Some(detail) => {
                push_str(&mut body, "\n\n");
                push_str(&mut body, detail.as_str());
            },
            None => {},
        },
        _ => {},
    }
    body
}

/// The style class for a severity badge.
pub open spec fn severity_class(s: Severity) -> Seq<char> {
    match s {
        Severity::Critical | Severity::High => "error"@,
        Severity::Medium => "warning"@,
        Severity::Low | Severity::Info => "dim-label"@,
    }
}

/// CSS class for a severity badge (Adwaita style classes).
pub fn severity_css(severity: Severity) -> (c: &'static str)
    ensures
        c@ == severity_class(severity),
{
    match severity {
        Severity::Critical | Severity::High => "error",
        Severity::Medium => "warning",
        Severity::Low | Severity::Info => "dim-label",
    }
}

/// The style class for a score: success from 75, warning from 60,
/// error below (and above 100).
pub open spec fn score_class(score: nat) -> Seq<char> {
    if 75 <= score <= 100 {
        "success"@
    } else if 60 <= score <= 74 {
        "warning"@
    } else {
        "error"@
    }
}

/// CSS class for the big score number; its bands are the grade bands.
pub fn score_css(score: u8) -> (c: &'static str)
    ensures
        c@ == score_class(score as nat),
{
    if 75 <= score && score <= 100 {
        "success"
    } else if 60 <= score && score <= 74 {
        "warning"
    } else {
        "error"
    }
}

/// The colour of a score never contradicts its grade: green for Excellent
/// and Good, amber for Fair, red for Poor and Critical.
pub proof fn lemma_score_colour_matches_grade(score: nat)
    requires
        score <= 100,
    ensures
        score_class(score) == if grade_of(score) == "Excellent"@ || grade_of(score) == "Good"@ {
            "success"@
        } else if grade_of(score) == "Fair"@ {
            "warning"@
        } else {
            "error"@
        },
{
    reveal_strlit("Excellent");
    reveal_strlit("Good");
    reveal_strlit("Fair");
    reveal_strlit("Poor");
    reveal_strlit("Critical");
    assert("Poor"@ != "Excellent"@ && "Poor"@ != "Good"@ && "Poor"@ != "Fair"@) by {
        assert("Poor"@[0] != "Excellent"@[0] && "Poor"@[0] != "Good"@[0] && "Poor"@[0] != "Fair"@[0]);
    }
    assert("Critical"@ != "Excellent"@ && "Critical"@ != "Good"@ && "Critical"@ != "Fair"@) by {
        assert("Critical"@[0] != "Excellent"@[0] && "Critical"@[0] != "Good"@[0] && "Critical"@[0] != "Fair"@[0]);
    }
    assert("Good"@ != "Excellent"@ && "Fair"@ != "Excellent"@ && "Fair"@ != "Good"@) by {
        assert("Good"@[0] != "Excellent"@[0] && "Fair"@[0] != "Excellent"@[0] && "Fair"@[0] != "Good"@[0]);
    }
}

/// One category line of the dashboard.
pub struct CategoryRow {
    pub label: &'static str,
    pub score: u8,
    /// False when the checkup gathered no data for this category.
    pub measured: bool,
}

/// The dashboard rows for the category scores, labelled in `lang`.
pub fn category_rows(scores: &Vec<CategoryScore>, lang: Lang) -> (rows: Vec<CategoryRow>)
    ensures
        rows@.len() == scores@.len(),
        forall|i: int|
            0 <= i < rows@.len() ==> (#[trigger] rows@[i]).label@ == category_label_in(
                scores@[i].category,
                lang,
            ) && rows@[i].score == scores@[i].score && rows@[i].measured == scores@[i].measured,
{
    let mut rows: Vec<CategoryRow> = Vec::new();
    for i in 0..scores.len()
        invariant
            rows@.len() == i,
            forall|j: int|
                0 <= j < i ==> (#[trigger] rows@[j]).label@ == category_label_in(
                    scores@[j].category,
                    lang,
                ) && rows@[j].score == scores@[j].score && rows@[j].measured
                    == scores@[j].measured,
    {
        let cs = &scores[i];
        rows.push(
            CategoryRow { label: cs.category.label_in(lang), score: cs.score, measured: cs.measured },
        );
    }
    rows
}

/// The five questions every explanation answers, in `lang`.
pub open spec fn questions(lang: Lang) -> Seq<Seq<char>> {
    match lang {
        Lang::En => seq![
            "What caused it?"@,
            "Is it dangerous?"@,
            "What is the impact?"@,
            "How do I fix it?"@,
            "What if I ignore it?"@,
        ],
        Lang::Ar => seq![
            "ما سببها؟"@,
            "هل هي خطيرة؟"@,
            "ما تأثيرها؟"@,
            "كيف أصلحها؟"@,
            "ماذا لو تجاهلتها؟"@,
        ],
    }
}

/// The explanation of a finding as (question, answer) pairs in `lang`:
/// cause, danger, impact, remedy and the risk of ignoring it; empty for an
/// unknown id.
pub fn explanation_lines(kb: &KnowledgeBase, finding_id: &str, lang: Lang) -> (lines: Vec<
    (&'static str, String),
>)
    ensures
        match explanation_of(*kb, finding_id@, lang) {
            None => lines@.len() == 0,
            Some(e) => lines@.len() == 5 && lines@.map_values(|l: (&'static str, String)| l.0@)
                == questions(lang) && lines@.map_values(|l: (&'static str, String)| l.1@) == seq![
                e.cause@,
                e.dangerous@,
                e.impact@,
                e.remedy@,
                e.risk_if_ignored@,
            ],
        },
{
    let exp = match kb.explain(finding_id, lang) {
        Some(e) => e,
        None => return Vec::new(),
    };
    let q: [&'static str; 5] = match lang {
        Lang::En => [
            "What caused it?",
            "Is it dangerous?",
            "What is the impact?",
            "How do I fix it?",
            "What if I ignore it?",
        ],
        Lang::Ar => ["ما سببها؟", "هل هي خطيرة؟", "ما تأثيرها؟", "كيف أصلحها؟", "ماذا لو تجاهلتها؟"],
    };
    let lines = vec![
        (q[0], exp.cause.clone()),
        (q[1], exp.dangerous.clone()),
        (q[2], exp.impact.clone()),
        (q[3], exp.remedy.clone()),
        (q[4], exp.risk_if_ignored.clone()),
    ];
    assert(lines@.map_values(|l: (&'static str, String)| l.0@) =~= questions(lang));
    assert(lines@.map_values(|l: (&'static str, String)| l.1@) =~= seq![
        exp.cause@,
        exp.dangerous@,
        exp.impact@,
        exp.remedy@,
        exp.risk_if_ignored@,
    ]);
    lines
}

// ----- export and fix dialogs -----

/// The formats a report can be exported in.
#[derive(Debug, Clone, Copy, PartialEq, Eq, Structural)]
pub enum ExportFormat {
    Html,
    Markdown,
    Json,
}

/// `p` without the slashes it ends with.
pub open spec fn without_trailing_slashes(p: Seq<char>) -> Seq<char>
    decreases p.len(),
{
    if p.len() > 0 && p.last() == '/' {
        without_trailing_slashes(p.drop_last())
    } else {
        p
    }
}

/// The index of the last `c` in `s`, if any.
pub open spec fn last_index_of(s: Seq<char>, c: char) -> Option<int>
    decreases s.len(),
{
    if s.len() == 0 {
        None
    } else if s.last() == c {
        Some(s.len() - 1)
    } else {
        last_index_of(s.drop_last(), c)
    }
}

/// The last component of a path.
pub open spec fn file_name_of(p: Seq<char>) -> Seq<char> {
    let q = without_trailing_slashes(p);
    match last_index_of(q, '/') {
        Some(k) => q.skip(k + 1),
        None => q,
    }
}

/// A file name's extension as `Path::extension` reads it: what follows
/// the last dot, unless there is no dot or the only dot starts the name.
pub open spec fn extension_of(name: Seq<char>) -> Option<Seq<char>> {
    match last_index_of(name, '.') {
        Some(k) => if k == 0 {
            None
        } else {
            Some(name.skip(k + 1))
        },
        None => None,
    }
}

/// The export format a file name asks for: Markdown for `.md` and
/// `.markdown`, JSON for `.json` (in any case), HTML otherwise.
pub open spec fn export_format_spec(path: Seq<char>) -> ExportFormat {
    match extension_of(file_name_of(path)) {
        Some(e) => if eq_ignore_case(e, "md"@) || eq_ignore_case(e, "markdown"@) {
            ExportFormat::Markdown
        } else if eq_ignore_case(e, "json"@) {
            ExportFormat::Json
        } else {
            ExportFormat::Html
        },
        None => ExportFormat::Html,
    }
}

fn last_index_exec(s: &Vec<char>, n: usize, c: char) -> (r: Option<usize>)
    requires
        n <= s@.len(),
    ensures
        match r {
            Some(k) => k < n && last_index_of(s@.take(n as int), c) == Some(k as int),
            None => last_index_of(s@.take(n as int), c) is None,
        },
{
    let mut j = n;
    while j > 0
        invariant
            j <= n <= s@.len(),
            last_index_of(s@.take(n as int), c) == last_index_of(s@.take(j as int), c),
        decreases j,
    {
        let ghost t = s@.take(j as int);
        assert(t.drop_last() == s@.take(j - 1));
        if s[j - 1] == c {
            return Some(j - 1);
        }
        j = j - 1;
    }
    None
}

/// Pick the export format from a file name (see [`export_format_spec`]);
/// anything unrecognised becomes HTML, the format the dialog proposes.
pub fn export_format_for(path: &str) -> (f: ExportFormat)
    ensures
        f == export_format_spec(path@),
{
    let p = chars_of(path);
    let mut n = p.len();
    assert(p@.take(n as int) == path@);
    while n > 0 && p[n - 1] == '/'
        invariant
            n <= p@.len(),
            p@ == path@,
            without_trailing_slashes(p@.take(n as int)) == without_trailing_slashes(path@),
        decreases n,
    {
        let ghost t = p@.take(n as int);
        assert(t.drop_last() == p@.take(n - 1));
        n = n - 1;
    }
    assert(n == 0 || p@.take(n as int).last() != '/');
    assert(without_trailing_slashes(p@.take(n as int)) == p@.take(n as int));
    let start = match last_index_exec(&p, n, '/') {
        Some(k) => k + 1,
        None => 0,
    };
    let name = slice_chars(&p, start, n);
    assert(name@ == file_name_of(path@));
    let dot = last_index_exec(&name, name.len(), '.');
    assert(name@.take(name@.len() as int) == name@);
    match dot {
        Some(k) if k > 0 => {
            let ext = slice_chars(&name, k + 1, name.len());
            assert(ext@ == name@.skip(k + 1));
            if eq_ignore_case_exec(&ext, &lit("md")) || eq_ignore_case_exec(&ext, &lit("markdown")) {
                ExportFormat::Markdown
            } else if eq_ignore_case_exec(&ext, &lit("json")) {
                ExportFormat::Json
            } else {
                ExportFormat::Html
            }
        },
        _ => ExportFormat::Html,
    }
}

/// How a fix through the privileged helper ended.
#[derive(Debug, Clone, Copy, PartialEq, Eq, Structural)]
pub enum FixOutcome {
    /// The helper reported success: confirm it and re-scan.
    Applied,
    /// The authorisation prompt was dismissed, the helper failed, or it is
    /// not installed: the user must be told.
    Failed,
}

/// The outcome of a fix from the helper's exit status: applied only when
/// the helper succeeded.
pub fn fix_outcome(helper_succeeded: bool) -> (o: FixOutcome)
    ensures
        (o == FixOutcome::Applied) == helper_succeeded,
{
    if helper_succeeded {
        FixOutcome::Applied
    } else {
        FixOutcome::Failed
    }
}

/// The style of a confirmation button.
#[derive(Debug, Clone, Copy, PartialEq, Eq, Structural)]
pub enum ResponseStyle {
    /// The encouraging, suggested style.
    Suggested,
    /// The red, destructive style.
    Destructive,
}

/// The confirmation style a plan earns: a change that cannot be undone gets
/// the destructive style, a reversible one the suggested style.
pub fn response_appearance_for(reversible: bool) -> (s: ResponseStyle)
    ensures
        (s == ResponseStyle::Suggested) == reversible,
{
    if reversible {
        ResponseStyle::Suggested
    } else {
        ResponseStyle::Destructive
    }
}

/// A key pressed on the disk treemap.
#[derive(Debug, Clone, Copy, PartialEq, Eq, Structural)]
pub enum TileKey {
    Up,
    Down,
    Left,
    Right,
    Home,
    End,
    /// Any other key, which the treemap leaves alone.
    Other,
}

/// Whether `key` moves to the next tile: Down always does, and of the
/// horizontal pair the one pointing along the reading direction (Right,
/// Left in a right-to-left layout).
pub open spec fn moves_forward(key: TileKey, rtl: bool) -> bool {
    key == TileKey::Down || (key == TileKey::Right && !rtl) || (key == TileKey::Left && rtl)
}

/// Whether `key` moves to the previous tile.
pub open spec fn moves_back(key: TileKey, rtl: bool) -> bool {
    key == TileKey::Up || (key == TileKey::Left && !rtl) || (key == TileKey::Right && rtl)
}

/// The tile the keyboard lands on among `count` tiles (largest first) from
/// `current`: the next or previous one, wrapping around; the first on Home,
/// the last on End; `None` for any other key.
pub open spec fn tile_after(key: TileKey, current: nat, count: nat, rtl: bool) -> Option<nat> {
    if moves_forward(key, rtl) {
        Some((current + 1) % count)
    } else if moves_back(key, rtl) {
        Some(((current + count - 1) % (count as int)) as nat)
    } else if key == TileKey::Home {
        Some(0)
    } else if key == TileKey::End {
        Some((count - 1) as nat)
    } else {
        None
    }
}

/// Where `key` moves the treemap selection, with `count` tiles and tile
/// `selected` chosen (the first when none is): see [`tile_after`]. `None`
/// when there are no tiles or the key does not move the selection.
pub fn next_tile(key: TileKey, selected: Option<usize>, count: usize, rtl: bool) -> (r: Option<usize>)
    requires
        selected matches Some(c) ==> c + count <= usize::MAX,
    ensures
        count == 0 ==> r is None,
        count > 0 ==> r == match tile_after(
            key,
            match selected {
                Some(c) => c as nat,
                None => 0,
            },
            count as nat,
            rtl,
        ) {
            Some(t) => Some(t as usize),
            None => None::<usize>,
        },
        r matches Some(t) ==> t < count,
{
    if count == 0 {
        return None;
    }
    let current = match selected {
        Some(c) => c,
        None => 0,
    };
    let forward = key == TileKey::Down || (key == TileKey::Right && !rtl) || (key == TileKey::Left
        && rtl);
    let back = key == TileKey::Up || (key == TileKey::Left && !rtl) || (key == TileKey::Right
        && rtl);
    if forward {
        Some((current + 1) % count)
    } else if back {
        Some((current + count - 1) % count)
    } else if key == TileKey::Home {
        Some(0)
    } else if key == TileKey::End {
        Some(count - 1)
    } else {
        None
    }
}

} // verus!
