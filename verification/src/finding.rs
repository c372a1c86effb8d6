//! Severities, health categories and findings.

use vstd::prelude::*;

use crate::lang::Lang;
use vstd::string::StringExecFns;

verus! {

/// How serious a finding is. Ordered from `Info` (least) to `Critical`.
#[derive(Debug, Clone, Copy, PartialEq, Eq, PartialOrd, Ord, Hash, Structural)]
pub enum Severity {
    Info,
    Low,
    Medium,
    High,
    Critical,
}

/// The position of a severity in the seriousness order (`Info` is 0).
pub open spec fn severity_rank(s: Severity) -> nat {
    match s {
        Severity::Info => 0,
        Severity::Low => 1,
        Severity::Medium => 2,
        Severity::High => 3,
        Severity::Critical => 4,
    }
}

/// Points one finding of severity `s` subtracts from its category score.
pub open spec fn severity_penalty(s: Severity) -> nat {
    match s {
        Severity::Info => 0,
        Severity::Low => 5,
        Severity::Medium => 12,
        Severity::High => 25,
        Severity::Critical => 40,
    }
}

/// The machine label of a severity (used in JSON and CSS classes).
pub open spec fn severity_label(s: Severity) -> Seq<char> {
    match s {
        Severity::Info => "info"@,
        Severity::Low => "low"@,
        Severity::Medium => "medium"@,
        Severity::High => "high"@,
        Severity::Critical => "critical"@,
    }
}

impl Severity {
    /// Position in the seriousness order, `Info` = 0 … `Critical` = 4.
    pub fn rank(self) -> (r: u8)
        ensures
            r == severity_rank(self),
    {
        match self {
            Severity::Info => 0,
            Severity::Low => 1,
            Severity::Medium => 2,
            Severity::High => 3,
            Severity::Critical => 4,
        }
    }

    /// Points subtracted from the category score for one finding of this severity.
    pub fn penalty(self) -> (p: u32)
        ensures
            p == severity_penalty(self),
    {
        match self {
            Severity::Info => 0,
            Severity::Low => 5,
            Severity::Medium => 12,
            Severity::High => 25,
            Severity::Critical => 40,
        }
    }

    pub fn label(self) -> (l: &'static str)
        ensures
            l@ == severity_label(self),
    {
        match self {
            Severity::Info => "info",
            Severity::Low => "low",
            Severity::Medium => "medium",
            Severity::High => "high",
            Severity::Critical => "critical",
        }
    }
}

/// A more serious severity never carries a smaller penalty.
pub proof fn lemma_penalty_monotone(a: Severity, b: Severity)
    requires
        severity_rank(a) <= severity_rank(b),
    ensures
        severity_penalty(a) <= severity_penalty(b),
{
}

/// Law: what each severity costs its category, in points out of 100:
/// nothing for information, 5 for low, 12 for medium, 25 for high, 40 for
/// critical; so every severity above information costs strictly more than
/// the one below it.
pub proof fn lemma_penalty_points(a: Severity, b: Severity)
    ensures
        severity_penalty(Severity::Info) == 0,
        severity_penalty(Severity::Low) == 5,
        severity_penalty(Severity::Medium) == 12,
        severity_penalty(Severity::High) == 25,
        severity_penalty(Severity::Critical) == 40,
        severity_rank(a) < severity_rank(b) ==> severity_penalty(a) < severity_penalty(b),
        a != Severity::Info ==> severity_penalty(a) > 0,
{
}

/// The health category a finding belongs to.
#[derive(Debug, Clone, Copy, PartialEq, Eq, PartialOrd, Ord, Hash, Structural)]
pub enum Category {
    Boot,
    Cpu,
    Memory,
    Storage,
    Thermal,
    Processes,
    Services,
    Packages,
    Logs,
    Network,
    Security,
    Battery,
}

/// Every category, in the order reports list them.
pub open spec fn all_categories() -> Seq<Category> {
    seq![
        Category::Boot,
        Category::Cpu,
        Category::Memory,
        Category::Storage,
        Category::Thermal,
        Category::Processes,
        Category::Services,
        Category::Packages,
        Category::Logs,
        Category::Network,
        Category::Security,
        Category::Battery,
    ]
}

/// Relative weight of a category in the overall health score.
pub open spec fn category_weight(c: Category) -> nat {
    match c {
        Category::Storage | Category::Security => 15,
        Category::Memory | Category::Services => 12,
        Category::Thermal | Category::Packages => 10,
        Category::Boot | Category::Cpu => 8,
        Category::Processes | Category::Logs | Category::Network | Category::Battery => 5,
    }
}

/// The English display name of a category.
pub open spec fn category_label(c: Category) -> Seq<char> {
    match c {
        Category::Boot => "Boot"@,
        Category::Cpu => "CPU"@,
        Category::Memory => "Memory"@,
        Category::Storage => "Storage"@,
        Category::Thermal => "Thermal"@,
        Category::Processes => "Processes"@,
        Category::Services => "Services"@,
        Category::Packages => "Packages"@,
        Category::Logs => "Logs"@,
        Category::Network => "Network"@,
        Category::Security => "Security"@,
        Category::Battery => "Battery"@,
    }
}

/// A category's label in `lang`.
pub open spec fn category_label_in(c: Category, lang: Lang) -> Seq<char> {
    match lang {
        Lang::En => category_label(c),
        Lang::Ar => match c {
            Category::Boot => "الإقلاع"@,
            Category::Cpu => "المعالج"@,
            Category::Memory => "الذاكرة"@,
            Category::Storage => "التخزين"@,
            Category::Thermal => "الحرارة"@,
            Category::Processes => "العمليات"@,
            Category::Services => "الخدمات"@,
            Category::Packages => "الحزم"@,
            Category::Logs => "السجلات"@,
            Category::Network => "الشبكة"@,
            Category::Security => "الأمان"@,
            Category::Battery => "البطارية"@,
        },
    }
}

impl Category {
    /// The category's label in `lang`.
    pub fn label_in(self, lang: Lang) -> (l: &'static str)
        ensures
            l@ == category_label_in(self, lang),
    {
        match lang {
            Lang::En => self.label(),
            Lang::Ar => match self {
                Category::Boot => "الإقلاع",
                Category::Cpu => "المعالج",
                Category::Memory => "الذاكرة",
                Category::Storage => "التخزين",
                Category::Thermal => "الحرارة",
                Category::Processes => "العمليات",
                Category::Services => "الخدمات",
                Category::Packages => "الحزم",
                Category::Logs => "السجلات",
                Category::Network => "الشبكة",
                Category::Security => "الأمان",
                Category::Battery => "البطارية",
            },
        }
    }

    /// Every category, in report order.
    pub fn all() -> (v: Vec<Category>)
        ensures
            v@ == all_categories(),
    {
        vec![
            Category::Boot,
            Category::Cpu,
            Category::Memory,
            Category::Storage,
            Category::Thermal,
            Category::Processes,
            Category::Services,
            Category::Packages,
            Category::Logs,
            Category::Network,
            Category::Security,
            Category::Battery,
        ]
    }

    /// Relative weight of the category in the overall health score.
    pub fn weight(self) -> (w: u32)
        ensures
            w == category_weight(self),
    {
        match self {
            Category::Storage | Category::Security => 15,
            Category::Memory | Category::Services => 12,
            Category::Thermal | Category::Packages => 10,
            Category::Boot | Category::Cpu => 8,
            Category::Processes | Category::Logs | Category::Network | Category::Battery => 5,
        }
    }

    pub fn label(self) -> (l: &'static str)
        ensures
            l@ == category_label(self),
    {
        match self {
            Category::Boot => "Boot",
            Category::Cpu => "CPU",
            Category::Memory => "Memory",
            Category::Storage => "Storage",
            Category::Thermal => "Thermal",
            Category::Processes => "Processes",
            Category::Services => "Services",
            Category::Packages => "Packages",
            Category::Logs => "Logs",
            Category::Network => "Network",
            Category::Security => "Security",
            Category::Battery => "Battery",
        }
    }
}

/// Every category appears exactly once in the report order, and every
/// category carries a positive weight.
pub proof fn lemma_categories_complete(c: Category)
    ensures
        all_categories().contains(c),
        category_weight(c) > 0,
        all_categories().len() == 12,
{
    let all = all_categories();
    match c {
        Category::Boot => assert(all[0] == c),
        Category::Cpu => assert(all[1] == c),
        Category::Memory => assert(all[2] == c),
        Category::Storage => assert(all[3] == c),
        Category::Thermal => assert(all[4] == c),
        Category::Processes => assert(all[5] == c),
        Category::Services => assert(all[6] == c),
        Category::Packages => assert(all[7] == c),
        Category::Logs => assert(all[8] == c),
        Category::Network => assert(all[9] == c),
        Category::Security => assert(all[10] == c),
        Category::Battery => assert(all[11] == c),
    }
}

/// One diagnosed problem (or notable observation) on the system.
///
/// `id` is a stable machine identifier (e.g. `storage.disk_nearly_full`) used
/// to look up the explanation in the knowledge base and the matching fix.
#[derive(Debug, Clone)]
pub struct Finding {
    pub id: String,
    pub title: String,
    pub category: Category,
    pub severity: Severity,
    pub summary: String,
    pub evidence: Vec<String>,
    pub fix_hint: Option<String>,
    /// The values the title and summary interpolate, in order, for
    /// rendering them from a translated template.
    pub args: Vec<String>,
}

impl Finding {
    pub fn new(id: &str, category: Category, severity: Severity, title: &str, summary: &str) -> (f:
        Finding)
        ensures
            f.id@ == id@,
            f.title@ == title@,
            f.category == category,
            f.severity == severity,
            f.summary@ == summary@,
            f.evidence@.len() == 0,
            f.fix_hint.is_none(),
            f.args@.len() == 0,
    {
        Finding {
            id: String::from_str(id),
            title: String::from_str(title),
            category,
            severity,
            summary: String::from_str(summary),
            evidence: Vec::new(),
            fix_hint: None,
            args: Vec::new(),
        }
    }

    pub fn with_evidence(self, evidence: Vec<String>) -> (f: Finding)
        ensures
            f.evidence == evidence,
            f.id == self.id,
            f.title == self.title,
            f.category == self.category,
            f.severity == self.severity,
            f.summary == self.summary,
            f.fix_hint == self.fix_hint,
            f.args == self.args,
    {
        let mut f = self;
        f.evidence = evidence;
        f
    }

    pub fn with_fix_hint(self, hint: &str) -> (f: Finding)
        ensures
            f.fix_hint.is_some(),
            f.fix_hint.unwrap()@ == hint@,
            f.evidence == self.evidence,
            f.id == self.id,
            f.title == self.title,
            f.category == self.category,
            f.severity == self.severity,
            f.summary == self.summary,
            f.args == self.args,
    {
        let mut f = self;
        f.fix_hint = Some(String::from_str(hint));
        f
    }
}

impl Finding {
    /// The finding with the values its title and summary interpolate.
    pub fn with_args(self, args: Vec<String>) -> (f: Finding)
        ensures
            f.args == args,
            f.evidence == self.evidence,
            f.id == self.id,
            f.title == self.title,
            f.category == self.category,
            f.severity == self.severity,
            f.summary == self.summary,
            f.fix_hint == self.fix_hint,
    {
        let mut f = self;
        f.args = args;
        f
    }
}

} // verus!
