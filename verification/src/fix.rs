//! The safe-fix contract: every fix is first presented as a [`FixPlan`]
//! stating what will run, what it touches, and whether it can be undone.

use vstd::prelude::*;
use vstd::string::StringExecFns;

use crate::finding::Severity;
use crate::lang::{Lang, LocalizedText};
use crate::text::{join, push_str, views};

verus! {

/// A single command a fix would run: a program and its arguments, never a
/// shell string.
#[derive(Debug, Clone)]
pub struct FixCommand {
    pub program: String,
    pub args: Vec<String>,
}

/// The text of each string slice.
pub open spec fn str_views(v: Seq<&str>) -> Seq<Seq<char>> {
    v.map_values(|s: &str| s@)
}

/// The copy-pasteable rendering of a command: the program, then its
/// arguments, separated by single spaces.
pub open spec fn command_line(program: Seq<char>, args: Seq<Seq<char>>) -> Seq<char> {
    if args.len() == 0 {
        program
    } else {
        program + " "@ + join(args, " "@)
    }
}

/// The rendering of a command.
pub open spec fn command_text(c: FixCommand) -> Seq<char> {
    command_line(c.program@, views(c.args@))
}

impl FixCommand {
    pub fn new(program: &str, args: &[&str]) -> (c: FixCommand)
        ensures
            c.program@ == program@,
            views(c.args@) == str_views(args@),
    {
        let mut v: Vec<String> = Vec::new();
        let n = args.len();
        for i in 0..n
            invariant
                n == args@.len(),
                views(v@) == str_views(args@.take(i as int)),
        {
            let a = String::from_str(args[i]);
            let ghost before = v@;
            v.push(a);
            assert(views(v@) == views(before).push(a@));
            assert(str_views(args@.take(i + 1)) == str_views(args@.take(i as int)).push(
                args@[i as int]@,
            ));
        }
        assert(args@.take(n as int) == args@);
        FixCommand { program: String::from_str(program), args: v }
    }

    /// Human-readable, copy-pasteable rendering of the command.
    pub fn display(&self) -> (s: String)
        ensures
            s@ == command_text(*self),
    {
        let mut s = String::from_str(self.program.as_str());
        let n = self.args.len();
        let ghost av = views(self.args@);
        for i in 0..n
            invariant
                n == self.args@.len(),
                av == views(self.args@),
                s@ == if i == 0 {
                    self.program@
                } else {
                    self.program@ + " "@ + join(av.take(i as int), " "@)
                },
        {
            push_str(&mut s, " ");
            push_str(&mut s, self.args[i].as_str());
            proof {
                let t = av.take(i + 1);
                assert(t.drop_last() == av.take(i as int));
                assert(t.last() == self.args@[i as int]@);
                if i == 0 {
                    assert(t.len() == 1);
                    assert(join(t, " "@) == t[0]);
                } else {
                    assert(join(t, " "@) == join(av.take(i as int), " "@) + " "@ + t.last());
                }
            }
        }
        assert(av.take(n as int) == av);
        s
    }
}

/// The full preview of a fix: what runs, what it touches, and how to undo it.
#[derive(Debug, Clone)]
pub struct FixPlan {
    /// Stable fix id, e.g. `fix.apt_clean`.
    pub id: String,
    /// Short title, in both languages.
    pub title: LocalizedText,
    /// What will happen, in plain language, in both languages.
    pub description: LocalizedText,
    /// Exact commands that would run, in order.
    pub commands: Vec<FixCommand>,
    /// Files and directories the fix creates, modifies or removes.
    pub affected_paths: Vec<String>,
    /// Whether SysMedic can undo this fix from its transaction journal.
    pub reversible: bool,
    /// Commands that undo the fix, when `reversible` (empty otherwise).
    pub undo: Vec<FixCommand>,
    /// The setting the fix overwrites, so `undo` can put it back.
    pub restore: Option<String>,
    /// Residual risk of applying the fix.
    pub risk: Severity,
    /// Whether the fix needs root.
    pub needs_root: bool,
}

/// The severity as a user-facing word in `lang`.
pub open spec fn severity_word(s: Severity, lang: Lang) -> Seq<char> {
    match lang {
        Lang::En => match s {
            Severity::Info => "info"@,
            Severity::Low => "low"@,
            Severity::Medium => "medium"@,
            Severity::High => "high"@,
            Severity::Critical => "critical"@,
        },
        Lang::Ar => match s {
            Severity::Info => "معلومة"@,
            Severity::Low => "منخفضة"@,
            Severity::Medium => "متوسطة"@,
            Severity::High => "مرتفعة"@,
            Severity::Critical => "حرجة"@,
        },
    }
}

impl Severity {
    /// The severity as a user-facing word in `lang`.
    pub fn label_in(self, lang: Lang) -> (l: &'static str)
        ensures
            l@ == severity_word(self, lang),
    {
        match lang {
            Lang::En => self.label(),
            Lang::Ar => match self {
                Severity::Info => "معلومة",
                Severity::Low => "منخفضة",
                Severity::Medium => "متوسطة",
                Severity::High => "مرتفعة",
                Severity::Critical => "حرجة",
            },
        }
    }
}

/// The field labels of a fix-plan preview in one language.
pub struct PreviewLabels {
    pub risk: &'static str,
    pub reversible: &'static str,
    pub yes: &'static str,
    pub no: &'static str,
    pub commands: &'static str,
    pub affected_paths: &'static str,
    pub undo: &'static str,
}

/// The preview labels in `lang`, in the order risk, reversible, yes, no,
/// commands, affected paths, undo.
pub open spec fn preview_label_texts(lang: Lang) -> Seq<Seq<char>> {
    match lang {
        Lang::En => seq![
            "Risk"@,
            "Reversible"@,
            "yes"@,
            "no"@,
            "Commands that will run:"@,
            "Affected paths:"@,
            "Undo:"@,
        ],
        Lang::Ar => seq![
            "الخطورة"@,
            "قابل للتراجع"@,
            "نعم"@,
            "لا"@,
            "الأوامر التي ستُنفَّذ:"@,
            "المسارات المتأثرة:"@,
            "أوامر التراجع:"@,
        ],
    }
}

/// The labels of a preview, as a sequence in field order.
pub open spec fn labels_view(l: PreviewLabels) -> Seq<Seq<char>> {
    seq![l.risk@, l.reversible@, l.yes@, l.no@, l.commands@, l.affected_paths@, l.undo@]
}

/// The preview labels for `lang`.
pub fn preview_labels(lang: Lang) -> (l: PreviewLabels)
    ensures
        labels_view(l) == preview_label_texts(lang),
{
    match lang {
        Lang::En => PreviewLabels {
            risk: "Risk",
            reversible: "Reversible",
            yes: "yes",
            no: "no",
            commands: "Commands that will run:",
            affected_paths: "Affected paths:",
            undo: "Undo:",
        },
        Lang::Ar => PreviewLabels {
            risk: "الخطورة",
            reversible: "قابل للتراجع",
            yes: "نعم",
            no: "لا",
            commands: "الأوامر التي ستُنفَّذ:",
            affected_paths: "المسارات المتأثرة:",
            undo: "أوامر التراجع:",
        },
    }
}

/// One `  $ command` line per command.
pub open spec fn command_lines(cs: Seq<FixCommand>) -> Seq<char>
    decreases cs.len(),
{
    if cs.len() == 0 {
        Seq::empty()
    } else {
        command_lines(cs.drop_last()) + "  $ "@ + command_text(cs.last()) + "\n"@
    }
}

/// One `  - path` line per path.
pub open spec fn path_lines(ps: Seq<Seq<char>>) -> Seq<char>
    decreases ps.len(),
{
    if ps.len() == 0 {
        Seq::empty()
    } else {
        path_lines(ps.drop_last()) + "  - "@ + ps.last() + "\n"@
    }
}

/// The opening lines of a preview: title; description and a blank line;
/// the risk; whether the fix can be undone.
pub open spec fn preview_head(plan: FixPlan, lang: Lang) -> Seq<char> {
    let l = preview_label_texts(lang);
    plan.title.text_in(lang) + "\n"@ + plan.description.text_in(lang) + "\n\n"@ + l[0] + ": "@
        + severity_word(plan.risk, lang) + "\n"@ + l[1] + ": "@ + (if plan.reversible {
        l[2]
    } else {
        l[3]
    }) + "\n"@
}

/// The commands block of a preview (empty when there are no commands).
pub open spec fn commands_block(plan: FixPlan, lang: Lang) -> Seq<char> {
    if plan.commands@.len() > 0 {
        "\n"@ + preview_label_texts(lang)[4] + "\n"@ + command_lines(plan.commands@)
    } else {
        Seq::empty()
    }
}

/// The affected-paths block of a preview (empty when there are none).
pub open spec fn paths_block(plan: FixPlan, lang: Lang) -> Seq<char> {
    if plan.affected_paths@.len() > 0 {
        "\n"@ + preview_label_texts(lang)[5] + "\n"@ + path_lines(views(plan.affected_paths@))
    } else {
        Seq::empty()
    }
}

/// The undo block of a preview: only for a reversible plan with undo commands.
pub open spec fn undo_block(plan: FixPlan, lang: Lang) -> Seq<char> {
    if plan.reversible && plan.undo@.len() > 0 {
        "\n"@ + preview_label_texts(lang)[6] + "\n"@ + command_lines(plan.undo@)
    } else {
        Seq::empty()
    }
}

/// The confirmation text of a plan in `lang`: the head, then the commands,
/// affected paths and undo blocks.
pub open spec fn preview_text(plan: FixPlan, lang: Lang) -> Seq<char> {
    preview_head(plan, lang) + commands_block(plan, lang) + paths_block(plan, lang) + undo_block(
        plan,
        lang,
    )
}

fn push_command_lines(out: &mut String, cs: &Vec<FixCommand>)
    ensures
        final(out)@ == old(out)@ + command_lines(cs@),
{
    let ghost start = out@;
    for i in 0..cs.len()
        invariant
            out@ == start + command_lines(cs@.take(i as int)),
    {
        push_str(out, "  $ ");
        let line = cs[i].display();
        push_str(out, line.as_str());
        push_str(out, "\n");
        proof {
            assert(cs@.take(i + 1).drop_last() == cs@.take(i as int));
            assert(cs@.take(i + 1).last() == cs@[i as int]);
        }
    }
    assert(cs@.take(cs@.len() as int) == cs@);
}

fn push_path_lines(out: &mut String, ps: &Vec<String>)
    ensures
        final(out)@ == old(out)@ + path_lines(views(ps@)),
{
    let ghost start = out@;
    let ghost pv = views(ps@);
    for i in 0..ps.len()
        invariant
            pv == views(ps@),
            out@ == start + path_lines(pv.take(i as int)),
    {
        push_str(out, "  - ");
        push_str(out, ps[i].as_str());
        push_str(out, "\n");
        proof {
            assert(pv.take(i + 1).drop_last() == pv.take(i as int));
            assert(pv.take(i + 1).last() == ps@[i as int]@);
        }
    }
    assert(pv.take(pv.len() as int) == pv);
}

impl FixPlan {
    /// The plan's title in `lang`.
    pub fn title_in(&self, lang: Lang) -> (s: &str)
        ensures
            s@ == self.title.text_in(lang),
    {
        self.title.get(lang)
    }

    /// The confirmation text a user must read before approving, in English.
    pub fn preview(&self) -> (s: String)
        ensures
            s@ == preview_text(*self, Lang::En),
    {
        self.preview_in(Lang::En)
    }

    fn push_head(&self, out: &mut String, lang: Lang, l: &PreviewLabels)
        requires
            labels_view(*l) == preview_label_texts(lang),
        ensures
            final(out)@ == old(out)@ + preview_head(*self, lang),
    {
        let ghost lt = preview_label_texts(lang);
        assert(l.risk@ == lt[0] && l.reversible@ == lt[1] && l.yes@ == lt[2] && l.no@ == lt[3]);
        let ghost start = out@;
        push_str(out, self.title.get(lang));
        push_str(out, "\n");
        push_str(out, self.description.get(lang));
        push_str(out, "\n\n");
        push_str(out, l.risk);
        push_str(out, ": ");
        push_str(out, self.risk.label_in(lang));
        push_str(out, "\n");
        push_str(out, l.reversible);
        push_str(out, ": ");
        push_str(
            out,
            if self.reversible {
                l.yes
            } else {
                l.no
            },
        );
        push_str(out, "\n");
        assert(out@ =~= start + preview_head(*self, lang));
    }

    fn push_commands_block(&self, out: &mut String, lang: Lang, l: &PreviewLabels)
        requires
            labels_view(*l) == preview_label_texts(lang),
        ensures
            final(out)@ == old(out)@ + commands_block(*self, lang),
    {
        let ghost lt = preview_label_texts(lang);
        assert(l.commands@ == lt[4]);
        let ghost start = out@;
        if self.commands.len() > 0 {
            push_str(out, "\n");
            push_str(out, l.commands);
            push_str(out, "\n");
            push_command_lines(out, &self.commands);
        }
        assert(out@ =~= start + commands_block(*self, lang));
    }

    fn push_paths_block(&self, out: &mut String, lang: Lang, l: &PreviewLabels)
        requires
            labels_view(*l) == preview_label_texts(lang),
        ensures
            final(out)@ == old(out)@ + paths_block(*self, lang),
    {
        let ghost lt = preview_label_texts(lang);
        assert(l.affected_paths@ == lt[5]);
        let ghost start = out@;
        if self.affected_paths.len() > 0 {
            push_str(out, "\n");
            push_str(out, l.affected_paths);
            push_str(out, "\n");
            push_path_lines(out, &self.affected_paths);
        }
        assert(out@ =~= start + paths_block(*self, lang));
    }

    fn push_undo_block(&self, out: &mut String, lang: Lang, l: &PreviewLabels)
        requires
            labels_view(*l) == preview_label_texts(lang),
        ensures
            final(out)@ == old(out)@ + undo_block(*self, lang),
    {
        let ghost lt = preview_label_texts(lang);
        assert(l.undo@ == lt[6]);
        let ghost start = out@;
        if self.reversible && self.undo.len() > 0 {
            push_str(out, "\n");
            push_str(out, l.undo);
            push_str(out, "\n");
            push_command_lines(out, &self.undo);
        }
        assert(out@ =~= start + undo_block(*self, lang));
    }

    fn push_blocks(&self, out: &mut String, lang: Lang, l: &PreviewLabels)
        requires
            labels_view(*l) == preview_label_texts(lang),
        ensures
            final(out)@ == old(out)@ + commands_block(*self, lang) + paths_block(*self, lang)
                + undo_block(*self, lang),
    {
        let ghost start = out@;
        self.push_commands_block(out, lang, l);
        self.push_paths_block(out, lang, l);
        self.push_undo_block(out, lang, l);
        assert(out@ =~= start + commands_block(*self, lang) + paths_block(*self, lang) + undo_block(
            *self,
            lang,
        ));
    }

    /// The confirmation text a user must read before approving, in `lang`
    /// (see [`preview_text`]).
    pub fn preview_in(&self, lang: Lang) -> (out: String)
        ensures
            out@ == preview_text(*self, lang),
    {
        let l = preview_labels(lang);
        let mut out = String::new();
        self.push_head(&mut out, lang, &l);
        self.push_blocks(&mut out, lang, &l);
        assert(out@ =~= preview_text(*self, lang));
        out
    }
}

} // verus!
