//! The text of the command-line tools: the fix list, the fix and undo
//! messages, and the `network`, `monitor`, `history` and `disk` screens.
//! Each function builds what the command prints; colours are applied only
//! when the output supports them.

use vstd::prelude::*;
use vstd::string::StringExecFns;

use crate::alert::{alert_views, Alert, AlertView};
use crate::apply::undo_title_in;
use crate::diskscan::{sizes_descending, Node};
use crate::fix::FixPlan;
use crate::history::{spark, sparkline, trend_delta, HistoryEntry};
use crate::journal::{last_undoable_index, Journal, JournalEntry};
use crate::lang::Lang;
use crate::paint::{bold, bold_text, cyan, dim_text, dimmed, fg_text, green, red, yellow};
use crate::render::{grade_text, pad_left, pad_right};
use crate::score::grade_label_in;
use crate::snapshot::{ListeningPort, NetworkInfo};
use crate::terminal::{tools, tools_text};
use crate::text::{chars_of, decimal, join, push_char, push_decimal, push_str, strip_controls, views};
use crate::units::{human_size, human_size_text};

verus! {

broadcast use vstd::seq_lib::group_seq_properties;

/// A terminal style.
#[derive(Clone, Copy)]
pub enum Paint {
    Bold,
    Dim,
    Green,
    Yellow,
    Red,
    Cyan,
}

/// `s` in style `p`.
pub open spec fn painted(p: Paint, s: Seq<char>) -> Seq<char> {
    match p {
        Paint::Bold => bold_text(s),
        Paint::Dim => dim_text(s),
        Paint::Green => fg_text("32"@, s),
        Paint::Yellow => fg_text("33"@, s),
        Paint::Red => fg_text("31"@, s),
        Paint::Cyan => fg_text("36"@, s),
    }
}

/// `s` in style `p` when the output takes colours, plain otherwise.
pub open spec fn styled(color: bool, p: Paint, s: Seq<char>) -> Seq<char> {
    if color {
        painted(p, s)
    } else {
        s
    }
}

/// `s` in style `p` when `color` is set (see [`styled`]).
pub fn style(color: bool, p: Paint, s: &str) -> (r: String)
    ensures
        r@ == styled(color, p, s@),
{
    if !color {
        return String::from_str(s);
    }
    match p {
        Paint::Bold => bold(s),
        Paint::Dim => dimmed(s),
        Paint::Green => green(s),
        Paint::Yellow => yellow(s),
        Paint::Red => red(s),
        Paint::Cyan => cyan(s),
    }
}

#[verifier::rlimit(40)]
fn push_styled(out: &mut String, color: bool, p: Paint, s: &str)
    ensures
        final(out)@ == old(out)@ + styled(color, p, s@),
{
    let t = style(color, p, s);
    push_str(out, t.as_str());
}

#[verifier::rlimit(40)]
fn push_spaces(out: &mut String, n: usize)
    ensures
        final(out)@ == old(out)@ + Seq::new(n as nat, |i: int| ' '),
{
    let ghost start = out@;
    for i in 0..n
        invariant
            out@ == start + Seq::new(i as nat, |k: int| ' '),
    {
        push_char(out, ' ');
        assert(Seq::new((i + 1) as nat, |k: int| ' ') =~= Seq::new(i as nat, |k: int| ' ').push(' '));
    }
}

/// Append `s` padded with spaces on the right to `w` characters.
#[verifier::rlimit(40)]
fn push_left_aligned(out: &mut String, s: &str, w: usize)
    ensures
        final(out)@ == old(out)@ + pad_right(s@, w as nat),
{
    let n = chars_of(s).len();
    push_str(out, s);
    if n < w {
        push_spaces(out, w - n);
    }
}

/// Append `s` padded with spaces on the left to `w` characters.
#[verifier::rlimit(40)]
fn push_right_aligned(out: &mut String, s: &str, w: usize)
    ensures
        final(out)@ == old(out)@ + pad_left(s@, w as nat),
{
    let n = chars_of(s).len();
    if n < w {
        push_spaces(out, w - n);
    }
    push_str(out, s);
}

// ----- fix and undo -----

/// One line of the fix list: the id in bold, whether it can be undone, and
/// the title.
pub open spec fn fix_list_line(p: FixPlan, lang: Lang, color: bool) -> Seq<char> {
    let t = tools_text(lang);
    "  "@ + styled(color, Paint::Bold, p.id@) + "  ["@ + if p.reversible {
        styled(color, Paint::Green, t[2])
    } else {
        styled(color, Paint::Yellow, t[3])
    } + "]  "@ + p.title.text_in(lang) + "\n"@
}

pub open spec fn fix_list_lines(ps: Seq<FixPlan>, lang: Lang, color: bool) -> Seq<char>
    decreases ps.len(),
{
    if ps.len() == 0 {
        Seq::empty()
    } else {
        fix_list_lines(ps.drop_last(), lang, color) + fix_list_line(ps.last(), lang, color)
    }
}

/// What `sysmedic fix` prints for the fixes that apply: "no fixes needed"
/// in green, or a heading and a line per fix.
pub open spec fn fix_list_spec(ps: Seq<FixPlan>, lang: Lang, color: bool) -> Seq<char> {
    let t = tools_text(lang);
    if ps.len() == 0 {
        styled(color, Paint::Green, t[0]) + "\n"@
    } else {
        t[1] + "\n\n"@ + fix_list_lines(ps, lang, color)
    }
}

#[verifier::rlimit(40)]
fn push_fix_list_line(out: &mut String, p: &FixPlan, lang: Lang, color: bool)
    ensures
        final(out)@ == old(out)@ + fix_list_line(*p, lang, color),
{
    let t = tools(lang);
    let ghost before = out@;
    push_str(out, "  ");
    push_styled(out, color, Paint::Bold, p.id.as_str());
    push_str(out, "  [");
    if p.reversible {
        push_styled(out, color, Paint::Green, t.reversible);
    } else {
        push_styled(out, color, Paint::Yellow, t.not_reversible);
    }
    push_str(out, "]  ");
    push_str(out, p.title_in(lang));
    push_str(out, "\n");
    assert(out@ =~= before + fix_list_line(*p, lang, color));
}

/// The listing of the fixes that apply right now (see [`fix_list_spec`]).
#[verifier::rlimit(40)]
pub fn fix_list_text(plans: &Vec<FixPlan>, lang: Lang, color: bool) -> (out: String)
    ensures
        out@ == fix_list_spec(plans@, lang, color),
{
    let t = tools(lang);
    let mut out = String::new();
    if plans.len() == 0 {
        push_styled(&mut out, color, Paint::Green, t.no_fixes);
        push_str(&mut out, "\n");
        return out;
    }
    push_str(&mut out, t.applicable_fixes);
    push_str(&mut out, "\n\n");
    let ghost start = out@;
    for i in 0..plans.len()
        invariant
            out@ == start + fix_list_lines(plans@.take(i as int), lang, color),
    {
        proof {
            let s = plans@.take(i + 1);
            assert(s.drop_last() == plans@.take(i as int));
            assert(s.last() == plans@[i as int]);
        }
        push_fix_list_line(&mut out, &plans[i], lang, color);
        assert(out@ =~= start + fix_list_lines(plans@.take(i + 1), lang, color));
    }
    assert(plans@.take(plans@.len() as int) == plans@);
    out
}

/// What `sysmedic fix <id>` prints before applying anything: the preview,
/// then either the dry-run note (dimmed) or the hint to re-run with
/// `--yes` (cyan).
pub open spec fn fix_preview_spec(preview: Seq<char>, dry_run: bool, lang: Lang, color: bool) -> Seq<char> {
    let t = tools_text(lang);
    preview + "\n"@ + if dry_run {
        styled(color, Paint::Dim, t[4])
    } else {
        styled(color, Paint::Cyan, t[5])
    } + "\n"@
}

/// The consent screen of a fix that is not applied yet (see
/// [`fix_preview_spec`]), with the plan's preview in `lang`.
#[verifier::rlimit(40)]
pub fn fix_preview_text(plan: &FixPlan, dry_run: bool, lang: Lang, color: bool) -> (out: String)
    ensures
        out@ == fix_preview_spec(crate::fix::preview_text(*plan, lang), dry_run, lang, color),
{
    let t = tools(lang);
    let mut out = plan.preview_in(lang);
    push_str(&mut out, "\n");
    if dry_run {
        push_styled(&mut out, color, Paint::Dim, t.dry_run_note);
    } else {
        push_styled(&mut out, color, Paint::Cyan, t.rerun_to_apply);
    }
    push_str(&mut out, "\n");
    out
}

/// The lines of command output worth showing: the non-empty ones, dimmed
/// and indented.
pub open spec fn output_lines(ls: Seq<Seq<char>>, color: bool) -> Seq<char>
    decreases ls.len(),
{
    if ls.len() == 0 {
        Seq::empty()
    } else {
        output_lines(ls.drop_last(), color) + if ls.last().len() == 0 {
            Seq::empty()
        } else {
            "  "@ + styled(color, Paint::Dim, ls.last()) + "\n"@
        }
    }
}

/// What a successful fix prints: a green tick, "applied" and the fix id in
/// bold, then the commands' non-empty output lines.
pub open spec fn applied_spec(fix_id: Seq<char>, outputs: Seq<Seq<char>>, lang: Lang, color: bool) -> Seq<char> {
    styled(color, Paint::Green, "✓"@) + " "@ + tools_text(lang)[6] + " "@ + styled(
        color,
        Paint::Bold,
        fix_id,
    ) + ".\n"@ + output_lines(outputs, color)
}

/// The report of an applied fix (see [`applied_spec`]).
#[verifier::rlimit(40)]
pub fn applied_text(fix_id: &str, outputs: &Vec<String>, lang: Lang, color: bool) -> (out: String)
    ensures
        out@ == applied_spec(fix_id@, views(outputs@), lang, color),
{
    let t = tools(lang);
    let mut out = String::new();
    push_styled(&mut out, color, Paint::Green, "✓");
    push_str(&mut out, " ");
    push_str(&mut out, t.applied);
    push_str(&mut out, " ");
    push_styled(&mut out, color, Paint::Bold, fix_id);
    push_str(&mut out, ".\n");
    let ghost start = out@;
    for i in 0..outputs.len()
        invariant
            out@ == start + output_lines(views(outputs@.take(i as int)), color),
    {
        proof {
            let s = views(outputs@.take(i + 1));
            assert(s.drop_last() == views(outputs@.take(i as int)));
            assert(s.last() == outputs@[i as int]@);
        }
        let line = outputs[i].as_str();
        if chars_of(line).len() > 0 {
            push_str(&mut out, "  ");
            push_styled(&mut out, color, Paint::Dim, line);
            push_str(&mut out, "\n");
        }
        assert(out@ =~= start + output_lines(views(outputs@.take(i + 1)), color));
    }
    assert(outputs@.take(outputs@.len() as int) == outputs@);
    out
}

/// The title under which the most recent reversible transaction is shown:
/// the registry's title in `lang`, or the recorded one for a fix the
/// registry no longer knows.
pub open spec fn undo_title_spec(es: Seq<JournalEntry>, i: int, lang: Lang) -> Seq<char> {
    match crate::fixes::find_spec(es[i].fix_id@) {
        Some(f) => match lang {
            Lang::En => crate::fixes::fix_title(f).0,
            Lang::Ar => crate::fixes::fix_title(f).1,
        },
        None => es[i].title@,
    }
}

/// What `sysmedic undo` without `--yes` prints: what would be undone and
/// how to go ahead, or that there is nothing to undo.
pub open spec fn undo_preview_spec(es: Seq<JournalEntry>, lang: Lang, color: bool) -> Seq<char> {
    let t = tools_text(lang);
    match last_undoable_index(es) {
        Some(i) => t[7] + " "@ + styled(color, Paint::Bold, undo_title_spec(es, i, lang)) + " ("@
            + es[i].fix_id@ + ")\n"@ + styled(color, Paint::Cyan, t[8]) + "\n"@,
        None => styled(color, Paint::Green, t[9]) + "\n"@,
    }
}

/// The undo preview for `journal` (see [`undo_preview_spec`]).
#[verifier::rlimit(40)]
pub fn undo_preview_text(journal: &Journal, lang: Lang, color: bool) -> (out: String)
    ensures
        out@ == undo_preview_spec(journal@, lang, color),
{
    let t = tools(lang);
    let mut out = String::new();
    match journal.last_undoable() {
        Some((i, entry)) => {
            let title = match undo_title_in(journal, lang) {
                Some(title) => title,
                None => entry.title.clone(),
            };
            push_str(&mut out, t.would_undo);
            push_str(&mut out, " ");
            push_styled(&mut out, color, Paint::Bold, title.as_str());
            push_str(&mut out, " (");
            push_str(&mut out, entry.fix_id.as_str());
            push_str(&mut out, ")\n");
            push_styled(&mut out, color, Paint::Cyan, t.rerun_to_undo);
            push_str(&mut out, "\n");
        },
        None => {
            push_styled(&mut out, color, Paint::Green, t.nothing_to_undo);
            push_str(&mut out, "\n");
        },
    }
    out
}

/// What a completed undo prints: a green tick, "reverted" and the title in
/// bold.
pub open spec fn reverted_spec(title: Seq<char>, lang: Lang, color: bool) -> Seq<char> {
    styled(color, Paint::Green, "✓"@) + " "@ + tools_text(lang)[11] + " "@ + styled(
        color,
        Paint::Bold,
        title,
    ) + ".\n"@
}

/// The report of a completed undo (see [`reverted_spec`]).
#[verifier::rlimit(40)]
pub fn reverted_text(title: &str, lang: Lang, color: bool) -> (out: String)
    ensures
        out@ == reverted_spec(title@, lang, color),
{
    let t = tools(lang);
    let mut out = String::new();
    push_styled(&mut out, color, Paint::Green, "✓");
    push_str(&mut out, " ");
    push_str(&mut out, t.reverted);
    push_str(&mut out, " ");
    push_styled(&mut out, color, Paint::Bold, title);
    push_str(&mut out, ".\n");
    out
}

// ----- network -----

/// A label padded to sixteen characters, as the network screen aligns them.
pub open spec fn field(label: Seq<char>) -> Seq<char> {
    "  "@ + pad_right(label, 16) + " "@
}

/// The route and DNS lines, or the note that network information is
/// unavailable.
pub open spec fn network_info_spec(net: Option<NetworkInfo>, lang: Lang, color: bool) -> Seq<char> {
    let t = tools_text(lang);
    match net {
        Some(n) => field(t[16]) + if n.has_default_route {
            styled(color, Paint::Green, t[17])
        } else {
            styled(color, Paint::Red, t[18])
        } + "\n"@ + field(t[19]) + if n.dns_servers@.len() == 0 {
            styled(color, Paint::Red, t[20])
        } else {
            join(views(n.dns_servers@), ", "@)
        } + "\n"@,
        None => "  "@ + styled(color, Paint::Dim, t[23]) + "\n"@,
    }
}

/// The latency line: the round trip to 1.1.1.1 in milliseconds, as the
/// application measured and formatted it, or "unavailable".
pub open spec fn latency_spec(latency_ms: Option<Seq<char>>, lang: Lang, color: bool) -> Seq<char> {
    let t = tools_text(lang);
    field(t[21]) + match latency_ms {
        Some(ms) => ms + " ms (1.1.1.1)"@,
        None => styled(color, Paint::Dim, t[22]),
    } + "\n"@
}

/// One listening socket: port and protocol, address, and whether it is
/// reachable from the network (yellow) or only from this machine (green).
pub open spec fn port_line(p: ListeningPort, lang: Lang, color: bool) -> Seq<char> {
    let t = tools_text(lang);
    "  "@ + pad_left(decimal(p.port as nat), 5) + "/"@ + pad_right(p.proto@, 5) + " "@ + pad_right(
        p.address@,
        18,
    ) + " ["@ + if p.exposed {
        styled(color, Paint::Yellow, t[26])
    } else {
        styled(color, Paint::Green, t[27])
    } + "]\n"@
}

pub open spec fn port_lines(ps: Seq<ListeningPort>, lang: Lang, color: bool) -> Seq<char>
    decreases ps.len(),
{
    if ps.len() == 0 {
        Seq::empty()
    } else {
        port_lines(ps.drop_last(), lang, color) + port_line(ps.last(), lang, color)
    }
}

/// The listening-ports section.
pub open spec fn ports_spec(ports: Option<Vec<ListeningPort>>, lang: Lang, color: bool) -> Seq<char> {
    let t = tools_text(lang);
    "\n"@ + styled(color, Paint::Bold, t[24]) + "\n"@ + match ports {
        Some(ps) if ps@.len() > 0 => port_lines(ps@, lang, color),
        _ => "  "@ + styled(color, Paint::Dim, t[25]) + "\n"@,
    }
}

/// What `sysmedic network` prints: the heading, route and DNS, latency,
/// and the listening ports.
pub open spec fn network_spec(
    net: Option<NetworkInfo>,
    ports: Option<Vec<ListeningPort>>,
    latency_ms: Option<Seq<char>>,
    lang: Lang,
    color: bool,
) -> Seq<char> {
    styled(color, Paint::Bold, tools_text(lang)[15]) + "\n"@ + network_info_spec(net, lang, color)
        + latency_spec(latency_ms, lang, color) + ports_spec(ports, lang, color)
}

#[verifier::rlimit(40)]
fn push_field(out: &mut String, label: &str)
    ensures
        final(out)@ == old(out)@ + field(label@),
{
    let ghost start = out@;
    push_str(out, "  ");
    push_left_aligned(out, label, 16);
    push_str(out, " ");
    assert(out@ =~= start + field(label@));
}

fn join_with(v: &Vec<String>, sep: &str) -> (r: String)
    ensures
        r@ == join(views(v@), sep@),
{
    let mut r = String::new();
    for i in 0..v.len()
        invariant
            r@ == join(views(v@.take(i as int)), sep@),
    {
        proof {
            let t = views(v@.take(i + 1));
            assert(t.drop_last() == views(v@.take(i as int)));
            assert(t.last() == v@[i as int]@);
        }
        if i > 0 {
            push_str(&mut r, sep);
        } else {
            assert(views(v@.take(0)).len() == 0);
        }
        push_str(&mut r, v[i].as_str());
        assert(r@ =~= join(views(v@.take(i + 1)), sep@));
    }
    assert(v@.take(v@.len() as int) == v@);
    r
}

#[verifier::rlimit(40)]
fn push_network_info(out: &mut String, net: &Option<NetworkInfo>, lang: Lang, color: bool)
    ensures
        final(out)@ == old(out)@ + network_info_spec(*net, lang, color),
{
    let t = tools(lang);
    let ghost start = out@;
    match net {
        Some(n) => {
            push_field(out, t.default_route);
            if n.has_default_route {
                push_styled(out, color, Paint::Green, t.yes);
            } else {
                push_styled(out, color, Paint::Red, t.no);
            }
            push_str(out, "\n");
            push_field(out, t.dns_servers);
            if n.dns_servers.len() == 0 {
                push_styled(out, color, Paint::Red, t.none);
            } else {
                let joined = join_with(&n.dns_servers, ", ");
                push_str(out, joined.as_str());
            }
            push_str(out, "\n");
        },
        None => {
            push_str(out, "  ");
            push_styled(out, color, Paint::Dim, t.network_unavailable);
            push_str(out, "\n");
        },
    }
    assert(out@ =~= start + network_info_spec(*net, lang, color));
}

#[verifier::rlimit(40)]
fn push_port_line(out: &mut String, p: &ListeningPort, lang: Lang, color: bool)
    ensures
        final(out)@ == old(out)@ + port_line(*p, lang, color),
{
    let t = tools(lang);
    let ghost start = out@;
    let mut port = String::new();
    push_decimal(&mut port, p.port as u64);
    push_str(out, "  ");
    push_right_aligned(out, port.as_str(), 5);
    push_str(out, "/");
    push_left_aligned(out, p.proto, 5);
    push_str(out, " ");
    push_left_aligned(out, p.address.as_str(), 18);
    push_str(out, " [");
    if p.exposed {
        push_styled(out, color, Paint::Yellow, t.scope_network);
    } else {
        push_styled(out, color, Paint::Green, t.scope_localhost);
    }
    push_str(out, "]\n");
    assert(out@ =~= start + port_line(*p, lang, color));
}

#[verifier::rlimit(40)]
fn push_ports(out: &mut String, ports: &Option<Vec<ListeningPort>>, lang: Lang, color: bool)
    ensures
        final(out)@ == old(out)@ + ports_spec(*ports, lang, color),
{
    let t = tools(lang);
    let ghost start = out@;
    push_str(out, "\n");
    push_styled(out, color, Paint::Bold, t.listening_ports);
    push_str(out, "\n");
    let ghost mid = out@;
    match ports {
        Some(ps) if ps.len() > 0 => {
            for i in 0..ps.len()
                invariant
                    out@ == mid + port_lines(ps@.take(i as int), lang, color),
            {
                proof {
                    let s = ps@.take(i + 1);
                    assert(s.drop_last() == ps@.take(i as int));
                    assert(s.last() == ps@[i as int]);
                }
                push_port_line(out, &ps[i], lang, color);
                assert(out@ =~= mid + port_lines(ps@.take(i + 1), lang, color));
            }
            assert(ps@.take(ps@.len() as int) == ps@);
        },
        _ => {
            push_str(out, "  ");
            push_styled(out, color, Paint::Dim, t.no_listening_ports);
            push_str(out, "\n");
        },
    }
    assert(out@ =~= start + ports_spec(*ports, lang, color));
}

/// The network screen (see [`network_spec`]). `latency_ms` is the round
/// trip to 1.1.1.1 as the application measured and formatted it (one
/// decimal), when `ping` answered.
#[verifier::rlimit(40)]
pub fn network_text(
    net: &Option<NetworkInfo>,
    ports: &Option<Vec<ListeningPort>>,
    latency_ms: Option<&str>,
    lang: Lang,
    color: bool,
) -> (out: String)
    ensures
        out@ == network_spec(
            *net,
            *ports,
            match latency_ms {
                Some(ms) => Some(ms@),
                None => None,
            },
            lang,
            color,
        ),
{
    let t = tools(lang);
    let mut out = String::new();
    push_styled(&mut out, color, Paint::Bold, t.network);
    push_str(&mut out, "\n");
    push_network_info(&mut out, net, lang, color);
    let ghost a = out@;
    push_field(&mut out, t.latency);
    match latency_ms {
        Some(ms) => {
            push_str(&mut out, ms);
            push_str(&mut out, " ms (1.1.1.1)");
        },
        None => {
            push_styled(&mut out, color, Paint::Dim, t.latency_unavailable);
        },
    }
    push_str(&mut out, "\n");
    assert(out@ =~= a + latency_spec(
        match latency_ms {
            Some(ms) => Some(ms@),
            None => None,
        },
        lang,
        color,
    ));
    push_ports(&mut out, ports, lang, color);
    out
}

// ----- monitor -----

/// One alert line: a yellow "!", the title in bold, and the body.
pub open spec fn alert_line(a: AlertView, color: bool) -> Seq<char> {
    "  "@ + styled(color, Paint::Yellow, "!"@) + " "@ + styled(color, Paint::Bold, a.2) + ": "@
        + a.3 + "\n"@
}

pub open spec fn alert_lines(s: Seq<AlertView>, color: bool) -> Seq<char>
    decreases s.len(),
{
    if s.len() == 0 {
        Seq::empty()
    } else {
        alert_lines(s.drop_last(), color) + alert_line(s.last(), color)
    }
}

/// What `sysmedic monitor` prints: the score with its grade and how many
/// alerts are active, then each alert.
pub open spec fn monitor_spec(score: u8, alerts: Seq<AlertView>, lang: Lang, color: bool) -> Seq<char> {
    let t = tools_text(lang);
    t[28] + " "@ + decimal(score as nat) + "/100 ("@ + grade_text(score, lang) + "). "@ + decimal(
        alerts.len(),
    ) + " "@ + t[29] + "\n"@ + alert_lines(alerts, color)
}

/// The monitor summary (see [`monitor_spec`]).
#[verifier::rlimit(40)]
pub fn monitor_text(score: u8, alerts: &Vec<Alert>, lang: Lang, color: bool) -> (out: String)
    ensures
        out@ == monitor_spec(score, alert_views(alerts@), lang, color),
{
    let t = tools(lang);
    let mut out = String::new();
    push_str(&mut out, t.health_score);
    push_str(&mut out, " ");
    push_decimal(&mut out, score as u64);
    push_str(&mut out, "/100 (");
    push_str(&mut out, grade_label_in(score, lang));
    push_str(&mut out, "). ");
    push_decimal(&mut out, alerts.len() as u64);
    push_str(&mut out, " ");
    push_str(&mut out, t.alerts);
    push_str(&mut out, "\n");
    let ghost start = out@;
    for i in 0..alerts.len()
        invariant
            out@ == start + alert_lines(alert_views(alerts@.take(i as int)), color),
    {
        proof {
            let s = alert_views(alerts@.take(i + 1));
            assert(s.drop_last() == alert_views(alerts@.take(i as int)));
            assert(s.last() == crate::alert::alert_view(alerts@[i as int]));
        }
        let a = &alerts[i];
        let ghost before = out@;
        push_str(&mut out, "  ");
        push_styled(&mut out, color, Paint::Yellow, "!");
        push_str(&mut out, " ");
        push_styled(&mut out, color, Paint::Bold, a.title.as_str());
        push_str(&mut out, ": ");
        push_str(&mut out, a.body.as_str());
        push_str(&mut out, "\n");
        assert(out@ =~= before + alert_line(crate::alert::alert_view(*a), color));
        assert(out@ =~= start + alert_lines(alert_views(alerts@.take(i + 1)), color));
    }
    assert(alerts@.take(alerts@.len() as int) == alerts@);
    out
}

// ----- history -----

/// A change of score with its sign, as `{:+}` writes it: `+5`, `-3`, `+0`.
pub open spec fn signed_text(d: int) -> Seq<char> {
    if d >= 0 {
        "+"@ + decimal(d as nat)
    } else {
        "-"@ + decimal((-d) as nat)
    }
}

/// One recorded checkup: when, the score, the grade in `lang` padded to
/// ten characters, and the number of findings.
pub open spec fn history_line(e: HistoryEntry, lang: Lang) -> Seq<char> {
    "  "@ + e.at@ + "  "@ + pad_left(decimal(e.score as nat), 3) + "/100  "@ + pad_right(
        grade_text(e.score, lang),
        10,
    ) + " "@ + decimal(e.findings as nat) + " "@ + tools_text(lang)[34] + "\n"@
}

/// The given entries, newest first.
pub open spec fn history_lines(es: Seq<HistoryEntry>, lang: Lang) -> Seq<char>
    decreases es.len(),
{
    if es.len() == 0 {
        Seq::empty()
    } else {
        history_line(es.last(), lang) + history_lines(es.drop_last(), lang)
    }
}

/// The sparkline of the last forty scores.
pub open spec fn recent_spark(es: Seq<HistoryEntry>) -> Seq<char> {
    spark(es.subrange(if es.len() > 40 { es.len() - 40 } else { 0 }, es.len() as int))
}

/// The heading and the sparkline of the last forty scores.
pub open spec fn history_head(es: Seq<HistoryEntry>, lang: Lang, color: bool) -> Seq<char> {
    styled(color, Paint::Bold, tools_text(lang)[32]) + "\n"@ + "  "@ + styled(
        color,
        Paint::Cyan,
        recent_spark(es),
    ) + "\n"@
}

/// The change since the first record, when there are two records or
/// more: green when the score held or rose, red when it fell.
pub open spec fn history_trend(es: Seq<HistoryEntry>, lang: Lang, color: bool) -> Seq<char> {
    if es.len() >= 2 {
        let d = es.last().score - es[0].score;
        "  "@ + tools_text(lang)[33] + " "@ + if d >= 0 {
            styled(color, Paint::Green, signed_text(d))
        } else {
            styled(color, Paint::Red, signed_text(d))
        } + "\n"@
    } else {
        Seq::empty()
    }
}

/// The ten newest entries.
pub open spec fn newest_ten(es: Seq<HistoryEntry>) -> Seq<HistoryEntry> {
    es.subrange(if es.len() > 10 { es.len() - 10 } else { 0 }, es.len() as int)
}

/// What `sysmedic history` prints: "no history yet" when nothing was
/// recorded; otherwise the heading and sparkline, the trend, a blank line,
/// and the ten newest checkups, newest first.
pub open spec fn history_spec(es: Seq<HistoryEntry>, lang: Lang, color: bool) -> Seq<char> {
    if es.len() == 0 {
        tools_text(lang)[31] + "\n"@
    } else {
        history_head(es, lang, color) + history_trend(es, lang, color) + "\n"@ + history_lines(
            newest_ten(es),
            lang,
        )
    }
}

fn signed_exec(d: i32) -> (s: String)
    ensures
        s@ == signed_text(d as int),
{
    let mut s = String::new();
    if d >= 0 {
        push_str(&mut s, "+");
        push_decimal(&mut s, d as u64);
    } else {
        push_str(&mut s, "-");
        let m: i64 = -(d as i64);
        push_decimal(&mut s, m as u64);
    }
    s
}

#[verifier::rlimit(40)]
fn push_history_line(out: &mut String, e: &HistoryEntry, lang: Lang)
    ensures
        final(out)@ == old(out)@ + history_line(*e, lang),
{
    let t = tools(lang);
    let ghost start = out@;
    let mut score = String::new();
    push_decimal(&mut score, e.score as u64);
    push_str(out, "  ");
    push_str(out, e.at.as_str());
    push_str(out, "  ");
    push_right_aligned(out, score.as_str(), 3);
    push_str(out, "/100  ");
    push_left_aligned(out, grade_label_in(e.score, lang), 10);
    push_str(out, " ");
    push_decimal(out, e.findings as u64);
    push_str(out, " ");
    push_str(out, t.findings_count);
    push_str(out, "\n");
    assert(out@ =~= start + history_line(*e, lang));
}

proof fn lemma_history_lines_front(s: Seq<HistoryEntry>, lang: Lang)
    requires
        s.len() > 0,
    ensures
        history_lines(s, lang) == history_lines(s.drop_first(), lang) + history_line(s[0], lang),
    decreases s.len(),
{
    if s.len() > 1 {
        lemma_history_lines_front(s.drop_last(), lang);
        assert(s.drop_first().last() == s.last());
        assert(s.drop_first().drop_last() == s.drop_last().drop_first());
    } else {
        assert(s.drop_first().len() == 0);
        assert(s.drop_last().len() == 0);
    }
}

/// The history screen (see [`history_spec`]).
#[verifier::rlimit(40)]
pub fn history_text(entries: &Vec<HistoryEntry>, lang: Lang, color: bool) -> (out: String)
    ensures
        out@ == history_spec(entries@, lang, color),
{
    let t = tools(lang);
    let mut out = String::new();
    let n = entries.len();
    if n == 0 {
        push_str(&mut out, t.no_history_yet);
        push_str(&mut out, "\n");
        return out;
    }
    push_history_head(&mut out, entries, lang, color);
    push_history_trend(&mut out, entries, lang, color);
    push_str(&mut out, "\n");
    let ghost b = out@;
    let lo: usize = if n > 10 {
        n - 10
    } else {
        0
    };
    let mut j = n;
    while j > lo
        invariant
            lo <= j <= n,
            n == entries@.len(),
            out@ == b + history_lines(entries@.subrange(j as int, n as int), lang),
        decreases j,
    {
        proof {
            let s = entries@.subrange(j - 1, n as int);
            assert(s[0] == entries@[j - 1]);
            assert(s.drop_first() == entries@.subrange(j as int, n as int));
            lemma_history_lines_front(s, lang);
        }
        push_history_line(&mut out, &entries[j - 1], lang);
        j = j - 1;
        assert(out@ =~= b + history_lines(entries@.subrange(j as int, n as int), lang));
    }
    assert(out@ =~= history_spec(entries@, lang, color));
    out
}

#[verifier::rlimit(40)]
fn push_history_head(out: &mut String, entries: &Vec<HistoryEntry>, lang: Lang, color: bool)
    ensures
        final(out)@ == old(out)@ + history_head(entries@, lang, color),
{
    let t = tools(lang);
    let ghost start = out@;
    push_styled(out, color, Paint::Bold, t.history_title);
    push_str(out, "\n");
    push_str(out, "  ");
    let line = sparkline(entries.as_slice(), 40);
    push_styled(out, color, Paint::Cyan, line.as_str());
    push_str(out, "\n");
    assert(out@ =~= start + history_head(entries@, lang, color));
}

#[verifier::rlimit(40)]
fn push_history_trend(out: &mut String, entries: &Vec<HistoryEntry>, lang: Lang, color: bool)
    ensures
        final(out)@ == old(out)@ + history_trend(entries@, lang, color),
{
    let t = tools(lang);
    let ghost start = out@;
    match trend_delta(entries.as_slice()) {
        Some(d) => {
            let text = signed_exec(d);
            push_str(out, "  ");
            push_str(out, t.trend_since_first);
            push_str(out, " ");
            if d >= 0 {
                push_styled(out, color, Paint::Green, text.as_str());
            } else {
                push_styled(out, color, Paint::Red, text.as_str());
            }
            push_str(out, "\n");
        },
        None => {},
    }
    assert(out@ =~= start + history_trend(entries@, lang, color));
}

// ----- disk -----

/// How many of twenty bar cells an entry of `size` fills when the largest
/// entry has `max` bytes: `20 * size / max`, rounded half up.
pub open spec fn cells(size: nat, max: nat) -> nat {
    (40 * size + max) / (2 * max)
}

/// A bar of twenty cells, `filled` of them full.
pub open spec fn bar20(filled: nat) -> Seq<char> {
    Seq::new(filled, |i: int| '█') + Seq::new((20 - filled) as nat, |i: int| '░')
}

/// An entry's name as listed: directories get a trailing `/`; control
/// characters are removed, since names come from whoever wrote the files.
pub open spec fn listed_name(n: Node) -> Seq<char> {
    strip_controls(
        if n.is_dir {
            n.name@ + "/"@
        } else {
            n.name@
        },
        true,
    )
}

/// One entry: its bar relative to the largest, its size, and its name.
pub open spec fn disk_line(n: Node, max: nat) -> Seq<char> {
    "  "@ + bar20(cells(n.size as nat, max)) + "  "@ + pad_left(human_size_text(n.size as nat), 10)
        + "  "@ + listed_name(n) + "\n"@
}

pub open spec fn disk_lines(ns: Seq<Node>, max: nat) -> Seq<char>
    decreases ns.len(),
{
    if ns.len() == 0 {
        Seq::empty()
    } else {
        disk_lines(ns.drop_last(), max) + disk_line(ns.last(), max)
    }
}

/// The `top` largest entries of `tree`.
pub open spec fn top_entries(tree: Node, top: nat) -> Seq<Node> {
    if tree.children@.len() < top {
        tree.children@
    } else {
        tree.children@.take(top as int)
    }
}

/// What `sysmedic disk` prints after scanning `root`: the total in bold,
/// then the largest entries with bars scaled to the largest one, or a note
/// that the directory is empty or unreadable.
pub open spec fn disk_spec(root: Seq<char>, tree: Node, top: nat, lang: Lang, color: bool) -> Seq<char> {
    let kids = top_entries(tree, top);
    "\n  "@ + styled(color, Paint::Bold, human_size_text(tree.size as nat)) + "  "@ + root
        + "\n\n"@ + if kids.len() == 0 {
        "  "@ + tools_text(lang)[14] + "\n"@
    } else {
        disk_lines(kids, if kids[0].size > 0 { kids[0].size as nat } else { 1 })
    }
}

#[verifier::rlimit(40)]
fn push_bar20(out: &mut String, filled: usize)
    requires
        filled <= 20,
    ensures
        final(out)@ == old(out)@ + bar20(filled as nat),
{
    let ghost start = out@;
    for i in 0..filled
        invariant
            out@ == start + Seq::new(i as nat, |k: int| '█'),
    {
        push_char(out, '█');
        assert(Seq::new((i + 1) as nat, |k: int| '█') =~= Seq::new(i as nat, |k: int| '█').push('█'));
    }
    let ghost mid = out@;
    for i in 0..20 - filled
        invariant
            out@ == mid + Seq::new(i as nat, |k: int| '░'),
    {
        push_char(out, '░');
        assert(Seq::new((i + 1) as nat, |k: int| '░') =~= Seq::new(i as nat, |k: int| '░').push('░'));
    }
    assert(out@ =~= start + bar20(filled as nat));
}

#[verifier::rlimit(40)]
fn push_disk_line(out: &mut String, n: &Node, max: u64)
    requires
        0 < max,
        n.size <= max,
    ensures
        final(out)@ == old(out)@ + disk_line(*n, max as nat),
{
    let ghost start = out@;
    let num: u128 = 40 * (n.size as u128) + max as u128;
    let den: u128 = 2 * (max as u128);
    let filled = num / den;
    assert(filled <= 20) by (nonlinear_arith)
        requires
            num == 40 * n.size + max,
            den == 2 * max,
            n.size <= max,
            max > 0,
            filled == num / den,
    ;
    push_str(out, "  ");
    push_bar20(out, filled as usize);
    push_str(out, "  ");
    let size = human_size(n.size);
    push_right_aligned(out, size.as_str(), 10);
    push_str(out, "  ");
    let name = if n.is_dir {
        let mut d = n.name.clone();
        push_str(&mut d, "/");
        d
    } else {
        n.name.clone()
    };
    let clean = crate::terminal::sanitize(name.as_str());
    push_str(out, clean.as_str());
    push_str(out, "\n");
    assert(out@ =~= start + disk_line(*n, max as nat));
}

/// The disk screen for `tree`, scanned from `root`, listing its `top`
/// largest entries (see [`disk_spec`]). The tree's entries come largest
/// first, as the scan leaves them.
#[verifier::rlimit(40)]
pub fn disk_text(root: &str, tree: &Node, top: usize, lang: Lang, color: bool) -> (out: String)
    requires
        sizes_descending(tree.children@),
    ensures
        out@ == disk_spec(root@, *tree, top as nat, lang, color),
{
    let t = tools(lang);
    let mut out = String::new();
    push_str(&mut out, "\n  ");
    let total = human_size(tree.size);
    push_styled(&mut out, color, Paint::Bold, total.as_str());
    push_str(&mut out, "  ");
    push_str(&mut out, root);
    push_str(&mut out, "\n\n");
    let ghost head = out@;
    let n = if tree.children.len() < top {
        tree.children.len()
    } else {
        top
    };
    let ghost kids = top_entries(*tree, top as nat);
    assert(kids == tree.children@.take(n as int));
    if n == 0 {
        push_str(&mut out, "  ");
        push_str(&mut out, t.empty_or_unreadable);
        push_str(&mut out, "\n");
        assert(out@ =~= disk_spec(root@, *tree, top as nat, lang, color));
        return out;
    }
    let max: u64 = if tree.children[0].size > 0 {
        tree.children[0].size
    } else {
        1
    };
    for i in 0..n
        invariant
            n <= tree.children@.len(),
            kids == tree.children@.take(n as int),
            sizes_descending(tree.children@),
            max > 0,
            forall|k: int| 0 <= k < tree.children@.len() ==> tree.children@[k].size <= max,
            out@ == head + disk_lines(tree.children@.take(i as int), max as nat),
    {
        proof {
            let s = tree.children@.take(i + 1);
            assert(s.drop_last() == tree.children@.take(i as int));
            assert(s.last() == tree.children@[i as int]);
        }
        push_disk_line(&mut out, &tree.children[i], max);
        assert(out@ =~= head + disk_lines(tree.children@.take(i + 1), max as nat));
    }
    assert(out@ =~= disk_spec(root@, *tree, top as nat, lang, color));
    out
}

} // verus!
