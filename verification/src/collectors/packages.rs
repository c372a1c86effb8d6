//! Package hygiene: the package managers SysMedic understands and the
//! parsers for their tools' output.

use vstd::prelude::*;

use crate::text::{
    char_views, chars_eq, chars_of, contains_chars, contains_seq, count_where, filter_map,
    find_chars, find_seq, lemma_count_step, lemma_filter_map_step,
    lemma_take_all, lemma_tokens_nonempty, lines, lit, matches_at, slice_chars, split_lines, split_once,
    split_once_chars, split_tokens, starts_with_chars, string_from_chars, tokens, trim,
    trim_chars, trim_end, trim_end_chars, views,
};

verus! {

/// The package managers SysMedic knows how to query.
#[derive(Debug, Clone, Copy, PartialEq, Eq, Structural)]
pub enum Manager {
    Apt,
    Dnf,
    Pacman,
}

impl Manager {
    /// The stable, machine-readable name of the manager.
    pub fn id(self) -> (s: &'static str)
        ensures
            s@ == match self {
                Manager::Apt => "apt"@,
                Manager::Dnf => "dnf"@,
                Manager::Pacman => "pacman"@,
            },
    {
        match self {
            Manager::Apt => "apt",
            Manager::Dnf => "dnf",
            Manager::Pacman => "pacman",
        }
    }
}

/// The package named by an indented, non-blank `dpkg --audit` line.
pub open spec fn audit_name(l: Seq<char>) -> Option<Seq<char>> {
    if l.len() > 0 && l[0] == ' ' && tokens(l).len() > 0 {
        Some(tokens(l)[0])
    } else {
        None
    }
}

/// Package names from `dpkg --audit` output: the first token of every
/// indented, non-blank line.
pub open spec fn dpkg_audit(s: Seq<char>) -> Seq<Seq<char>> {
    filter_map(lines(s), |l: Seq<char>| audit_name(l))
}

/// Package names from `dpkg --audit` output.
pub fn parse_dpkg_audit(s: &str) -> (r: Vec<String>)
    ensures
        views(r@) == dpkg_audit(s@),
{
    let cs = chars_of(s);
    let ls = split_lines(&cs);
    let ghost lv = char_views(ls@);
    let mut out: Vec<String> = Vec::new();
    let n = ls.len();
    for i in 0..n
        invariant
            n == ls@.len(),
            lv == char_views(ls@),
            lv == lines(s@),
            views(out@) == filter_map(lv.take(i as int), |l: Seq<char>| audit_name(l)),
    {
        proof {
            lemma_filter_map_step(lv, |l: Seq<char>| audit_name(l), i as int);
        }
        let l = &ls[i];
        assert(l@ == lv[i as int]);
        let toks = split_tokens(l);
        if l.len() > 0 && l[0] == ' ' && toks.len() > 0 {
            let name = string_from_chars(&toks[0]);
            assert(name@ == tokens(l@)[0]);
            let ghost before = out@;
            out.push(name);
            assert(views(out@) == views(before).push(name@));
        }
    }
    proof {
        lemma_take_all(lv);
    }
    out
}


/// The package an `apt-get -s autoremove` line removes: the second token of
/// a `Remv` or `Purg` line.
pub open spec fn autoremove_name(l: Seq<char>) -> Option<Seq<char>> {
    let t = tokens(l);
    if t.len() >= 2 && (t[0] == "Remv"@ || t[0] == "Purg"@) {
        Some(t[1])
    } else {
        None
    }
}

/// Package names from `apt-get -s autoremove --purge`.
pub open spec fn autoremovable(s: Seq<char>) -> Seq<Seq<char>> {
    filter_map(lines(s), |l: Seq<char>| autoremove_name(l))
}

/// Package names from `apt-get -s autoremove --purge`: one per `Remv` or
/// `Purg` line.
pub fn parse_autoremovable(s: &str) -> (r: Vec<String>)
    ensures
        views(r@) == autoremovable(s@),
{
    let cs = chars_of(s);
    let ls = split_lines(&cs);
    let ghost lv = char_views(ls@);
    let remv = lit("Remv");
    let purg = lit("Purg");
    let mut out: Vec<String> = Vec::new();
    let n = ls.len();
    for i in 0..n
        invariant
            n == ls@.len(),
            lv == char_views(ls@),
            lv == lines(s@),
            remv@ == "Remv"@,
            purg@ == "Purg"@,
            views(out@) == filter_map(lv.take(i as int), |l: Seq<char>| autoremove_name(l)),
    {
        proof {
            lemma_filter_map_step(lv, |l: Seq<char>| autoremove_name(l), i as int);
        }
        let l = &ls[i];
        assert(l@ == lv[i as int]);
        let t = split_tokens(l);
        assert(char_views(t@) == tokens(l@));
        if t.len() >= 2 && (chars_eq(&t[0], &remv) || chars_eq(&t[0], &purg)) {
            assert(char_views(t@)[0] == t@[0]@);
            let name = string_from_chars(&t[1]);
            let ghost before = out@;
            out.push(name);
            assert(views(out@) == views(before).push(name@));
        } else {
            proof {
                if t@.len() >= 2 {
                    assert(char_views(t@)[0] == t@[0]@);
                }
            }
        }
    }
    proof {
        lemma_take_all(lv);
    }
    out
}

/// Whether `pkg` names a versioned kernel image (`linux-image-` followed by
/// a digit).
pub open spec fn versioned_kernel(pkg: Seq<char>) -> bool {
    matches_at(pkg, "linux-image-"@, 0) && pkg.len() > 12 && '0' <= pkg[12] && pkg[12] <= '9'
}

/// The package of a `dpkg-query` kernel line when it is an installed,
/// versioned kernel image other than the running one.
pub open spec fn old_kernel(l: Seq<char>, running: Seq<char>) -> Option<Seq<char>> {
    match split_once(l, '\t') {
        Some((pkg, status)) => if contains_seq(status, "install ok installed"@) && versioned_kernel(
            pkg,
        ) && !(running.len() > 0 && contains_seq(pkg, running)) {
            Some(pkg)
        } else {
            None
        },
        None => None,
    }
}

/// Installed kernel images that are not the running kernel, from
/// `dpkg-query -W -f='${Package}\t${Status}\n' 'linux-image-*'`.
pub open spec fn old_kernels(s: Seq<char>, running: Seq<char>) -> Seq<Seq<char>> {
    filter_map(lines(s), |l: Seq<char>| old_kernel(l, running))
}

/// Installed kernel image packages that are neither the running kernel nor
/// meta-packages (`linux-image-generic`).
pub fn parse_old_kernels(dpkg_query: &str, running_release: &str) -> (r: Vec<String>)
    ensures
        views(r@) == old_kernels(dpkg_query@, running_release@),
{
    let cs = chars_of(dpkg_query);
    let running = chars_of(running_release);
    let ls = split_lines(&cs);
    let ghost lv = char_views(ls@);
    let installed = lit("install ok installed");
    let prefix = lit("linux-image-");
    let mut out: Vec<String> = Vec::new();
    let n = ls.len();
    for i in 0..n
        invariant
            n == ls@.len(),
            lv == char_views(ls@),
            lv == lines(dpkg_query@),
            running@ == running_release@,
            installed@ == "install ok installed"@,
            prefix@ == "linux-image-"@,
            views(out@) == filter_map(
                lv.take(i as int),
                |l: Seq<char>| old_kernel(l, running_release@),
            ),
    {
        proof {
            lemma_filter_map_step(lv, |l: Seq<char>| old_kernel(l, running_release@), i as int);
        }
        let l = &ls[i];
        assert(l@ == lv[i as int]);
        if let Some((pkg, status)) = split_once_chars(l, '\t') {
            let versioned = starts_with_chars(&pkg, &prefix) && pkg.len() > 12 && '0' <= pkg[12]
                && pkg[12] <= '9';
            if contains_chars(&status, &installed) && versioned && !(running.len() > 0
                && contains_chars(&pkg, &running)) {
                let name = string_from_chars(&pkg);
                let ghost before = out@;
                out.push(name);
                assert(views(out@) == views(before).push(name@));
            }
        }
    }
    proof {
        lemma_take_all(lv);
    }
    out
}

/// Lines of `apt list --upgradable` that describe an upgradable package.
pub open spec fn is_upgradable_line(l: Seq<char>) -> bool {
    contains_seq(l, "[upgradable from"@)
}

/// Upgradable lines that come from a security pocket.
pub open spec fn is_security_line(l: Seq<char>) -> bool {
    contains_seq(l, "[upgradable from"@) && contains_seq(l, "-security"@)
}

/// Count of upgradable packages and how many come from a security pocket,
/// from `apt list --upgradable`.
pub fn parse_upgradable(s: &str) -> (r: (u32, u32))
    requires
        lines(s@).len() <= u32::MAX,
    ensures
        r.0 == count_where(lines(s@), |l: Seq<char>| is_upgradable_line(l)),
        r.1 == count_where(lines(s@), |l: Seq<char>| is_security_line(l)),
{
    let cs = chars_of(s);
    let ls = split_lines(&cs);
    let ghost lv = char_views(ls@);
    let marker = lit("[upgradable from");
    let sec = lit("-security");
    let mut total: u32 = 0;
    let mut security: u32 = 0;
    let n = ls.len();
    for i in 0..n
        invariant
            n == ls@.len(),
            n <= u32::MAX,
            lv == char_views(ls@),
            lv == lines(s@),
            marker@ == "[upgradable from"@,
            sec@ == "-security"@,
            total == count_where(lv.take(i as int), |l: Seq<char>| is_upgradable_line(l)),
            security == count_where(lv.take(i as int), |l: Seq<char>| is_security_line(l)),
    {
        proof {
            lemma_count_step(lv, |l: Seq<char>| is_upgradable_line(l), i as int);
            lemma_count_step(lv, |l: Seq<char>| is_security_line(l), i as int);
        }
        let l = &ls[i];
        assert(l@ == lv[i as int]);
        if contains_chars(l, &marker) {
            total = total + 1;
            if contains_chars(l, &sec) {
                security = security + 1;
            }
        }
    }
    proof {
        lemma_take_all(lv);
    }
    (total, security)
}

/// Whether an untrimmed line is blank.
pub open spec fn blank(l: Seq<char>) -> bool {
    trim(l).len() == 0
}

/// Whether a `dnf check-update` line (trailing whitespace removed) is an
/// update row: exactly three columns, starting at column zero, the first
/// holding a `.` (`name.arch`).
pub open spec fn is_dnf_update_row(l: Seq<char>) -> bool {
    let t = tokens(l);
    t.len() == 3 && !(l.len() > 0 && l[0] == ' ') && contains_seq(t[0], "."@)
}

/// The state after reading lines of `dnf check-update`: the number of update
/// rows, and whether an "Obsoleting Packages" section has begun.
pub open spec fn dnf_update_state(ls: Seq<Seq<char>>) -> (nat, bool)
    decreases ls.len(),
{
    if ls.len() == 0 {
        (0, false)
    } else {
        let (count, obsoleting) = dnf_update_state(ls.drop_last());
        let l = trim_end(ls.last());
        if blank(l) {
            (count, obsoleting)
        } else if matches_at(l, "Obsoleting Packages"@, 0) {
            (count, true)
        } else if obsoleting {
            (count, obsoleting)
        } else if is_dnf_update_row(l) {
            (count + 1, obsoleting)
        } else {
            (count, obsoleting)
        }
    }
}

/// Count of pending updates from `dnf -q check-update`: update rows before
/// any "Obsoleting Packages" section.
pub fn parse_dnf_check_update(s: &str) -> (r: u32)
    requires
        lines(s@).len() <= u32::MAX,
    ensures
        r == dnf_update_state(lines(s@)).0,
{
    let cs = chars_of(s);
    let ls = split_lines(&cs);
    let ghost lv = char_views(ls@);
    let obs = lit("Obsoleting Packages");
    let dot = lit(".");
    let mut count: u32 = 0;
    let mut obsoleting = false;
    let n = ls.len();
    for i in 0..n
        invariant
            n == ls@.len(),
            n <= u32::MAX,
            lv == char_views(ls@),
            lv == lines(s@),
            obs@ == "Obsoleting Packages"@,
            dot@ == "."@,
            (count as nat, obsoleting) == dnf_update_state(lv.take(i as int)),
            count <= i,
    {
        assert(lv.take(i + 1).drop_last() == lv.take(i as int));
        assert(lv.take(i + 1).last() == lv[i as int]);
        let l = trim_end_chars(&ls[i]);
        let blank_line = trim_chars(&l).len() == 0;
        if blank_line {
        } else if starts_with_chars(&l, &obs) {
            obsoleting = true;
        } else if obsoleting {
        } else {
            let t = split_tokens(&l);
            if t.len() == 3 && !(l.len() > 0 && l[0] == ' ') && contains_chars(&t[0], &dot) {
                assert(char_views(t@)[0] == t@[0]@);
                count = count + 1;
            } else {
                proof {
                    if t@.len() == 3 {
                        assert(char_views(t@)[0] == t@[0]@);
                    }
                }
            }
        }
    }
    proof {
        lemma_take_all(lv);
    }
    count
}

/// The first token of a non-blank line.
pub open spec fn first_token(l: Seq<char>) -> Option<Seq<char>> {
    if tokens(l).len() > 0 {
        Some(tokens(l)[0])
    } else {
        None
    }
}

/// Problem package names from `dnf -q check`: the first token of each
/// non-blank line.
pub fn parse_dnf_check(s: &str) -> (r: Vec<String>)
    ensures
        views(r@) == filter_map(lines(s@), |l: Seq<char>| first_token(l)),
{
    let cs = chars_of(s);
    let ls = split_lines(&cs);
    let ghost lv = char_views(ls@);
    let mut out: Vec<String> = Vec::new();
    let n = ls.len();
    for i in 0..n
        invariant
            n == ls@.len(),
            lv == char_views(ls@),
            lv == lines(s@),
            views(out@) == filter_map(lv.take(i as int), |l: Seq<char>| first_token(l)),
    {
        proof {
            lemma_filter_map_step(lv, |l: Seq<char>| first_token(l), i as int);
        }
        let l = &ls[i];
        assert(l@ == lv[i as int]);
        let t = split_tokens(l);
        if t.len() > 0 {
            assert(char_views(t@)[0] == t@[0]@);
            let name = string_from_chars(&t[0]);
            let ghost before = out@;
            out.push(name);
            assert(views(out@) == views(before).push(name@));
        }
    }
    proof {
        lemma_take_all(lv);
    }
    out
}

/// Whether a `dnf updateinfo --list --security` line is an advisory row: at
/// least three columns, the first an id beginning with an ASCII capital and
/// holding a `-` (like `FEDORA-2026-…`).
pub open spec fn is_advisory_row(l: Seq<char>) -> bool {
    let t = tokens(l);
    t.len() >= 3 && contains_seq(t[0], "-"@) && 'A' <= t[0][0] && t[0][0] <= 'Z'
}

/// Count of security advisories from `dnf -q updateinfo --list --security`.
pub fn parse_dnf_security(s: &str) -> (r: u32)
    requires
        lines(s@).len() <= u32::MAX,
    ensures
        r == count_where(lines(s@), |l: Seq<char>| is_advisory_row(l)),
{
    let cs = chars_of(s);
    let ls = split_lines(&cs);
    let ghost lv = char_views(ls@);
    let dash = lit("-");
    let mut count: u32 = 0;
    let n = ls.len();
    for i in 0..n
        invariant
            n == ls@.len(),
            n <= u32::MAX,
            lv == char_views(ls@),
            lv == lines(s@),
            dash@ == "-"@,
            count == count_where(lv.take(i as int), |l: Seq<char>| is_advisory_row(l)),
    {
        proof {
            lemma_count_step(lv, |l: Seq<char>| is_advisory_row(l), i as int);
        }
        let l = &ls[i];
        assert(l@ == lv[i as int]);
        let t = split_tokens(l);
        proof {
            lemma_tokens_nonempty(l@);
        }
        if t.len() >= 3 {
            assert(char_views(t@)[0] == t@[0]@);
            let first = &t[0];
            if contains_chars(first, &dash) && first.len() > 0 && 'A' <= first[0] && first[0]
                <= 'Z' {
                count = count + 1;
            }
        }
    }
    proof {
        lemma_take_all(lv);
    }
    count
}

/// Whether a `pacman -Qu` line is a pending, non-ignored upgrade.
pub open spec fn is_pacman_upgrade(l: Seq<char>) -> bool {
    !blank(l) && !contains_seq(l, "[ignored]"@)
}

/// Count of pending upgrades from `pacman -Qu` (`[ignored]` entries and blank
/// lines are skipped).
pub fn parse_pacman_upgrades(s: &str) -> (r: u32)
    requires
        lines(s@).len() <= u32::MAX,
    ensures
        r == count_where(lines(s@), |l: Seq<char>| is_pacman_upgrade(l)),
{
    let cs = chars_of(s);
    let ls = split_lines(&cs);
    let ghost lv = char_views(ls@);
    let ignored = lit("[ignored]");
    let mut count: u32 = 0;
    let n = ls.len();
    for i in 0..n
        invariant
            n == ls@.len(),
            n <= u32::MAX,
            lv == char_views(ls@),
            lv == lines(s@),
            ignored@ == "[ignored]"@,
            count == count_where(lv.take(i as int), |l: Seq<char>| is_pacman_upgrade(l)),
    {
        proof {
            lemma_count_step(lv, |l: Seq<char>| is_pacman_upgrade(l), i as int);
        }
        let l = &ls[i];
        assert(l@ == lv[i as int]);
        if trim_chars(l).len() > 0 && !contains_chars(l, &ignored) {
            count = count + 1;
        }
    }
    proof {
        lemma_take_all(lv);
    }
    count
}

/// The text between the first and second occurrence of `sep` in `s` (or to
/// the end), as `s.split(sep).nth(1)` gives it.
pub open spec fn second_piece(s: Seq<char>, sep: Seq<char>) -> Option<Seq<char>> {
    match find_seq(s, sep) {
        Some(k) => {
            let after = s.skip(k + sep.len());
            match find_seq(after, sep) {
                Some(m) => Some(after.take(m)),
                None => Some(after),
            }
        },
        None => None,
    }
}

/// The affected package of a `pacman -Dk` problem line such as
/// `error: dependency 'libfoo' of package bar is missing`.
pub open spec fn pacman_dk_name(l: Seq<char>) -> Option<Seq<char>> {
    let t = trim(l);
    if matches_at(t, "error:"@, 0) {
        match second_piece(t.skip(6), " of package "@) {
            Some(piece) => first_token(piece),
            None => None,
        }
    } else {
        None
    }
}

fn second_piece_exec(s: &Vec<char>, sep: &Vec<char>) -> (r: Option<Vec<char>>)
    ensures
        match second_piece(s@, sep@) {
            Some(p) => r matches Some(v) && v@ == p,
            None => r is None,
        },
{
    match find_chars(s, sep) {
        Some(k) => {
            let n = s.len();
            let m = sep.len();
            assert(k + m <= n);
            let after = slice_chars(s, k + m, n);
            assert(after@ == s@.skip(k + sep@.len()));
            match find_chars(&after, sep) {
                Some(j) => {
                    assert(j <= after@.len());
                    let piece = slice_chars(&after, 0, j);
                    assert(piece@ == after@.take(j as int));
                    Some(piece)
                },
                None => Some(after),
            }
        },
        None => None,
    }
}

/// Affected package names from `pacman -Dk` problem lines.
pub fn parse_pacman_dk(s: &str) -> (r: Vec<String>)
    ensures
        views(r@) == filter_map(lines(s@), |l: Seq<char>| pacman_dk_name(l)),
{
    let cs = chars_of(s);
    let ls = split_lines(&cs);
    let ghost lv = char_views(ls@);
    let error = lit("error:");
    let sep = lit(" of package ");
    let mut out: Vec<String> = Vec::new();
    let n = ls.len();
    for i in 0..n
        invariant
            n == ls@.len(),
            lv == char_views(ls@),
            lv == lines(s@),
            error@ == "error:"@,
            sep@ == " of package "@,
            views(out@) == filter_map(lv.take(i as int), |l: Seq<char>| pacman_dk_name(l)),
    {
        proof {
            lemma_filter_map_step(lv, |l: Seq<char>| pacman_dk_name(l), i as int);
        }
        let l = &ls[i];
        assert(l@ == lv[i as int]);
        let t = trim_chars(l);
        if starts_with_chars(&t, &error) {
            proof {
                reveal_strlit("error:");
            }
            let rest = slice_chars(&t, 6, t.len());
            assert(rest@ == t@.skip(6));
            if let Some(piece) = second_piece_exec(&rest, &sep) {
                let toks = split_tokens(&piece);
                if toks.len() > 0 {
                    assert(char_views(toks@)[0] == toks@[0]@);
                    let name = string_from_chars(&toks[0]);
                    let ghost before = out@;
                    out.push(name);
                    assert(views(out@) == views(before).push(name@));
                }
            }
        }
    }
    proof {
        lemma_take_all(lv);
    }
    out
}

} // verus!
