//! sshd and firewall configuration.

use vstd::prelude::*;

use crate::fixes::opt_view;
use crate::text::{
    char_views, chars_eq, chars_of, contains_chars, contains_seq, eq_ignore_case, eq_ignore_case_exec, lines, lit, split_lines,
    matches_at, matches_at_exec, split_once, split_once_chars, split_tokens, string_from_chars,
    tokens, trim, trim_chars, trim_set, trim_set_chars,
};

verus! {

/// The effective boolean value of `keyword` in the sshd configuration lines
/// `ls`: the first uncommented occurrence wins, reading stops at the first
/// `Match` block, keywords compare ignoring ASCII case, and only an explicit
/// `yes` is true. `None` when the keyword is unset.
pub open spec fn directive_in(ls: Seq<Seq<char>>, keyword: Seq<char>) -> Option<bool>
    decreases ls.len(),
{
    if ls.len() == 0 {
        None
    } else {
        let l = trim(ls[0]);
        if l.len() == 0 || l[0] == '#' {
            directive_in(ls.drop_first(), keyword)
        } else {
            let t = tokens(l);
            let key = if t.len() > 0 {
                t[0]
            } else {
                Seq::empty()
            };
            if eq_ignore_case(key, "match"@) {
                None
            } else if eq_ignore_case(key, keyword) {
                Some(t.len() > 1 && eq_ignore_case(t[1], "yes"@))
            } else {
                directive_in(ls.drop_first(), keyword)
            }
        }
    }
}

/// The effective boolean value of an sshd_config keyword (see [`directive_in`]).
pub fn parse_directive_bool(config: &str, keyword: &str) -> (r: Option<bool>)
    ensures
        r == directive_in(lines(config@), keyword@),
{
    let cs = chars_of(config);
    let kw = chars_of(keyword);
    let ls = split_lines(&cs);
    let ghost lv = char_views(ls@);
    let m = lit("match");
    let yes = lit("yes");
    let n = ls.len();
    assert(lv.skip(0) == lv);
    for i in 0..n
        invariant
            n == ls@.len(),
            lv == char_views(ls@),
            lv == lines(config@),
            kw@ == keyword@,
            m@ == "match"@,
            yes@ == "yes"@,
            directive_in(lv.skip(i as int), keyword@) == directive_in(lv, keyword@),
    {
        assert(lv.skip(i as int)[0] == lv[i as int]);
        assert(lv.skip(i as int).drop_first() == lv.skip(i + 1));
        let l = trim_chars(&ls[i]);
        if !(l.len() == 0 || l[0] == '#') {
            let t = split_tokens(&l);
            let key: Vec<char> = if t.len() > 0 {
                slice_first(&t)
            } else {
                Vec::new()
            };
            assert(t@.len() > 0 ==> char_views(t@)[0] == t@[0]@);
            if eq_ignore_case_exec(&key, &m) {
                return None;
            }
            if eq_ignore_case_exec(&key, &kw) {
                if t.len() > 1 {
                    assert(char_views(t@)[1] == t@[1]@);
                    return Some(eq_ignore_case_exec(&t[1], &yes));
                }
                return Some(false);
            }
        }
    }
    assert(lv.skip(n as int).len() == 0);
    None
}

fn slice_first(t: &Vec<Vec<char>>) -> (r: Vec<char>)
    requires
        t@.len() > 0,
    ensures
        r@ == t@[0]@,
{
    let f = &t[0];
    crate::text::slice_chars(f, 0, f.len())
}

/// Effective `PasswordAuthentication` (see [`parse_directive_bool`]).
pub fn parse_password_auth(config: &str) -> (r: Option<bool>)
    ensures
        r == directive_in(lines(config@), "PasswordAuthentication"@),
{
    parse_directive_bool(config, "PasswordAuthentication")
}

/// Effective `PermitRootLogin` (see [`parse_directive_bool`]).
pub fn parse_permit_root_login(config: &str) -> (r: Option<bool>)
    ensures
        r == directive_in(lines(config@), "PermitRootLogin"@),
{
    parse_directive_bool(config, "PermitRootLogin")
}

/// The state recorded by the first uncommented `ENABLED=` line of ufw.conf
/// lines `ls`: true for `yes` (quotes and ASCII case ignored), false for
/// any other value, `None` when no line sets the key.
pub open spec fn ufw_enabled_in(ls: Seq<Seq<char>>) -> Option<bool>
    decreases ls.len(),
{
    if ls.len() == 0 {
        None
    } else {
        let l = trim(ls[0]);
        if l.len() > 0 && l[0] == '#' {
            ufw_enabled_in(ls.drop_first())
        } else {
            match split_once(l, '=') {
                Some((key, value)) => if eq_ignore_case(trim(key), "ENABLED"@) {
                    Some(eq_ignore_case(trim_set(trim(value), seq!['"', '\'']), "yes"@))
                } else {
                    ufw_enabled_in(ls.drop_first())
                },
                None => ufw_enabled_in(ls.drop_first()),
            }
        }
    }
}

/// `ENABLED=yes|no` out of `/etc/ufw/ufw.conf`, or `None` when the key is
/// absent.
pub fn parse_ufw_conf(config: &str) -> (r: Option<bool>)
    ensures
        r == ufw_enabled_in(lines(config@)),
{
    let cs = chars_of(config);
    let ls = split_lines(&cs);
    let ghost lv = char_views(ls@);
    let enabled = lit("ENABLED");
    let yes = lit("yes");
    let mut quotes: Vec<char> = Vec::new();
    quotes.push('"');
    quotes.push('\'');
    assert(quotes@ == seq!['"', '\'']);
    let n = ls.len();
    assert(lv.skip(0) == lv);
    for i in 0..n
        invariant
            n == ls@.len(),
            lv == char_views(ls@),
            lv == lines(config@),
            enabled@ == "ENABLED"@,
            yes@ == "yes"@,
            quotes@ == seq!['"', '\''],
            ufw_enabled_in(lv.skip(i as int)) == ufw_enabled_in(lv),
    {
        assert(lv.skip(i as int)[0] == lv[i as int]);
        assert(lv.skip(i as int).drop_first() == lv.skip(i + 1));
        let l = trim_chars(&ls[i]);
        if !(l.len() > 0 && l[0] == '#') {
            if let Some((key, value)) = split_once_chars(&l, '=') {
                if eq_ignore_case_exec(&trim_chars(&key), &enabled) {
                    let v = trim_set_chars(&trim_chars(&value), &quotes);
                    return Some(eq_ignore_case_exec(&v, &yes));
                }
            }
        }
    }
    assert(lv.skip(n as int).len() == 0);
    None
}

/// Whether `ufw status` reports the firewall active.
pub fn ufw_status_active(output: &str) -> (b: bool)
    ensures
        b == contains_seq(output@, "Status: active"@),
{
    contains_chars(&chars_of(output), &lit("Status: active"))
}

/// Whether `systemctl is-active firewalld` reports the unit active.
pub fn unit_active(output: &str) -> (b: bool)
    ensures
        b == (trim(output@) == "active"@),
{
    let t = trim_chars(&chars_of(output));
    chars_eq(&t, &lit("active"))
}

/// Whether an sshd configuration line is an `Include` directive (the
/// keyword compared ignoring ASCII case).
pub open spec fn is_include(line: Seq<char>) -> bool {
    tokens(line).len() > 0 && eq_ignore_case(tokens(line)[0], "include"@)
}

/// The pattern an `Include` line names: its first argument.
pub open spec fn include_arg(line: Seq<char>) -> Option<Seq<char>> {
    if tokens(line).len() > 1 {
        Some(tokens(line)[1])
    } else {
        None
    }
}

/// What a line of the sshd configuration includes: `None` for an ordinary
/// line, kept as it is; `Some` for an `Include` directive, which stands for
/// the files its pattern names (`Some(None)` when it names none).
pub fn include_directive(line: &str) -> (r: Option<Option<String>>)
    ensures
        match r {
            None => !is_include(line@),
            Some(p) => is_include(line@) && opt_view(p) == include_arg(line@),
        },
{
    let t = split_tokens(&chars_of(line));
    if t.len() == 0 {
        return None;
    }
    assert(char_views(t@)[0] == t@[0]@);
    if !eq_ignore_case_exec(&t[0], &lit("include")) {
        return None;
    }
    if t.len() > 1 {
        assert(char_views(t@)[1] == t@[1]@);
        Some(Some(string_from_chars(&t[1])))
    } else {
        Some(None)
    }
}

/// Whether file name `name` matches `pattern`, in which the first `*`
/// stands for any run of characters and anything after it must end the
/// name (a later `*` is literal); without a `*`, the name must be the
/// pattern.
pub open spec fn glob_matches(pattern: Seq<char>, name: Seq<char>) -> bool {
    match split_once(pattern, '*') {
        Some((prefix, suffix)) => matches_at(name, prefix, 0) && matches_at(
            name,
            suffix,
            name.len() - suffix.len(),
        ),
        None => name == pattern,
    }
}

/// Whether `name` matches `pattern` (see [`glob_matches`]).
pub fn glob_match(pattern: &str, name: &str) -> (b: bool)
    ensures
        b == glob_matches(pattern@, name@),
{
    let p = chars_of(pattern);
    let n = chars_of(name);
    match split_once_chars(&p, '*') {
        Some((prefix, suffix)) => {
            if suffix.len() > n.len() {
                return false;
            }
            matches_at_exec(&n, &prefix, 0) && matches_at_exec(&n, &suffix, n.len() - suffix.len())
        },
        None => chars_eq(&n, &p),
    }
}

} // verus!
