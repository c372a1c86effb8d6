//! Terminal colours and styles, through `owo_colors`: each wraps text in an
//! ANSI select-graphic-rendition sequence and the one that resets it.

use owo_colors::OwoColorize;
use vstd::prelude::*;

use crate::terminal::{
    ascii_alpha, csi_end, esc, lemma_csi_end_range, strip_ansi_from, strip_ansi_tail,
    strip_ansi_text,
};

verus! {

/// The escape sequence `ESC [ code m`.
pub open spec fn sgr(code: Seq<char>) -> Seq<char> {
    seq![esc(), '['] + code + seq!['m']
}

/// `s` in bold.
pub open spec fn bold_text(s: Seq<char>) -> Seq<char> {
    sgr("1"@) + s + sgr("0"@)
}

/// `s` dimmed.
pub open spec fn dim_text(s: Seq<char>) -> Seq<char> {
    sgr("2"@) + s + sgr("0"@)
}

/// `s` in italics.
pub open spec fn italic_text(s: Seq<char>) -> Seq<char> {
    sgr("3"@) + s + sgr("0"@)
}

/// `s` in a foreground colour (`code` 31 red, 32 green, 33 yellow, 36 cyan).
pub open spec fn fg_text(code: Seq<char>, s: Seq<char>) -> Seq<char> {
    sgr(code) + s + sgr("39"@)
}

/// `OwoColorize::bold`, displayed: `ESC[1m`, the text, `ESC[0m`.
#[verifier::external_body]
pub(crate) fn bold(s: &str) -> (r: String)
    ensures
        r@ == bold_text(s@),
{
    s.bold().to_string()
}

/// `OwoColorize::dimmed`, displayed: `ESC[2m`, the text, `ESC[0m`.
#[verifier::external_body]
pub(crate) fn dimmed(s: &str) -> (r: String)
    ensures
        r@ == dim_text(s@),
{
    s.dimmed().to_string()
}

/// `OwoColorize::italic`, displayed: `ESC[3m`, the text, `ESC[0m`.
#[verifier::external_body]
pub(crate) fn italic(s: &str) -> (r: String)
    ensures
        r@ == italic_text(s@),
{
    s.italic().to_string()
}

/// `OwoColorize::green`, displayed: `ESC[32m`, the text, `ESC[39m`.
#[verifier::external_body]
pub(crate) fn green(s: &str) -> (r: String)
    ensures
        r@ == fg_text("32"@, s@),
{
    s.green().to_string()
}

/// `OwoColorize::yellow`, displayed: `ESC[33m`, the text, `ESC[39m`.
#[verifier::external_body]
pub(crate) fn yellow(s: &str) -> (r: String)
    ensures
        r@ == fg_text("33"@, s@),
{
    s.yellow().to_string()
}

/// `OwoColorize::red`, displayed: `ESC[31m`, the text, `ESC[39m`.
#[verifier::external_body]
pub(crate) fn red(s: &str) -> (r: String)
    ensures
        r@ == fg_text("31"@, s@),
{
    s.red().to_string()
}

/// `OwoColorize::cyan`, displayed: `ESC[36m`, the text, `ESC[39m`.
#[verifier::external_body]
pub(crate) fn cyan(s: &str) -> (r: String)
    ensures
        r@ == fg_text("36"@, s@),
{
    s.cyan().to_string()
}

/// `s` holds no escape character.
pub open spec fn no_escape(s: Seq<char>) -> bool {
    forall|k: int| 0 <= k < s.len() ==> s[k] != esc()
}

/// `code` holds no letter, so the sequence it is in ends at its `m`.
pub open spec fn sgr_code(code: Seq<char>) -> bool {
    forall|k: int| 0 <= k < code.len() ==> !ascii_alpha(#[trigger] code[k])
}

proof fn lemma_strip_shift(p: Seq<char>, r: Seq<char>, i: int)
    requires
        0 <= i <= r.len(),
    ensures
        strip_ansi_from(p + r, p.len() + i) == strip_ansi_from(r, i),
    decreases r.len() - i, 1int,
{
    let t = p + r;
    if i < r.len() {
        assert(t[p.len() + i] == r[i]);
        if r[i] == esc() {
            if i + 1 < r.len() && r[i + 1] == '[' {
                assert(t[p.len() + i + 1] == r[i + 1]);
                lemma_tail_shift(p, r, i + 2);
            } else {
                if i + 1 < r.len() {
                    assert(t[p.len() + i + 1] == r[i + 1]);
                }
                lemma_strip_shift(p, r, i + 1);
            }
        } else {
            lemma_strip_shift(p, r, i + 1);
        }
    }
}

proof fn lemma_csi_shift(p: Seq<char>, r: Seq<char>, j: int)
    requires
        0 <= j <= r.len(),
    ensures
        csi_end(p + r, p.len() + j) == p.len() + csi_end(r, j),
    decreases r.len() - j,
{
    if j < r.len() {
        assert((p + r)[p.len() + j] == r[j]);
        if !ascii_alpha(r[j]) {
            lemma_csi_shift(p, r, j + 1);
        }
    }
}

proof fn lemma_tail_shift(p: Seq<char>, r: Seq<char>, j: int)
    requires
        0 <= j <= r.len(),
    ensures
        strip_ansi_tail(p + r, p.len() + j) == strip_ansi_tail(r, j),
    decreases r.len() - j, 0int,
{
    if j < r.len() {
        lemma_csi_shift(p, r, j);
        lemma_csi_end_range(r, j);
        lemma_strip_shift(p, r, csi_end(r, j));
    }
}

/// An escape sequence without letters in its code strips away entirely.
proof fn lemma_strip_sgr(code: Seq<char>, r: Seq<char>)
    requires
        sgr_code(code),
    ensures
        strip_ansi_text(sgr(code) + r) == strip_ansi_text(r),
{
    let t = sgr(code) + r;
    let n: int = code.len() as int;
    assert(t[0] == esc() && t[1] == '[');
    assert forall|k: int| 2 <= k < 2 + n implies !ascii_alpha(#[trigger] t[k]) by {
        assert(t[k] == code[k - 2]);
    }
    assert(t[2 + n] == 'm');
    assert forall|k: int| 2 <= k <= 2 + n implies csi_end(t, k) == 3 + n by {
        lemma_csi_run(t, k, 2 + n);
    }
    assert(strip_ansi_text(t) == strip_ansi_tail(t, 2));
    lemma_csi_end_range(t, 2);
    lemma_strip_shift(sgr(code), r, 0);
}

proof fn lemma_csi_run(t: Seq<char>, k: int, end: int)
    requires
        0 <= k <= end < t.len(),
        ascii_alpha(t[end]),
        forall|x: int| k <= x < end ==> !ascii_alpha(#[trigger] t[x]),
    ensures
        csi_end(t, k) == end + 1,
    decreases end - k,
{
    if k < end {
        lemma_csi_run(t, k + 1, end);
    }
}

/// Text without escapes strips to itself, before whatever follows.
proof fn lemma_strip_plain(s: Seq<char>, r: Seq<char>)
    requires
        no_escape(s),
    ensures
        strip_ansi_text(s + r) == s + strip_ansi_text(r),
    decreases s.len(),
{
    if s.len() > 0 {
        let t = s + r;
        assert(t[0] == s[0]);
        lemma_strip_plain(s.drop_first(), r);
        assert(s.drop_first() + r == t.drop_first());
        lemma_strip_shift(seq![s[0]], t.drop_first(), 0);
        assert(seq![s[0]] + t.drop_first() == t);
        assert(s == seq![s[0]] + s.drop_first());
    } else {
        assert(s + r == r);
    }
}

/// Painted text strips back to itself: removing escape sequences from
/// styled output gives the plain text.
pub proof fn lemma_painted_strips_back(s: Seq<char>)
    requires
        no_escape(s),
    ensures
        strip_ansi_text(bold_text(s)) == s,
        strip_ansi_text(dim_text(s)) == s,
        strip_ansi_text(italic_text(s)) == s,
        forall|code: Seq<char>| sgr_code(code) ==> strip_ansi_text(#[trigger] fg_text(code, s)) == s,
{
    reveal_strlit("0");
    reveal_strlit("1");
    reveal_strlit("2");
    reveal_strlit("3");
    reveal_strlit("39");
    let empty = Seq::<char>::empty();
    assert(strip_ansi_text(empty) == empty);
    lemma_strip_sgr("0"@, empty);
    assert(sgr("0"@) + empty == sgr("0"@));
    lemma_strip_sgr("39"@, empty);
    assert(sgr("39"@) + empty == sgr("39"@));
    lemma_strip_plain(s, sgr("0"@));
    lemma_strip_plain(s, sgr("39"@));
    lemma_strip_sgr("1"@, s + sgr("0"@));
    lemma_strip_sgr("2"@, s + sgr("0"@));
    lemma_strip_sgr("3"@, s + sgr("0"@));
    assert(bold_text(s) == sgr("1"@) + (s + sgr("0"@)));
    assert(dim_text(s) == sgr("2"@) + (s + sgr("0"@)));
    assert(italic_text(s) == sgr("3"@) + (s + sgr("0"@)));
    assert(s + empty == s);
    assert forall|code: Seq<char>| sgr_code(code) implies strip_ansi_text(#[trigger] fg_text(code, s)) == s by {
        lemma_strip_sgr(code, s + sgr("39"@));
        assert(fg_text(code, s) == sgr(code) + (s + sgr("39"@)));
    }
}

} // verus!
