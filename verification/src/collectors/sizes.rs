//! Sizes as system tools print them: `895B`, `16.0K`, `512.0M`, `3.9G`.
//! The value is computed exactly, in whole bytes rounded down.

use vstd::prelude::*;

use crate::text::{all_digits, chars_eq, chars_of, digits_value, lit, slice_chars, trim, trim_chars};

verus! {

broadcast use vstd::seq_lib::group_seq_properties;

/// `10` to the power `n`.
pub open spec fn pow10(n: nat) -> nat
    decreases n,
{
    if n == 0 {
        1
    } else {
        10 * pow10((n - 1) as nat)
    }
}

/// Bytes per unit: none or `B` is one byte, then `K`, `M`, `G`, `T` (also
/// written `KB`, `KiB` and so on) are powers of 1024.
pub open spec fn unit_bytes_of(u: Seq<char>) -> Option<nat> {
    if u == ""@ || u == "B"@ {
        Some(1)
    } else if u == "K"@ || u == "KB"@ || u == "KiB"@ {
        Some(1024)
    } else if u == "M"@ || u == "MB"@ || u == "MiB"@ {
        Some(1048576)
    } else if u == "G"@ || u == "GB"@ || u == "GiB"@ {
        Some(1073741824)
    } else if u == "T"@ || u == "TB"@ || u == "TiB"@ {
        Some(1099511627776)
    } else {
        None
    }
}

/// Whether `c` can be part of the number: an ASCII digit or a dot.
pub open spec fn is_number_char(c: char) -> bool {
    ('0' <= c && c <= '9') || c == '.'
}

/// Where the number at the start of `s` ends: the first character that is
/// neither a digit nor a dot, at or after `i`.
pub open spec fn number_end(s: Seq<char>, i: int) -> int
    decreases s.len() - i,
{
    if 0 <= i < s.len() && is_number_char(s[i]) {
        number_end(s, i + 1)
    } else {
        i
    }
}

/// Where the first dot of `s` is, if it has one.
pub open spec fn first_dot(s: Seq<char>, i: int) -> Option<int>
    decreases s.len() - i,
{
    if i < 0 || i >= s.len() {
        None
    } else if s[i] == '.' {
        Some(i)
    } else {
        first_dot(s, i + 1)
    }
}

/// The digits before the decimal point and those after it.
pub open spec fn number_parts(num: Seq<char>) -> (Seq<char>, Seq<char>) {
    match first_dot(num, 0) {
        Some(k) => (num.take(k), num.skip(k + 1)),
        None => (num, Seq::empty()),
    }
}

/// A decimal number: digits, at most one dot, and at least one digit.
pub open spec fn valid_number(num: Seq<char>) -> bool {
    let (a, b) = number_parts(num);
    all_digits(a) && all_digits(b) && a.len() + b.len() > 0
}

/// `mult` times the decimal number `num`, rounded down.
pub open spec fn scaled_value(num: Seq<char>, mult: nat) -> nat {
    let (a, b) = number_parts(num);
    digits_value(a) * mult + (mult * digits_value(b)) / pow10(b.len())
}

/// What `parse_size` reads from `s`: once trimmed, a decimal number
/// followed by a unit (itself trimmed); their product in whole bytes,
/// rounded down, and `u64::MAX` when it does not fit.
pub open spec fn parse_size_spec(s: Seq<char>) -> Option<u64> {
    let t = trim(s);
    let i = number_end(t, 0);
    let num = t.take(i);
    match unit_bytes_of(trim(t.skip(i))) {
        Some(m) => if valid_number(num) {
            let v = scaled_value(num, m);
            Some(if v > u64::MAX { u64::MAX } else { v as u64 })
        } else {
            None
        },
        None => None,
    }
}

proof fn lemma_number_end(s: Seq<char>, i: int)
    requires
        0 <= i <= s.len(),
    ensures
        i <= number_end(s, i) <= s.len(),
    decreases s.len() - i,
{
    if i < s.len() && is_number_char(s[i]) {
        lemma_number_end(s, i + 1);
    }
}

proof fn lemma_first_dot(s: Seq<char>, i: int)
    requires
        0 <= i <= s.len(),
    ensures
        match first_dot(s, i) {
            Some(k) => i <= k < s.len() && s[k] == '.' && forall|j: int| i <= j < k ==> s[j] != '.',
            None => forall|j: int| i <= j < s.len() ==> s[j] != '.',
        },
    decreases s.len() - i,
{
    if i < s.len() && s[i] != '.' {
        lemma_first_dot(s, i + 1);
    }
}

proof fn lemma_digits_value_prepend(c: char, s: Seq<char>)
    ensures
        digits_value(seq![c] + s) == ((c as nat) - ('0' as nat)) as nat * pow10(s.len()) + digits_value(s),
    decreases s.len(),
{
    let d = ((c as nat) - ('0' as nat)) as nat;
    if s.len() == 0 {
        assert(seq![c] + s == seq![c]);
        assert(seq![c].drop_last() == Seq::<char>::empty());
        assert(digits_value(Seq::<char>::empty()) == 0);
        assert(digits_value(seq![c]) == d);
        assert(pow10(0) == 1);
        assert(d * 1 == d);
    } else {
        lemma_digits_value_prepend(c, s.drop_last());
        assert((seq![c] + s).drop_last() == seq![c] + s.drop_last());
        assert((seq![c] + s).last() == s.last());
        let p = pow10(s.drop_last().len());
        let v = digits_value(s.drop_last());
        let l = ((s.last() as nat) - ('0' as nat)) as nat;
        assert(digits_value(s) == v * 10 + l);
        assert(digits_value(seq![c] + s) == digits_value(seq![c] + s.drop_last()) * 10 + l);
        assert(digits_value(seq![c] + s.drop_last()) == d * p + v);
        assert(pow10(s.len()) == 10 * p);
        assert((d * p + v) * 10 + l == d * (10 * p) + (v * 10 + l)) by (nonlinear_arith);
    }
}

/// One step of reading fractional digits from the right: with `z` the
/// scaled value of the digits after `c`, `(d * m + z) / 10` is that of `c`
/// and those digits.
proof fn lemma_fraction_step(c: char, s: Seq<char>, m: nat)
    requires
        '0' <= c <= '9',
    ensures
        (m * digits_value(seq![c] + s)) / pow10((seq![c] + s).len()) == (((c as nat) - ('0' as nat))
            * m + (m * digits_value(s)) / pow10(s.len())) / 10,
{
    let d = ((c as nat) - ('0' as nat)) as nat;
    let p = pow10(s.len());
    let v = digits_value(s);
    lemma_digits_value_prepend(c, s);
    lemma_pow10_positive(s.len());
    assert((seq![c] + s).len() == s.len() + 1);
    assert(pow10(s.len() + 1) == 10 * p);
    let x = m * (d * p + v);
    assert(x == m * v + (d * m) * p) by (nonlinear_arith)
        requires
            x == m * (d * p + v),
    ;
    vstd::arithmetic::div_mod::lemma_div_denominator(x as int, p as int, 10);
    vstd::arithmetic::div_mod::lemma_hoist_over_denominator((m * v) as int, (d * m) as int, p);
    assert(p * 10 == 10 * p);
}

proof fn lemma_pow10_positive(n: nat)
    ensures
        pow10(n) >= 1,
    decreases n,
{
    if n > 0 {
        lemma_pow10_positive((n - 1) as nat);
    }
}

fn unit_bytes(u: &Vec<char>) -> (r: Option<u64>)
    ensures
        match r {
            Some(m) => unit_bytes_of(u@) == Some(m as nat) && 1 <= m <= 1099511627776,
            None => unit_bytes_of(u@) is None,
        },
{
    proof {
        reveal_strlit("");
    }
    if u.len() == 0 {
        assert(u@ =~= ""@);
        return Some(1);
    }
    assert(u@ != ""@);
    if chars_eq(u, &lit("B")) {
        Some(1)
    } else if chars_eq(u, &lit("K")) || chars_eq(u, &lit("KB")) || chars_eq(u, &lit("KiB")) {
        Some(1024)
    } else if chars_eq(u, &lit("M")) || chars_eq(u, &lit("MB")) || chars_eq(u, &lit("MiB")) {
        Some(1048576)
    } else if chars_eq(u, &lit("G")) || chars_eq(u, &lit("GB")) || chars_eq(u, &lit("GiB")) {
        Some(1073741824)
    } else if chars_eq(u, &lit("T")) || chars_eq(u, &lit("TB")) || chars_eq(u, &lit("TiB")) {
        Some(1099511627776)
    } else {
        None
    }
}

fn is_digit(c: char) -> (b: bool)
    ensures
        b == ('0' <= c && c <= '9'),
{
    '0' <= c && c <= '9'
}

/// The value of the digits `a`, or 2^64 when it is larger.
fn digits_capped(a: &Vec<char>) -> (r: u128)
    requires
        all_digits(a@),
    ensures
        r == if digits_value(a@) > u64::MAX { u64::MAX as nat + 1 } else { digits_value(a@) },
{
    let cap: u128 = u64::MAX as u128 + 1;
    let mut acc: u128 = 0;
    for i in 0..a.len()
        invariant
            all_digits(a@),
            cap == u64::MAX as nat + 1,
            acc == if digits_value(a@.take(i as int)) > u64::MAX {
                cap as nat
            } else {
                digits_value(a@.take(i as int))
            },
    {
        let ghost t = a@.take(i + 1);
        assert(t.drop_last() == a@.take(i as int));
        assert(t.last() == a@[i as int]);
        let d = (a[i] as u32 - '0' as u32) as u128;
        assert(digits_value(t) == digits_value(a@.take(i as int)) * 10 + d);
        if acc < cap {
            let next = acc * 10 + d;
            acc = if next > u64::MAX as u128 {
                cap
            } else {
                next
            };
        } else {
            assert(digits_value(t) > u64::MAX) by (nonlinear_arith)
                requires
                    digits_value(t) == digits_value(a@.take(i as int)) * 10 + d,
                    digits_value(a@.take(i as int)) > u64::MAX,
            ;
        }
    }
    assert(a@.take(a@.len() as int) == a@);
    acc
}

/// `m` times the fraction `0.b`, rounded down, read from the right.
fn fraction_scaled(b: &Vec<char>, m: u64) -> (z: u64)
    requires
        all_digits(b@),
        m > 0,
    ensures
        z == ((m as nat) * digits_value(b@)) / pow10(b@.len()),
        z < m,
{
    let k = b.len();
    let mut z: u64 = 0;
    let mut j = k;
    assert(b@.skip(k as int) == Seq::<char>::empty());
    while j > 0
        invariant
            j <= k == b@.len(),
            all_digits(b@),
            m > 0,
            z < m,
            z == ((m as nat) * digits_value(b@.skip(j as int))) / pow10((k - j) as nat),
        decreases j,
    {
        let c = b[j - 1];
        let ghost s = b@.skip(j as int);
        assert(b@.skip(j - 1) == seq![c] + s);
        assert(s.len() == k - j);
        proof {
            lemma_fraction_step(c, s, m as nat);
        }
        let d = (c as u32 - '0' as u32) as u64;
        assert(d <= 9);
        assert(d * m + z < 10 * m) by (nonlinear_arith)
            requires
                d <= 9,
                z < m,
        ;
        assert(d * m + z <= u64::MAX * 10);
        let next: u128 = (d as u128 * m as u128 + z as u128) / 10;
        assert(next < m) by (nonlinear_arith)
            requires
                next == (d * m + z) / 10,
                d * m + z < 10 * m,
        ;
        z = next as u64;
        j = j - 1;
    }
    z
}

/// The number of bytes a size like `3.9G` stands for (see
/// [`parse_size_spec`]): `None` when the number or the unit is not one
/// this reads.
pub fn parse_size(s: &str) -> (r: Option<u64>)
    ensures
        r == parse_size_spec(s@),
{
    let t = trim_chars(&chars_of(s));
    let mut i: usize = 0;
    while i < t.len() && (is_digit(t[i]) || t[i] == '.')
        invariant
            i <= t@.len(),
            number_end(t@, i as int) == number_end(t@, 0),
        decreases t@.len() - i,
    {
        i = i + 1;
    }
    proof {
        lemma_number_end(t@, 0);
    }
    let num = slice_chars(&t, 0, i);
    let rest = slice_chars(&t, i, t.len());
    assert(num@ == t@.take(i as int));
    assert(rest@ == t@.skip(i as int));
    let unit = trim_chars(&rest);
    let m = match unit_bytes(&unit) {
        Some(m) => m,
        None => return None,
    };
    let mut k: usize = 0;
    while k < num.len() && num[k] != '.'
        invariant
            k <= num@.len(),
            first_dot(num@, k as int) == first_dot(num@, 0),
        decreases num@.len() - k,
    {
        k = k + 1;
    }
    let (a, b) = if k < num.len() {
        (slice_chars(&num, 0, k), slice_chars(&num, k + 1, num.len()))
    } else {
        (slice_chars(&num, 0, num.len()), Vec::new())
    };
    assert((a@, b@) == number_parts(num@));
    let mut ok = a.len() + b.len() > 0;
    for j in 0..a.len()
        invariant
            ok ==> forall|x: int| 0 <= x < j ==> '0' <= #[trigger] a@[x] && a@[x] <= '9',
            !ok ==> !valid_number(num@),
            (a@, b@) == number_parts(num@),
            ok ==> a@.len() + b@.len() > 0,
    {
        if !is_digit(a[j]) {
            ok = false;
        }
    }
    for j in 0..b.len()
        invariant
            ok ==> all_digits(a@),
            ok ==> forall|x: int| 0 <= x < j ==> '0' <= #[trigger] b@[x] && b@[x] <= '9',
            !ok ==> !valid_number(num@),
            (a@, b@) == number_parts(num@),
            ok ==> a@.len() + b@.len() > 0,
    {
        if !is_digit(b[j]) {
            ok = false;
        }
    }
    if !ok {
        return None;
    }
    assert(valid_number(num@));
    let whole = digits_capped(&a);
    let frac = fraction_scaled(&b, m);
    assert(whole * m <= (u64::MAX as nat + 1) * 1099511627776) by (nonlinear_arith)
        requires
            whole <= u64::MAX as nat + 1,
            m <= 1099511627776,
    ;
    let total: u128 = whole * m as u128 + frac as u128;
    proof {
        let v = scaled_value(num@, m as nat);
        let f: nat = ((m as nat) * digits_value(b@)) / pow10(b@.len());
        let w = digits_value(a@);
        assert(v == w * m + f);
        if w > u64::MAX {
            assert(v >= w) by (nonlinear_arith)
                requires
                    v == w * m + f,
                    m >= 1,
            ;
            assert(total > u64::MAX) by (nonlinear_arith)
                requires
                    total == whole * m + frac,
                    whole == u64::MAX + 1,
                    m >= 1,
            ;
        } else {
            assert(total == v);
        }
    }
    if total > u64::MAX as u128 {
        Some(u64::MAX)
    } else {
        Some(total as u64)
    }
}

} // verus!
