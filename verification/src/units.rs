//! Byte sizes and percentages as people read them: rounded to a fixed
//! number of decimals, halves to even.

use vstd::prelude::*;

use crate::text::{decimal, push_decimal, push_str};

verus! {

/// `num / den` rounded to the nearest integer, halves to even.
pub open spec fn rounded(num: nat, den: nat) -> nat
    recommends
        den > 0,
{
    let q = num / den;
    let r = num % den;
    if 2 * r > den || (2 * r == den && q % 2 == 1) {
        q + 1
    } else {
        q
    }
}

/// `num / den` rounded as [`rounded`] says.
pub fn round_div(num: u128, den: u128) -> (r: u128)
    requires
        0 < den <= u64::MAX,
        num < u128::MAX / 2,
    ensures
        r == rounded(num as nat, den as nat),
        r <= num / den + 1,
{
    let q = num / den;
    let rem = num % den;
    assert(rem < den);
    assert(2 * rem < 2 * den);
    if 2 * rem > den || (2 * rem == den && q % 2 == 1) {
        assert(q + 1 <= num) by (nonlinear_arith)
            requires
                q == num / den,
                rem == num % den,
                den > 0,
                2 * rem >= den,
        ;
        q + 1
    } else {
        q
    }
}

/// Bytes in one KiB, MiB, GiB and TiB.
pub open spec fn kib() -> nat {
    1024
}

pub open spec fn mib() -> nat {
    1048576
}

pub open spec fn gib() -> nat {
    1073741824
}

pub open spec fn tib() -> nat {
    1099511627776
}

/// `bytes` in tenths of a GiB, rounded.
pub open spec fn gib_tenths(bytes: nat) -> nat {
    rounded(bytes * 10, gib())
}

/// `bytes` in hundredths of a GiB, rounded.
pub open spec fn gib_hundredths(bytes: nat) -> nat {
    rounded(bytes * 100, gib())
}

/// A number of tenths written with one decimal place.
pub open spec fn tenths_text(t: nat) -> Seq<char> {
    decimal(t / 10) + "."@ + decimal(t % 10)
}

/// A number of hundredths written with two decimal places.
pub open spec fn hundredths_text(h: nat) -> Seq<char> {
    decimal(h / 100) + "."@ + decimal((h % 100) / 10) + decimal(h % 10)
}

/// Append a number of tenths with one decimal place.
pub fn push_tenths(out: &mut String, t: u64)
    ensures
        final(out)@ == old(out)@ + tenths_text(t as nat),
{
    push_decimal(out, t / 10);
    push_str(out, ".");
    push_decimal(out, t % 10);
}

/// Append `bytes` in GiB with one decimal place.
pub fn push_gib(out: &mut String, bytes: u64)
    ensures
        final(out)@ == old(out)@ + tenths_text(gib_tenths(bytes as nat)),
{
    let t = round_div(bytes as u128 * 10, 1073741824);
    assert(t <= u64::MAX as u128) by (nonlinear_arith)
        requires
            t <= (bytes * 10) / 1073741824 + 1,
            bytes <= u64::MAX,
    ;
    push_tenths(out, t as u64);
}

/// Append `bytes` in GiB with two decimal places.
pub fn push_gib_hundredths(out: &mut String, bytes: u64)
    ensures
        final(out)@ == old(out)@ + hundredths_text(gib_hundredths(bytes as nat)),
{
    let h = round_div(bytes as u128 * 100, 1073741824);
    assert(h <= u64::MAX as u128) by (nonlinear_arith)
        requires
            h <= (bytes * 100) / 1073741824 + 1,
            bytes <= u64::MAX,
    ;
    let h = h as u64;
    push_decimal(out, h / 100);
    push_str(out, ".");
    push_decimal(out, (h % 100) / 10);
    push_decimal(out, h % 10);
}

/// The unit a size is shown in: the largest of B, KiB, MiB, GiB and TiB
/// that it reaches.
pub open spec fn size_unit(bytes: nat) -> nat {
    if bytes < kib() {
        0
    } else if bytes < mib() {
        1
    } else if bytes < gib() {
        2
    } else if bytes < tib() {
        3
    } else {
        4
    }
}

/// Bytes in unit `u`.
pub open spec fn unit_bytes(u: nat) -> nat {
    if u == 0 {
        1
    } else if u == 1 {
        kib()
    } else if u == 2 {
        mib()
    } else if u == 3 {
        gib()
    } else {
        tib()
    }
}

/// The name of unit `u`.
pub open spec fn unit_name(u: nat) -> Seq<char> {
    if u == 0 {
        "B"@
    } else if u == 1 {
        "KiB"@
    } else if u == 2 {
        "MiB"@
    } else if u == 3 {
        "GiB"@
    } else {
        "TiB"@
    }
}

/// A byte size as people read it: whole bytes below 1 KiB (`512 B`), else
/// one decimal in the largest unit it reaches (`1.5 KiB`, `5.0 GiB`).
pub open spec fn human_size_text(bytes: nat) -> Seq<char> {
    let u = size_unit(bytes);
    if u == 0 {
        decimal(bytes) + " B"@
    } else {
        tenths_text(rounded(bytes * 10, unit_bytes(u))) + " "@ + unit_name(u)
    }
}

/// Human-readable byte size, e.g. `512 B`, `1.5 KiB`, `5.0 GiB`.
pub fn human_size(bytes: u64) -> (s: String)
    ensures
        s@ == human_size_text(bytes as nat),
{
    let mut s = String::new();
    if bytes < 1024 {
        push_decimal(&mut s, bytes);
        push_str(&mut s, " B");
        return s;
    }
    let (den, name): (u128, &str) = if bytes < 1048576 {
        (1024, "KiB")
    } else if bytes < 1073741824 {
        (1048576, "MiB")
    } else if bytes < 1099511627776 {
        (1073741824, "GiB")
    } else {
        (1099511627776, "TiB")
    };
    assert(den as nat == unit_bytes(size_unit(bytes as nat)));
    assert(name@ == unit_name(size_unit(bytes as nat)));
    let t = round_div(bytes as u128 * 10, den);
    assert(t <= u64::MAX as u128) by (nonlinear_arith)
        requires
            t <= (bytes * 10) / (den as int) + 1,
            den >= 1024,
            bytes <= u64::MAX,
    ;
    push_tenths(&mut s, t as u64);
    push_str(&mut s, " ");
    push_str(&mut s, name);
    s
}

} // verus!
