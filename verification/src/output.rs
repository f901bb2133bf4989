//! How sizes and spans of time are written for the operator.

use crate::text::{decimal, decimal_text, digit};
use vstd::prelude::*;

verus! {

/// The bytes of a kibibyte.
pub const KB: u64 = 1024;

/// The bytes of a mebibyte.
pub const MB: u64 = 1024 * 1024;

/// The bytes of a gibibyte.
pub const GB: u64 = 1024 * 1024 * 1024;

/// Two to the power of 53. Every count below it has no more than 53
/// significant binary digits.
pub const EXACT_LIMIT: u64 = 9007199254740992;

/// `n` divided by `unit` and rounded to the nearest whole number, a tie
/// going to the even one.
pub open spec fn rounded_quotient(n: nat, unit: nat) -> nat {
    let q = n / unit;
    let r = n % unit;
    if 2 * r > unit || (2 * r == unit && q % 2 == 1) {
        q + 1
    } else {
        q
    }
}

/// The power of two by which a count has to be divided to come below
/// `EXACT_LIMIT`.
pub open spec fn scale_of(bytes: nat) -> nat
    decreases bytes,
{
    if bytes < EXACT_LIMIT {
        1
    } else {
        2 * scale_of(bytes / 2)
    }
}

/// A count of bytes held to 53 significant binary digits, which is how
/// exactly a size is taken before it is divided: unchanged below
/// `EXACT_LIMIT`, and rounded to the nearest count of that many digits
/// from there on, a tie going to the even neighbour.
pub open spec fn measured(bytes: nat) -> nat {
    rounded_quotient(bytes, scale_of(bytes)) * scale_of(bytes)
}

/// A count of bytes in hundredths of a unit, rounded to the nearest, a
/// tie going to the even one.
pub open spec fn hundredths(bytes: nat, unit: nat) -> nat {
    rounded_quotient(measured(bytes) * 100, unit)
}

/// A number of hundredths written with two decimals.
pub open spec fn two_decimals(h: nat) -> Seq<char> {
    decimal_text(h / 100) + seq!['.', digit((h % 100) / 10), digit(h % 10)]
}

/// A size as it is shown: in bytes below a kibibyte, else with two
/// decimals in the largest of the units KB, MB and GB that it reaches.
/// The units are powers of 1024.
pub open spec fn size_text(bytes: u64) -> Seq<char> {
    if bytes >= GB {
        two_decimals(hundredths(bytes as nat, GB as nat)) + " GB"@
    } else if bytes >= MB {
        two_decimals(hundredths(bytes as nat, MB as nat)) + " MB"@
    } else if bytes >= KB {
        two_decimals(hundredths(bytes as nat, KB as nat)) + " KB"@
    } else {
        decimal_text(bytes as nat) + " B"@
    }
}

fn round_divide(n: u128, unit: u128) -> (r: u128)
    requires
        0 < unit <= u64::MAX,
        n <= u64::MAX as u128 * 200,
    ensures
        r == rounded_quotient(n as nat, unit as nat),
        r <= n / unit + 1,
{
    let q = n / unit;
    let r = n % unit;
    proof {
        vstd::arithmetic::div_mod::lemma_fundamental_div_mod(n as int, unit as int);
        vstd::arithmetic::div_mod::lemma_div_is_ordered_by_denominator(n as int, 1, unit as int);
    }
    if 2 * r > unit || (2 * r == unit && q % 2 == 1) {
        q + 1
    } else {
        q
    }
}

fn scale(bytes: u64) -> (r: u64)
    ensures
        r == scale_of(bytes as nat),
        1 <= r <= 4094,
        bytes / r < EXACT_LIMIT,
{
    let mut p: u64 = 1;
    let mut rest: u64 = bytes;
    while rest >= EXACT_LIMIT
        invariant
            1 <= p <= 4094,
            scale_of(bytes as nat) == p * scale_of(rest as nat),
            rest == bytes / p,
            rest as nat * p as nat <= bytes,
        decreases rest,
    {
        proof {
            assert(p <= 2047) by (nonlinear_arith)
                requires
                    rest >= 9007199254740992,
                    rest as nat * p as nat <= 18446744073709551615,
                    p >= 1,
            ;
            vstd::arithmetic::div_mod::lemma_div_denominator(bytes as int, p as int, 2);
            assert((rest / 2) as nat * (p * 2) as nat <= rest as nat * p as nat) by (nonlinear_arith)
                requires
                    p >= 1,
                    rest >= 0,
            ;
            assert(p * scale_of(rest as nat) == (p * 2) * scale_of((rest / 2) as nat))
                by (nonlinear_arith)
                requires
                    scale_of(rest as nat) == 2 * scale_of((rest / 2) as nat),
            ;
        }
        p = p * 2;
        rest = rest / 2;
    }
    assert(p * scale_of(rest as nat) == p) by (nonlinear_arith)
        requires
            scale_of(rest as nat) == 1,
    ;
    p
}

fn digit_pair(n: u64) -> (r: String)
    requires
        n < 100,
    ensures
        r@ == seq![digit((n / 10) as nat), digit((n % 10) as nat)],
{
    let mut r = decimal(n / 10);
    let low = decimal(n % 10);
    r.append(low.as_str());
    assert(r@ =~= seq![digit((n / 10) as nat), digit((n % 10) as nat)]);
    r
}

fn in_unit(bytes: u64, unit: u64, suffix: &str) -> (r: String)
    requires
        1024 <= unit,
        bytes >= unit,
    ensures
        r@ == two_decimals(hundredths(bytes as nat, unit as nat)) + suffix@,
{
    let p = scale(bytes);
    let whole = round_divide(bytes as u128, p as u128);
    assert(whole <= EXACT_LIMIT);
    assert(whole * p as u128 <= u64::MAX as u128 * 2) by (nonlinear_arith)
        requires
            whole <= 9007199254740992,
            1 <= p <= 4094,
    ;
    let seen: u128 = whole * (p as u128);
    let h = round_divide(seen * 100, unit as u128);
    assert((seen * 100) as int / (unit as int) <= (seen * 100) as int / 1024) by (nonlinear_arith)
        requires
            unit >= 1024,
            seen >= 0,
    ;
    assert(h <= u64::MAX);
    let h: u64 = h as u64;
    let mut r = decimal(h / 100);
    r.append(".");
    let tail = digit_pair(h % 100);
    r.append(tail.as_str());
    r.append(suffix);
    proof {
        reveal_strlit(".");
        assert(r@ =~= two_decimals(h as nat) + suffix@);
    }
    r
}

/// Writes a size for the operator.
pub fn format_size(bytes: u64) -> (r: String)
    ensures
        r@ == size_text(bytes),
{
    if bytes >= GB {
        in_unit(bytes, GB, " GB")
    } else if bytes >= MB {
        in_unit(bytes, MB, " MB")
    } else if bytes >= KB {
        in_unit(bytes, KB, " KB")
    } else {
        let mut r = decimal(bytes);
        r.append(" B");
        r
    }
}

/// A span of time as it is written: whole minutes and the seconds beyond
/// them from one minute on, the seconds alone below that.
pub open spec fn duration_text(seconds: nat) -> Seq<char> {
    if seconds >= 60 {
        decimal_text(seconds / 60) + "m "@ + decimal_text(seconds % 60) + "s"@
    } else {
        decimal_text(seconds) + "s"@
    }
}

/// Writes a span of time for the operator, as in `2m 5s` or `42s`.
pub fn format_duration(seconds: u64) -> (r: String)
    ensures
        r@ == duration_text(seconds as nat),
{
    if seconds >= 60 {
        let mut r = decimal(seconds / 60);
        r.append("m ");
        r.append(decimal(seconds % 60).as_str());
        r.append("s");
        r
    } else {
        let mut r = decimal(seconds);
        r.append("s");
        r
    }
}

} // verus!
