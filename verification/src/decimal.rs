//! Decimal text of floating-point quotients of counts, computed exactly.
//!
//! A count printed as `format!("{:.2}", n as f64 / d as f64)` goes through
//! two roundings to the nearest `f64` (the conversion of `n`, then the
//! division) and one rounding of the exact binary value to the requested
//! decimals; all three round to nearest with ties to even.  The functions
//! here compute the same digits with integers: a quotient is kept as its
//! 53-bit significand `m` and binary scale `s`, standing for `m / 2^s`.
use vstd::prelude::*;

use crate::text::{digit_char, push_decimal, spec_decimal, string_from_chars};
use vstd::arithmetic::div_mod::{
    lemma_div_is_ordered_by_denominator, lemma_fundamental_div_mod, lemma_mod_pos_bound,
};
use vstd::arithmetic::power2::{lemma2_to64, lemma2_to64_rest, lemma_pow2_unfold, pow2};

verus! {

/// `a / b` rounded to the nearest integer, ties to even.
pub open spec fn round_half_even(a: nat, b: nat) -> nat {
    let q = a / b;
    let r = a % b;
    if r * 2 > b || (r * 2 == b && q % 2 == 1) {
        q + 1
    } else {
        q
    }
}

/// The least `t` (at most 11) with `n < 2^(53 + t)`: how many low bits of a
/// 64-bit integer do not fit in the 53-bit significand of an `f64`.
pub open spec fn int_shift(n: nat, t: nat) -> nat
    decreases 11 - t,
{
    if t >= 11 || n < pow2(53 + t) {
        t
    } else {
        int_shift(n, t + 1)
    }
}

/// The value of `n as f64` for `n < 2^64`: `n` rounded to 53 significant
/// bits, ties to even.
pub open spec fn f64_of_int(n: nat) -> nat {
    let t = int_shift(n, 0);
    round_half_even(n, pow2(t)) * pow2(t)
}

/// The least `s` (at most 117) with `a * 2^s >= 2^52 * d`: the binary
/// scale at which the quotient `a / d` has a 53-bit significand.
pub open spec fn quotient_shift(a: nat, d: nat, s: nat) -> nat
    decreases 117 - s,
{
    if s >= 117 || a * pow2(s) >= pow2(52) * d {
        s
    } else {
        quotient_shift(a, d, s + 1)
    }
}

/// The binary scale of `n as f64 / d as f64`.
pub open spec fn quotient_scale(n: nat, d: nat) -> nat {
    quotient_shift(f64_of_int(n), d, 0)
}

/// The significand of `n as f64 / d as f64` (for a divisor `d` that is an
/// `f64` itself): the quotient is this over `2^quotient_scale(n, d)`.
pub open spec fn quotient_mantissa(n: nat, d: nat) -> nat {
    round_half_even(f64_of_int(n) * pow2(quotient_scale(n, d)), d)
}

/// `10^k`.
pub open spec fn pow10(k: nat) -> nat
    decreases k,
{
    if k == 0 {
        1
    } else {
        10 * pow10((k - 1) as nat)
    }
}

/// The digits printed by `format!("{:.places$}", n as f64 / d as f64)`, as
/// one integer (the printed number times `10^places`).
pub open spec fn scaled_decimal(n: nat, d: nat, places: nat) -> nat {
    round_half_even(quotient_mantissa(n, d) * pow10(places), pow2(quotient_scale(n, d)))
}

/// The digits printed by `format!("{:.1}", n as f64 / d as f64 * 100.0)`,
/// as tenths: the product by 100 is rounded to an `f64` again before the
/// decimal rounding.
pub open spec fn percent_tenths(n: nat, d: nat) -> nat {
    round_half_even(10 * f64_of_int(100 * quotient_mantissa(n, d)), pow2(quotient_scale(n, d)))
}

/// The last `width` decimal digits of `v`, with leading zeros.
pub open spec fn last_digits(v: nat, width: nat) -> Seq<char>
    decreases width,
{
    if width == 0 {
        Seq::empty()
    } else {
        last_digits(v / 10, (width - 1) as nat).push(digit_char(v % 10))
    }
}

/// `v / 10^places` printed with `places` decimals.
pub open spec fn fixed_point(v: nat, places: nat) -> Seq<char> {
    spec_decimal(v / pow10(places)) + seq!['.'] + last_digits(v, places)
}

proof fn lemma_div_parts(a: nat, b: nat)
    requires
        b > 0,
    ensures
        a == b * (a / b) + a % b,
        a % b < b,
        a / b <= a,
{
    lemma_fundamental_div_mod(a as int, b as int);
    lemma_mod_pos_bound(a as int, b as int);
    lemma_div_is_ordered_by_denominator(a as int, 1, b as int);
}

fn round_half_even_exec(a: u128, b: u128) -> (r: u128)
    requires
        b > 0,
        a < 0x4000_0000_0000_0000_0000_0000_0000_0000,
        b < 0x4000_0000_0000_0000_0000_0000_0000_0000,
    ensures
        r == round_half_even(a as nat, b as nat),
        r <= a / b + 1,
{
    proof {
        lemma_div_parts(a as nat, b as nat);
    }
    let q = a / b;
    let rem = a % b;
    if rem * 2 > b || (rem * 2 == b && q % 2 == 1) {
        q + 1
    } else {
        q
    }
}

/// `n as f64`, as an integer.
fn f64_value(n: u64) -> (a: u128)
    ensures
        a == f64_of_int(n as nat),
        a <= n + 2048,
{
    proof {
        lemma2_to64();
        lemma2_to64_rest();
    }
    let mut t: u32 = 0;
    let mut lim: u128 = 0x20_0000_0000_0000;
    let mut pt: u128 = 1;
    while t < 11 && (n as u128) >= lim
        invariant
            t <= 11,
            lim == pow2((53 + t) as nat),
            pt == pow2(t as nat),
            pt <= 2048,
            lim <= 0x1_0000_0000_0000_0000,
            int_shift(n as nat, 0) == int_shift(n as nat, t as nat),
        decreases 11 - t,
    {
        proof {
            lemma2_to64();
            lemma_pow2_unfold((53 + t + 1) as nat);
            lemma_pow2_unfold((t + 1) as nat);
            assert(pow2(11) == 2048);
            if t + 1 < 11 {
                vstd::arithmetic::power2::lemma_pow2_strictly_increases((t + 1) as nat, 11);
            }
            assert(pow2(64) == 0x1_0000_0000_0000_0000);
            if t + 1 < 11 {
                vstd::arithmetic::power2::lemma_pow2_strictly_increases((53 + t + 1) as nat, 64);
            }
        }
        lim = lim * 2;
        pt = pt * 2;
        t = t + 1;
    }
    assert(int_shift(n as nat, t as nat) == t);
    let q = round_half_even_exec(n as u128, pt);
    proof {
        lemma_div_parts(n as nat, pt as nat);
        let qq = (n as nat) / (pt as nat);
        assert(q * pt <= pt * qq + pt) by (nonlinear_arith)
            requires
                q <= qq + 1,
                pt >= 0,
        ;
    }
    q * pt
}

/// `n as f64 / d as f64` as its significand and `2^scale`.
fn f64_quotient(n: u64, d: u64) -> (r: (u128, u128))
    requires
        d >= 1,
        n <= d * 0x10_0000_0000_0000,
    ensures
        r.0 == quotient_mantissa(n as nat, d as nat),
        r.1 == pow2(quotient_scale(n as nat, d as nat)),
        r.0 <= 0x20_0000_0000_0000,
        1 <= r.1 <= 0x20_0000_0000_0000_0000_0000_0000_0000,
{
    proof {
        lemma2_to64();
        lemma2_to64_rest();
        vstd::arithmetic::power2::lemma_pow2_adds(32, 20);
        vstd::arithmetic::power2::lemma_pow2_adds(52, 1);
        vstd::arithmetic::power2::lemma_pow2_adds(64, 53);
    }
    let a = f64_value(n);
    let target: u128 = 0x10_0000_0000_0000 * (d as u128);
    let mut s: u32 = 0;
    let mut a2: u128 = a;
    let mut ps: u128 = 1;
    while s < 117 && a2 < target
        invariant
            s <= 117,
            a2 == a * pow2(s as nat),
            ps == pow2(s as nat),
            target == pow2(52) * d,
            target <= 0x10_0000_0000_0000 * 0xFFFF_FFFF_FFFF_FFFF,
            a2 < 2 * target,
            ps <= 0x20_0000_0000_0000_0000_0000_0000_0000,
            quotient_shift(a as nat, d as nat, 0) == quotient_shift(a as nat, d as nat, s as nat),
        decreases 117 - s,
    {
        proof {
            lemma2_to64();
            lemma2_to64_rest();
            vstd::arithmetic::power2::lemma_pow2_adds(64, 53);
            lemma_pow2_unfold((s + 1) as nat);
            if s + 1 < 117 {
                vstd::arithmetic::power2::lemma_pow2_strictly_increases((s + 1) as nat, 117);
            }
            let p = pow2(s as nat);
            assert(a2 * 2 == a * (2 * p)) by (nonlinear_arith)
                requires
                    a2 == a * p,
            ;
        }
        a2 = a2 * 2;
        ps = ps * 2;
        s = s + 1;
    }
    assert(quotient_shift(a as nat, d as nat, s as nat) == s);
    let m = round_half_even_exec(a2, d as u128);
    proof {
        lemma_div_parts(a2 as nat, d as nat);
        let qq = (a2 as nat) / (d as nat);
        let rr = (a2 as nat) % (d as nat);
        assert(qq < pow2(53)) by (nonlinear_arith)
            requires
                a2 == d * qq + rr,
                rr >= 0,
                a2 < 2 * (pow2(52) * d),
                pow2(53) == 2 * pow2(52),
                d > 0,
        ;
        vstd::arithmetic::power2::lemma_pow2_pos(s as nat);
    }
    (m, ps)
}

/// The digits of `n as f64 / d as f64` rounded to `places` decimals, as one
/// integer.
pub fn scaled_decimal_exec(n: u64, d: u64, places: u32) -> (r: u128)
    requires
        d >= 1,
        n <= d * 0x10_0000_0000_0000,
        places == 1 || places == 2,
    ensures
        r == scaled_decimal(n as nat, d as nat, places as nat),
        r <= 0x1_0000_0000_0000_0000_0000,
{
    let (m, ps) = f64_quotient(n, d);
    let p10: u128 = if places == 1 {
        10
    } else {
        100
    };
    assert(pow10(places as nat) == p10) by {
        reveal_with_fuel(pow10, 3);
    }
    let r = round_half_even_exec(m * p10, ps);
    proof {
        lemma_div_parts((m * p10) as nat, ps as nat);
    }
    r
}

/// The tenths printed by `format!("{:.1}", n as f64 / d as f64 * 100.0)`.
pub fn percent_tenths_exec(n: u64, d: u64) -> (r: u128)
    requires
        d >= 1,
        n <= d,
    ensures
        r == percent_tenths(n as nat, d as nat),
        r <= 0x1_0000_0000_0000_0000_0000,
{
    let (m, ps) = f64_quotient(n, d);
    let hundred = f64_value((m * 100) as u64);
    let r = round_half_even_exec(10 * hundred, ps);
    proof {
        lemma_div_parts((10 * hundred) as nat, ps as nat);
    }
    r
}

/// Appends the last `width` decimal digits of `v`, with leading zeros.
pub fn push_last_digits(v: u128, width: u32, out: &mut Vec<char>)
    ensures
        final(out)@ == old(out)@ + last_digits(v as nat, width as nat),
    decreases width,
{
    if width > 0 {
        push_last_digits(v / 10, width - 1, out);
        out.push(((48 + v % 10) as u8) as char);
        proof {
            assert(old(out)@ + last_digits(v as nat, width as nat) =~= final(out)@);
        }
    }
}

/// `v / 10^places` with `places` decimals, followed by `suffix`.
pub fn fixed_point_with(v: u128, places: u32, suffix: char) -> (r: String)
    requires
        places == 1 || places == 2,
    ensures
        r@ == fixed_point(v as nat, places as nat) + seq![suffix],
{
    let p10: u128 = if places == 1 {
        10
    } else {
        100
    };
    assert(pow10(places as nat) == p10) by {
        reveal_with_fuel(pow10, 3);
    }
    let mut out: Vec<char> = Vec::new();
    push_decimal(v / p10, &mut out);
    out.push('.');
    push_last_digits(v, places, &mut out);
    out.push(suffix);
    assert(out@ =~= fixed_point(v as nat, places as nat) + seq![suffix]);
    string_from_chars(&out)
}


} // verus!
