//! Exact non-negative fractions of token counts.
//!
//! Rates such as the cache hit rate are quotients of two token counts.  They
//! are kept as the pair of counts, so that comparisons against thresholds are
//! exact.  A fraction whose denominator is zero stands for the value zero,
//! which is what the rates are defined to be when nothing was counted.
use vstd::prelude::*;

verus! {

/// `x * 2^52 < d` exactly when `x <= (d - 1) / 2^52`.
proof fn lemma_below_scaled(x: int, d: int)
    requires
        x >= 0,
        d >= 1,
    ensures
        (x * 0x10_0000_0000_0000 < d) == (x <= (d - 1) / 0x10_0000_0000_0000),
{
    let k: int = 0x10_0000_0000_0000;
    vstd::arithmetic::div_mod::lemma_fundamental_div_mod(d - 1, k);
    let q = (d - 1) / k;
    let r = (d - 1) % k;
    assert(0 <= r < k) by {
        vstd::arithmetic::div_mod::lemma_mod_bound(d - 1, k);
    }
    if x <= q {
        assert(x * k <= q * k) by (nonlinear_arith)
            requires
                x <= q,
                k > 0,
        ;
    } else {
        assert(x * k >= (q + 1) * k) by (nonlinear_arith)
            requires
                x >= q + 1,
                k > 0,
        ;
    }
}

/// The fraction `num / den`; a zero denominator stands for the value zero.
#[derive(Debug, Clone, Copy)]
pub struct Ratio {
    pub num: u64,
    pub den: u64,
}

impl Ratio {
    /// Numerator after mapping a zero denominator to the fraction 0/1.
    pub open spec fn norm_num(self) -> int {
        if self.den == 0 {
            0
        } else {
            self.num as int
        }
    }

    /// Denominator after mapping a zero denominator to the fraction 0/1.
    pub open spec fn norm_den(self) -> int {
        if self.den == 0 {
            1
        } else {
            self.den as int
        }
    }

    /// `self < other` as rational numbers.
    pub open spec fn spec_lt(self, other: Ratio) -> bool {
        self.norm_num() * other.norm_den() < other.norm_num() * self.norm_den()
    }

    /// `self == other` as rational numbers.
    pub open spec fn spec_same(self, other: Ratio) -> bool {
        self.norm_num() * other.norm_den() == other.norm_num() * self.norm_den()
    }

    /// `self` and `other` lie less than `f64::EPSILON` (2^-52) apart:
    /// `|a/b - c/d| < 2^-52`, that is `|a*d - c*b| * 2^52 < b*d`.
    pub open spec fn spec_within_epsilon(self, other: Ratio) -> bool {
        let a = self.norm_num() * other.norm_den();
        let c = other.norm_num() * self.norm_den();
        let diff = if a >= c {
            a - c
        } else {
            c - a
        };
        diff * 0x10_0000_0000_0000 < self.norm_den() * other.norm_den()
    }

    /// The fraction `n / 1`.
    pub open spec fn spec_whole(n: u64) -> Ratio {
        Ratio { num: n, den: 1 }
    }

    /// The fraction `p / 100`.
    pub open spec fn spec_percent(p: u64) -> Ratio {
        Ratio { num: p, den: 100 }
    }

    /// Builds the fraction `num / den`.
    pub fn new(num: u64, den: u64) -> (r: Ratio)
        ensures
            r.num == num,
            r.den == den,
    {
        Ratio { num, den }
    }

    /// The whole number `n` as a fraction.
    pub fn whole(n: u64) -> (r: Ratio)
        ensures
            r == Ratio::spec_whole(n),
    {
        Ratio { num: n, den: 1 }
    }

    /// `p` percent as a fraction.
    pub fn percent(p: u64) -> (r: Ratio)
        ensures
            r == Ratio::spec_percent(p),
    {
        Ratio { num: p, den: 100 }
    }

    fn cross(a: u64, b: u64) -> (r: u128)
        ensures
            r == a * b,
    {
        proof {
            vstd::arithmetic::mul::lemma_mul_upper_bound(
                a as int,
                u64::MAX as int,
                b as int,
                u64::MAX as int,
            );
        }
        assert(u64::MAX * u64::MAX <= u128::MAX) by (nonlinear_arith);
        (a as u128) * (b as u128)
    }

    fn num_norm(&self) -> (r: u64)
        ensures
            r == self.norm_num(),
    {
        if self.den == 0 {
            0
        } else {
            self.num
        }
    }

    fn den_norm(&self) -> (r: u64)
        ensures
            r == self.norm_den(),
    {
        if self.den == 0 {
            1
        } else {
            self.den
        }
    }

    /// Whether `self < other` as rational numbers.
    pub fn less_than(&self, other: &Ratio) -> (r: bool)
        ensures
            r == self.spec_lt(*other),
    {
        let lhs = Self::cross(self.num_norm(), other.den_norm());
        let rhs = Self::cross(other.num_norm(), self.den_norm());
        lhs < rhs
    }

    /// Whether `self` and `other` lie less than `f64::EPSILON` apart.
    pub fn within_epsilon(&self, other: &Ratio) -> (r: bool)
        ensures
            r == self.spec_within_epsilon(*other),
    {
        let a = Self::cross(self.num_norm(), other.den_norm());
        let c = Self::cross(other.num_norm(), self.den_norm());
        let dn1 = self.den_norm();
        let dn2 = other.den_norm();
        let d = Self::cross(dn1, dn2);
        assert(dn1 * dn2 >= 1) by (nonlinear_arith)
            requires
                dn1 >= 1,
                dn2 >= 1,
        ;
        let diff = if a >= c {
            a - c
        } else {
            c - a
        };
        proof {
            lemma_below_scaled(diff as int, d as int);
        }
        diff <= (d - 1) / 0x10_0000_0000_0000
    }

    /// Whether `self` and `other` denote the same rational number.
    pub fn same_value(&self, other: &Ratio) -> (r: bool)
        ensures
            r == self.spec_same(*other),
    {
        let lhs = Self::cross(self.num_norm(), other.den_norm());
        let rhs = Self::cross(other.num_norm(), self.den_norm());
        lhs == rhs
    }
}

} // verus!
