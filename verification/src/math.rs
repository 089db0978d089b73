//! Wide multiplication and division on 128-bit amounts, and the fixed-point
//! decimal that the reward index is kept in.

use vstd::prelude::*;
use vstd::arithmetic::div_mod::{
    lemma_div_is_ordered, lemma_div_multiples_vanish, lemma_fundamental_div_mod,
    lemma_fundamental_div_mod_converse, lemma_mod_bound,
};

verus! {

/// Number of atomic units in one whole decimal: eighteen fractional digits.
pub const DECIMAL_FRACTIONAL: u128 = 1_000_000_000_000_000_000;

/// `2^64` as a mathematical integer.
pub open spec fn pow2_64() -> int {
    0x1_0000_0000_0000_0000
}

/// `2^128` as a mathematical integer.
pub open spec fn pow2_128() -> int {
    0x1_0000_0000_0000_0000_0000_0000_0000_0000int
}

/// `a * n / d` over the integers, rounded down.
pub open spec fn mul_div_spec(a: nat, n: nat, d: nat) -> nat {
    ((a * n) / d) as nat
}

proof fn lemma_limb_product(x: u128, y: u128)
    requires
        x < pow2_64(),
        y < pow2_64(),
    ensures
        0 <= x * y <= 0xFFFF_FFFF_FFFF_FFFE_0000_0000_0000_0001,
{
    assert(0 <= x * y <= 0xFFFF_FFFF_FFFF_FFFF * 0xFFFF_FFFF_FFFF_FFFF) by (nonlinear_arith)
        requires
            0 <= x <= 0xFFFF_FFFF_FFFF_FFFF,
            0 <= y <= 0xFFFF_FFFF_FFFF_FFFF,
    ;
}

proof fn lemma_limb_expansion(a: int, b: int, a1: int, a0: int, b1: int, b0: int, base: int)
    requires
        a == a1 * base + a0,
        b == b1 * base + b0,
    ensures
        a * b == (a1 * b1) * (base * base) + (a0 * b1 + a1 * b0) * base + a0 * b0,
{
    let h = a1 * base;
    let k = b1 * base;
    assert((h + a0) * b == h * b + a0 * b) by (nonlinear_arith);
    assert(h * (k + b0) == h * k + h * b0) by (nonlinear_arith);
    assert(a0 * (k + b0) == a0 * k + a0 * b0) by (nonlinear_arith);
    assert((a1 * base) * (b1 * base) == (a1 * b1) * (base * base)) by (nonlinear_arith);
    assert((a1 * base) * b0 == (a1 * b0) * base) by (nonlinear_arith);
    assert(a0 * (b1 * base) == (a0 * b1) * base) by (nonlinear_arith);
    assert((a0 * b1 + a1 * b0) * base == (a0 * b1) * base + (a1 * b0) * base)
        by (nonlinear_arith);
}

/// The upper half of the 256-bit product of two 128-bit numbers.
pub fn mul_high(a: u128, b: u128) -> (hi: u128)
    ensures
        hi == (a * b) / pow2_128(),
{
    let base: u128 = 0x1_0000_0000_0000_0000;
    let a0: u128 = a % base;
    let a1: u128 = a / base;
    let b0: u128 = b % base;
    let b1: u128 = b / base;
    proof {
        lemma_limb_product(a0, b0);
        lemma_limb_product(a0, b1);
        lemma_limb_product(a1, b0);
        lemma_limb_product(a1, b1);
    }
    let p00: u128 = a0 * b0;
    let p01: u128 = a0 * b1;
    let p10: u128 = a1 * b0;
    let p11: u128 = a1 * b1;
    let mid: u128 = p00 / base + p01 % base + p10 % base;
    let hi: u128 = p11 + p01 / base + p10 / base + mid / base;
    proof {
        let lo: int = (mid % base) * base + p00 % base;
        lemma_limb_expansion(
            a as int,
            b as int,
            a1 as int,
            a0 as int,
            b1 as int,
            b0 as int,
            base as int,
        );
        assert(a * b == hi * pow2_128() + lo);
        lemma_fundamental_div_mod_converse(a * b, pow2_128(), hi as int, lo);
    }
    hi
}

/// `cosmwasm_std::Uint128::multiply_ratio`, which computes
/// `a * numerator / denominator` on a 256-bit intermediate product and rounds
/// down. It panics on a zero denominator and on a quotient beyond 128 bits;
/// both are ruled out here by the precondition.
#[verifier::external_body]
fn multiply_ratio(a: u128, numerator: u128, denominator: u128) -> (r: u128)
    requires
        denominator != 0,
        (a * numerator) / (denominator as int) <= u128::MAX,
    ensures
        r == (a * numerator) / (denominator as int),
{
    cosmwasm_std::Uint128::new(a).multiply_ratio(numerator, denominator).u128()
}

/// `a * n / d`, rounded down, or `None` when the quotient does not fit in
/// 128 bits. The product itself may be as wide as 256 bits.
pub fn mul_div(a: u128, n: u128, d: u128) -> (r: Option<u128>)
    requires
        d != 0,
    ensures
        match r {
            Some(q) => q == mul_div_spec(a as nat, n as nat, d as nat),
            None => mul_div_spec(a as nat, n as nat, d as nat) > u128::MAX,
        },
{
    let hi: u128 = mul_high(a, n);
    proof {
        lemma_quotient_fits(a * n, d as int, hi as int);
    }
    if hi >= d {
        None
    } else {
        Some(multiply_ratio(a, n, d))
    }
}

proof fn lemma_quotient_fits(x: int, d: int, hi: int)
    requires
        0 <= x,
        0 < d,
        hi == x / pow2_128(),
    ensures
        hi < d <==> x / d < pow2_128(),
{
    let w = pow2_128();
    let q = x / d;
    assert(x == w * hi + x % w && 0 <= x % w < w) by (nonlinear_arith)
        requires
            w > 0,
            hi == x / w,
    ;
    assert(x == d * q + x % d && 0 <= x % d < d) by (nonlinear_arith)
        requires
            d > 0,
            q == x / d,
    ;
    if hi < d {
        assert(q < w) by (nonlinear_arith)
            requires
                x == w * hi + x % w,
                0 <= x % w < w,
                x == d * q + x % d,
                0 <= x % d < d,
                hi < d,
                0 < d,
                0 < w,
                0 <= hi,
        ;
    } else {
        assert(q >= w) by (nonlinear_arith)
            requires
                x == w * hi + x % w,
                0 <= x % w < w,
                x == d * q + x % d,
                0 <= x % d < d,
                hi >= d,
                0 < d,
                0 < w,
        ;
    }
}

/// The atomic units of `numerator / denominator`, rounded down.
pub open spec fn ratio_atomics(numerator: nat, denominator: nat) -> nat {
    mul_div_spec(numerator, DECIMAL_FRACTIONAL as nat, denominator)
}

/// `amount` times the decimal of `atomics` atomic units, rounded down to a
/// whole amount.
pub open spec fn scaled(amount: nat, atomics: nat) -> nat {
    mul_div_spec(amount, atomics, DECIMAL_FRACTIONAL as nat)
}

/// An amount times the decimal 0 is nothing, and nothing times any
/// decimal is nothing.
pub proof fn lemma_scaled_by_zero(amount: nat, atomics: nat)
    ensures
        scaled(amount, 0) == 0,
        scaled(0, atomics) == 0,
{
    assert(amount * 0 == 0) by (nonlinear_arith);
    assert(0 * atomics == 0) by (nonlinear_arith);
}

/// Rounding down two parts loses no less than rounding down their sum.
pub proof fn lemma_div_superadditive(a: nat, b: nat, d: nat)
    requires
        d > 0,
    ensures
        a / d + b / d <= (a + b) / d,
{
    let qa = a as int / d as int;
    let qb = b as int / d as int;
    lemma_fundamental_div_mod(a as int, d as int);
    lemma_fundamental_div_mod(b as int, d as int);
    lemma_mod_bound(a as int, d as int);
    lemma_mod_bound(b as int, d as int);
    assert(d * (qa + qb) == d * qa + d * qb) by (nonlinear_arith);
    lemma_div_is_ordered(d * (qa + qb), (a + b) as int, d as int);
    lemma_div_multiples_vanish(qa + qb, d as int);
}

/// Scaling by the whole part of a factor gives no more than scaling by the
/// factor and rounding down.
pub proof fn lemma_scaled_lower(amount: nat, atomics: nat)
    ensures
        amount * (atomics / DECIMAL_FRACTIONAL as nat) <= scaled(amount, atomics),
{
    let s = DECIMAL_FRACTIONAL as int;
    let q = atomics as int / s;
    lemma_fundamental_div_mod(atomics as int, s);
    lemma_mod_bound(atomics as int, s);
    assert(s * (amount * q) <= amount * atomics) by (nonlinear_arith)
        requires
            atomics >= s * q,
            amount >= 0,
            q >= 0,
            s > 0,
    ;
    lemma_div_is_ordered(s * (amount * q), (amount * atomics) as int, s);
    lemma_div_multiples_vanish(amount * q, s);
}

/// What an index increase hands out in all: when a growth of `growth` is
/// spread over a balance of `total`, scaling the total by the increase
/// gives no more than the growth, and scaling it by the whole part of the
/// increase falls short of the growth by less than `total`.
pub proof fn lemma_ratio_bounds(growth: nat, total: nat)
    requires
        total > 0,
    ensures
        scaled(total, ratio_atomics(growth, total)) <= growth,
        growth < total * (ratio_atomics(growth, total) / DECIMAL_FRACTIONAL as nat) + total,
{
    let s = DECIMAL_FRACTIONAL as int;
    let t = total as int;
    let x = (growth * s) / t;
    let q = x / s;
    lemma_fundamental_div_mod(growth * s, t);
    lemma_mod_bound(growth * s, t);
    lemma_fundamental_div_mod(x, s);
    lemma_mod_bound(x, s);
    assert(t * x <= growth * s);
    lemma_div_is_ordered(t * x, growth * s, s);
    lemma_div_multiples_vanish(growth as int, s);
    assert(growth * s == s * growth) by (nonlinear_arith);
    assert(growth < t * q + t) by (nonlinear_arith)
        requires
            growth * s < t * x + t,
            x + 1 <= s * q + s,
            t > 0,
            s > 0,
            q >= 0,
            growth >= 0,
    ;
}

/// A non-negative fixed-point number with eighteen fractional digits, held as
/// a count of atomic units: `atomics == 10^18` is one.
#[derive(Debug, Clone, Copy, PartialEq, Eq, Structural)]
pub struct Decimal {
    pub atomics: u128,
}

impl View for Decimal {
    type V = nat;

    /// The number of atomic units.
    open spec fn view(&self) -> nat {
        self.atomics as nat
    }
}

impl Decimal {
    /// The decimal 0.
    pub fn zero() -> (d: Decimal)
        ensures
            d@ == 0,
    {
        Decimal { atomics: 0 }
    }

    /// The decimal 1.
    pub fn one() -> (d: Decimal)
        ensures
            d@ == DECIMAL_FRACTIONAL,
    {
        Decimal { atomics: DECIMAL_FRACTIONAL }
    }

    /// The decimal of `atomics` atomic units.
    pub fn from_atomics(atomics: u128) -> (d: Decimal)
        ensures
            d@ == atomics,
    {
        Decimal { atomics }
    }

    /// The number of atomic units.
    pub fn atomics(&self) -> (a: u128)
        ensures
            a == self@,
    {
        self.atomics
    }

    /// `numerator / denominator` rounded down to eighteen digits, or `None`
    /// when that is more than a decimal can hold.
    pub fn from_ratio(numerator: u128, denominator: u128) -> (r: Option<Decimal>)
        requires
            denominator != 0,
        ensures
            match r {
                Some(d) => d@ == ratio_atomics(numerator as nat, denominator as nat),
                None => ratio_atomics(numerator as nat, denominator as nat) > u128::MAX,
            },
    {
        match mul_div(numerator, DECIMAL_FRACTIONAL, denominator) {
            Some(atomics) => Some(Decimal { atomics }),
            None => None,
        }
    }

    /// The sum of two decimals, or `None` when it is more than a decimal can
    /// hold.
    pub fn checked_add(self, other: Decimal) -> (r: Option<Decimal>)
        ensures
            match r {
                Some(d) => d@ == self@ + other@,
                None => self@ + other@ > u128::MAX,
            },
    {
        if other.atomics <= u128::MAX - self.atomics {
            Some(Decimal { atomics: self.atomics + other.atomics })
        } else {
            None
        }
    }

    /// `self - other`, or `None` when `other` is the larger.
    pub fn checked_sub(self, other: Decimal) -> (r: Option<Decimal>)
        ensures
            match r {
                Some(d) => other@ <= self@ && d@ == self@ - other@,
                None => self@ < other@,
            },
    {
        if other.atomics <= self.atomics {
            Some(Decimal { atomics: self.atomics - other.atomics })
        } else {
            None
        }
    }

    /// `amount` times this decimal, rounded down to a whole amount, or `None`
    /// when the product does not fit in 128 bits.
    pub fn mul_uint(self, amount: u128) -> (r: Option<u128>)
        ensures
            match r {
                Some(p) => p == scaled(amount as nat, self@),
                None => scaled(amount as nat, self@) > u128::MAX,
            },
    {
        mul_div(amount, self.atomics, DECIMAL_FRACTIONAL)
    }
}

} // verus!
