//! Exact frame-rate and fraction arithmetic.
//!
//! Frame rates are kept as the rational numbers that ffprobe reports
//! (`24000/1001`), so every derived frame count is an exact integer
//! computation with "round half away from zero" rounding.

use vstd::prelude::*;
use vstd::arithmetic::div_mod::*;

verus! {

/// A frame rate `num / den` frames per second. The pipeline's rates are
/// `f32` values, whose exact values are such fractions (with a power-of-two
/// denominator); the arithmetic here is exact on them.
#[derive(Clone, Copy, Debug, PartialEq, Eq, Structural)]
pub struct FrameRate {
    pub num: u32,
    pub den: u32,
}

impl FrameRate {
    /// A frame rate is usable when its denominator is positive.
    pub open spec fn wf(self) -> bool {
        self.den > 0
    }

    /// A positive frame rate (the only kind the pipeline works with).
    pub open spec fn positive(self) -> bool {
        self.den > 0 && self.num > 0
    }

    pub fn new(num: u32, den: u32) -> (r: FrameRate)
        ensures
            r.num == num,
            r.den == den,
    {
        FrameRate { num, den }
    }
}

/// Products of 64-bit values fit in 128 bits.
pub proof fn lemma_mul_u64_bound(a: int, b: int)
    requires
        0 <= a <= u64::MAX,
        0 <= b <= u64::MAX,
    ensures
        0 <= a * b <= u64::MAX * u64::MAX,
        a * b <= u128::MAX,
{
    assert(0 <= a * b <= u64::MAX * u64::MAX) by (nonlinear_arith)
        requires
            0 <= a <= u64::MAX,
            0 <= b <= u64::MAX,
    ;
}

/// Products of 32-bit values fit in 64 bits.
pub proof fn lemma_mul_u32_bound(a: int, b: int)
    requires
        0 <= a <= u32::MAX,
        0 <= b <= u32::MAX,
    ensures
        0 <= a * b <= u32::MAX * u32::MAX,
        a * b <= u64::MAX,
{
    assert(0 <= a * b <= u32::MAX * u32::MAX) by (nonlinear_arith)
        requires
            0 <= a <= u32::MAX,
            0 <= b <= u32::MAX,
    ;
}

/// A fraction of work done, `num / den` with `num <= den`.
#[derive(Clone, Copy, Debug, PartialEq, Eq, Structural)]
pub struct Progress {
    pub num: u128,
    pub den: u128,
}

impl Progress {
    /// A proper fraction of the whole.
    pub open spec fn wf(self) -> bool {
        self.den > 0 && self.num <= self.den
    }

    /// No work done.
    pub fn zero() -> (p: Progress)
        ensures
            p.wf(),
            p.num == 0,
    {
        Progress { num: 0, den: 1 }
    }

    /// All work done.
    pub fn one() -> (p: Progress)
        ensures
            p.wf(),
            p.num == p.den,
    {
        Progress { num: 1, den: 1 }
    }
}

/// `a / b` rounded to the nearest integer, halves rounded up (for the
/// non-negative values used here this is "half away from zero").
pub open spec fn round_div(a: int, b: int) -> int {
    (2 * a + b) / (2 * b)
}

/// Rounding splits into the floor quotient plus a carry decided by the
/// remainder.
pub proof fn lemma_round_div_split(a: int, b: int)
    requires
        a >= 0,
        b > 0,
    ensures
        round_div(a, b) == a / b + (if 2 * (a % b) >= b { 1int } else { 0int }),
        round_div(a, b) >= 0,
{
    let q = a / b;
    let r = a % b;
    lemma_fundamental_div_mod(a, b);
    lemma_remainder(a, b);
    lemma_div_pos_is_pos(a, b);
    assert(a == b * q + r);
    if 2 * r >= b {
        assert(2 * a + b == (q + 1) * (2 * b) + (2 * r - b)) by (nonlinear_arith)
            requires
                a == b * q + r,
        ;
        lemma_fundamental_div_mod_converse_div(2 * a + b, 2 * b, q + 1, 2 * r - b);
    } else {
        assert(2 * a + b == q * (2 * b) + (2 * r + b)) by (nonlinear_arith)
            requires
                a == b * q + r,
        ;
        lemma_fundamental_div_mod_converse_div(2 * a + b, 2 * b, q, 2 * r + b);
    }
}

/// Rounding is monotone in the numerator.
pub proof fn lemma_round_div_monotone(a1: int, a2: int, b: int)
    requires
        0 <= a1 <= a2,
        b > 0,
    ensures
        round_div(a1, b) <= round_div(a2, b),
{
    lemma_div_is_ordered(2 * a1 + b, 2 * a2 + b, 2 * b);
}

/// Rounding zero gives zero.
pub proof fn lemma_round_div_zero(b: int)
    requires
        b > 0,
    ensures
        round_div(0, b) == 0,
{
    lemma_round_div_split(0, b);
}

/// Computes `round_div(a, b)` without intermediate overflow.
pub fn round_div_u128(a: u128, b: u128) -> (r: u128)
    requires
        b > 0,
    ensures
        r == round_div(a as int, b as int),
{
    proof {
        lemma_round_div_split(a as int, b as int);
    }
    let q = a / b;
    let rem = a % b;
    if rem >= b - rem {
        proof {
            lemma_div_is_ordered_by_denominator(a as int, 2, b as int);
        }
        q + 1
    } else {
        q
    }
}

} // verus!
