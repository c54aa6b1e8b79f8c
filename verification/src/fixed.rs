//! Q16 fixed-point arithmetic for the audio core.
//!
//! A signal value `v` stands for the real number `v / 65536`. Gains and
//! vibrato factors use the same scale, so one whole unit is `ONE_Q16`.
//! Angles are fractions of a full turn in Q32: a value `a` stands for
//! `a / 2^32` turns.

use vstd::prelude::*;

verus! {

/// One whole unit in Q16 fixed point.
pub const ONE_Q16: i64 = 65536;

/// Half a turn, in Q32 turn fractions.
pub const HALF_TURN_Q32: u64 = 0x8000_0000;

/// A full turn, in Q32 turn fractions.
pub const TURN_Q32: u64 = 0x1_0000_0000;

/// Normalizer for the parabolic sine: peak of `x * (HALF_TURN_Q32 - x)`
/// is `2^60`, and `2^60 / 2^44 == ONE_Q16`.
pub const SINE_NORM_Q44: u64 = 0x1000_0000_0000;

/// Largest sample rate the core accepts, in Hz.
pub const MAX_SAMPLE_RATE: u32 = 1048576;

/// `x` forced into `[lo, hi]`.
pub open spec fn spec_clamp(x: int, lo: int, hi: int) -> int {
    if x < lo {
        lo
    } else if x > hi {
        hi
    } else {
        x
    }
}

/// Product of two bounded nonnegative values stays under the product
/// of the bounds.
pub proof fn lemma_mul_bounds(a: int, amax: int, b: int, bmax: int)
    requires
        0 <= a <= amax,
        0 <= b <= bmax,
    ensures
        0 <= a * b <= amax * bmax,
{
    vstd::arithmetic::mul::lemma_mul_upper_bound(a, amax, b, bmax);
    vstd::arithmetic::mul::lemma_mul_nonnegative(a, b);
}

/// Scaling a proper fraction keeps it proper: `a <= b` gives
/// `a * s / b <= s`.
pub proof fn lemma_frac_scale_le(a: int, b: int, s: int)
    requires
        0 <= a <= b,
        0 < b,
        0 <= s,
    ensures
        0 <= a * s / b <= s,
{
    vstd::arithmetic::mul::lemma_mul_inequality(a, b, s);
    vstd::arithmetic::mul::lemma_mul_is_commutative(b, s);
    vstd::arithmetic::div_mod::lemma_multiply_divide_le(a * s, b, s);
    vstd::arithmetic::mul::lemma_mul_nonnegative(a, s);
    vstd::arithmetic::div_mod::lemma_div_pos_is_pos(a * s, b);
}

/// Scaling a strictly proper fraction: `a < b` gives `a * s / b < s`.
pub proof fn lemma_frac_scale_lt(a: int, b: int, s: int)
    requires
        0 <= a < b,
        0 < s,
    ensures
        0 <= a * s / b < s,
{
    vstd::arithmetic::mul::lemma_mul_strict_inequality(a, b, s);
    vstd::arithmetic::mul::lemma_mul_is_commutative(b, s);
    vstd::arithmetic::div_mod::lemma_multiply_divide_lt(a * s, b, s);
    vstd::arithmetic::mul::lemma_mul_nonnegative(a, s);
    vstd::arithmetic::div_mod::lemma_div_pos_is_pos(a * s, b);
}

/// Scaled division is monotone in the numerator.
pub proof fn lemma_frac_scale_monotone(a1: int, a2: int, b: int, s: int)
    requires
        0 <= a1 <= a2,
        0 < b,
        0 <= s,
    ensures
        a1 * s / b <= a2 * s / b,
{
    vstd::arithmetic::mul::lemma_mul_inequality(a1, a2, s);
    vstd::arithmetic::div_mod::lemma_div_is_ordered(a1 * s, a2 * s, b);
}

/// A nonnegative Q16 factor applied to a signed value, rounding the
/// magnitude down (truncation toward zero, as the executable division
/// does).
pub open spec fn spec_scale_q16(a: int, b: int) -> int {
    if b >= 0 {
        a * b / (ONE_Q16 as int)
    } else {
        -(a * -b / (ONE_Q16 as int))
    }
}

/// A factor of at most one shrinks the magnitude: scaling by a Q16
/// factor `a <= ONE_Q16` keeps the value within the bound of `b`.
pub proof fn lemma_scale_q16_shrinks(a: int, b: int, bound: int)
    requires
        0 <= a <= ONE_Q16,
        -bound <= b <= bound,
    ensures
        -bound <= spec_scale_q16(a, b) <= bound,
        b >= 0 ==> 0 <= spec_scale_q16(a, b) <= b,
        b < 0 ==> b <= spec_scale_q16(a, b) <= 0,
{
    if b >= 0 {
        lemma_frac_scale_le(a, ONE_Q16 as int, b);
    } else {
        lemma_frac_scale_le(a, ONE_Q16 as int, -b);
    }
}

/// Applies a Q16 gain of at most one to a signed Q16 value.
pub fn scale_q16(a: u64, b: i64) -> (r: i64)
    requires
        a <= ONE_Q16,
        b > i64::MIN,
    ensures
        r == spec_scale_q16(a as int, b as int),
        b >= 0 ==> 0 <= r <= b,
        b < 0 ==> b <= r <= 0,
{
    proof {
        lemma_scale_q16_shrinks(a as int, b as int, i64::MAX as int);
    }
    if b >= 0 {
        proof {
            lemma_mul_bounds(a as int, ONE_Q16 as int, b as int, i64::MAX as int);
        }
        ((a as u128) * (b as u128) / (ONE_Q16 as u128)) as i64
    } else {
        let mag: u64 = (-b) as u64;
        proof {
            lemma_mul_bounds(a as int, ONE_Q16 as int, mag as int, mag as int);
            lemma_frac_scale_le(a as int, ONE_Q16 as int, mag as int);
        }
        let m: u128 = (a as u128) * (mag as u128) / (ONE_Q16 as u128);
        -(m as i64)
    }
}

/// Parabolic sine of an angle given as a Q32 turn fraction, in Q16.
///
/// The first half-turn is the parabola `x * (HALF_TURN - x)`, scaled so
/// that its peak (at a quarter turn) is exactly `ONE_Q16`; the second
/// half-turn is its negation. The function is zero at zero and at the
/// half turn, positive strictly inside the first half-turn, negative
/// strictly inside the second.
pub open spec fn spec_sine_q16(frac: int) -> int {
    let x = frac % (HALF_TURN_Q32 as int);
    let mag = x * (HALF_TURN_Q32 - x) / (SINE_NORM_Q44 as int);
    if frac % (TURN_Q32 as int) < HALF_TURN_Q32 {
        mag
    } else {
        -mag
    }
}

/// The parabolic sine never leaves `[-ONE_Q16, ONE_Q16]`.
pub proof fn lemma_sine_bounded(frac: int)
    ensures
        -ONE_Q16 <= spec_sine_q16(frac) <= ONE_Q16,
{
    let x = frac % (HALF_TURN_Q32 as int);
    assert(0 <= x < HALF_TURN_Q32);
    assert(0 <= x * (HALF_TURN_Q32 - x) <= 0x1000_0000_0000_0000) by (nonlinear_arith)
        requires
            0 <= x < 0x8000_0000,
    {
        assert((0x4000_0000 - x) * (0x4000_0000 - x) >= 0);
    }
    assert(0 <= x * (HALF_TURN_Q32 - x) / (SINE_NORM_Q44 as int) <= ONE_Q16);
}

/// Law: the parabolic sine's sign follows the half-turn its angle
/// lies in — nonnegative through the first half-turn, nonpositive
/// through the second. A sine component can therefore cross zero only
/// where its angle crosses a half-turn boundary.
pub proof fn lemma_sine_sign(frac: int)
    requires
        0 <= frac < TURN_Q32,
    ensures
        frac < HALF_TURN_Q32 ==> spec_sine_q16(frac) >= 0,
        frac >= HALF_TURN_Q32 ==> spec_sine_q16(frac) <= 0,
{
    let x = frac % (HALF_TURN_Q32 as int);
    vstd::arithmetic::div_mod::lemma_mod_bound(frac, HALF_TURN_Q32 as int);
    vstd::arithmetic::mul::lemma_mul_nonnegative(x, HALF_TURN_Q32 - x);
    vstd::arithmetic::div_mod::lemma_div_pos_is_pos(
        x * (HALF_TURN_Q32 - x),
        SINE_NORM_Q44 as int,
    );
    vstd::arithmetic::div_mod::lemma_small_mod(frac as nat, TURN_Q32 as nat);
}

/// Computes `spec_sine_q16` on a Q32 turn fraction.
pub fn sine_q16(frac: u32) -> (r: i64)
    ensures
        r == spec_sine_q16(frac as int),
        -ONE_Q16 <= r <= ONE_Q16,
{
    proof {
        lemma_sine_bounded(frac as int);
        vstd::arithmetic::div_mod::lemma_small_mod(frac as nat, TURN_Q32 as nat);
    }
    let x: u64 = (frac as u64) % HALF_TURN_Q32;
    assert(0 <= (x as int) * (HALF_TURN_Q32 - x as int) <= 0x1000_0000_0000_0000) by (nonlinear_arith)
        requires
            0 <= x < 0x8000_0000,
    {
        assert((0x4000_0000 - x as int) * (0x4000_0000 - x as int) >= 0);
    }
    let mag: u64 = x * (HALF_TURN_Q32 - x) / SINE_NORM_Q44;
    if frac < HALF_TURN_Q32 as u32 {
        mag as i64
    } else {
        -(mag as i64)
    }
}

} // verus!
