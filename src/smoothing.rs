//! Exponential smoothing of band levels across frames.
use vstd::prelude::*;

use crate::arith::{abs, div_toward_zero};

verus! {

/// The smoothing factor is given in thousandths: `800` is 0.8.
pub const FACTOR_SCALE: u32 = 1000;

/// One smoothing step: `factor * prev + (1 - factor) * target`, written as
/// the distance from `target` shrunk by `factor / 1000`, rounded toward
/// `target`.
pub open spec fn smooth_value(prev: int, target: int, factor: int) -> int {
    target + div_toward_zero(factor * (prev - target), FACTOR_SCALE as int)
}

/// `n` smoothing steps toward a constant `target`.
pub open spec fn smooth_iterate(prev: int, target: int, factor: int, n: nat) -> int
    decreases n,
{
    if n == 0 {
        prev
    } else {
        smooth_iterate(smooth_value(prev, target, factor), target, factor, (n - 1) as nat)
    }
}

proof fn lemma_scaled_distance(d: int, factor: int)
    requires
        0 <= factor <= FACTOR_SCALE,
    ensures
        d >= 0 ==> 0 <= div_toward_zero(factor * d, FACTOR_SCALE as int) <= d,
        d < 0 ==> d <= div_toward_zero(factor * d, FACTOR_SCALE as int) <= 0,
        factor < FACTOR_SCALE && d != 0 ==> abs(div_toward_zero(factor * d, FACTOR_SCALE as int))
            < abs(d),
{
    if d >= 0 {
        assert(0 <= factor * d <= 1000 * d) by (nonlinear_arith)
            requires
                0 <= factor <= 1000,
                d >= 0,
        ;
        assert(factor < 1000 && d > 0 ==> factor * d < 1000 * d) by (nonlinear_arith)
            requires
                d >= 0,
        ;
    } else {
        assert(factor * d == -(factor * (-d))) by (nonlinear_arith);
        assert(0 <= factor * (-d) <= 1000 * (-d)) by (nonlinear_arith)
            requires
                0 <= factor <= 1000,
                d < 0,
        ;
        assert(factor < 1000 ==> factor * (-d) < 1000 * (-d)) by (nonlinear_arith)
            requires
                d < 0,
        ;
    }
}

/// Smooths `prev` toward the new reading `target`.
pub fn smooth_step(prev: i32, target: i32, factor: u32) -> (r: i32)
    requires
        factor <= FACTOR_SCALE,
    ensures
        r == smooth_value(prev as int, target as int, factor as int),
{
    proof {
        lemma_scaled_distance(prev - target, factor as int);
    }
    let distance: i64 = prev as i64 - target as i64;
    assert(-0x1_0000_0000 <= distance <= 0x1_0000_0000);
    assert(-0x1_0000_0000 * 1000 <= factor as i64 * distance <= 0x1_0000_0000 * 1000)
        by (nonlinear_arith)
        requires
            -0x1_0000_0000 <= distance <= 0x1_0000_0000,
            0 <= factor <= 1000,
    ;
    let shrunk: i64 = (factor as i64 * distance) / (FACTOR_SCALE as i64);
    (target as i64 + shrunk) as i32
}

/// A steady reading is a fixed point: once the smoothed value equals the
/// reading, further steps keep it there.
pub proof fn lemma_steady_state_is_fixed(target: int, factor: int)
    requires
        0 <= factor <= FACTOR_SCALE,
    ensures
        smooth_value(target, target, factor) == target,
{
    assert(factor * 0 == 0) by (nonlinear_arith);
}

/// A smoothing step never leaves the range spanned by the previous value and
/// the reading.
pub proof fn lemma_step_stays_between(prev: int, target: int, factor: int)
    requires
        0 <= factor <= FACTOR_SCALE,
    ensures
        prev <= target ==> prev <= smooth_value(prev, target, factor) <= target,
        target <= prev ==> target <= smooth_value(prev, target, factor) <= prev,
{
    lemma_scaled_distance(prev - target, factor);
}

/// Under a constant reading, any number of steps stays in the range spanned
/// by the starting value and the reading.
pub proof fn lemma_iterate_stays_between(prev: int, target: int, factor: int, n: nat)
    requires
        0 <= factor <= FACTOR_SCALE,
    ensures
        prev <= target ==> prev <= smooth_iterate(prev, target, factor, n) <= target,
        target <= prev ==> target <= smooth_iterate(prev, target, factor, n) <= prev,
    decreases n,
{
    if n > 0 {
        lemma_step_stays_between(prev, target, factor);
        lemma_iterate_stays_between(smooth_value(prev, target, factor), target, factor, (n - 1) as nat);
    }
}

/// Under a constant reading and a factor below one, the smoothed value
/// reaches the reading after at most `|prev - target|` steps and stays there.
pub proof fn lemma_iterate_converges(prev: int, target: int, factor: int, n: nat)
    requires
        0 <= factor < FACTOR_SCALE,
        n >= abs(prev - target),
    ensures
        smooth_iterate(prev, target, factor, n) == target,
    decreases n,
{
    if prev == target {
        lemma_iterate_fixed(target, factor, n);
    } else {
        lemma_scaled_distance(prev - target, factor);
        lemma_iterate_converges(smooth_value(prev, target, factor), target, factor, (n - 1) as nat);
    }
}

proof fn lemma_iterate_fixed(target: int, factor: int, n: nat)
    requires
        0 <= factor <= FACTOR_SCALE,
    ensures
        smooth_iterate(target, target, factor, n) == target,
    decreases n,
{
    if n > 0 {
        lemma_steady_state_is_fixed(target, factor);
        lemma_iterate_fixed(target, factor, (n - 1) as nat);
    }
}

} // verus!
