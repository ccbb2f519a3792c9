//! Easing: how a share of the way is turned into a share of the motion.

use crate::fixed::{lemma_share, trunc_div, NANOS_PER_SECOND, UNIT};
use vstd::prelude::*;

verus! {

/// The largest argument that `ease_out_cubic` takes, twenty thousand
/// times `UNIT`: beyond it the result would not fit in 64 bits.
pub const EASE_INPUT_MAX: i64 = 20_000_000_000;

/// The cube of `a`.
pub open spec fn cube(a: int) -> int {
    a * a * a
}

/// Cubic ease-out in fixed point: `1 - (1 - x)^3`, where `UNIT` stands
/// for one and the cube is rounded toward zero.
pub open spec fn ease_out_cubic_spec(x: int) -> int {
    UNIT - trunc_div(cube(UNIT - x), UNIT * UNIT)
}

/// The value a share `t` of the way from `a` to `b`, where `UNIT` is the
/// whole way; the step is rounded toward zero.
pub open spec fn lerp_spec(a: int, b: int, t: int) -> int {
    a + trunc_div((b - a) * t, UNIT as int)
}

/// The progress that a rate of `rate` per second makes in `delta`
/// nanoseconds, rounded down.
pub open spec fn progress(delta: u64, rate: u32) -> int {
    delta * rate / (NANOS_PER_SECOND as int)
}

/// That progress, eased, after it was capped at `cap`.
pub open spec fn eased_progress_spec(delta: u64, rate: u32, cap: int) -> int {
    if progress(delta, rate) >= cap {
        ease_out_cubic_spec(cap)
    } else {
        ease_out_cubic_spec(progress(delta, rate))
    }
}

/// On the interval from zero to one the eased value stays in that
/// interval, and is never behind the plain one.
pub proof fn lemma_ease_unit_interval(x: int)
    requires
        0 <= x <= UNIT,
    ensures
        0 <= ease_out_cubic_spec(x) <= UNIT,
        x <= ease_out_cubic_spec(x),
        x == 0 ==> ease_out_cubic_spec(x) == 0,
        x == UNIT ==> ease_out_cubic_spec(x) == UNIT,
{
    let r = UNIT - x;
    assert(0 <= r * r * r <= r * 1_000_000_000_000) by (nonlinear_arith)
        requires
            0 <= r <= 1_000_000,
    ;
    assert((r * r * r) / 1_000_000_000_000 <= r && (r * r * r) / 1_000_000_000_000 >= 0)
        by (nonlinear_arith)
        requires
            0 <= r * r * r <= r * 1_000_000_000_000,
    ;
    if x == 0 {
        assert(r * r * r == 1_000_000_000_000_000_000) by (nonlinear_arith)
            requires
                r == 1_000_000,
        ;
    }
    if x == UNIT {
        assert(r * r * r == 0) by (nonlinear_arith)
            requires
                r == 0,
        ;
    }
}

/// Progress that is capped at one and then eased is a share between
/// nothing and all.
pub proof fn lemma_eased_share(delta: u64, rate: u32)
    ensures
        0 <= eased_progress_spec(delta, rate, UNIT as int) <= UNIT,
{
    let raw = progress(delta, rate);
    assert(raw >= 0) by (nonlinear_arith)
        requires
            raw == delta * rate / 1_000_000_000,
            delta >= 0,
            rate >= 0,
    ;
    if raw >= UNIT {
        lemma_ease_unit_interval(UNIT as int);
    } else {
        lemma_ease_unit_interval(raw);
    }
}

/// Cubic ease-out: fast at the start, slow at the end.
pub fn ease_out_cubic(x: i64) -> (r: i64)
    requires
        0 <= x <= EASE_INPUT_MAX,
    ensures
        r == ease_out_cubic_spec(x as int),
        x <= UNIT ==> 0 <= r <= UNIT,
{
    let rest: i128 = UNIT as i128 - x as i128;
    proof {
        assert(-8_000_000_000_000_000_000_000_000_000_000 <= rest * rest * rest
            <= 1_000_000_000_000_000_000 && 0 <= rest * rest <= 400_000_000_000_000_000_000)
            by (nonlinear_arith)
            requires
                -20_000_000_000 <= rest <= 1_000_000,
        ;
        if x <= UNIT {
            lemma_ease_unit_interval(x as int);
        }
    }
    let cubed: i128 = rest * rest * rest;
    let part: i128 = cubed / 1_000_000_000_000;
    (UNIT as i128 - part) as i64
}

/// The eased progress of a rate of `rate` per second over `delta`
/// nanoseconds, the progress capped at `cap` before it is eased.
pub fn eased_progress(delta: u64, rate: u32, cap: i64) -> (r: i64)
    requires
        0 <= cap <= EASE_INPUT_MAX,
    ensures
        r == eased_progress_spec(delta, rate, cap as int),
        cap <= UNIT ==> 0 <= r <= UNIT,
{
    proof {
        assert(0 <= delta * rate <= 0xffff_ffff_ffff_ffff * 0xffff_ffff) by (nonlinear_arith)
            requires
                0 <= delta <= 0xffff_ffff_ffff_ffff,
                0 <= rate <= 0xffff_ffff,
        ;
    }
    let raw: u128 = (delta as u128) * (rate as u128) / (NANOS_PER_SECOND as u128);
    if raw >= cap as u128 {
        ease_out_cubic(cap)
    } else {
        ease_out_cubic(raw as i64)
    }
}

/// The value a share `t` of the way from `a` to `b`, where `UNIT` is the
/// whole way; the step is rounded toward zero.
pub fn lerp(a: i64, b: i64, t: i64) -> (r: i64)
    requires
        0 <= t <= UNIT,
    ensures
        r == lerp_spec(a as int, b as int, t as int),
        a <= b ==> a <= r <= b,
        b <= a ==> b <= r <= a,
        t == 0 ==> r == a,
        t == UNIT ==> r == b,
{
    let diff: i128 = b as i128 - a as i128;
    proof {
        lemma_share(diff as int, t as int);
        assert(-0x1_0000_0000_0000_0000 * 1_000_000 <= diff * t <= 0x1_0000_0000_0000_0000
            * 1_000_000) by (nonlinear_arith)
            requires
                -0x1_0000_0000_0000_0000 <= diff <= 0x1_0000_0000_0000_0000,
                0 <= t <= 1_000_000,
        ;
    }
    let step: i128 = diff * (t as i128) / 1_000_000;
    (a as i128 + step) as i64
}

} // verus!
