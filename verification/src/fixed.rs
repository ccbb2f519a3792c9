//! Fixed-point arithmetic shared by the whole simulation.

use vstd::prelude::*;

verus! {

/// One, in fixed point. A real-valued quantity is stored as a whole
/// number of millionths: lengths in millionths of a world unit, shares
/// and probabilities in millionths of the whole, rates in millionths per
/// second, angles in millionths of a radian.
pub const UNIT: i64 = 1_000_000;

/// Nanoseconds in a second; durations and time steps are nanosecond counts.
pub const NANOS_PER_SECOND: u64 = 1_000_000_000;

/// Quotient of `a` by a positive `b`, rounded toward zero.
pub open spec fn trunc_div(a: int, b: int) -> int
    recommends
        b > 0,
{
    if a >= 0 {
        a / b
    } else {
        -((-a) / b)
    }
}

/// `v` limited to the interval from `lo` to `hi`.
pub open spec fn clamp(v: int, lo: int, hi: int) -> int
    recommends
        lo <= hi,
{
    if v < lo {
        lo
    } else if v > hi {
        hi
    } else {
        v
    }
}

/// The largest natural number whose square does not exceed `n`.
pub open spec fn sqrt_floor(n: nat) -> nat
    decreases n,
{
    if n == 0 {
        0
    } else {
        let r = sqrt_floor((n - 1) as nat);
        if (r + 1) * (r + 1) <= n {
            r + 1
        } else {
            r
        }
    }
}

/// `sqrt_floor(n)` squared is at most `n`, and the next square is above `n`.
pub proof fn lemma_sqrt_floor_bounds(n: nat)
    ensures
        sqrt_floor(n) * sqrt_floor(n) <= n,
        n < (sqrt_floor(n) + 1) * (sqrt_floor(n) + 1),
    decreases n,
{
    let s = sqrt_floor(n);
    if n == 0 {
        assert(s == 0);
        assert(s * s == 0 && (s + 1) * (s + 1) == 1) by (nonlinear_arith)
            requires
                s == 0,
        ;
    } else {
        lemma_sqrt_floor_bounds((n - 1) as nat);
        let r = sqrt_floor((n - 1) as nat);
        if (r + 1) * (r + 1) <= n {
            assert(s == r + 1);
            assert(s * s == (r + 1) * (r + 1) && (s + 1) * (s + 1) > s * s) by (nonlinear_arith)
                requires
                    s == r + 1,
            ;
        } else {
            assert(s == r);
        }
    }
}

/// Only one natural number lies between the square roots in that way.
pub proof fn lemma_sqrt_floor_unique(n: nat, r: nat)
    requires
        r * r <= n,
        n < (r + 1) * (r + 1),
    ensures
        r == sqrt_floor(n),
{
    lemma_sqrt_floor_bounds(n);
    let s = sqrt_floor(n);
    if r < s {
        assert((r + 1) * (r + 1) <= s * s) by (nonlinear_arith)
            requires
                r + 1 <= s,
        ;
    } else if s < r {
        assert((s + 1) * (s + 1) <= r * r) by (nonlinear_arith)
            requires
                s + 1 <= r,
        ;
    }
}

/// Integer square root, rounded down.
pub fn isqrt(n: u128) -> (r: u64)
    ensures
        r == sqrt_floor(n as nat),
        r * r <= n,
        n < (r + 1) * (r + 1),
{
    let mut lo: u128 = 0;
    let mut hi: u128 = 0x1_0000_0000_0000_0000;
    assert(hi * hi > n) by (nonlinear_arith)
        requires
            hi == 0x1_0000_0000_0000_0000,
            n <= u128::MAX,
    ;
    while hi - lo > 1
        invariant
            lo < hi <= 0x1_0000_0000_0000_0000,
            lo * lo <= n,
            n < hi * hi,
        decreases hi - lo,
    {
        let mid: u128 = lo + (hi - lo) / 2;
        assert(0 <= mid * mid <= u128::MAX) by (nonlinear_arith)
            requires
                0 <= mid < 0x1_0000_0000_0000_0000,
        ;
        if mid * mid <= n {
            lo = mid;
        } else {
            hi = mid;
        }
    }
    proof {
        lemma_sqrt_floor_unique(n as nat, lo as nat);
    }
    lo as u64
}

/// `v * num / den`, rounded toward zero, computed without overflow.
pub fn mul_div(v: i64, num: u64, den: u64) -> (r: i128)
    requires
        den > 0,
    ensures
        r == trunc_div(v * num, den as int),
{
    let wide: i128 = v as i128;
    let factor: i128 = num as i128;
    assert(-0x8000_0000_0000_0000_0000_0000_0000_0000 < wide * factor
        < 0x8000_0000_0000_0000_0000_0000_0000_0000) by (nonlinear_arith)
        requires
            -0x8000_0000_0000_0000 <= wide < 0x8000_0000_0000_0000,
            0 <= factor < 0x1_0000_0000_0000_0000,
    ;
    let product: i128 = wide * factor;
    product / (den as i128)
}

/// `v` limited to the interval from `lo` to `hi`.
pub fn clamp_to(v: i128, lo: i64, hi: i64) -> (r: i64)
    requires
        lo <= hi,
    ensures
        r == clamp(v as int, lo as int, hi as int),
{
    if v < lo as i128 {
        lo
    } else if v > hi as i128 {
        hi
    } else {
        v as i64
    }
}

/// A quotient rounded toward zero is no larger in magnitude than the
/// dividend, and has its sign.
pub proof fn lemma_trunc_div_bounds(a: int, b: int)
    requires
        b > 0,
    ensures
        a >= 0 ==> 0 <= trunc_div(a, b) <= a,
        a <= 0 ==> a <= trunc_div(a, b) <= 0,
{
    if a >= 0 {
        assert(0 <= a / b <= a) by (nonlinear_arith)
            requires
                a >= 0,
                b > 0,
        ;
    } else {
        assert(0 <= (-a) / b <= -a) by (nonlinear_arith)
            requires
                -a >= 0,
                b > 0,
        ;
    }
}

/// A share of a quantity lies between zero and the quantity.
pub proof fn lemma_share(v: int, factor: int)
    requires
        0 <= factor <= UNIT,
    ensures
        v >= 0 ==> 0 <= trunc_div(v * factor, UNIT as int) <= v,
        v <= 0 ==> v <= trunc_div(v * factor, UNIT as int) <= 0,
        factor == 0 ==> trunc_div(v * factor, UNIT as int) == 0,
        factor == UNIT ==> trunc_div(v * factor, UNIT as int) == v,
{
    if v >= 0 {
        assert(0 <= (v * factor) / 1_000_000 <= v && v * factor >= 0 && (factor == 0 ==> (v
            * factor) / 1_000_000 == 0) && (factor == 1_000_000 ==> (v * factor) / 1_000_000 == v))
            by (nonlinear_arith)
            requires
                v >= 0,
                0 <= factor <= 1_000_000,
        ;
    } else {
        assert(0 <= (-(v * factor)) / 1_000_000 <= -v && v * factor <= 0 && (factor == 0 ==> (-(v
            * factor)) / 1_000_000 == 0) && (factor == 1_000_000 ==> (-(v * factor)) / 1_000_000
            == -v)) by (nonlinear_arith)
            requires
                v < 0,
                0 <= factor <= 1_000_000,
        ;
    }
}

/// A component of a direction, taken at a speed, is no faster than the
/// speed.
pub proof fn lemma_scaled_speed(component: int, speed: int)
    requires
        -UNIT <= component <= UNIT,
        speed >= 0,
    ensures
        -speed <= trunc_div(component * speed, UNIT as int) <= speed,
{
    if component >= 0 {
        assert(0 <= (component * speed) / 1_000_000 <= speed && component * speed >= 0)
            by (nonlinear_arith)
            requires
                0 <= component <= 1_000_000,
                speed >= 0,
        ;
    } else {
        assert(0 <= (-(component * speed)) / 1_000_000 <= speed && component * speed <= 0)
            by (nonlinear_arith)
            requires
                -1_000_000 <= component < 0,
                speed >= 0,
        ;
    }
}

} // verus!
