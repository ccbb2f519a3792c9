//! Angles, in millionths of a radian, and turning from one to another.

use crate::fixed::{trunc_div, UNIT};
use vstd::prelude::*;

verus! {

/// A full turn.
pub const TAU: i64 = 6_283_185;

/// Half a turn.
pub const HALF_TURN: i64 = 3_141_592;

/// A quarter of a turn.
pub const QUARTER_TURN: i64 = 1_570_796;

/// The angle within half a turn of zero, either way, that points where
/// `angle` does.
pub open spec fn wrapped(angle: int) -> int {
    (angle + HALF_TURN) % (TAU as int) - HALF_TURN
}

/// The angle the share `share` of the way from `current` to `target`,
/// where `UNIT` is the whole way. The way is the shorter of the two round
/// the circle, and the step is rounded toward zero. A share beyond
/// `UNIT` carries the turn on past the target.
pub open spec fn turned(current: int, target: int, share: int) -> int {
    wrapped(current + trunc_div(wrapped(target - current) * share, UNIT as int))
}

/// Brings an angle within half a turn of zero.
pub fn wrap(angle: i128) -> (r: i64)
    requires
        -0x1_0000_0000_0000_0000_0000_0000 <= angle <= 0x1_0000_0000_0000_0000_0000_0000,
    ensures
        r == wrapped(angle as int),
        -HALF_TURN <= r <= HALF_TURN,
{
    let turns: i128 = 0x1_0000_0000_0000_0000_0000;
    let lifted: i128 = angle + 3_141_592 + 6_283_185 * turns;
    assert(lifted % 6_283_185 == (angle + 3_141_592) % 6_283_185) by {
        vstd::arithmetic::div_mod::lemma_mod_multiples_vanish(
            turns as int,
            angle + 3_141_592,
            6_283_185,
        );
    }
    ((lifted % 6_283_185) - 3_141_592) as i64
}

/// Turns from `current` toward `target` by the share `share` of the way.
pub fn turn_toward(current: i64, target: i64, share: i64) -> (r: i64)
    ensures
        r == turned(current as int, target as int, share as int),
        -HALF_TURN <= r <= HALF_TURN,
        share == 0 ==> r == wrapped(current as int),
        share == UNIT ==> r == wrapped(target as int),
{
    let way: i64 = wrap(target as i128 - current as i128);
    proof {
        assert(-3_141_592 * 0x8000_0000_0000_0000 <= way * share <= 3_141_592
            * 0x8000_0000_0000_0000) by (nonlinear_arith)
            requires
                -3_141_592 <= way <= 3_141_592,
                -0x8000_0000_0000_0000 <= share <= 0x8000_0000_0000_0000,
        ;
        crate::fixed::lemma_trunc_div_bounds(way * share, UNIT as int);
        if share == UNIT {
            assert(trunc_div(way * share, UNIT as int) == way) by (nonlinear_arith)
                requires
                    share == 1_000_000,
                    UNIT == 1_000_000,
            ;
        }
        if share == 0 {
            assert(way * share == 0) by (nonlinear_arith)
                requires
                    share == 0,
            ;
        }
    }
    let step: i128 = (way as i128) * (share as i128) / 1_000_000;
    wrap(current as i128 + step)
}

} // verus!
