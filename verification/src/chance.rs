//! Randomness: the dice, and what a roll is turned into.
//!
//! A roll is a 32-bit number, uniform over its whole range; it stands for
//! the share `roll / ROLL_SPAN` of the unit interval, zero included and
//! one excluded.

use crate::fixed::{trunc_div, UNIT};
use vstd::prelude::*;

verus! {

/// The number of different rolls.
pub const ROLL_SPAN: u64 = 0x1_0000_0000;

/// Calls `rand::random::<u32>()`, which draws a number from the thread's
/// generator, uniformly over all 32-bit numbers. Nothing is claimed of
/// the number drawn. The call fails only where the system cannot seed
/// the generator.
#[verifier::external_body]
pub(crate) fn roll() -> u32 {
    rand::random::<u32>()
}

/// Draws `count` rolls, one after the other.
pub fn draw(count: usize) -> (rolls: Vec<u32>)
    ensures
        rolls@.len() == count,
{
    let mut rolls: Vec<u32> = Vec::new();
    while rolls.len() < count
        invariant
            rolls@.len() <= count,
        decreases count - rolls@.len(),
    {
        rolls.push(roll());
    }
    rolls
}

/// Whether a coin falls heads on `roll`: on one half of all rolls, the
/// upper one.
pub open spec fn heads(roll: u32) -> bool {
    roll >= ROLL_SPAN / 2
}

/// Whether an event of the given probability happens on `roll`: whether
/// the roll's share of the unit interval is below the probability, where
/// `UNIT` stands for certainty.
pub open spec fn hits(roll: u32, probability: i64) -> bool {
    roll * UNIT < probability * ROLL_SPAN
}

/// The value the roll's share of the way from `lo` to `hi`, rounded
/// toward `lo`.
pub open spec fn spread_spec(roll: u32, lo: int, hi: int) -> int {
    lo + trunc_div((hi - lo) * roll, ROLL_SPAN as int)
}

/// The rolls on which an event of the given probability happens are the
/// smallest ones, and their number is the probability's share of all
/// rolls, rounded up: so the event happens with that probability, as
/// nearly as 32 bits can tell.
pub proof fn lemma_hits_share(roll: u32, probability: i64)
    requires
        0 <= probability <= UNIT,
    ensures
        hits(roll, probability) <==> roll * UNIT < probability * ROLL_SPAN,
        hits(roll, probability) <==> roll < (probability * ROLL_SPAN + UNIT - 1) / (UNIT as int),
{
    let p = probability * ROLL_SPAN;
    let r = roll as int;
    assert(r * 1_000_000 < p <==> r < (p + 1_000_000 - 1) / 1_000_000) by (nonlinear_arith)
        requires
            0 <= p,
            0 <= r,
    ;
}

/// Tosses a coin on a roll.
pub fn coin(roll: u32) -> (r: bool)
    ensures
        r == heads(roll),
{
    roll >= 0x8000_0000
}

/// Decides an event of the given probability on a roll.
pub fn chance(roll: u32, probability: i64) -> (r: bool)
    ensures
        r == hits(roll, probability),
        probability <= 0 ==> !r,
        probability >= UNIT ==> r,
{
    let left: i128 = roll as i128 * 1_000_000;
    proof {
        assert(-0x8000_0000_0000_0000 * 0x1_0000_0000 <= probability * 0x1_0000_0000
            <= 0x8000_0000_0000_0000 * 0x1_0000_0000) by (nonlinear_arith)
            requires
                -0x8000_0000_0000_0000 <= probability <= 0x8000_0000_0000_0000,
        ;
    }
    let right: i128 = probability as i128 * 0x1_0000_0000;
    left < right
}

/// Picks a value between `lo` and `hi` by a roll: `lo` for the smallest
/// roll, and just short of `hi` for the largest.
pub fn spread(roll: u32, lo: i64, hi: i64) -> (r: i64)
    ensures
        r == spread_spec(roll, lo as int, hi as int),
        lo <= hi ==> lo <= r <= hi,
        lo < hi ==> r < hi,
        hi <= lo ==> hi <= r <= lo,
        roll == 0 ==> r == lo,
{
    let diff: i128 = hi as i128 - lo as i128;
    proof {
        lemma_partial(diff as int, roll as int);
        assert(-0x1_0000_0000_0000_0000 * 0x1_0000_0000 <= diff * roll <= 0x1_0000_0000_0000_0000
            * 0x1_0000_0000) by (nonlinear_arith)
            requires
                -0x1_0000_0000_0000_0000 <= diff <= 0x1_0000_0000_0000_0000,
                0 <= roll < 0x1_0000_0000,
        ;
    }
    let step: i128 = diff * (roll as i128) / 0x1_0000_0000;
    (lo as i128 + step) as i64
}

/// A roll's share of a difference lies between zero and the difference,
/// and falls short of a difference that is not zero.
pub proof fn lemma_partial(diff: int, roll: int)
    requires
        0 <= roll < ROLL_SPAN,
    ensures
        diff >= 0 ==> 0 <= trunc_div(diff * roll, ROLL_SPAN as int) <= diff,
        diff > 0 ==> trunc_div(diff * roll, ROLL_SPAN as int) < diff,
        diff <= 0 ==> diff <= trunc_div(diff * roll, ROLL_SPAN as int) <= 0,
        roll == 0 ==> trunc_div(diff * roll, ROLL_SPAN as int) == 0,
{
    if diff >= 0 {
        assert(0 <= (diff * roll) / 0x1_0000_0000 <= diff && diff * roll >= 0 && (diff > 0 ==> (diff
            * roll) / 0x1_0000_0000 < diff) && (roll == 0 ==> (diff * roll) / 0x1_0000_0000 == 0))
            by (nonlinear_arith)
            requires
                diff >= 0,
                0 <= roll < 0x1_0000_0000,
        ;
    } else {
        assert(0 <= (-(diff * roll)) / 0x1_0000_0000 <= -diff && diff * roll <= 0 && (roll == 0
            ==> (-(diff * roll)) / 0x1_0000_0000 == 0)) by (nonlinear_arith)
            requires
                diff < 0,
                0 <= roll < 0x1_0000_0000,
        ;
    }
}

} // verus!
