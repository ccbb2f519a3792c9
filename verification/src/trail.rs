//! The trail of the ghost: fading copies of it, left behind at a steady
//! pace.

use crate::angle::{wrap, wrapped};
use crate::chance::{roll, spread, spread_spec};
use crate::fixed::{trunc_div, UNIT};
use crate::player::Player;
use crate::timer::{Timer, TimerMode};
use crate::transient::{Payload, TransientEntity};
use vstd::prelude::*;

verus! {

/// The time between two copies: a twentieth of a second.
pub const TRAIL_INTERVAL: u64 = 50_000_000;

/// How long a copy takes to fade away: 0.8 seconds.
pub const TRAIL_LIFETIME: u64 = 800_000_000;

/// The opacity with which a copy appears: 0.8.
pub const TRAIL_ALPHA: i64 = 800_000;

/// The least and the largest share of the ghost's scale that a copy may
/// have: 0.95 and 1.05.
pub const TRAIL_SCALE_MIN: i64 = 950_000;

pub const TRAIL_SCALE_MAX: i64 = 1_050_000;

/// How far the rotation of a copy may be off the ghost's, either way: a
/// twentieth of a radian.
pub const TRAIL_TURN: i64 = 50_000;

/// The pace at which the ghost leaves copies behind.
#[derive(Clone, Copy, PartialEq, Eq, Structural, Debug)]
pub struct TrailSettings {
    /// Completes each time a copy is due.
    pub spawn_timer: Timer,
}

/// The copy that `player` leaves behind with the two rolls drawn for it:
/// where the ghost is, a little larger or smaller than the ghost, and
/// turned a little off its rotation.
pub open spec fn trail_of(player: Player, scale_roll: u32, turn_roll: u32) -> TransientEntity {
    TransientEntity {
        position: player.position,
        lifetime: Timer {
            mode: TimerMode::Once,
            duration: TRAIL_LIFETIME,
            elapsed: 0,
            finished: false,
            just_finished: false,
        },
        alpha: TRAIL_ALPHA,
        payload: Payload::Trail {
            scale: trunc_div(
                player.scale * spread_spec(
                    scale_roll,
                    TRAIL_SCALE_MIN as int,
                    TRAIL_SCALE_MAX as int,
                ),
                UNIT as int,
            ) as i64,
            rotation: wrapped(
                player.rotation + spread_spec(turn_roll, -TRAIL_TURN, TRAIL_TURN as int),
            ) as i64,
        },
    }
}

/// Whether `copy` is a copy of `player`, for some two rolls.
pub open spec fn is_trail_of(copy: TransientEntity, player: Player) -> bool {
    exists|a: u32, b: u32| copy == #[trigger] trail_of(player, a, b)
}

/// Every copy of a well-formed ghost is a well-formed entity that has its
/// life before it.
pub proof fn lemma_trail_wf(player: Player, scale_roll: u32, turn_roll: u32)
    requires
        player.wf(),
    ensures
        trail_of(player, scale_roll, turn_roll).wf(),
        !trail_of(player, scale_roll, turn_roll).lifetime.finished,
{
}

impl TrailSettings {
    /// The invariant of the settings: a well-formed repeating timer.
    pub open spec fn wf(self) -> bool {
        self.spawn_timer.wf() && self.spawn_timer.mode == TimerMode::Repeating
    }

    /// The settings of the game: a copy every twentieth of a second.
    pub fn new() -> (settings: TrailSettings)
        ensures
            settings.wf(),
            settings.spawn_timer.fresh(),
            settings.spawn_timer.duration == TRAIL_INTERVAL,
            settings.spawn_timer.mode == TimerMode::Repeating,
    {
        TrailSettings { spawn_timer: Timer::new(TRAIL_INTERVAL, TimerMode::Repeating) }
    }
}

/// Makes the copy that `player` leaves behind from the two rolls drawn
/// for it.
pub fn trail(player: &Player, scale_roll: u32, turn_roll: u32) -> (copy: TransientEntity)
    requires
        player.wf(),
    ensures
        copy == trail_of(*player, scale_roll, turn_roll),
        copy.wf(),
{
    let factor: i64 = spread(scale_roll, TRAIL_SCALE_MIN, TRAIL_SCALE_MAX);
    let turn: i64 = spread(turn_roll, -TRAIL_TURN, TRAIL_TURN);
    proof {
        let s = player.scale as int;
        let f = factor as int;
        assert(0 <= s * f <= 1_000_000_000_000 * 1_050_000 && 0 <= (s * f) / 1_000_000
            <= 1_050_000_000_000) by (nonlinear_arith)
            requires
                0 <= s <= 1_000_000_000_000,
                950_000 <= f <= 1_050_000,
        ;
    }
    let scale: i64 = player.scale * factor / UNIT;
    TransientEntity {
        position: player.position,
        lifetime: Timer::new(TRAIL_LIFETIME, TimerMode::Once),
        alpha: TRAIL_ALPHA,
        payload: Payload::Trail { scale, rotation: wrap(player.rotation as i128 + turn as i128) },
    }
}

/// One tick of the trail. The spawn timer runs; each time it completes,
/// a ghost that is there leaves a copy of itself behind, which the dice
/// make a little larger or smaller and turn a little.
pub fn leave_trail(settings: &mut TrailSettings, player: &Option<Player>, delta: u64) -> (copy:
    Option<TransientEntity>)
    requires
        old(settings).wf(),
        *player matches Some(p) ==> p.wf(),
    ensures
        final(settings).spawn_timer == old(settings).spawn_timer.ticked(delta),
        final(settings).wf(),
        copy is Some <==> old(settings).spawn_timer.ticked(delta).just_finished && *player is Some,
        copy matches Some(c) ==> c.wf() && c.lifetime.fresh() && is_trail_of(c, player->0),
{
    settings.spawn_timer.tick(delta);
    if !settings.spawn_timer.just_finished() {
        return None;
    }
    match player {
        Some(p) => {
            let scale_roll: u32 = roll();
            let turn_roll: u32 = roll();
            let copy = trail(p, scale_roll, turn_roll);
            assert(copy == trail_of(*p, scale_roll, turn_roll));
            Some(copy)
        },
        None => None,
    }
}

} // verus!
