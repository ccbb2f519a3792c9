//! The ghost: how it follows the pointer, floats, and fades.

use crate::angle::{turn_toward, turned, wrap, wrapped, HALF_TURN, QUARTER_TURN};
use crate::easing::{
    eased_progress, eased_progress_spec, lemma_eased_share, lerp_spec, EASE_INPUT_MAX,
};
use crate::fixed::{clamp, clamp_to, lemma_share, trunc_div, NANOS_PER_SECOND, UNIT};
use crate::geometry::{Vec2, COORD_MAX};
use crate::sack::CandySack;
use crate::timer::{lemma_ticked_wf, Timer, TimerMode};
use vstd::prelude::*;

verus! {

/// The ghost's rate of approach to the pointer: 10 per second.
pub const GHOST_SPEED: u32 = 10_000_000;

/// The ghost's rate of turning toward its heading: 5 per second.
pub const GHOST_ROTATION_SPEED: u32 = 5_000_000;

/// The scale of the ghost at rest: 0.2.
pub const GHOST_SCALE: i64 = 200_000;

/// The largest scale of the ghost: a million times life size.
pub const SCALE_MAX: i64 = 1_000_000_000_000;

/// The candies that the ghost's sack holds: 10.
pub const SACK_CAPACITY: u32 = 10;

/// The time between two changes of the ghost's look: 3 seconds.
pub const FADE_PERIOD: u64 = 3_000_000_000;

/// The distance from the pointer below which the ghost neither turns nor
/// pulses: a tenth of a unit.
pub const DEADBAND: u64 = 100_000;

/// The distance from the pointer at which the pulse of the scale reaches
/// its cap of a tenth: 100 units.
pub const PULSE_DISTANCE: u64 = 100_000_000;

/// How far the ghost floats up and down: 10 units.
pub const GHOST_FLOAT_AMPLITUDE: i64 = 10_000_000;

/// How fast the ghost floats: 2 radians per second.
pub const GHOST_FLOAT_FREQUENCY: u32 = 2_000_000;

/// The two looks of the ghost.
#[derive(Clone, Copy, PartialEq, Eq, Structural, Debug)]
pub enum GhostState {
    Normal,
    Faded,
}

/// A floating motion: two sine waves laid over a resting height. The
/// resting height belongs to whoever moves the entity; floating only
/// reads it.
#[derive(Clone, Copy, PartialEq, Eq, Structural, Debug)]
pub struct FloatingAnimation {
    /// The resting height.
    pub original_y: i64,
    /// The height of the primary wave.
    pub amplitude: i64,
    /// The rate of the primary wave, in radians per second.
    pub frequency: u32,
}

/// The arguments of the two sine waves of a floating motion, in radians.
#[derive(Clone, Copy, PartialEq, Eq, Structural, Debug)]
pub struct Phases {
    pub primary: u128,
    pub secondary: u128,
}

/// The ghost that the player steers.
#[derive(Clone, Copy, PartialEq, Eq, Structural, Debug)]
pub struct Player {
    /// Where the ghost is drawn: its resting place, floating included.
    pub position: Vec2,
    /// The rotation of the ghost, within half a turn of zero.
    pub rotation: i64,
    pub scale: i64,
    /// The rate of approach to the pointer, per second.
    pub speed: u32,
    /// The rate of turning, per second.
    pub rotation_speed: u32,
    pub state: GhostState,
    /// Runs between two changes of the look.
    pub fade: Timer,
    pub sack: CandySack,
    pub float: FloatingAnimation,
}

/// The scale of a ghost whose pointer is `distance` away: up to a tenth
/// above the resting scale, in proportion to the distance, and no more.
pub open spec fn pulse(distance: nat) -> int {
    if distance >= PULSE_DISTANCE {
        GHOST_SCALE + GHOST_SCALE / 10
    } else {
        GHOST_SCALE + GHOST_SCALE * distance / (10 * PULSE_DISTANCE)
    }
}

/// The rotation of a ghost that faces in the direction `facing`: a
/// quarter turn on from it, since the picture of the ghost points up.
pub open spec fn facing_rotation(facing: int) -> int {
    wrapped(facing + QUARTER_TURN)
}

/// The look that follows on `state`.
pub open spec fn other_look(state: GhostState) -> GhostState {
    match state {
        GhostState::Normal => GhostState::Faded,
        GhostState::Faded => GhostState::Normal,
    }
}

/// How far above its resting height a floating entity of the given
/// amplitude stands when its two waves have the sines `sin1` and `sin2`,
/// shares of `UNIT`: the primary wave in full and three tenths of the
/// secondary.
pub open spec fn float_offset(amplitude: int, sin1: int, sin2: int) -> int {
    trunc_div(amplitude * sin1, UNIT as int) + trunc_div(3 * amplitude * sin2, 10 * UNIT)
}

impl FloatingAnimation {
    /// The arguments of the two waves after `elapsed` nanoseconds: the
    /// primary wave runs at the frequency, the secondary two and a half
    /// times as fast.
    pub open spec fn phases_spec(self, elapsed: u64) -> Phases {
        Phases {
            primary: (elapsed * self.frequency / (NANOS_PER_SECOND as int)) as u128,
            secondary: (elapsed * (self.frequency * 5 / 2) / (NANOS_PER_SECOND as int)) as u128,
        }
    }

    /// The height at which the entity is drawn when its two waves have
    /// the sines `sin1` and `sin2`.
    pub open spec fn floated(self, sin1: i64, sin2: i64) -> int {
        clamp(
            self.original_y + float_offset(self.amplitude as int, sin1 as int, sin2 as int),
            -COORD_MAX,
            COORD_MAX as int,
        )
    }

    /// The arguments of the two sine waves after `elapsed` nanoseconds of
    /// game time.
    pub fn phases(&self, elapsed: u64) -> (p: Phases)
        ensures
            p == self.phases_spec(elapsed),
    {
        let rate: u128 = self.frequency as u128;
        let faster: u128 = rate * 5 / 2;
        proof {
            assert(0 <= elapsed * rate <= 0xffff_ffff_ffff_ffff * 0xffff_ffff) by (nonlinear_arith)
                requires
                    0 <= elapsed <= 0xffff_ffff_ffff_ffff,
                    0 <= rate <= 0xffff_ffff,
            ;
            assert(0 <= elapsed * faster <= 0xffff_ffff_ffff_ffff * 0x2_ffff_ffff)
                by (nonlinear_arith)
                requires
                    0 <= elapsed <= 0xffff_ffff_ffff_ffff,
                    0 <= faster <= 0x2_ffff_ffff,
            ;
        }
        Phases {
            primary: (elapsed as u128) * rate / (NANOS_PER_SECOND as u128),
            secondary: (elapsed as u128) * faster / (NANOS_PER_SECOND as u128),
        }
    }

    /// The height at which the entity is drawn when its two waves have
    /// the sines `sin1` and `sin2`, shares of `UNIT`. The resting height
    /// is not changed.
    pub fn float_height(&self, sin1: i64, sin2: i64) -> (y: i64)
        requires
            -UNIT <= sin1 <= UNIT,
            -UNIT <= sin2 <= UNIT,
        ensures
            y == self.floated(sin1, sin2),
            -COORD_MAX <= y <= COORD_MAX,
    {
        proof {
            let a = self.amplitude as int;
            assert(-0x8000_0000_0000_0000 * 3_000_000 <= 3 * a * sin2 <= 0x8000_0000_0000_0000
                * 3_000_000 && -0x8000_0000_0000_0000 * 1_000_000 <= a * sin1
                <= 0x8000_0000_0000_0000 * 1_000_000) by (nonlinear_arith)
                requires
                    -0x8000_0000_0000_0000 <= a <= 0x8000_0000_0000_0000,
                    -1_000_000 <= sin1 <= 1_000_000,
                    -1_000_000 <= sin2 <= 1_000_000,
            ;
            crate::fixed::lemma_trunc_div_bounds(a * sin1, UNIT as int);
            crate::fixed::lemma_trunc_div_bounds(3 * a * sin2, 10 * UNIT);
        }
        let wide: i128 = self.amplitude as i128;
        let first: i128 = wide * (sin1 as i128) / (UNIT as i128);
        let second: i128 = 3 * wide * (sin2 as i128) / (10 * UNIT as i128);
        clamp_to(self.original_y as i128 + first + second, -COORD_MAX, COORD_MAX)
    }
}

impl Player {
    /// The invariant of the ghost: it is in the world, its rotation is
    /// within half a turn of zero, its scale is within bounds, its sack
    /// holds no more than its capacity, and its fade timer is a repeating
    /// one.
    pub open spec fn wf(self) -> bool {
        &&& self.position.wf()
        &&& -HALF_TURN <= self.rotation <= HALF_TURN
        &&& 0 <= self.scale <= SCALE_MAX
        &&& -COORD_MAX <= self.float.original_y <= COORD_MAX
        &&& self.sack.wf()
        &&& self.fade.wf()
        &&& self.fade.mode == TimerMode::Repeating
    }

    /// The ghost as the game starts: at the origin, at rest, in its
    /// normal look, with an empty sack.
    pub open spec fn initial() -> Player {
        Player {
            position: Vec2 { x: 0, y: 0 },
            rotation: 0,
            scale: GHOST_SCALE,
            speed: GHOST_SPEED,
            rotation_speed: GHOST_ROTATION_SPEED,
            state: GhostState::Normal,
            fade: Timer {
                mode: TimerMode::Repeating,
                duration: FADE_PERIOD,
                elapsed: 0,
                finished: false,
                just_finished: false,
            },
            sack: CandySack { capacity: SACK_CAPACITY, current: 0 },
            float: FloatingAnimation {
                original_y: 0,
                amplitude: GHOST_FLOAT_AMPLITUDE,
                frequency: GHOST_FLOAT_FREQUENCY,
            },
        }
    }

    /// The resting place of the ghost: where it is, floating left out.
    pub open spec fn resting(self) -> Vec2 {
        Vec2 { x: self.position.x, y: self.float.original_y }
    }

    /// Whether the pointer is far enough from the resting place for the
    /// ghost to turn and pulse.
    pub open spec fn heads_for(self, cursor: Vec2) -> bool {
        self.resting().dist_sq(cursor) > DEADBAND * DEADBAND
    }

    /// The share of the way to the pointer that the ghost covers on a
    /// tick of `delta`: its progress, capped at one, eased.
    pub open spec fn move_share(self, delta: u64) -> int {
        eased_progress_spec(delta, self.speed, UNIT as int)
    }

    /// The share of the way to its heading that the ghost turns on a tick
    /// of `delta`: the progress of its rotation speed, eased.
    pub open spec fn turn_share(self, delta: u64) -> int {
        eased_progress_spec(delta, self.rotation_speed, EASE_INPUT_MAX as int)
    }

    /// The ghost after a tick of `delta` with the pointer at `cursor`, in
    /// the direction `facing` from the resting place. The resting place
    /// moves toward the pointer by the eased share of the way. Away from
    /// the pointer the ghost turns toward the rotation that faces the
    /// pointer, and its scale pulses with the distance. The height at
    /// which the ghost is drawn is left to floating.
    pub open spec fn followed(self, cursor: Vec2, facing: i64, delta: u64) -> Player {
        Player {
            rotation: if self.heads_for(cursor) {
                turned(
                    self.rotation as int,
                    facing_rotation(facing as int),
                    self.turn_share(delta),
                ) as i64
            } else {
                self.rotation
            },
            position: Vec2 {
                x: lerp_spec(
                    self.position.x as int,
                    cursor.x as int,
                    self.move_share(delta),
                ) as i64,
                y: self.position.y,
            },
            scale: if self.heads_for(cursor) {
                pulse(self.resting().dist(cursor)) as i64
            } else {
                self.scale
            },
            float: FloatingAnimation {
                original_y: lerp_spec(
                    self.float.original_y as int,
                    cursor.y as int,
                    self.move_share(delta),
                ) as i64,
                ..self.float
            },
            ..self
        }
    }

    /// The ghost after the fade timer ran for `delta`: the look changes
    /// each time the timer completes.
    pub open spec fn faded(self, delta: u64) -> Player {
        Player {
            fade: self.fade.ticked(delta),
            state: if self.fade.ticked(delta).just_finished {
                other_look(self.state)
            } else {
                self.state
            },
            ..self
        }
    }

    /// The ghost as the game starts.
    pub fn new() -> (player: Player)
        ensures
            player == Player::initial(),
            player.wf(),
    {
        Player {
            position: Vec2::zero(),
            rotation: 0,
            scale: GHOST_SCALE,
            speed: GHOST_SPEED,
            rotation_speed: GHOST_ROTATION_SPEED,
            state: GhostState::Normal,
            fade: Timer::new(FADE_PERIOD, TimerMode::Repeating),
            sack: CandySack::new(SACK_CAPACITY),
            float: FloatingAnimation {
                original_y: 0,
                amplitude: GHOST_FLOAT_AMPLITUDE,
                frequency: GHOST_FLOAT_FREQUENCY,
            },
        }
    }

    /// The resting place of the ghost: where it is, floating left out.
    pub fn resting_place(&self) -> (place: Vec2)
        ensures
            place == self.resting(),
    {
        Vec2 { x: self.position.x, y: self.float.original_y }
    }

    /// One tick of following the pointer. `facing` is the direction from
    /// the resting place to the pointer, as an angle from the x axis.
    pub fn follow(&mut self, cursor: &Vec2, facing: i64, delta: u64)
        requires
            old(self).wf(),
            cursor.wf(),
        ensures
            *final(self) == old(self).followed(*cursor, facing, delta),
            final(self).wf(),
    {
        let current: Vec2 = self.resting_place();
        if current.beyond(cursor, DEADBAND) {
            let share: i64 = eased_progress(delta, self.rotation_speed, EASE_INPUT_MAX);
            let target: i64 = wrap(facing as i128 + QUARTER_TURN as i128);
            self.rotation = turn_toward(self.rotation, target, share);
            let distance: u64 = current.distance(cursor);
            self.scale = pulse_scale(distance);
        }
        let share: i64 = eased_progress(delta, self.speed, UNIT);
        let next: Vec2 = current.lerp(cursor, share);
        self.position.x = next.x;
        self.float.original_y = next.y;
    }

    /// One tick of fading: the timer runs, and each time it completes the
    /// ghost changes its look. Returns whether it did on this tick.
    pub fn fade(&mut self, delta: u64) -> (changed: bool)
        requires
            old(self).wf(),
        ensures
            *final(self) == old(self).faded(delta),
            changed == old(self).fade.ticked(delta).just_finished,
            final(self).wf(),
    {
        self.fade.tick(delta);
        if self.fade.just_finished() {
            self.state = match self.state {
                GhostState::Normal => GhostState::Faded,
                GhostState::Faded => GhostState::Normal,
            };
            true
        } else {
            false
        }
    }

    /// Floating: sets the height at which the ghost is drawn from its
    /// resting height and the sines of its two waves. Nothing else
    /// changes; above all the resting height does not.
    pub fn float_to(&mut self, sin1: i64, sin2: i64)
        requires
            old(self).wf(),
            -UNIT <= sin1 <= UNIT,
            -UNIT <= sin2 <= UNIT,
        ensures
            *final(self) == (Player {
                position: Vec2 {
                    x: old(self).position.x,
                    y: old(self).float.floated(sin1, sin2) as i64,
                },
                ..*old(self)
            }),
            final(self).wf(),
    {
        self.position.y = self.float.float_height(sin1, sin2);
    }
}

/// The size of a number.
pub open spec fn magnitude(a: int) -> int {
    if a >= 0 {
        a
    } else {
        -a
    }
}

/// Floating keeps an entity near its resting height. Where the resting
/// height is in the world, the height at which the entity is drawn is in
/// the world too, and no farther from the resting height than the two
/// waves can carry it together: 1.3 times the amplitude.
pub proof fn lemma_float_stays_near(anim: FloatingAnimation, sin1: i64, sin2: i64)
    requires
        -COORD_MAX <= anim.original_y <= COORD_MAX,
        -UNIT <= sin1 <= UNIT,
        -UNIT <= sin2 <= UNIT,
    ensures
        -COORD_MAX <= anim.floated(sin1, sin2) <= COORD_MAX,
        10 * magnitude(anim.floated(sin1, sin2) - anim.original_y) <= 13 * magnitude(
            anim.amplitude as int,
        ),
{
    let a = anim.amplitude as int;
    let m = magnitude(a);
    let x = a * sin1;
    let y = 3 * a * sin2;
    assert(-m * 1_000_000 <= x <= m * 1_000_000 && -3 * m * 1_000_000 <= y <= 3 * m * 1_000_000)
        by (nonlinear_arith)
        requires
            -m <= a <= m,
            x == a * sin1,
            y == 3 * a * sin2,
            -1_000_000 <= sin1 <= 1_000_000,
            -1_000_000 <= sin2 <= 1_000_000,
    ;
    let first = trunc_div(x, UNIT as int);
    let second = trunc_div(y, 10 * UNIT);
    assert(-m <= first <= m);
    assert(-3 * m <= 10 * second <= 3 * m);
}

/// Following the pointer keeps the ghost well formed.
pub proof fn lemma_followed_wf(p: Player, cursor: Vec2, facing: i64, delta: u64)
    requires
        p.wf(),
        cursor.wf(),
    ensures
        p.followed(cursor, facing, delta).wf(),
        p.followed(cursor, facing, delta).sack == p.sack,
{
    let share = p.move_share(delta);
    lemma_eased_share(delta, p.speed);
    lemma_share(cursor.x - p.position.x, share);
    lemma_share(cursor.y - p.float.original_y, share);
    let distance = p.resting().dist(cursor);
    if distance < PULSE_DISTANCE {
        assert(0 <= 200_000 * distance / 1_000_000_000 <= 20_000) by (nonlinear_arith)
            requires
                0 <= distance < 100_000_000,
        ;
    }
}

/// Fading keeps the ghost well formed.
pub proof fn lemma_faded_wf(p: Player, delta: u64)
    requires
        p.wf(),
    ensures
        p.faded(delta).wf(),
        p.faded(delta).sack == p.sack,
{
    lemma_ticked_wf(p.fade, delta);
}

/// The scale of a ghost whose pointer is `distance` away.
pub fn pulse_scale(distance: u64) -> (scale: i64)
    ensures
        scale == pulse(distance as nat),
        GHOST_SCALE <= scale <= GHOST_SCALE + GHOST_SCALE / 10,
{
    if distance >= PULSE_DISTANCE {
        GHOST_SCALE + GHOST_SCALE / 10
    } else {
        assert(0 <= 200_000 * distance <= 200_000 * 100_000_000 && 200_000 * distance
            / 1_000_000_000 <= 20_000) by (nonlinear_arith)
            requires
                0 <= distance < 100_000_000,
        ;
        GHOST_SCALE + ((GHOST_SCALE as u64) * distance / (10 * PULSE_DISTANCE)) as i64
    }
}

} // verus!
