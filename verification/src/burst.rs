//! The particle bursts of a hit, and the sparkles of a full meter.

use crate::angle::TAU;
use crate::chance::{chance, hits, lemma_partial, roll, spread, spread_spec};
use crate::fixed::{lemma_scaled_speed, mul_div, trunc_div, UNIT};
use crate::geometry::Vec2;
use crate::sack::{ProgressMeter, FULL};
use crate::timer::{Timer, TimerMode};
use crate::transient::{
    spawn_floating_text, Color, Message, ParticleSprite, Payload, TransientEntity,
};
use vstd::prelude::*;

verus! {

/// How far the rotation of a burst particle may be off its direction of
/// flight, either way: a tenth of a radian.
pub const BURST_SPREAD: i64 = 100_000;

/// How far the scale of a burst particle may be above the least scale of
/// its burst: 0.1.
pub const SCALE_VARIATION: i64 = 100_000;

/// The number of slow particles that trail a hit.
pub const TRAILING_COUNT: usize = 4;

/// The number of particles that a hit sets off: the three bursts and the
/// trailing ones.
pub const JACKPOT_PARTICLES: usize = 30;

/// The probability that a full meter throws a sparkle on a tick: 10
/// percent.
pub const SPARKLE_PROBABILITY: i64 = 100_000;

/// The largest speed and scale that a burst may be set to.
pub const BURST_LIMIT: i64 = 1_000_000_000_000_000;

/// The make of one ring of particles.
#[derive(Clone, Copy, PartialEq, Eq, Structural, Debug)]
pub struct BurstConfig {
    /// The number of particles, spread evenly round the circle.
    pub count: u32,
    pub min_speed: i64,
    pub max_speed: i64,
    pub min_scale: i64,
    /// The lifetime of each particle, in nanoseconds.
    pub lifetime: u64,
    pub color: Color,
}

/// A particle that is to be launched. It holds its flight in polar form,
/// as an angle and a speed.
#[derive(Clone, Copy, PartialEq, Eq, Structural, Debug)]
pub struct ParticleSeed {
    pub position: Vec2,
    /// The direction of flight, in radians.
    pub angle: i64,
    pub speed: i64,
    /// The rotation of the picture, in radians.
    pub rotation: i64,
    pub scale: i64,
    pub lifetime: u64,
    pub color: Color,
    pub sprite: ParticleSprite,
}

/// What a hit on the balloon sets off.
#[derive(Debug, PartialEq, Eq)]
pub struct Jackpot {
    /// The particles of the three bursts, inner, middle and outer, and
    /// then the trailing ones.
    pub particles: Vec<ParticleSeed>,
    pub text: TransientEntity,
}

/// What several strikes on the balloon set off.
#[derive(Debug, PartialEq, Eq)]
pub struct Jackpots {
    /// The particles of each strike, one strike after the other.
    pub particles: Vec<ParticleSeed>,
    /// The floating text of each strike.
    pub texts: Vec<TransientEntity>,
}

/// The inner burst: twelve fast, small, short-lived particles.
pub open spec fn inner_burst_spec() -> BurstConfig {
    BurstConfig {
        count: 12,
        min_speed: 200_000_000,
        max_speed: 300_000_000,
        min_scale: 100_000,
        lifetime: 500_000_000,
        color: Color { red: 1_000_000, green: 900_000, blue: 300_000 },
    }
}

/// The middle burst: eight particles.
pub open spec fn middle_burst_spec() -> BurstConfig {
    BurstConfig {
        count: 8,
        min_speed: 150_000_000,
        max_speed: 250_000_000,
        min_scale: 150_000,
        lifetime: 700_000_000,
        color: Color { red: 1_000_000, green: 800_000, blue: 0 },
    }
}

/// The outer burst: six slow, large, long-lived particles.
pub open spec fn outer_burst_spec() -> BurstConfig {
    BurstConfig {
        count: 6,
        min_speed: 100_000_000,
        max_speed: 200_000_000,
        min_scale: 200_000,
        lifetime: 1_000_000_000,
        color: Color { red: 900_000, green: 700_000, blue: 0 },
    }
}

/// Particle `index` of a burst of the make `config` at `position`, with
/// the three rolls that were drawn for it. The particles stand evenly
/// round the circle; the roll for the speed picks it within the range of
/// the burst, the roll for the spread turns the picture a little off the
/// direction of flight, and the roll for the scale adds a little to the
/// least scale.
pub open spec fn burst_seed(
    position: Vec2,
    config: BurstConfig,
    index: u32,
    speed_roll: u32,
    spread_roll: u32,
    scale_roll: u32,
) -> ParticleSeed {
    let angle = TAU * index / (config.count as int);
    ParticleSeed {
        position,
        angle: angle as i64,
        speed: spread_spec(speed_roll, config.min_speed as int, config.max_speed as int) as i64,
        rotation: (angle + spread_spec(spread_roll, -BURST_SPREAD, BURST_SPREAD as int)) as i64,
        scale: (config.min_scale + spread_spec(scale_roll, 0, SCALE_VARIATION as int)) as i64,
        lifetime: config.lifetime,
        color: config.color,
        sprite: ParticleSprite::MoneyShot,
    }
}

/// A trailing particle at `position`, with the two rolls that were drawn
/// for it: any direction, and a speed from 25 to 75 units per second.
pub open spec fn trailing_seed(position: Vec2, angle_roll: u32, speed_roll: u32) -> ParticleSeed {
    let angle = spread_spec(angle_roll, 0, TAU as int);
    ParticleSeed {
        position,
        angle: angle as i64,
        speed: spread_spec(speed_roll, 25_000_000, 75_000_000) as i64,
        rotation: angle as i64,
        scale: 250_000,
        lifetime: 1_500_000_000,
        color: Color { red: 1_000_000, green: 600_000, blue: 0 },
        sprite: ParticleSprite::MoneyShot,
    }
}

/// The sparkle that the four rolls make: somewhere on the screen, drifting
/// slowly.
pub open spec fn sparkle_spec(
    x_roll: u32,
    y_roll: u32,
    vx_roll: u32,
    vy_roll: u32,
) -> TransientEntity {
    TransientEntity {
        position: Vec2 {
            x: spread_spec(x_roll, -400_000_000, 400_000_000) as i64,
            y: spread_spec(y_roll, -300_000_000, 300_000_000) as i64,
        },
        lifetime: Timer {
            mode: TimerMode::Once,
            duration: 1_000_000_000,
            elapsed: 0,
            finished: false,
            just_finished: false,
        },
        alpha: UNIT,
        payload: Payload::Particle {
            velocity: Vec2 {
                x: spread_spec(vx_roll, -25_000_000, 25_000_000) as i64,
                y: spread_spec(vy_roll, -25_000_000, 25_000_000) as i64,
            },
            rotation: 0,
            scale: 200_000,
            color: Color { red: 1_000_000, green: 900_000, blue: 300_000 },
            sprite: ParticleSprite::Sparkle,
        },
    }
}

/// Whether `seed` is particle `index` of a burst of the make `config` at
/// `position`, for some three rolls.
pub open spec fn is_burst_seed(
    seed: ParticleSeed,
    position: Vec2,
    config: BurstConfig,
    index: int,
) -> bool {
    exists|a: u32, b: u32, c: u32|
        seed == #[trigger] burst_seed(position, config, index as u32, a, b, c)
}

/// Whether `seed` is a trailing particle at `position`, for some two
/// rolls.
pub open spec fn is_trailing_seed(seed: ParticleSeed, position: Vec2) -> bool {
    exists|a: u32, b: u32| seed == #[trigger] trailing_seed(position, a, b)
}

/// Whether `particle` is a sparkle, for some four rolls.
pub open spec fn is_sparkle(particle: TransientEntity) -> bool {
    exists|a: u32, b: u32, c: u32, d: u32| particle == #[trigger] sparkle_spec(a, b, c, d)
}

/// Every sparkle is a well-formed particle that has its life before it.
pub proof fn lemma_sparkle_wf(x_roll: u32, y_roll: u32, vx_roll: u32, vy_roll: u32)
    ensures
        sparkle_spec(x_roll, y_roll, vx_roll, vy_roll).wf(),
        !sparkle_spec(x_roll, y_roll, vx_roll, vy_roll).lifetime.finished,
{
    lemma_partial(800_000_000, x_roll as int);
    lemma_partial(600_000_000, y_roll as int);
}

impl BurstConfig {
    /// The invariant of a burst's make: speeds and scale that are not
    /// negative and not beyond the limit.
    pub open spec fn wf(self) -> bool {
        &&& 0 <= self.min_speed <= BURST_LIMIT
        &&& 0 <= self.max_speed <= BURST_LIMIT
        &&& 0 <= self.min_scale <= BURST_LIMIT
    }
}

impl ParticleSeed {
    /// The invariant of a seed: a place in the world and a speed that is
    /// not negative.
    pub open spec fn wf(self) -> bool {
        &&& self.position.wf()
        &&& self.speed >= 0
    }

    /// The particle that the seed becomes when it flies off along
    /// `direction`, a vector of length `UNIT`.
    pub open spec fn launched(self, direction: Vec2) -> TransientEntity {
        TransientEntity {
            position: self.position,
            lifetime: Timer {
                mode: TimerMode::Once,
                duration: self.lifetime,
                elapsed: 0,
                finished: false,
                just_finished: false,
            },
            alpha: UNIT,
            payload: Payload::Particle {
                velocity: Vec2 {
                    x: trunc_div(direction.x * self.speed, UNIT as int) as i64,
                    y: trunc_div(direction.y * self.speed, UNIT as int) as i64,
                },
                rotation: self.rotation,
                scale: self.scale,
                color: self.color,
                sprite: self.sprite,
            },
        }
    }

    /// Launches the particle along `direction`, the vector of length
    /// `UNIT` that points where the seed's angle does: its velocity is
    /// that direction at the seed's speed.
    pub fn launch(&self, direction: &Vec2) -> (particle: TransientEntity)
        requires
            self.wf(),
            -UNIT <= direction.x <= UNIT,
            -UNIT <= direction.y <= UNIT,
        ensures
            particle == self.launched(*direction),
            particle.wf(),
    {
        proof {
            lemma_scaled_speed(direction.x as int, self.speed as int);
            lemma_scaled_speed(direction.y as int, self.speed as int);
        }
        let vx: i128 = mul_div(direction.x, self.speed as u64, UNIT as u64);
        let vy: i128 = mul_div(direction.y, self.speed as u64, UNIT as u64);
        TransientEntity {
            position: self.position,
            lifetime: Timer::new(self.lifetime, TimerMode::Once),
            alpha: UNIT,
            payload: Payload::Particle {
                velocity: Vec2 { x: vx as i64, y: vy as i64 },
                rotation: self.rotation,
                scale: self.scale,
                color: self.color,
                sprite: self.sprite,
            },
        }
    }
}

/// The make of the inner burst.
pub fn inner_burst() -> (config: BurstConfig)
    ensures
        config == inner_burst_spec(),
        config.wf(),
{
    BurstConfig {
        count: 12,
        min_speed: 200_000_000,
        max_speed: 300_000_000,
        min_scale: 100_000,
        lifetime: 500_000_000,
        color: Color { red: 1_000_000, green: 900_000, blue: 300_000 },
    }
}

/// The make of the middle burst.
pub fn middle_burst() -> (config: BurstConfig)
    ensures
        config == middle_burst_spec(),
        config.wf(),
{
    BurstConfig {
        count: 8,
        min_speed: 150_000_000,
        max_speed: 250_000_000,
        min_scale: 150_000,
        lifetime: 700_000_000,
        color: Color { red: 1_000_000, green: 800_000, blue: 0 },
    }
}

/// The make of the outer burst.
pub fn outer_burst() -> (config: BurstConfig)
    ensures
        config == outer_burst_spec(),
        config.wf(),
{
    BurstConfig {
        count: 6,
        min_speed: 100_000_000,
        max_speed: 200_000_000,
        min_scale: 200_000,
        lifetime: 1_000_000_000,
        color: Color { red: 900_000, green: 700_000, blue: 0 },
    }
}

/// Makes particle `index` of a burst from the three rolls drawn for it.
pub fn burst_particle(
    position: &Vec2,
    config: &BurstConfig,
    index: u32,
    speed_roll: u32,
    spread_roll: u32,
    scale_roll: u32,
) -> (seed: ParticleSeed)
    requires
        position.wf(),
        config.wf(),
        index < config.count,
    ensures
        seed == burst_seed(*position, *config, index, speed_roll, spread_roll, scale_roll),
        seed.wf(),
        0 <= seed.angle < TAU,
        config.min_speed <= config.max_speed ==> config.min_speed <= seed.speed
            <= config.max_speed,
        seed.angle - BURST_SPREAD <= seed.rotation < seed.angle + BURST_SPREAD,
        config.min_scale <= seed.scale < config.min_scale + SCALE_VARIATION,
{
    proof {
        let i = index as int;
        let c = config.count as int;
        assert(0 <= (6_283_185 * i) / c < 6_283_185) by (nonlinear_arith)
            requires
                0 <= i < c,
        ;
    }
    let angle: i64 = ((TAU as u64) * (index as u64) / (config.count as u64)) as i64;
    let speed: i64 = spread(speed_roll, config.min_speed, config.max_speed);
    let turn: i64 = spread(spread_roll, -BURST_SPREAD, BURST_SPREAD);
    let extra: i64 = spread(scale_roll, 0, SCALE_VARIATION);
    ParticleSeed {
        position: *position,
        angle,
        speed,
        rotation: angle + turn,
        scale: config.min_scale + extra,
        lifetime: config.lifetime,
        color: config.color,
        sprite: ParticleSprite::MoneyShot,
    }
}

/// Makes a trailing particle from the two rolls drawn for it.
pub fn trailing_particle(position: &Vec2, angle_roll: u32, speed_roll: u32) -> (seed: ParticleSeed)
    requires
        position.wf(),
    ensures
        seed == trailing_seed(*position, angle_roll, speed_roll),
        seed.wf(),
        0 <= seed.angle < TAU,
        25_000_000 <= seed.speed < 75_000_000,
{
    let angle: i64 = spread(angle_roll, 0, TAU);
    let speed: i64 = spread(speed_roll, 25_000_000, 75_000_000);
    ParticleSeed {
        position: *position,
        angle,
        speed,
        rotation: angle,
        scale: 250_000,
        lifetime: 1_500_000_000,
        color: Color { red: 1_000_000, green: 600_000, blue: 0 },
        sprite: ParticleSprite::MoneyShot,
    }
}

/// One ring of particles at `position`: as many as the make says, evenly
/// round the circle, each with a speed, a spread and a scale of its own
/// that the dice decide.
pub fn spawn_money_burst(position: &Vec2, config: &BurstConfig) -> (seeds: Vec<ParticleSeed>)
    requires
        position.wf(),
        config.wf(),
    ensures
        seeds@.len() == config.count,
        forall|i: int|
            0 <= i < seeds@.len() ==> is_burst_seed(#[trigger] seeds@[i], *position, *config, i),
        forall|i: int| 0 <= i < seeds@.len() ==> (#[trigger] seeds@[i]).wf(),
{
    let mut seeds: Vec<ParticleSeed> = Vec::new();
    let mut index: u32 = 0;
    while index < config.count
        invariant
            index <= config.count,
            position.wf(),
            config.wf(),
            seeds@.len() == index,
            forall|i: int|
                0 <= i < seeds@.len() ==> is_burst_seed(
                    #[trigger] seeds@[i],
                    *position,
                    *config,
                    i,
                ),
            forall|i: int| 0 <= i < seeds@.len() ==> (#[trigger] seeds@[i]).wf(),
        decreases config.count - index,
    {
        let speed_roll: u32 = roll();
        let spread_roll: u32 = roll();
        let scale_roll: u32 = roll();
        let seed = burst_particle(position, config, index, speed_roll, spread_roll, scale_roll);
        seeds.push(seed);
        assert(seeds@[index as int] == burst_seed(
            *position,
            *config,
            index,
            speed_roll,
            spread_roll,
            scale_roll,
        ));
        index = index + 1;
    }
    seeds
}

/// Whether `particles` are what a hit on a balloon at `position` sets
/// off: the twelve particles of the inner burst, the eight of the middle
/// and the six of the outer one, and four trailing particles, each for
/// some rolls.
pub open spec fn is_jackpot(particles: Seq<ParticleSeed>, position: Vec2) -> bool {
    &&& particles.len() == JACKPOT_PARTICLES
    &&& forall|i: int|
        0 <= i < 12 ==> is_burst_seed(#[trigger] particles[i], position, inner_burst_spec(), i)
    &&& forall|i: int|
        12 <= i < 20 ==> is_burst_seed(
            #[trigger] particles[i],
            position,
            middle_burst_spec(),
            i - 12,
        )
    &&& forall|i: int|
        20 <= i < 26 ==> is_burst_seed(
            #[trigger] particles[i],
            position,
            outer_burst_spec(),
            i - 20,
        )
    &&& forall|i: int| 26 <= i < 30 ==> is_trailing_seed(#[trigger] particles[i], position)
}

/// The particles of strike `k` among the particles of several strikes.
pub open spec fn jackpot_block(particles: Seq<ParticleSeed>, k: int) -> Seq<ParticleSeed> {
    particles.subrange(JACKPOT_PARTICLES * k, JACKPOT_PARTICLES * k + JACKPOT_PARTICLES)
}

/// Whether `particles` are what `hits` strikes on a balloon at `position`
/// set off: for each strike the particles of a jackpot, one strike after
/// the other.
pub open spec fn is_jackpots(particles: Seq<ParticleSeed>, position: Vec2, hits: nat) -> bool {
    &&& particles.len() == JACKPOT_PARTICLES * hits
    &&& forall|k: int|
        0 <= k < hits ==> is_jackpot(#[trigger] jackpot_block(particles, k), position)
}

/// The floating texts that `hits` strikes on a balloon at `position` set
/// off: one for each.
pub open spec fn jackpot_texts(position: Vec2, hits: nat) -> Seq<TransientEntity> {
    Seq::new(hits, |k: int| TransientEntity::text_at(position, Message::Jackpot))
}

/// What a hit on a balloon at `position` sets off: the inner, the middle
/// and the outer burst, four trailing particles, and a floating text.
pub fn jackpot(position: &Vec2) -> (effects: Jackpot)
    requires
        position.wf(),
    ensures
        is_jackpot(effects.particles@, *position),
        effects.particles@.len() == JACKPOT_PARTICLES,
        forall|i: int|
            0 <= i < 12 ==> is_burst_seed(
                #[trigger] effects.particles@[i],
                *position,
                inner_burst_spec(),
                i,
            ),
        forall|i: int|
            12 <= i < 20 ==> is_burst_seed(
                #[trigger] effects.particles@[i],
                *position,
                middle_burst_spec(),
                i - 12,
            ),
        forall|i: int|
            20 <= i < 26 ==> is_burst_seed(
                #[trigger] effects.particles@[i],
                *position,
                outer_burst_spec(),
                i - 20,
            ),
        forall|i: int|
            26 <= i < 30 ==> is_trailing_seed(#[trigger] effects.particles@[i], *position),
        forall|i: int| 0 <= i < 30 ==> (#[trigger] effects.particles@[i]).wf(),
        effects.text == TransientEntity::text_at(*position, Message::Jackpot),
        effects.text.wf(),
{
    let mut particles: Vec<ParticleSeed> = spawn_money_burst(position, &inner_burst());
    let ghost inner = particles@;
    let mut middle: Vec<ParticleSeed> = spawn_money_burst(position, &middle_burst());
    let ghost middle_seeds = middle@;
    let mut outer: Vec<ParticleSeed> = spawn_money_burst(position, &outer_burst());
    let ghost outer_seeds = outer@;
    particles.append(&mut middle);
    particles.append(&mut outer);
    let ghost rings = inner + middle_seeds + outer_seeds;
    assert(particles@ =~= rings);
    let mut count: usize = 0;
    while count < TRAILING_COUNT
        invariant
            count <= TRAILING_COUNT,
            position.wf(),
            rings.len() == 26,
            particles@.len() == 26 + count,
            forall|i: int| 0 <= i < 26 ==> particles@[i] == rings[i],
            forall|i: int|
                26 <= i < particles@.len() ==> is_trailing_seed(
                    #[trigger] particles@[i],
                    *position,
                ),
            forall|i: int| 26 <= i < particles@.len() ==> (#[trigger] particles@[i]).wf(),
        decreases TRAILING_COUNT - count,
    {
        let angle_roll: u32 = roll();
        let speed_roll: u32 = roll();
        let seed = trailing_particle(position, angle_roll, speed_roll);
        particles.push(seed);
        assert(particles@[26 + count] == trailing_seed(*position, angle_roll, speed_roll));
        count = count + 1;
    }
    proof {
        assert(inner.len() == 12 && middle_seeds.len() == 8 && outer_seeds.len() == 6);
        assert forall|i: int| 0 <= i < 26 implies particles@[i] == if i < 12 {
            inner[i]
        } else if i < 20 {
            middle_seeds[i - 12]
        } else {
            outer_seeds[i - 20]
        } by {
            assert(particles@[i] == rings[i]);
            if i < 20 {
                assert(rings[i] == (inner + middle_seeds)[i]);
            }
        }
        assert forall|i: int| 0 <= i < 12 implies is_burst_seed(
            #[trigger] particles@[i],
            *position,
            inner_burst_spec(),
            i,
        ) by {
            assert(particles@[i] == inner[i]);
        }
        assert forall|i: int| 12 <= i < 20 implies is_burst_seed(
            #[trigger] particles@[i],
            *position,
            middle_burst_spec(),
            i - 12,
        ) by {
            assert(particles@[i] == middle_seeds[i - 12]);
        }
        assert forall|i: int| 20 <= i < 26 implies is_burst_seed(
            #[trigger] particles@[i],
            *position,
            outer_burst_spec(),
            i - 20,
        ) by {
            assert(particles@[i] == outer_seeds[i - 20]);
        }
        assert forall|i: int| 0 <= i < 30 implies (#[trigger] particles@[i]).wf() by {
            if i < 12 {
                assert(particles@[i] == inner[i]);
            } else if i < 20 {
                assert(particles@[i] == middle_seeds[i - 12]);
            } else if i < 26 {
                assert(particles@[i] == outer_seeds[i - 20]);
            }
        }
    }
    let text = spawn_floating_text(*position, Message::Jackpot);
    Jackpot { particles, text }
}

/// What `hits` strikes on a balloon at `position` set off: a jackpot for
/// each of them, particles and text, one after the other.
pub fn jackpots(position: &Vec2, hits: usize) -> (effects: Jackpots)
    requires
        position.wf(),
    ensures
        is_jackpots(effects.particles@, *position, hits as nat),
        effects.texts@ == jackpot_texts(*position, hits as nat),
        forall|i: int|
            0 <= i < effects.particles@.len() ==> (#[trigger] effects.particles@[i]).wf(),
        forall|i: int|
            0 <= i < effects.texts@.len() ==> (#[trigger] effects.texts@[i]).wf()
                && !effects.texts@[i].lifetime.finished,
{
    let mut particles: Vec<ParticleSeed> = Vec::new();
    let mut texts: Vec<TransientEntity> = Vec::new();
    let mut done: usize = 0;
    while done < hits
        invariant
            done <= hits,
            position.wf(),
            is_jackpots(particles@, *position, done as nat),
            texts@ == jackpot_texts(*position, done as nat),
            forall|i: int| 0 <= i < particles@.len() ==> (#[trigger] particles@[i]).wf(),
        decreases hits - done,
    {
        let one: Jackpot = jackpot(position);
        let ghost before = particles@;
        let ghost added = one.particles@;
        let mut seeds: Vec<ParticleSeed> = one.particles;
        particles.append(&mut seeds);
        texts.push(one.text);
        proof {
            assert(particles@ == before + added);
            assert forall|k: int| 0 <= k < done + 1 implies is_jackpot(
                #[trigger] jackpot_block(particles@, k),
                *position,
            ) by {
                if k < done {
                    assert(jackpot_block(particles@, k) =~= jackpot_block(before, k));
                } else {
                    assert(jackpot_block(particles@, k) =~= added);
                }
            }
            assert forall|i: int| 0 <= i < particles@.len() implies (
            #[trigger] particles@[i]).wf() by {
                if i >= before.len() {
                    assert(particles@[i] == added[i - before.len()]);
                }
            }
            assert(texts@ =~= jackpot_texts(*position, (done + 1) as nat));
        }
        done = done + 1;
    }
    proof {
        assert forall|i: int| 0 <= i < texts@.len() implies (#[trigger] texts@[i]).wf()
            && !texts@[i].lifetime.finished by {
            crate::transient::lemma_text_wf(*position, Message::Jackpot);
        }
    }
    Jackpots { particles, texts }
}

/// Makes a sparkle from the four rolls drawn for it.
pub fn sparkle(x_roll: u32, y_roll: u32, vx_roll: u32, vy_roll: u32) -> (particle: TransientEntity)
    ensures
        particle == sparkle_spec(x_roll, y_roll, vx_roll, vy_roll),
        particle.wf(),
{
    TransientEntity {
        position: Vec2 {
            x: spread(x_roll, -400_000_000, 400_000_000),
            y: spread(y_roll, -300_000_000, 300_000_000),
        },
        lifetime: Timer::new(1_000_000_000, TimerMode::Once),
        alpha: UNIT,
        payload: Payload::Particle {
            velocity: Vec2 {
                x: spread(vx_roll, -25_000_000, 25_000_000),
                y: spread(vy_roll, -25_000_000, 25_000_000),
            },
            rotation: 0,
            scale: 200_000,
            color: Color { red: 1_000_000, green: 900_000, blue: 300_000 },
            sprite: ParticleSprite::Sparkle,
        },
    }
}

/// What a meter throws on the five rolls given: on a full meter and a
/// roll under the sparkle probability the sparkle that the other four
/// rolls make, and else nothing.
pub open spec fn sparkle_thrown(
    meter: Option<ProgressMeter>,
    chance_roll: u32,
    x_roll: u32,
    y_roll: u32,
    vx_roll: u32,
    vy_roll: u32,
) -> Option<TransientEntity> {
    if sparkles(meter, chance_roll) {
        Some(sparkle_spec(x_roll, y_roll, vx_roll, vy_roll))
    } else {
        None
    }
}

/// Whether `particle` is what the meter throws, for some five rolls.
pub open spec fn is_sparkle_throw(
    meter: Option<ProgressMeter>,
    particle: Option<TransientEntity>,
) -> bool {
    exists|c: u32, x: u32, y: u32, vx: u32, vy: u32|
        particle == #[trigger] sparkle_thrown(meter, c, x, y, vx, vy)
}

/// The sparkle of a tick, decided by the roll `chance_roll`: a full meter
/// throws one with the sparkle probability, and a meter that is missing
/// or not full throws none.
pub fn sparkle_with(
    meter: &Option<ProgressMeter>,
    chance_roll: u32,
    x_roll: u32,
    y_roll: u32,
    vx_roll: u32,
    vy_roll: u32,
) -> (particle: Option<TransientEntity>)
    requires
        *meter matches Some(m) ==> m.wf(),
    ensures
        particle == sparkle_thrown(*meter, chance_roll, x_roll, y_roll, vx_roll, vy_roll),
        particle matches Some(p) ==> p.wf() && p.lifetime.fresh(),
{
    let full: bool = match meter {
        Some(m) => m.is_full(),
        None => false,
    };
    if full && chance(chance_roll, SPARKLE_PROBABILITY) {
        Some(sparkle(x_roll, y_roll, vx_roll, vy_roll))
    } else {
        None
    }
}

/// Whether a meter throws a sparkle on the roll `chance_roll`.
pub open spec fn sparkles(meter: Option<ProgressMeter>, chance_roll: u32) -> bool {
    &&& meter matches Some(m) && m.value >= FULL
    &&& hits(chance_roll, SPARKLE_PROBABILITY)
}

/// The sparkles of a full meter: on every tick the dice are rolled, and
/// on a tick on which the meter is full they decide whether a sparkle
/// appears, and where.
pub fn throw_sparkle(meter: &Option<ProgressMeter>) -> (particle: Option<
    TransientEntity,
>)
    requires
        *meter matches Some(m) ==> m.wf(),
    ensures
        is_sparkle_throw(*meter, particle),
        !(*meter matches Some(m) && m.value >= FULL) ==> particle is None,
        particle matches Some(p) ==> p.wf() && p.lifetime.fresh() && is_sparkle(p),
{
    let chance_roll: u32 = roll();
    let x_roll: u32 = roll();
    let y_roll: u32 = roll();
    let vx_roll: u32 = roll();
    let vy_roll: u32 = roll();
    let particle = sparkle_with(meter, chance_roll, x_roll, y_roll, vx_roll, vy_roll);
    proof {
        assert(particle == sparkle_thrown(*meter, chance_roll, x_roll, y_roll, vx_roll, vy_roll));
        if particle is Some {
            assert(particle->0 == sparkle_spec(x_roll, y_roll, vx_roll, vy_roll));
        }
    }
    particle
}

} // verus!
