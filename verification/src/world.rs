//! The world: everything that the simulation keeps between ticks, and one
//! operation for each system that runs on a tick.
//!
//! The ghost, the pumpkin, the balloon and the meter may each be missing,
//! before they are spawned or after they are destroyed. A system that
//! needs one that is missing does nothing on that tick.

use crate::burst::{
    is_jackpots, is_sparkle, jackpot_texts, jackpots, lemma_sparkle_wf, sparkle_spec,
    throw_sparkle, Jackpots, ParticleSeed,
};
use crate::chance::draw;
use crate::fixed::UNIT;
use crate::game_state::GameState;
use crate::geometry::Vec2;
use crate::house::{
    build_houses, grid_position, is_light_cycle, is_light_cycle_due, lemma_house_stays_wf,
    light_cycle_due, light_cycle_with, light_cycled, House, HouseState, HOUSE_COUNT,
    LIGHT_INTERVAL,
};
use crate::interaction::{
    candies_after, deposit_candy, deposits, filled, finds_after, collect_loot, loot_events,
    loot_texts, notice_action, visit_houses, DepositEvent, NoticeAction,
};
use crate::inventory::{LootType, PlayerInventory};
use crate::player::{lemma_faded_wf, lemma_followed_wf, Phases, Player};
use crate::projectile::{
    fire_bullet, fires, flown_all, lemma_flown_wf, lemma_resolve_wf, lemma_shot_wf, resolve,
    resolve_bullets, shot, target_of, Bullet, FloatingTarget,
};
use crate::sack::{lemma_credited_wf, lemma_increase_bounds, CandySack, ProgressMeter, FULL};
use crate::timer::{lemma_ticked_wf, TimerMode};
use crate::trail::{
    is_trail_of, leave_trail, lemma_trail_wf, trail_of, TrailSettings, TRAIL_INTERVAL,
};
use crate::transient::{
    aged_all, expired, lemma_aged_wf, lemma_pruned_members, lemma_text_wf, pruned,
    spawn_floating_text, update_transients, Message, TransientEntity,
};
use vstd::prelude::*;

verus! {

/// The state of the simulation.
pub struct World {
    /// The ghost, once it is spawned.
    pub player: Option<Player>,
    pub houses: Vec<House>,
    /// The place of the pumpkin, where candy is deposited.
    pub pumpkin: Option<Vec2>,
    /// The balloon, until it is hit.
    pub balloon: Option<FloatingTarget>,
    /// The bullets in flight.
    pub bullets: Vec<Bullet>,
    /// The particles, floating texts and trail copies that are alive.
    pub transients: Vec<TransientEntity>,
    pub meter: Option<ProgressMeter>,
    pub inventory: PlayerInventory,
    pub trail: TrailSettings,
    /// Whether the notice of a full sack is on show. There is at most
    /// one.
    pub notice_shown: bool,
}

/// The world as contracts see it: its collections as sequences.
pub struct WorldView {
    pub player: Option<Player>,
    pub houses: Seq<House>,
    pub pumpkin: Option<Vec2>,
    pub balloon: Option<FloatingTarget>,
    pub bullets: Seq<Bullet>,
    pub transients: Seq<TransientEntity>,
    pub meter: Option<ProgressMeter>,
    pub candies: u32,
    pub rare_items: Seq<LootType>,
    pub trail: TrailSettings,
    pub notice_shown: bool,
}

/// The sines of the two waves of a floating motion, shares of `UNIT`.
#[derive(Clone, Copy, PartialEq, Eq, Structural, Debug)]
pub struct Sines {
    pub primary: i64,
    pub secondary: i64,
}

/// What a tick is given: the time, the pointer, the buttons, and what
/// only trigonometry can tell: the direction of the pointer as an angle,
/// and the sines of the waves on which the ghost and the balloon float.
#[derive(Clone, Copy, PartialEq, Eq, Structural, Debug)]
pub struct TickInput {
    /// The length of the tick, in nanoseconds.
    pub delta: u64,
    /// The game time at the end of the tick, in nanoseconds.
    pub elapsed: u64,
    /// Where the pointer is.
    pub cursor: Vec2,
    /// The direction from the resting place of the ghost to the pointer,
    /// as an angle from the x axis.
    pub facing: i64,
    /// Whether the left button was pressed on this tick.
    pub left: bool,
    /// Whether the right button was pressed on this tick.
    pub right: bool,
    /// Where the game stands: a paused game does not tick at all, and the
    /// ghost trick-or-treats only while the game is being played.
    pub state: GameState,
    pub ghost_sines: Sines,
    pub balloon_sines: Sines,
}

/// What a tick hands back, beside the new state of the world.
#[derive(Debug, PartialEq, Eq)]
pub struct TickOutput {
    /// Whether the ghost changed its look.
    pub look_changed: bool,
    /// Whether the ghost left a copy behind.
    pub trail_spawned: bool,
    pub notice: NoticeAction,
    pub deposit: Option<DepositEvent>,
    /// Whether the meter threw a sparkle.
    pub sparkle_spawned: bool,
    /// The particles that the strikes on the balloon set off, a jackpot
    /// for each, which are still to be launched.
    pub particles: Vec<ParticleSeed>,
    /// Whether a bullet was sent off.
    pub fired: bool,
    /// How many transient entities were removed.
    pub removed: usize,
}

impl View for World {
    type V = WorldView;

    open spec fn view(&self) -> WorldView {
        WorldView {
            player: self.player,
            houses: self.houses@,
            pumpkin: self.pumpkin,
            balloon: self.balloon,
            bullets: self.bullets@,
            transients: self.transients@,
            meter: self.meter,
            candies: self.inventory.candies,
            rare_items: self.inventory.rare_items@,
            trail: self.trail,
            notice_shown: self.notice_shown,
        }
    }
}

impl Sines {
    /// Whether both sines lie between minus one and one.
    pub open spec fn wf(self) -> bool {
        &&& -UNIT <= self.primary <= UNIT
        &&& -UNIT <= self.secondary <= UNIT
    }
}

impl TickInput {
    /// Whether the pointer is in the world and the sines are sines.
    pub open spec fn wf(self) -> bool {
        &&& self.cursor.wf()
        &&& self.ghost_sines.wf()
        &&& self.balloon_sines.wf()
    }
}

impl WorldView {
    /// The invariant of the world: every part of it is well formed. So
    /// the sack never holds more than its capacity, the meter reads
    /// between 0 and 100 percent, the light flag of every house agrees
    /// with its state, and no transient entity outlives its lifetime.
    pub open spec fn wf(self) -> bool {
        &&& self.player matches Some(p) ==> p.wf()
        &&& forall|i: int| 0 <= i < self.houses.len() ==> (#[trigger] self.houses[i]).wf()
        &&& self.pumpkin matches Some(p) ==> p.wf()
        &&& self.balloon matches Some(b) ==> b.wf()
        &&& forall|i: int| 0 <= i < self.bullets.len() ==> (#[trigger] self.bullets[i]).wf()
        &&& forall|i: int| 0 <= i < self.transients.len() ==> (#[trigger] self.transients[i]).wf()
        &&& forall|i: int|
            0 <= i < self.transients.len() ==> !(#[trigger] self.transients[i]).lifetime.finished
        &&& self.meter matches Some(m) ==> m.wf()
        &&& self.trail.wf()
    }

    /// A world in which nothing has been spawned yet.
    pub open spec fn empty() -> WorldView {
        WorldView {
            player: None,
            houses: Seq::empty(),
            pumpkin: None,
            balloon: None,
            bullets: Seq::empty(),
            transients: Seq::empty(),
            meter: None,
            candies: 0,
            rare_items: Seq::empty(),
            trail: TrailSettings {
                spawn_timer: crate::timer::Timer {
                    mode: TimerMode::Repeating,
                    duration: TRAIL_INTERVAL,
                    elapsed: 0,
                    finished: false,
                    just_finished: false,
                },
            },
            notice_shown: false,
        }
    }

    /// The world after the ghost followed the pointer for a tick.
    pub open spec fn mouse_followed(self, cursor: Vec2, facing: i64, delta: u64) -> WorldView {
        WorldView {
            player: match self.player {
                Some(p) => Some(p.followed(cursor, facing, delta)),
                None => None,
            },
            ..self
        }
    }

    /// The world after a tick of fading.
    pub open spec fn faded(self, delta: u64) -> WorldView {
        WorldView {
            player: match self.player {
                Some(p) => Some(p.faded(delta)),
                None => None,
            },
            ..self
        }
    }

    /// The world after the ghost and the balloon were set to the heights
    /// that their waves give them.
    pub open spec fn floated(self, ghost: Sines, balloon: Sines) -> WorldView {
        WorldView {
            player: match self.player {
                Some(p) => Some(
                    Player {
                        position: Vec2 {
                            x: p.position.x,
                            y: p.float.floated(ghost.primary, ghost.secondary) as i64,
                        },
                        ..p
                    },
                ),
                None => None,
            },
            balloon: match self.balloon {
                Some(b) => Some(
                    FloatingTarget {
                        position: Vec2 {
                            x: b.position.x,
                            y: b.float.floated(balloon.primary, balloon.secondary) as i64,
                        },
                        ..b
                    },
                ),
                None => None,
            },
            ..self
        }
    }

    /// Whether the ghost changes its look on a tick of `delta`.
    pub open spec fn look_changes(self, delta: u64) -> bool {
        self.player matches Some(p) && p.fade.ticked(delta).just_finished
    }

    /// Whether the ghost leaves a copy behind on a tick of `delta`: the
    /// spawn timer completes and the ghost is there.
    pub open spec fn trail_due(self, delta: u64) -> bool {
        self.trail.spawn_timer.ticked(delta).just_finished && self.player is Some
    }

    /// Whether `after` is this world after a tick of the trail: the spawn
    /// timer has run, and where a copy is due, some copy of the ghost has
    /// joined the transient entities. Nothing else has changed.
    pub open spec fn trail_left(self, after: WorldView, delta: u64) -> bool {
        &&& after == (WorldView {
            trail: TrailSettings { spawn_timer: self.trail.spawn_timer.ticked(delta) },
            transients: after.transients,
            ..self
        })
        &&& if self.trail_due(delta) {
            &&& after.transients.len() == self.transients.len() + 1
            &&& after.transients.drop_last() == self.transients
            &&& is_trail_of(after.transients.last(), self.player->0)
        } else {
            after.transients == self.transients
        }
    }

    /// Whether `after` is this world after the light cycle looked at a
    /// tick that ends at `elapsed` and took `delta`: outside a round of
    /// light switching the houses are as they were; in a round each one
    /// has gone by a roll of its own, for some rolls. Nothing else has
    /// changed.
    pub open spec fn lights_cycled(self, after: WorldView, elapsed: u64, delta: u64) -> bool {
        &&& after == (WorldView { houses: after.houses, ..self })
        &&& is_light_cycle(self.houses, after.houses, elapsed, delta)
    }

    /// The world after the light cycle looked at a tick that ends at
    /// `elapsed` and took `delta`, with the rolls `rolls` at hand: in a
    /// round of light switching house `i` has switched its light if
    /// `rolls[i]` falls under the flip probability, and outside one
    /// nothing has changed.
    pub open spec fn lights_cycled_with(
        self,
        elapsed: u64,
        delta: u64,
        rolls: Seq<u32>,
    ) -> WorldView {
        WorldView { houses: light_cycled(self.houses, elapsed, delta, rolls), ..self }
    }

    /// Whether `after` is this world after a full meter had its chance
    /// to throw a sparkle: either nothing has changed, or the meter is
    /// full and some sparkle has joined the transient entities.
    pub open spec fn sparkled(self, after: WorldView) -> bool {
        &&& after == (WorldView { transients: after.transients, ..self })
        &&& {
            ||| after.transients == self.transients
            ||| {
                &&& self.meter matches Some(m) && m.full
                &&& after.transients.len() == self.transients.len() + 1
                &&& after.transients.drop_last() == self.transients
                &&& is_sparkle(after.transients.last())
            }
        }
    }

    /// What a tick of trick-or-treating does about the notice of a full
    /// sack.
    pub open spec fn visit_notice(self) -> NoticeAction {
        match self.player {
            Some(p) => notice_action(self.notice_shown, p.sack),
            None => NoticeAction::Keep,
        }
    }

    /// The deposit that is made on this tick, if one is due.
    pub open spec fn deposit_event(self) -> Option<DepositEvent> {
        if self.deposit_due() {
            Some(
                DepositEvent {
                    candies: self.player->0.sack.current,
                    notice_removed: self.notice_shown,
                },
            )
        } else {
            None
        }
    }

    /// Whether `particles` are what a tick of the bullets sets off: the
    /// particles of a jackpot for every bullet that strikes the balloon,
    /// and none where none does.
    pub open spec fn sets_off(self, particles: Seq<ParticleSeed>, delta: u64) -> bool {
        if self.balloon_hit(delta) {
            is_jackpots(particles, self.balloon->0.position, self.strikes(delta))
        } else {
            particles.len() == 0
        }
    }

    /// The world after a tick of trick-or-treating. The notice of a full
    /// sack follows the sack as the tick finds it; every house takes its
    /// turn; each completed visit puts a candy into the sack, as far as
    /// it goes, is recorded in the inventory, and raises a floating text
    /// at its house. Without a ghost nothing happens.
    pub open spec fn visited(self, delta: u64) -> WorldView {
        match self.player {
            Some(p) => {
                let events = loot_events(self.houses, p.position, delta);
                WorldView {
                    player: Some(Player { sack: filled(p.sack, events.len()), ..p }),
                    houses: Seq::new(
                        self.houses.len(),
                        |i: int| self.houses[i].visited(p.position, delta),
                    ),
                    notice_shown: p.sack.current >= p.sack.capacity,
                    candies: candies_after(self.candies, events),
                    rare_items: finds_after(self.rare_items, events),
                    transients: self.transients + loot_texts(self.candies, events),
                    ..self
                }
            },
            None => self,
        }
    }

    /// Whether the ghost deposits on this tick: the ghost, the pumpkin
    /// and the meter are there, and the ghost is in range of the pumpkin
    /// with candy in its sack.
    pub open spec fn deposit_due(self) -> bool {
        &&& self.player matches Some(p)
        &&& self.pumpkin matches Some(at)
        &&& deposits(p.position, at, p.sack, self.meter)
    }

    /// The world after the deposit, where one is due: the meter has
    /// risen by the worth of the sack, the sack is empty, the notice of
    /// a full sack is down, and a floating text at the pumpkin tells how
    /// many candies were handed over. Where none is due, and so where
    /// the ghost, the pumpkin or the meter is missing, nothing happens.
    pub open spec fn deposited(self) -> WorldView {
        if self.deposit_due() {
            let p = self.player->0;
            WorldView {
                player: Some(Player { sack: CandySack { current: 0, ..p.sack }, ..p }),
                meter: Some(self.meter->0.credited(p.sack.current, p.sack.capacity)),
                notice_shown: false,
                transients: self.transients.push(
                    TransientEntity::text_at(self.pumpkin->0, Message::Deposited(p.sack.current)),
                ),
                ..self
            }
        } else {
            self
        }
    }

    /// The number of bullets that strike the balloon on a tick of
    /// `delta`.
    pub open spec fn strikes(self, delta: u64) -> nat {
        resolve(flown_all(self.bullets, delta), target_of(self.balloon)).hits
    }

    /// Whether a bullet hits the balloon on a tick of `delta`.
    pub open spec fn balloon_hit(self, delta: u64) -> bool {
        self.balloon is Some && self.strikes(delta) > 0
    }

    /// The world after a tick of the bullets: they have flown on, those
    /// that struck the balloon are used up, and the lost ones are given
    /// up. If any struck the balloon, the balloon is gone, and for each
    /// that did a floating text stands where the balloon was.
    pub open spec fn bullets_resolved(self, delta: u64) -> WorldView {
        let outcome = resolve(flown_all(self.bullets, delta), target_of(self.balloon));
        if self.balloon_hit(delta) {
            WorldView {
                bullets: outcome.bullets,
                balloon: None,
                transients: self.transients + jackpot_texts(
                    self.balloon->0.position,
                    outcome.hits,
                ),
                ..self
            }
        } else {
            WorldView { bullets: outcome.bullets, ..self }
        }
    }

    /// The world after the buttons were looked at: where a shot is fired,
    /// its bullet has joined the others.
    pub open spec fn fired(self, cursor: Vec2, left: bool, right: bool) -> WorldView {
        if fires(self.meter, self.player, cursor, left, right) {
            WorldView {
                bullets: self.bullets.push(shot(self.player->0.position, cursor, left)),
                ..self
            }
        } else {
            self
        }
    }

    /// The world after every transient entity aged by `delta` and those
    /// whose lifetime completed were removed.
    pub open spec fn aged(self, delta: u64) -> WorldView {
        WorldView { transients: pruned(aged_all(self.transients, delta)), ..self }
    }

    /// The world after the particle of `seed` was launched along
    /// `direction`.
    pub open spec fn launched(self, seed: ParticleSeed, direction: Vec2) -> WorldView {
        WorldView { transients: self.transients.push(seed.launched(direction)), ..self }
    }

    /// The world after the particles of `seeds` were launched, each along
    /// the direction that `directions` has for it: the particles have
    /// joined the transient entities, in their order. A seed for which
    /// there is no direction is not launched.
    pub open spec fn launched_all(
        self,
        seeds: Seq<ParticleSeed>,
        directions: Seq<Vec2>,
    ) -> WorldView {
        WorldView { transients: self.transients + particles_of(seeds, directions), ..self }
    }

    /// The first part of a tick, up to the trail: the ghost follows the
    /// pointer, the ghost and the balloon float, and the ghost fades.
    pub open spec fn moved(self, input: TickInput) -> WorldView {
        self.mouse_followed(input.cursor, input.facing, input.delta).floated(
            input.ghost_sines,
            input.balloon_sines,
        ).faded(input.delta)
    }

    /// The part of a tick between the light cycle and the sparkles: the
    /// ghost trick-or-treats, if the game is being played, and deposits.
    pub open spec fn settled(self, input: TickInput) -> WorldView {
        if input.state == GameState::Playing {
            self.visited(input.delta).deposited()
        } else {
            self.deposited()
        }
    }

    /// The world as the deposit of a tick finds it.
    pub open spec fn before_deposit(self, input: TickInput) -> WorldView {
        if input.state == GameState::Playing {
            self.visited(input.delta)
        } else {
            self
        }
    }

    /// The last part of a tick, after the sparkles: the bullets fly and
    /// are resolved, a shot is fired if it is called for, and the
    /// transient entities age.
    pub open spec fn wound_up(self, input: TickInput) -> WorldView {
        self.bullets_resolved(input.delta).fired(input.cursor, input.left, input.right).aged(
            input.delta,
        )
    }

    /// Whether a tick takes this world to `after` and hands back
    /// `output`, by way of the worlds `trailed`, `lit` and `sparkling`
    /// that the dice leave behind. The systems run in a fixed order:
    /// following the pointer, floating, fading, the trail, the light
    /// cycle, trick-or-treating, the deposit, the sparkles, the bullets,
    /// firing, and the ageing of the transient entities.
    pub open spec fn tick_path(
        self,
        trailed: WorldView,
        lit: WorldView,
        sparkling: WorldView,
        after: WorldView,
        input: TickInput,
        output: TickOutput,
    ) -> bool {
        let shot = sparkling.bullets_resolved(input.delta);
        &&& self.moved(input).trail_left(trailed, input.delta)
        &&& trailed.lights_cycled(lit, input.elapsed, input.delta)
        &&& lit.settled(input).sparkled(sparkling)
        &&& after == sparkling.wound_up(input)
        &&& output.look_changed == self.look_changes(input.delta)
        &&& output.trail_spawned == self.moved(input).trail_due(input.delta)
        &&& output.notice == if input.state == GameState::Playing {
            lit.visit_notice()
        } else {
            NoticeAction::Keep
        }
        &&& output.deposit == lit.before_deposit(input).deposit_event()
        &&& output.sparkle_spawned == (sparkling.transients.len() != lit.settled(
            input,
        ).transients.len())
        &&& sparkling.sets_off(output.particles@, input.delta)
        &&& output.fired == fires(shot.meter, shot.player, input.cursor, input.left, input.right)
        &&& output.removed == expired(
            aged_all(shot.fired(input.cursor, input.left, input.right).transients, input.delta),
        )
    }

    /// Whether a tick takes this world to `after` and hands back
    /// `output`, whatever the dice decide on the way. A paused game does
    /// not tick: the world stays as it is and nothing is handed back.
    pub open spec fn ticks_to(
        self,
        after: WorldView,
        input: TickInput,
        output: Option<TickOutput>,
    ) -> bool {
        if input.state == GameState::Paused {
            after == self && output is None
        } else {
            output is Some && exists|trailed: WorldView, lit: WorldView, sparkling: WorldView|
                #[trigger] self.tick_path(trailed, lit, sparkling, after, input, output->0)
        }
    }
}

/// What the invariant of the world says of the sack, the meter, the
/// houses and the transient entities: the sack never holds more than its
/// capacity; the meter reads between 0 and 100 percent and shows as full
/// exactly when it is; the light flag of every house agrees with its
/// state; and no transient entity has outlived its lifetime.
pub proof fn lemma_invariants(world: WorldView)
    requires
        world.wf(),
    ensures
        world.player matches Some(p) ==> 0 <= p.sack.current <= p.sack.capacity,
        world.meter matches Some(m) ==> 0 <= m.value <= FULL && m.full == (m.value == FULL),
        forall|i: int|
            0 <= i < world.houses.len() ==> (#[trigger] world.houses[i]).light_status == (
            world.houses[i].state == HouseState::Lit),
        forall|i: int|
            0 <= i < world.transients.len() ==> !(#[trigger] world.transients[i]).lifetime.finished,
{
    assert forall|i: int| 0 <= i < world.houses.len() implies (
    #[trigger] world.houses[i]).light_status == (world.houses[i].state == HouseState::Lit) by {
        assert(world.houses[i].wf());
    }
}

/// The meter never falls, and a full meter stays full: whatever a tick
/// does, the meter afterwards reads at least what it read before.
pub proof fn lemma_meter_never_falls(
    before: WorldView,
    after: WorldView,
    input: TickInput,
    output: Option<TickOutput>,
)
    requires
        before.wf(),
        before.ticks_to(after, input, output),
    ensures
        before.meter is Some <==> after.meter is Some,
        before.meter matches Some(m) ==> after.meter->0.value >= m.value,
        before.meter matches Some(m) ==> (m.full ==> after.meter->0.full),
{
    if input.state != GameState::Paused {
        let (trailed, lit, sparkling) = choose|
            trailed: WorldView,
            lit: WorldView,
            sparkling: WorldView,
        | #[trigger] before.tick_path(trailed, lit, sparkling, after, input, output->0);
        let moved = before.moved(input);
        assert(moved.meter == before.meter);
        assert(trailed.meter == moved.meter);
        assert(lit.meter == trailed.meter);
        assert(lit.player matches Some(p) ==> p.sack == before.player->0.sack);
        let visited = lit.before_deposit(input);
        assert(visited.meter == lit.meter);
        assert(visited.player matches Some(p) ==> p.sack.wf());
        let settled = lit.settled(input);
        assert(settled == visited.deposited());
        if visited.deposit_due() {
            let sack = visited.player->0.sack;
            lemma_increase_bounds(sack.current, sack.capacity);
        }
        assert(sparkling.meter == settled.meter);
        assert(after.meter == sparkling.meter);
    }
}

/// Following the pointer, floating and fading keep the invariant of the
/// world.
pub proof fn lemma_moved_wf(world: WorldView, input: TickInput)
    requires
        world.wf(),
        input.wf(),
    ensures
        world.moved(input).wf(),
{
    if world.player is Some {
        let p = world.player->0;
        lemma_followed_wf(p, input.cursor, input.facing, input.delta);
        let followed = p.followed(input.cursor, input.facing, input.delta);
        let floated = Player {
            position: Vec2 {
                x: followed.position.x,
                y: followed.float.floated(
                    input.ghost_sines.primary,
                    input.ghost_sines.secondary,
                ) as i64,
            },
            ..followed
        };
        assert(floated.wf());
        lemma_faded_wf(floated, input.delta);
    }
}

/// The trail keeps the invariant of the world.
pub proof fn lemma_trail_left_wf(world: WorldView, after: WorldView, delta: u64)
    requires
        world.wf(),
        world.trail_left(after, delta),
    ensures
        after.wf(),
{
    lemma_ticked_wf(world.trail.spawn_timer, delta);
    if world.trail_due(delta) {
        let copy = after.transients.last();
        let player = world.player->0;
        let (a, b) = choose|a: u32, b: u32| copy == #[trigger] trail_of(player, a, b);
        lemma_trail_wf(player, a, b);
        assert forall|i: int| 0 <= i < after.transients.len() implies (
        #[trigger] after.transients[i]).wf() && !after.transients[i].lifetime.finished by {
            if i < world.transients.len() {
                assert(after.transients[i] == after.transients.drop_last()[i]);
            }
        }
    }
}

/// The light cycle keeps the invariant of the world: whatever lights
/// switch, the light flag of every house still agrees with its state.
pub proof fn lemma_lights_cycled_wf(world: WorldView, after: WorldView, elapsed: u64, delta: u64)
    requires
        world.wf(),
        world.lights_cycled(after, elapsed, delta),
    ensures
        after.wf(),
        after.houses.len() == world.houses.len(),
        !light_cycle_due(elapsed, delta, LIGHT_INTERVAL) ==> after.houses == world.houses,
        forall|i: int|
            0 <= i < world.houses.len() ==> after.houses[i] == world.houses[i] || after.houses[i]
                == (#[trigger] world.houses[i]).toggled(),
{
    let rolls = choose|rolls: Seq<u32>|
        rolls.len() == world.houses.len() && after.houses == #[trigger] light_cycled(
            world.houses,
            elapsed,
            delta,
            rolls,
        );
    assert forall|i: int| 0 <= i < after.houses.len() implies (#[trigger] after.houses[i]).wf()
        && (after.houses[i] == world.houses[i] || after.houses[i]
        == world.houses[i].toggled()) by {
        let h = world.houses[i];
        assert(h.wf());
        lemma_house_stays_wf(h, h.position, delta);
    }
}

/// Trick-or-treating keeps the invariant of the world: the sack stays
/// within its capacity and the houses stay consistent.
pub proof fn lemma_visited_wf(world: WorldView, delta: u64)
    requires
        world.wf(),
    ensures
        world.visited(delta).wf(),
{
    if world.player is Some {
        let p = world.player->0;
        let after = world.visited(delta);
        let events = loot_events(world.houses, p.position, delta);
        crate::interaction::lemma_loot_events_places(world.houses, p.position, delta);
        assert forall|i: int| 0 <= i < after.houses.len() implies (
        #[trigger] after.houses[i]).wf() by {
            assert(world.houses[i].wf());
            lemma_house_stays_wf(world.houses[i], p.position, delta);
        }
        let texts = loot_texts(world.candies, events);
        assert forall|i: int| 0 <= i < after.transients.len() implies (
        #[trigger] after.transients[i]).wf() && !after.transients[i].lifetime.finished by {
            if i < world.transients.len() {
                assert(after.transients[i] == world.transients[i]);
            } else {
                let k = i - world.transients.len();
                assert(after.transients[i] == texts[k]);
                assert(events[k].position.wf());
                lemma_text_wf(
                    events[k].position,
                    Message::TotalCandies(candies_after(world.candies, events.take(k + 1))),
                );
            }
        }
    }
}

/// The deposit keeps the invariant of the world: the meter stays between
/// 0 and 100 percent.
pub proof fn lemma_deposited_wf(world: WorldView)
    requires
        world.wf(),
    ensures
        world.deposited().wf(),
{
    if world.deposit_due() {
        let p = world.player->0;
        let after = world.deposited();
        if world.meter is Some {
            lemma_credited_wf(world.meter->0, p.sack.current, p.sack.capacity);
        }
        let text = TransientEntity::text_at(world.pumpkin->0, Message::Deposited(p.sack.current));
        lemma_text_wf(world.pumpkin->0, Message::Deposited(p.sack.current));
        lemma_spawn_keeps_wf(
            WorldView {
                transients: world.transients,
                ..after
            },
            after,
            text,
        );
    }
}

/// The sparkles keep the invariant of the world.
pub proof fn lemma_sparkled_wf(world: WorldView, after: WorldView)
    requires
        world.wf(),
        world.sparkled(after),
    ensures
        after.wf(),
{
    if after.transients != world.transients {
        let particle = after.transients.last();
        let (a, b, c, d) = choose|a: u32, b: u32, c: u32, d: u32|
            particle == #[trigger] sparkle_spec(a, b, c, d);
        lemma_sparkle_wf(a, b, c, d);
        assert forall|i: int| 0 <= i < after.transients.len() implies (
        #[trigger] after.transients[i]).wf() && !after.transients[i].lifetime.finished by {
            if i < world.transients.len() {
                assert(after.transients[i] == after.transients.drop_last()[i]);
            }
        }
    }
}

/// The bullets keep the invariant of the world.
pub proof fn lemma_bullets_resolved_wf(world: WorldView, delta: u64)
    requires
        world.wf(),
    ensures
        world.bullets_resolved(delta).wf(),
{
    let flown = flown_all(world.bullets, delta);
    assert forall|i: int| 0 <= i < flown.len() implies (#[trigger] flown[i]).wf() by {
        assert(world.bullets[i].wf());
        lemma_flown_wf(world.bullets[i], delta);
    }
    lemma_resolve_wf(flown, target_of(world.balloon));
    let after = world.bullets_resolved(delta);
    if world.balloon_hit(delta) {
        let place = world.balloon->0.position;
        lemma_text_wf(place, Message::Jackpot);
        lemma_spawn_all_keeps_wf(
            WorldView {
                transients: world.transients,
                ..after
            },
            after,
            jackpot_texts(place, world.strikes(delta)),
        );
    }
}

/// Firing keeps the invariant of the world.
pub proof fn lemma_fired_wf(world: WorldView, cursor: Vec2, left: bool, right: bool)
    requires
        world.wf(),
        cursor.wf(),
    ensures
        world.fired(cursor, left, right).wf(),
{
    if fires(world.meter, world.player, cursor, left, right) {
        let from = world.player->0.position;
        lemma_shot_wf(from, cursor, left);
        let after = world.fired(cursor, left, right);
        assert forall|i: int| 0 <= i < after.bullets.len() implies (
        #[trigger] after.bullets[i]).wf() by {
            if i < world.bullets.len() {
                assert(after.bullets[i] == world.bullets[i]);
            }
        }
    }
}

/// Ageing keeps the invariant of the world: what is left has not
/// outlived its lifetime.
pub proof fn lemma_aged_world_wf(world: WorldView, delta: u64)
    requires
        world.wf(),
    ensures
        world.aged(delta).wf(),
{
    let aged = aged_all(world.transients, delta);
    let after = world.aged(delta);
    lemma_pruned_members(aged);
    assert forall|i: int| 0 <= i < after.transients.len() implies (
    #[trigger] after.transients[i]).wf() && !after.transients[i].lifetime.finished by {
        let e = after.transients[i];
        assert(aged.contains(e));
        let k = choose|k: int| 0 <= k < aged.len() && aged[k] == e;
        assert(world.transients[k].wf());
        lemma_aged_wf(world.transients[k], delta);
    }
}

/// Every tick keeps the invariant of the world, whatever the dice decide:
/// after it, as before it, the sack holds no more than its capacity, the
/// meter reads between 0 and 100 percent, the light flag of every house
/// agrees with its state, and no transient entity has outlived its
/// lifetime.
pub proof fn lemma_tick_keeps_invariant(
    before: WorldView,
    after: WorldView,
    input: TickInput,
    output: Option<TickOutput>,
)
    requires
        before.wf(),
        input.wf(),
        before.ticks_to(after, input, output),
    ensures
        after.wf(),
{
    if input.state != GameState::Paused {
        let (trailed, lit, sparkling) = choose|
            trailed: WorldView,
            lit: WorldView,
            sparkling: WorldView,
        | #[trigger] before.tick_path(trailed, lit, sparkling, after, input, output->0);
        lemma_moved_wf(before, input);
        lemma_trail_left_wf(before.moved(input), trailed, input.delta);
        lemma_lights_cycled_wf(trailed, lit, input.elapsed, input.delta);
        if input.state == GameState::Playing {
            lemma_visited_wf(lit, input.delta);
        }
        lemma_deposited_wf(lit.before_deposit(input));
        lemma_sparkled_wf(lit.settled(input), sparkling);
        lemma_bullets_resolved_wf(sparkling, input.delta);
        let shot = sparkling.bullets_resolved(input.delta);
        lemma_fired_wf(shot, input.cursor, input.left, input.right);
        lemma_aged_world_wf(shot.fired(input.cursor, input.left, input.right), input.delta);
    }
}

/// The parts of a well-formed world are well formed.
pub proof fn lemma_wf_parts(world: &World)
    requires
        world.wf(),
    ensures
        world.player matches Some(p) ==> p.wf(),
        forall|i: int| 0 <= i < world.houses@.len() ==> (#[trigger] world.houses@[i]).wf(),
        world.pumpkin matches Some(p) ==> p.wf(),
        world.balloon matches Some(b) ==> b.wf(),
        forall|i: int| 0 <= i < world.bullets@.len() ==> (#[trigger] world.bullets@[i]).wf(),
        forall|i: int|
            0 <= i < world.transients@.len() ==> (#[trigger] world.transients@[i]).wf(),
        forall|i: int|
            0 <= i < world.transients@.len() ==> !(
            #[trigger] world.transients@[i]).lifetime.finished,
        world.meter matches Some(m) ==> m.wf(),
        world.trail.wf(),
{
    let v = world@;
    assert(v.wf());
    assert(v.houses == world.houses@);
    assert(v.bullets == world.bullets@);
    assert(v.transients == world.transients@);
    assert forall|i: int| 0 <= i < world.houses@.len() implies (
    #[trigger] world.houses@[i]).wf() by {
        assert(v.houses[i].wf());
    }
    assert forall|i: int| 0 <= i < world.bullets@.len() implies (
    #[trigger] world.bullets@[i]).wf() by {
        assert(v.bullets[i].wf());
    }
    assert forall|i: int| 0 <= i < world.transients@.len() implies (
    #[trigger] world.transients@[i]).wf() && !world.transients@[i].lifetime.finished by {
        assert(v.transients[i].wf());
        assert(!v.transients[i].lifetime.finished);
    }
}

/// A world stays well formed when each of its parts is replaced by a
/// well-formed one.
pub proof fn lemma_part_keeps_wf(before: WorldView, after: WorldView)
    requires
        before.wf(),
        after.player == before.player || (after.player matches Some(p) ==> p.wf()),
        after.houses == before.houses || (forall|i: int|
            0 <= i < after.houses.len() ==> (#[trigger] after.houses[i]).wf()),
        after.pumpkin == before.pumpkin,
        after.balloon == before.balloon || (after.balloon matches Some(b) ==> b.wf()),
        after.bullets == before.bullets || (forall|i: int|
            0 <= i < after.bullets.len() ==> (#[trigger] after.bullets[i]).wf()),
        after.transients == before.transients,
        after.meter == before.meter || (after.meter matches Some(m) ==> m.wf()),
        after.trail == before.trail || after.trail.wf(),
    ensures
        after.wf(),
{
}

/// A world stays well formed when a well-formed transient entity whose
/// lifetime has not completed joins it.
pub proof fn lemma_spawn_keeps_wf(before: WorldView, after: WorldView, entity: TransientEntity)
    requires
        before.wf(),
        entity.wf(),
        !entity.lifetime.finished,
        after == (WorldView { transients: before.transients.push(entity), ..before }),
    ensures
        after.wf(),
        after.transients.drop_last() == before.transients,
        after.transients.last() == entity,
{
    assert(after.transients.drop_last() =~= before.transients);
    assert forall|i: int| 0 <= i < after.transients.len() implies (
    #[trigger] after.transients[i]).wf() && !after.transients[i].lifetime.finished by {
        if i < before.transients.len() {
            assert(after.transients[i] == before.transients[i]);
        }
    }
}

/// A world stays well formed when well-formed transient entities whose
/// lifetimes have not completed join it.
pub proof fn lemma_spawn_all_keeps_wf(
    before: WorldView,
    after: WorldView,
    entities: Seq<TransientEntity>,
)
    requires
        before.wf(),
        forall|i: int|
            0 <= i < entities.len() ==> (#[trigger] entities[i]).wf()
                && !entities[i].lifetime.finished,
        after == (WorldView { transients: before.transients + entities, ..before }),
    ensures
        after.wf(),
{
    assert forall|i: int| 0 <= i < after.transients.len() implies (
    #[trigger] after.transients[i]).wf() && !after.transients[i].lifetime.finished by {
        if i < before.transients.len() {
            assert(after.transients[i] == before.transients[i]);
        } else {
            assert(after.transients[i] == entities[i - before.transients.len()]);
        }
    }
}

/// The particles that the seeds `seeds` become when each is launched
/// along the direction that `directions` has for it.
pub open spec fn particles_of(
    seeds: Seq<ParticleSeed>,
    directions: Seq<Vec2>,
) -> Seq<TransientEntity> {
    Seq::new(
        if seeds.len() <= directions.len() {
            seeds.len()
        } else {
            directions.len()
        },
        |i: int| seeds[i].launched(directions[i]),
    )
}

impl World {
    /// The invariant of the world.
    pub open spec fn wf(&self) -> bool {
        self@.wf()
    }

    /// A world in which nothing has been spawned yet.
    pub fn new() -> (world: World)
        ensures
            world@ == WorldView::empty(),
            world.wf(),
    {
        World {
            player: None,
            houses: Vec::new(),
            pumpkin: None,
            balloon: None,
            bullets: Vec::new(),
            transients: Vec::new(),
            meter: None,
            inventory: PlayerInventory::new(),
            trail: TrailSettings::new(),
            notice_shown: false,
        }
    }

    /// Spawns the ghost and the meter as the game starts: the ghost at
    /// the origin with an empty sack, the meter at zero.
    pub fn setup(&mut self)
        requires
            old(self).wf(),
        ensures
            final(self)@ == (WorldView {
                player: Some(Player::initial()),
                meter: Some(ProgressMeter { value: 0, full: false }),
                ..old(self)@
            }),
            final(self).wf(),
    {
        self.player = Some(Player::new());
        self.meter = Some(ProgressMeter::new());
    }

    /// Builds the neighbourhood: the grid of houses, each lit or dark as
    /// a coin falls, and in the middle of it the pumpkin and the balloon.
    pub fn spawn_houses(&mut self)
        requires
            old(self).wf(),
        ensures
            final(self)@ == (WorldView {
                houses: final(self)@.houses,
                pumpkin: Some(Vec2 { x: 0, y: 0 }),
                balloon: Some(FloatingTarget::initial()),
                ..old(self)@
            }),
            final(self)@.houses.len() == HOUSE_COUNT,
            forall|k: int|
                0 <= k < HOUSE_COUNT ==> #[trigger] final(self)@.houses[k] == House::built(
                    grid_position(k),
                    final(self)@.houses[k].light_status,
                ),
            final(self).wf(),
    {
        self.houses = build_houses();
        self.pumpkin = Some(Vec2::zero());
        self.balloon = Some(FloatingTarget::new());
    }

    /// Following the pointer: the resting place of the ghost moves toward
    /// `cursor`, the ghost turns to face it, and its scale pulses.
    /// `facing` is the direction from the resting place to the pointer,
    /// as an angle from the x axis. Without a ghost nothing happens.
    pub fn follow_mouse(&mut self, cursor: &Vec2, facing: i64, delta: u64)
        requires
            old(self).wf(),
            cursor.wf(),
        ensures
            final(self)@ == old(self)@.mouse_followed(*cursor, facing, delta),
            final(self).wf(),
    {
        match self.player {
            Some(present) => {
                let mut present: Player = present;
                present.follow(cursor, facing, delta);
                self.player = Some(present);
            },
            None => {},
        }
    }

    /// The arguments of the sine waves on which the ghost and the balloon
    /// float after `elapsed` nanoseconds of game time, for each of the
    /// two that is there.
    pub fn float_phases(&self, elapsed: u64) -> (phases: (Option<Phases>, Option<Phases>))
        ensures
            phases.0 == match self.player {
                Some(p) => Some(p.float.phases_spec(elapsed)),
                None => None,
            },
            phases.1 == match self.balloon {
                Some(b) => Some(b.float.phases_spec(elapsed)),
                None => None,
            },
    {
        let of_ghost = match &self.player {
            Some(p) => Some(p.float.phases(elapsed)),
            None => None,
        };
        let of_balloon = match &self.balloon {
            Some(b) => Some(b.float.phases(elapsed)),
            None => None,
        };
        (of_ghost, of_balloon)
    }

    /// Floating: the ghost and the balloon are drawn as high above their
    /// resting heights as the sines of their waves say. The resting
    /// heights stay as they are.
    pub fn float_ghost(&mut self, ghost: Sines, balloon: Sines)
        requires
            old(self).wf(),
            ghost.wf(),
            balloon.wf(),
        ensures
            final(self)@ == old(self)@.floated(ghost, balloon),
            final(self).wf(),
    {
        match self.player {
            Some(present) => {
                let mut present: Player = present;
                present.float_to(ghost.primary, ghost.secondary);
                self.player = Some(present);
            },
            None => {},
        }
        match self.balloon {
            Some(present) => {
                let mut present: FloatingTarget = present;
                present.float_to(balloon.primary, balloon.secondary);
                self.balloon = Some(present);
            },
            None => {},
        }
    }

    /// Fading: the ghost changes its look each time its fade timer
    /// completes. Returns whether it did on this tick.
    pub fn fade_ghost(&mut self, delta: u64) -> (changed: bool)
        requires
            old(self).wf(),
        ensures
            final(self)@ == old(self)@.faded(delta),
            changed == old(self)@.look_changes(delta),
            final(self).wf(),
    {
        match self.player {
            Some(present) => {
                let mut present: Player = present;
                let changed = present.fade(delta);
                self.player = Some(present);
                changed
            },
            None => false,
        }
    }
    /// The trail: each time the spawn timer completes, a ghost that is
    /// there leaves a fading copy of itself behind. Returns whether it
    /// did on this tick.
    pub fn spawn_ghost_trail(&mut self, delta: u64) -> (spawned: bool)
        requires
            old(self).wf(),
        ensures
            old(self)@.trail_left(final(self)@, delta),
            spawned == old(self)@.trail_due(delta),
            final(self).wf(),
    {
        let copy = leave_trail(&mut self.trail, &self.player, delta);
        let ghost before = self@;
        proof {
            lemma_part_keeps_wf(old(self)@, before);
        }
        match copy {
            Some(copy) => {
                self.transients.push(copy);
                proof {
                    lemma_spawn_keeps_wf(before, self@, copy);
                }
                true
            },
            None => false,
        }
    }

    /// The light cycle: when a round of light switching falls into this
    /// tick, every house switches its light with the flip probability,
    /// each for itself.
    pub fn switch_house_lights(&mut self, elapsed: u64, delta: u64)
        requires
            old(self).wf(),
        ensures
            old(self)@.lights_cycled(final(self)@, elapsed, delta),
            final(self).wf(),
    {
        let count: usize = if is_light_cycle_due(elapsed, delta, LIGHT_INTERVAL) {
            self.houses.len()
        } else {
            0
        };
        let rolls: Vec<u32> = draw(count);
        self.switch_house_lights_with(elapsed, delta, &rolls);
        proof {
            if light_cycle_due(elapsed, delta, LIGHT_INTERVAL) {
                assert(self@.houses == light_cycled(old(self)@.houses, elapsed, delta, rolls@));
            } else {
                let none = Seq::new(old(self)@.houses.len(), |i: int| 0u32);
                assert(self@.houses == light_cycled(old(self)@.houses, elapsed, delta, none));
            }
        }
    }

    /// The light cycle with the rolls given: in a round of light switching
    /// house `i` switches its light exactly if `rolls[i]` falls under the
    /// flip probability, and stays wholly as it is otherwise; houses for
    /// which there is no roll, and all houses outside a round, stay as
    /// they are.
    pub fn switch_house_lights_with(&mut self, elapsed: u64, delta: u64, rolls: &Vec<u32>)
        requires
            old(self).wf(),
        ensures
            final(self)@ == old(self)@.lights_cycled_with(elapsed, delta, rolls@),
            final(self).wf(),
    {
        proof {
            lemma_wf_parts(self);
        }
        light_cycle_with(&mut self.houses, elapsed, delta, rolls);
        proof {
            lemma_part_keeps_wf(old(self)@, self@);
        }
    }

    /// Trick-or-treating. Returns what is to be done about the notice of
    /// a full sack.
    pub fn ghost_house_interaction(&mut self, delta: u64) -> (action: NoticeAction)
        requires
            old(self).wf(),
        ensures
            final(self)@ == old(self)@.visited(delta),
            action == old(self)@.visit_notice(),
            final(self).wf(),
    {
        match self.player {
            Some(present) => {
                let mut present: Player = present;
                let place: Vec2 = present.position;
                let outcome = visit_houses(
                    &place,
                    &mut present.sack,
                    &mut self.houses,
                    &mut self.notice_shown,
                    delta,
                );
                self.player = Some(present);
                proof {
                    crate::interaction::lemma_loot_events_places(old(self)@.houses, place, delta);
                }
                let mut texts = collect_loot(&mut self.inventory, outcome.events);
                self.transients.append(&mut texts);
                assert(self@.houses =~= old(self)@.visited(delta).houses);
                outcome.notice
            },
            None => NoticeAction::Keep,
        }
    }

    /// The deposit. Returns what was deposited, if anything was.
    pub fn candy_deposit_system(&mut self) -> (event: Option<DepositEvent>)
        requires
            old(self).wf(),
        ensures
            final(self)@ == old(self)@.deposited(),
            event == old(self)@.deposit_event(),
            final(self).wf(),
    {
        match (self.player, self.pumpkin) {
            (Some(present), Some(at)) => {
                let mut present: Player = present;
                let place: Vec2 = present.position;
                let event = deposit_candy(
                    &place,
                    &at,
                    &mut present.sack,
                    &mut self.meter,
                    &mut self.notice_shown,
                );
                self.player = Some(present);
                match event {
                    Some(deposit) => {
                        let text = spawn_floating_text(at, Message::Deposited(deposit.candies));
                        let ghost before = self@;
                        self.transients.push(text);
                        proof {
                            lemma_spawn_keeps_wf(before, self@, text);
                        }
                    },
                    None => {},
                }
                event
            },
            _ => None,
        }
    }

    /// The sparkles of a full meter. Returns whether one appeared on this
    /// tick.
    pub fn animate_progress_particles(&mut self) -> (spawned: bool)
        requires
            old(self).wf(),
        ensures
            old(self)@.sparkled(final(self)@),
            spawned == (final(self)@.transients.len() != old(self)@.transients.len()),
            final(self).wf(),
    {
        match throw_sparkle(&self.meter) {
            Some(particle) => {
                let ghost before = self@;
                self.transients.push(particle);
                proof {
                    lemma_spawn_keeps_wf(before, self@, particle);
                }
                true
            },
            None => false,
        }
    }

    /// The bullets. Every bullet that comes within the hit radius of the
    /// balloon, as it stood when the tick began, strikes it. Returns the
    /// particles that the strikes set off, a jackpot for each, which are
    /// still to be launched; without a hit there are none.
    pub fn bullet_system(&mut self, delta: u64) -> (particles: Vec<ParticleSeed>)
        requires
            old(self).wf(),
        ensures
            final(self)@ == old(self)@.bullets_resolved(delta),
            old(self)@.sets_off(particles@, delta),
            forall|i: int| 0 <= i < particles@.len() ==> (#[trigger] particles@[i]).wf(),
            final(self).wf(),
    {
        proof {
            lemma_wf_parts(self);
        }
        let strike = resolve_bullets(&mut self.bullets, &mut self.balloon, delta);
        let ghost resolved = self@;
        proof {
            lemma_part_keeps_wf(old(self)@, resolved);
        }
        match strike {
            Some(strike) => {
                let effects: Jackpots = jackpots(&strike.place, strike.hits);
                let ghost texts = effects.texts@;
                let mut spawned: Vec<TransientEntity> = effects.texts;
                self.transients.append(&mut spawned);
                proof {
                    lemma_spawn_all_keeps_wf(resolved, self@, texts);
                }
                effects.particles
            },
            None => Vec::new(),
        }
    }

    /// Firing. Returns whether a bullet was sent off.
    pub fn shoot_balloon(&mut self, cursor: &Vec2, left: bool, right: bool) -> (fired: bool)
        requires
            old(self).wf(),
            cursor.wf(),
        ensures
            final(self)@ == old(self)@.fired(*cursor, left, right),
            fired == fires(old(self)@.meter, old(self)@.player, *cursor, left, right),
            final(self).wf(),
    {
        match fire_bullet(&self.meter, &self.player, cursor, left, right) {
            Some(bullet) => {
                self.bullets.push(bullet);
                true
            },
            None => false,
        }
    }

    /// Launches a particle along `direction`, the vector of length `UNIT`
    /// that points where the angle of `seed` does.
    pub fn launch(&mut self, seed: &ParticleSeed, direction: &Vec2)
        requires
            old(self).wf(),
            seed.wf(),
            -UNIT <= direction.x <= UNIT,
            -UNIT <= direction.y <= UNIT,
        ensures
            final(self)@ == old(self)@.launched(*seed, *direction),
            final(self).wf(),
    {
        let particle = seed.launch(direction);
        let ghost before = self@;
        self.transients.push(particle);
        proof {
            lemma_spawn_keeps_wf(before, self@, particle);
        }
    }

    /// Launches the particles of `seeds`, each along the direction that
    /// `directions` has for it, the vector of length `UNIT` that points
    /// where the angle of the seed does. After it all of them have joined
    /// the world, in their order.
    pub fn launch_all(&mut self, seeds: &Vec<ParticleSeed>, directions: &Vec<Vec2>)
        requires
            old(self).wf(),
            forall|i: int| 0 <= i < seeds@.len() ==> (#[trigger] seeds@[i]).wf(),
            forall|i: int|
                0 <= i < directions@.len() ==> -UNIT <= (#[trigger] directions@[i]).x <= UNIT
                    && -UNIT <= directions@[i].y <= UNIT,
        ensures
            final(self)@ == old(self)@.launched_all(seeds@, directions@),
            final(self).wf(),
    {
        let n: usize = if seeds.len() <= directions.len() {
            seeds.len()
        } else {
            directions.len()
        };
        let mut i: usize = 0;
        while i < n
            invariant
                i <= n,
                n <= seeds@.len(),
                n <= directions@.len(),
                self.wf(),
                forall|k: int| 0 <= k < seeds@.len() ==> (#[trigger] seeds@[k]).wf(),
                forall|k: int|
                    0 <= k < directions@.len() ==> -UNIT <= (#[trigger] directions@[k]).x <= UNIT
                        && -UNIT <= directions@[k].y <= UNIT,
                self@ == (WorldView {
                    transients: old(self)@.transients + particles_of(
                        seeds@.take(i as int),
                        directions@.take(i as int),
                    ),
                    ..old(self)@
                }),
            decreases n - i,
        {
            let ghost before = self@;
            self.launch(&seeds[i], &directions[i]);
            proof {
                assert(self@.transients =~= old(self)@.transients + particles_of(
                    seeds@.take(i + 1),
                    directions@.take(i + 1),
                ));
            }
            i = i + 1;
        }
        proof {
            assert(particles_of(seeds@.take(n as int), directions@.take(n as int))
                =~= particles_of(seeds@, directions@));
        }
    }

    /// The transient entities: each ages by `delta`, and those whose
    /// lifetime completes are removed for good. Returns how many were
    /// removed.
    pub fn update_transients(&mut self, delta: u64) -> (removed: usize)
        requires
            old(self).wf(),
        ensures
            final(self)@ == old(self)@.aged(delta),
            removed == expired(aged_all(old(self)@.transients, delta)),
            final(self).wf(),
    {
        update_transients(&mut self.transients, delta)
    }

    /// Loading: takes over a loaded inventory. Where loading gave
    /// nothing, the inventory stays as it is.
    pub fn load_game(&mut self, loaded: Option<PlayerInventory>)
        requires
            old(self).wf(),
        ensures
            final(self)@ == match loaded {
                Some(inventory) => WorldView {
                    candies: inventory.candies,
                    rare_items: inventory.rare_items@,
                    ..old(self)@
                },
                None => old(self)@,
            },
            final(self).wf(),
    {
        self.inventory.restore(loaded);
    }

    /// One tick of the whole simulation: every system, once, in the
    /// fixed order, unless the game is paused. The particles that a hit
    /// sets off come back in the output; they join the world when they
    /// are launched.
    pub fn tick(&mut self, input: &TickInput) -> (output: Option<TickOutput>)
        requires
            old(self).wf(),
            input.wf(),
        ensures
            old(self)@.ticks_to(final(self)@, *input, output),
            output matches Some(out) ==> forall|i: int|
                0 <= i < out.particles@.len() ==> (#[trigger] out.particles@[i]).wf(),
            final(self).wf(),
    {
        if !input.state.runs() {
            return None;
        }
        self.follow_mouse(&input.cursor, input.facing, input.delta);
        self.float_ghost(input.ghost_sines, input.balloon_sines);
        let look_changed = self.fade_ghost(input.delta);
        let trail_spawned = self.spawn_ghost_trail(input.delta);
        let ghost trailed = self@;
        self.switch_house_lights(input.elapsed, input.delta);
        let ghost lit = self@;
        let notice = if input.state.plays() {
            self.ghost_house_interaction(input.delta)
        } else {
            NoticeAction::Keep
        };
        let deposit = self.candy_deposit_system();
        let sparkle_spawned = self.animate_progress_particles();
        let ghost sparkling = self@;
        let particles = self.bullet_system(input.delta);
        let fired = self.shoot_balloon(&input.cursor, input.left, input.right);
        let removed = self.update_transients(input.delta);
        let output = TickOutput {
            look_changed,
            trail_spawned,
            notice,
            deposit,
            sparkle_spawned,
            particles,
            fired,
            removed,
        };
        proof {
            assert(old(self)@.tick_path(trailed, lit, sparkling, self@, *input, output));
        }
        Some(output)
    }
}

} // verus!
