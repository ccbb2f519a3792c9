//! The houses of the neighbourhood: their lights, their loot, and the
//! timer that runs while the ghost waits at the door.

use crate::chance::{chance, coin, draw, hits, roll, ROLL_SPAN};
use crate::fixed::UNIT;
use crate::geometry::Vec2;
use crate::inventory::LootType;
use crate::timer::{lemma_after_wf, lemma_ticked_wf, total, Timer, TimerMode};
use vstd::prelude::*;

verus! {

/// How close the ghost has to be to a house to trick-or-treat: 100 units.
pub const HOUSE_RANGE: u64 = 100_000_000;

/// How long the ghost has to stay at a house for its loot: 3 seconds.
pub const INTERACTION_TIME: u64 = 3_000_000_000;

/// The time between two rounds of light switching: 5 seconds.
pub const LIGHT_INTERVAL: u64 = 5_000_000_000;

/// The probability with which a house switches its light in a round: 30
/// percent.
pub const FLIP_PROBABILITY: i64 = 300_000;

/// The number of rows, and of columns, of the grid of houses.
pub const GRID_SIZE: usize = 3;

/// The distance between neighbouring houses of the grid: 300 units.
pub const GRID_SPACING: i64 = 300_000_000;

/// The number of houses: every cell of the grid but the middle one.
pub const HOUSE_COUNT: usize = 8;

/// Whether somebody is at home.
#[derive(Clone, Copy, PartialEq, Eq, Structural, Debug)]
pub enum HouseState {
    Lit,
    Dark,
}

/// The tint in which a house is drawn.
#[derive(Clone, Copy, PartialEq, Eq, Structural, Debug)]
pub enum HouseTint {
    Plain,
    /// The ghost is close enough to trick-or-treat.
    InRange,
}

/// A house of the neighbourhood.
#[derive(Debug, PartialEq, Eq)]
pub struct House {
    pub position: Vec2,
    pub state: HouseState,
    /// The light flag, which always agrees with `state`.
    pub light_status: bool,
    /// What the next completed visit yields.
    pub loot: LootType,
    /// Runs while the ghost is in range, and starts over when it leaves.
    pub interaction_timer: Timer,
    pub tint: HouseTint,
}

/// The state that goes with a light flag.
pub open spec fn state_of(lit: bool) -> HouseState {
    if lit {
        HouseState::Lit
    } else {
        HouseState::Dark
    }
}

/// The coordinate of row or column `index` of the grid, which is centred
/// on the origin.
pub open spec fn grid_coordinate(index: int) -> int {
    index * GRID_SPACING - (GRID_SIZE - 1) * GRID_SPACING / 2
}

/// The cell of the grid in which house `k` stands, counting the cells row
/// by row and leaving out the middle one.
pub open spec fn grid_cell(k: int) -> int {
    if k < (GRID_SIZE * GRID_SIZE) / 2 {
        k
    } else {
        k + 1
    }
}

/// The position of house `k` of the grid.
pub open spec fn grid_position(k: int) -> Vec2 {
    Vec2 {
        x: grid_coordinate(grid_cell(k) % (GRID_SIZE as int)) as i64,
        y: grid_coordinate(grid_cell(k) / (GRID_SIZE as int)) as i64,
    }
}

/// Whether a round of light switching falls into the tick that ends at
/// `elapsed` and took `delta`: whether a multiple of `interval` was
/// passed less than `delta` ago.
pub open spec fn light_cycle_due(elapsed: u64, delta: u64, interval: u64) -> bool {
    interval > 0 && elapsed % interval < delta
}

impl House {
    /// The invariant of a house: the light flag agrees with the state,
    /// and the timer is a well-formed one-shot timer.
    pub open spec fn wf(self) -> bool {
        &&& self.light_status == (self.state == HouseState::Lit)
        &&& self.position.wf()
        &&& self.interaction_timer.wf()
        &&& self.interaction_timer.mode == TimerMode::Once
    }

    /// A house as it is built: nobody at the door, candy in the bowl.
    pub open spec fn built(position: Vec2, lit: bool) -> House {
        House {
            position,
            state: state_of(lit),
            light_status: lit,
            loot: LootType::Candy,
            interaction_timer: Timer {
                mode: TimerMode::Once,
                duration: INTERACTION_TIME,
                elapsed: 0,
                finished: false,
                just_finished: false,
            },
            tint: HouseTint::Plain,
        }
    }

    /// Whether a ghost at `ghost` is close enough to trick-or-treat.
    pub open spec fn in_range(self, ghost: Vec2) -> bool {
        self.position.dist_sq(ghost) < HOUSE_RANGE * HOUSE_RANGE
    }

    /// Whether a tick of `delta` with the ghost at `ghost` completes a
    /// visit: the house is lit, the ghost in range, and the timer reaches
    /// its duration on this tick.
    pub open spec fn completes(self, ghost: Vec2, delta: u64) -> bool {
        &&& self.light_status
        &&& self.in_range(ghost)
        &&& self.interaction_timer.ticked(delta).just_finished
    }

    /// The house after a tick of `delta` with the ghost at `ghost`. A dark
    /// house is left alone. A lit house out of range loses its tint and
    /// its timer starts over. In range the timer runs; when it completes,
    /// the loot is handed out, candy takes its place, and the timer starts
    /// over.
    pub open spec fn visited(self, ghost: Vec2, delta: u64) -> House {
        if !self.light_status {
            self
        } else if !self.in_range(ghost) {
            House {
                tint: HouseTint::Plain,
                interaction_timer: self.interaction_timer.rewound(),
                ..self
            }
        } else if self.interaction_timer.ticked(delta).just_finished {
            House {
                tint: HouseTint::InRange,
                loot: LootType::Candy,
                interaction_timer: self.interaction_timer.ticked(delta).rewound(),
                ..self
            }
        } else {
            House {
                tint: HouseTint::InRange,
                interaction_timer: self.interaction_timer.ticked(delta),
                ..self
            }
        }
    }

    /// The house after the ghost stayed at `ghost` for one tick for each
    /// step of `deltas`, in order.
    pub open spec fn stayed(self, ghost: Vec2, deltas: Seq<u64>) -> House
        decreases deltas.len(),
    {
        if deltas.len() == 0 {
            self
        } else {
            self.stayed(ghost, deltas.drop_last()).visited(ghost, deltas.last())
        }
    }

    /// The house with its light switched.
    pub open spec fn toggled(self) -> House {
        House { light_status: !self.light_status, state: state_of(!self.light_status), ..self }
    }

    /// The house after a round of light switching in which it drew `roll`.
    pub open spec fn flipped(self, roll: u32) -> House {
        if hits(roll, FLIP_PROBABILITY) {
            self.toggled()
        } else {
            self
        }
    }

    /// Builds a house at `position`, lit or dark.
    pub fn new(position: Vec2, lit: bool) -> (house: House)
        requires
            position.wf(),
        ensures
            house == House::built(position, lit),
            house.wf(),
    {
        House {
            position,
            state: if lit {
                HouseState::Lit
            } else {
                HouseState::Dark
            },
            light_status: lit,
            loot: LootType::Candy,
            interaction_timer: Timer::new(INTERACTION_TIME, TimerMode::Once),
            tint: HouseTint::Plain,
        }
    }

    /// One tick of the visit at this house, with the ghost at `ghost`.
    /// Returns the loot when the visit completes on this tick.
    pub fn visit(&mut self, ghost: &Vec2, delta: u64) -> (loot: Option<LootType>)
        requires
            old(self).wf(),
        ensures
            *final(self) == old(self).visited(*ghost, delta),
            final(self).wf(),
            old(self).completes(*ghost, delta) ==> loot == Some(old(self).loot),
            !old(self).completes(*ghost, delta) ==> loot is None,
            old(self).light_status && !old(self).in_range(*ghost)
                ==> final(self).interaction_timer.fresh(),
    {
        if !self.light_status {
            return None;
        }
        if self.position.within(ghost, HOUSE_RANGE) {
            self.tint = HouseTint::InRange;
            self.interaction_timer.tick(delta);
            if self.interaction_timer.just_finished() {
                let mut loot = LootType::Candy;
                core::mem::swap(&mut self.loot, &mut loot);
                self.interaction_timer.reset();
                Some(loot)
            } else {
                None
            }
        } else {
            self.tint = HouseTint::Plain;
            self.interaction_timer.reset();
            None
        }
    }

    /// Switches the light, and the state with it.
    pub fn toggle_light(&mut self)
        requires
            old(self).wf(),
        ensures
            *final(self) == old(self).toggled(),
            final(self).wf(),
    {
        self.light_status = !self.light_status;
        self.state = if self.light_status {
            HouseState::Lit
        } else {
            HouseState::Dark
        };
    }

    /// The house's part in a round of light switching: it switches its
    /// light if its roll falls under the flip probability.
    pub fn flip(&mut self, roll: u32) -> (switched: bool)
        requires
            old(self).wf(),
        ensures
            *final(self) == old(self).flipped(roll),
            final(self).wf(),
            switched == hits(roll, FLIP_PROBABILITY),
    {
        if chance(roll, FLIP_PROBABILITY) {
            self.toggle_light();
            true
        } else {
            false
        }
    }
}

/// A tick of a visit keeps a house well formed, and so does switching its
/// light.
pub proof fn lemma_house_stays_wf(h: House, ghost: Vec2, delta: u64)
    requires
        h.wf(),
    ensures
        h.visited(ghost, delta).wf(),
        h.visited(ghost, delta).position == h.position,
        h.toggled().wf(),
{
    lemma_ticked_wf(h.interaction_timer, delta);
}

/// Leaving starts the visit over. When the ghost steps out of range of a
/// lit house, the timer of the house is fresh again, however far it had
/// run; a tick back in range then completes the visit only if it is as
/// long as the whole duration.
pub proof fn lemma_leaving_restarts(h: House, far: Vec2, near: Vec2, away: u64, back: u64)
    requires
        h.wf(),
        h.light_status,
        !h.in_range(far),
        h.in_range(near),
    ensures
        h.visited(far, away).interaction_timer.fresh(),
        h.visited(far, away).completes(near, back) <==> back >= h.interaction_timer.duration,
{
}

/// A visit takes the whole duration, without a break. While the ghost
/// stays in range of a lit house whose timer is fresh, for ticks that
/// sum to less than the duration, no visit completes, and the timer
/// holds the sum; the visit completes on the tick that brings the sum to
/// the duration.
pub proof fn lemma_visit_takes_full_time(h: House, near: Vec2, deltas: Seq<u64>, last: u64)
    requires
        h.wf(),
        h.light_status,
        h.in_range(near),
        h.interaction_timer.fresh(),
        total(deltas) < h.interaction_timer.duration,
    ensures
        h.stayed(near, deltas).interaction_timer == h.interaction_timer.after(deltas),
        h.stayed(near, deltas).interaction_timer.elapsed == total(deltas),
        h.stayed(near, deltas).loot == h.loot,
        h.stayed(near, deltas).light_status,
        h.stayed(near, deltas).position == h.position,
        h.stayed(near, deltas).completes(near, last) <==> total(deltas) + last
            >= h.interaction_timer.duration,
    decreases deltas.len(),
{
    if deltas.len() > 0 {
        let front = deltas.drop_last();
        lemma_visit_takes_full_time(h, near, front, deltas.last());
        lemma_after_wf(h.interaction_timer, front);
    }
}

/// Whether a round of light switching falls into the tick that ends at
/// `elapsed` nanoseconds of game time and took `delta` nanoseconds.
pub fn is_light_cycle_due(elapsed: u64, delta: u64, interval: u64) -> (due: bool)
    ensures
        due == light_cycle_due(elapsed, delta, interval),
{
    interval > 0 && elapsed % interval < delta
}

/// The houses after a round of light switching in which house `i` drew
/// `rolls[i]`. Houses for which there is no roll stay as they are.
pub open spec fn lights_switched(houses: Seq<House>, rolls: Seq<u32>) -> Seq<House> {
    Seq::new(
        houses.len(),
        |i: int|
            if i < rolls.len() {
                houses[i].flipped(rolls[i])
            } else {
                houses[i]
            },
    )
}

/// The houses after the light cycle looked at the tick that ends at
/// `elapsed` and took `delta`, with the rolls `rolls` at hand: a round of
/// light switching where one falls into the tick, and no change where
/// none does.
pub open spec fn light_cycled(
    houses: Seq<House>,
    elapsed: u64,
    delta: u64,
    rolls: Seq<u32>,
) -> Seq<House> {
    if light_cycle_due(elapsed, delta, LIGHT_INTERVAL) {
        lights_switched(houses, rolls)
    } else {
        houses
    }
}

/// Whether `after` is what the light cycle makes of the houses `before`
/// on the tick that ends at `elapsed` and took `delta`, for some rolls,
/// one for each house.
pub open spec fn is_light_cycle(
    before: Seq<House>,
    after: Seq<House>,
    elapsed: u64,
    delta: u64,
) -> bool {
    exists|rolls: Seq<u32>|
        rolls.len() == before.len() && after == #[trigger] light_cycled(
            before,
            elapsed,
            delta,
            rolls,
        )
}

/// The law of the light cycle over given draws. In a round of light
/// switching a house switches its light, flag and state together, exactly
/// if its roll's share of the unit interval is below the flip
/// probability, which is so for the 1288490189 smallest of the
/// 4294967296 rolls; else it stays wholly as it is. Every house goes by
/// its own roll.
pub proof fn lemma_light_cycle_law(
    houses: Seq<House>,
    elapsed: u64,
    delta: u64,
    rolls: Seq<u32>,
    i: int,
)
    requires
        light_cycle_due(elapsed, delta, LIGHT_INTERVAL),
        0 <= i < houses.len(),
        i < rolls.len(),
    ensures
        light_cycled(houses, elapsed, delta, rolls).len() == houses.len(),
        rolls[i] * UNIT < FLIP_PROBABILITY * ROLL_SPAN <==> rolls[i] < 1_288_490_189,
        rolls[i] * UNIT < FLIP_PROBABILITY * ROLL_SPAN ==> light_cycled(
            houses,
            elapsed,
            delta,
            rolls,
        )[i] == houses[i].toggled(),
        rolls[i] * UNIT >= FLIP_PROBABILITY * ROLL_SPAN ==> light_cycled(
            houses,
            elapsed,
            delta,
            rolls,
        )[i] == houses[i],
        houses[i].toggled().light_status == !houses[i].light_status,
        houses[i].toggled().state == state_of(!houses[i].light_status),
{
}

/// A round of light switching with the rolls given: house `i` switches
/// its light if `rolls[i]` falls under the flip probability. Houses for
/// which there is no roll stay as they are.
pub fn switch_lights_with(houses: &mut Vec<House>, rolls: &Vec<u32>)
    requires
        forall|i: int| 0 <= i < old(houses)@.len() ==> (#[trigger] old(houses)@[i]).wf(),
    ensures
        final(houses)@ == lights_switched(old(houses)@, rolls@),
        forall|i: int| 0 <= i < final(houses)@.len() ==> (#[trigger] final(houses)@[i]).wf(),
{
    let n: usize = if houses.len() < rolls.len() {
        houses.len()
    } else {
        rolls.len()
    };
    let mut i: usize = 0;
    while i < n
        invariant
            i <= n,
            n <= rolls@.len(),
            n <= houses@.len(),
            n == rolls@.len() || n == houses@.len(),
            houses@.len() == old(houses)@.len(),
            forall|j: int|
                0 <= j < i ==> houses@[j] == (#[trigger] old(houses)@[j]).flipped(rolls@[j]),
            forall|j: int| i <= j < houses@.len() ==> houses@[j] == #[trigger] old(houses)@[j],
            forall|j: int| 0 <= j < houses@.len() ==> (#[trigger] houses@[j]).wf(),
        decreases n - i,
    {
        houses[i].flip(rolls[i]);
        i = i + 1;
    }
    assert(houses@ =~= lights_switched(old(houses)@, rolls@));
}

/// The light cycle with the rolls given. When a round of light switching
/// falls into the tick that ends at `elapsed` and took `delta`, house `i`
/// switches its light if `rolls[i]` falls under the flip probability; on
/// any other tick nothing changes.
pub fn light_cycle_with(houses: &mut Vec<House>, elapsed: u64, delta: u64, rolls: &Vec<u32>)
    requires
        forall|i: int| 0 <= i < old(houses)@.len() ==> (#[trigger] old(houses)@[i]).wf(),
    ensures
        final(houses)@ == light_cycled(old(houses)@, elapsed, delta, rolls@),
        forall|i: int| 0 <= i < final(houses)@.len() ==> (#[trigger] final(houses)@[i]).wf(),
{
    if is_light_cycle_due(elapsed, delta, LIGHT_INTERVAL) {
        switch_lights_with(houses, rolls);
    }
}

/// The light cycle. When a round of light switching falls into this
/// tick, every house rolls for itself and switches its light with the
/// flip probability; on any other tick nothing changes.
pub fn switch_lights(houses: &mut Vec<House>, elapsed: u64, delta: u64)
    requires
        forall|i: int| 0 <= i < old(houses)@.len() ==> (#[trigger] old(houses)@[i]).wf(),
    ensures
        is_light_cycle(old(houses)@, final(houses)@, elapsed, delta),
        final(houses)@.len() == old(houses)@.len(),
        !light_cycle_due(elapsed, delta, LIGHT_INTERVAL) ==> final(houses)@ == old(houses)@,
        forall|i: int|
            0 <= i < old(houses)@.len() ==> final(houses)@[i] == old(houses)@[i] || final(
                houses)@[i] == (#[trigger] old(houses)@[i]).toggled(),
        forall|i: int| 0 <= i < final(houses)@.len() ==> (#[trigger] final(houses)@[i]).wf(),
{
    let count: usize = if is_light_cycle_due(elapsed, delta, LIGHT_INTERVAL) {
        houses.len()
    } else {
        0
    };
    let rolls: Vec<u32> = draw(count);
    light_cycle_with(houses, elapsed, delta, &rolls);
    proof {
        if light_cycle_due(elapsed, delta, LIGHT_INTERVAL) {
            assert(houses@ == light_cycled(old(houses)@, elapsed, delta, rolls@));
        } else {
            let none = Seq::new(old(houses)@.len(), |i: int| 0u32);
            assert(houses@ == light_cycled(old(houses)@, elapsed, delta, none));
        }
    }
}

/// The coordinate of row or column `index` of the grid.
pub fn grid_offset(index: usize) -> (c: i64)
    requires
        index < GRID_SIZE,
    ensures
        c == grid_coordinate(index as int),
{
    (index as i64) * GRID_SPACING - ((GRID_SIZE as i64) - 1) * GRID_SPACING / 2
}

/// Builds the neighbourhood: a house in every cell of the grid but the
/// middle one, row by row, each lit or dark as a coin falls.
pub fn build_houses() -> (houses: Vec<House>)
    ensures
        houses@.len() == HOUSE_COUNT,
        forall|k: int|
            0 <= k < HOUSE_COUNT ==> #[trigger] houses@[k] == House::built(
                grid_position(k),
                houses@[k].light_status,
            ),
        forall|k: int| 0 <= k < HOUSE_COUNT ==> #[trigger] houses@[k].wf(),
{
    let mut houses: Vec<House> = Vec::new();
    let mut cell: usize = 0;
    while cell < GRID_SIZE * GRID_SIZE
        invariant
            cell <= GRID_SIZE * GRID_SIZE,
            houses@.len() == if cell <= 4 {
                cell as int
            } else {
                cell - 1
            },
            forall|k: int|
                0 <= k < houses@.len() ==> #[trigger] houses@[k] == House::built(
                    grid_position(k),
                    houses@[k].light_status,
                ),
            forall|k: int| 0 <= k < houses@.len() ==> #[trigger] houses@[k].wf(),
        decreases GRID_SIZE * GRID_SIZE - cell,
    {
        let row: usize = cell / GRID_SIZE;
        let col: usize = cell % GRID_SIZE;
        if !(row == 1 && col == 1) {
            let lit: bool = coin(roll());
            let position = Vec2 { x: grid_offset(col), y: grid_offset(row) };
            let house = House::new(position, lit);
            assert(grid_cell(houses@.len() as int) == cell);
            houses.push(house);
        }
        cell = cell + 1;
    }
    houses
}

} // verus!
