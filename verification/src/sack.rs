//! The candy sack of the ghost and the progress meter it fills.

use vstd::prelude::*;

verus! {

/// The share of the meter that one full sack is worth: 25 percent.
pub const SLICE: i64 = 25_000_000;

/// The reading of a full meter: 100 percent.
pub const FULL: i64 = 100_000_000;

/// The capped candy counter that the ghost carries between deposits.
#[derive(Clone, Copy, PartialEq, Eq, Structural, Debug)]
pub struct CandySack {
    pub capacity: u32,
    pub current: u32,
}

/// The progress meter: a percentage in fixed point, and whether its
/// display has switched to the tint of a full meter.
#[derive(Clone, Copy, PartialEq, Eq, Structural, Debug)]
pub struct ProgressMeter {
    pub value: i64,
    pub full: bool,
}

/// What a deposit of `current` candies from a sack of `capacity` adds to
/// the meter: that share of a slice, rounded down.
pub open spec fn increase(current: u32, capacity: u32) -> int {
    SLICE * current / (capacity as int)
}

/// The reading of a meter at `value` after `amount` was added.
pub open spec fn raised(value: int, amount: int) -> int {
    if value + amount >= FULL {
        FULL as int
    } else {
        value + amount
    }
}

/// A full sack is worth exactly one slice, whatever its capacity.
pub proof fn lemma_full_sack_is_a_slice(capacity: u32)
    requires
        capacity > 0,
    ensures
        increase(capacity, capacity) == SLICE,
{
    assert(SLICE * capacity / (capacity as int) == SLICE) by (nonlinear_arith)
        requires
            capacity > 0,
    ;
}

/// A deposit never adds more than a slice.
pub proof fn lemma_increase_bounds(current: u32, capacity: u32)
    requires
        current <= capacity,
        capacity > 0,
    ensures
        0 <= increase(current, capacity) <= SLICE,
{
    let c = current as int;
    let k = capacity as int;
    assert(0 <= (25_000_000 * c) / k <= 25_000_000) by (nonlinear_arith)
        requires
            0 <= c <= k,
            k > 0,
    ;
}

/// A deposit leaves the meter between 0 and 100 percent, shown as full
/// exactly when it is, and never lower than it was.
pub proof fn lemma_credited_wf(meter: ProgressMeter, current: u32, capacity: u32)
    requires
        meter.wf(),
        0 < current <= capacity,
    ensures
        meter.credited(current, capacity).wf(),
        meter.credited(current, capacity).value >= meter.value,
{
    lemma_increase_bounds(current, capacity);
}

impl CandySack {
    /// The invariant of a sack: it never holds more than its capacity.
    pub open spec fn wf(self) -> bool {
        self.current <= self.capacity
    }

    /// The sack after one more candy was offered to it: a full sack
    /// stays as it is.
    pub open spec fn topped_up(self) -> CandySack {
        if self.current < self.capacity {
            CandySack { current: (self.current + 1) as u32, ..self }
        } else {
            self
        }
    }

    /// An empty sack of the given capacity.
    pub fn new(capacity: u32) -> (sack: CandySack)
        ensures
            sack.wf(),
            sack.capacity == capacity,
            sack.current == 0,
    {
        CandySack { capacity, current: 0 }
    }

    /// Whether the sack holds as much as it can.
    pub fn is_full(&self) -> (r: bool)
        ensures
            r == (self.current >= self.capacity),
    {
        self.current >= self.capacity
    }

    /// Puts one candy into the sack unless it is full, and says whether
    /// the candy went in.
    pub fn add_candy(&mut self) -> (added: bool)
        requires
            old(self).wf(),
        ensures
            *final(self) == old(self).topped_up(),
            final(self).wf(),
            added == (old(self).current < old(self).capacity),
    {
        if self.current < self.capacity {
            self.current = self.current + 1;
            true
        } else {
            false
        }
    }

    /// Empties the sack and returns what it held.
    pub fn empty(&mut self) -> (held: u32)
        ensures
            held == old(self).current,
            final(self).current == 0,
            final(self).capacity == old(self).capacity,
            final(self).wf(),
    {
        let held: u32 = self.current;
        self.current = 0;
        held
    }
}

impl ProgressMeter {
    /// The invariant of the meter: a reading between 0 and 100 percent,
    /// shown as full exactly when it is.
    pub open spec fn wf(self) -> bool {
        &&& 0 <= self.value <= FULL
        &&& self.full == (self.value == FULL)
    }

    /// The meter after the deposit of a sack with the given contents.
    pub open spec fn credited(self, current: u32, capacity: u32) -> ProgressMeter {
        let value = raised(self.value as int, increase(current, capacity));
        ProgressMeter { value: value as i64, full: value == FULL }
    }

    /// An empty meter.
    pub fn new() -> (meter: ProgressMeter)
        ensures
            meter.wf(),
            meter.value == 0,
            !meter.full,
    {
        ProgressMeter { value: 0, full: false }
    }

    /// Whether the meter has reached 100 percent.
    pub fn is_full(&self) -> (r: bool)
        requires
            self.wf(),
        ensures
            r == (self.value == FULL),
            r == self.full,
    {
        self.value >= FULL
    }

    /// Adds the worth of a sack to the meter, which stops at 100 percent.
    pub fn credit(&mut self, sack: &CandySack)
        requires
            old(self).wf(),
            sack.wf(),
            sack.current > 0,
        ensures
            *final(self) == old(self).credited(sack.current, sack.capacity),
            final(self).wf(),
            final(self).value >= old(self).value,
            sack.current == sack.capacity ==> final(self).value == raised(
                old(self).value as int,
                SLICE as int,
            ),
    {
        proof {
            lemma_increase_bounds(sack.current, sack.capacity);
            if sack.current == sack.capacity {
                lemma_full_sack_is_a_slice(sack.capacity);
            }
        }
        let amount: u64 = (SLICE as u64) * (sack.current as u64) / (sack.capacity as u64);
        let sum: i64 = self.value + amount as i64;
        if sum >= FULL {
            self.value = FULL;
            self.full = true;
        } else {
            self.value = sum;
            self.full = false;
        }
    }
}

} // verus!
