//! Countdown timers: the one time-based primitive every state machine of
//! the simulation is built from.

use crate::fixed::UNIT;
use vstd::arithmetic::div_mod::{
    lemma_fundamental_div_mod, lemma_fundamental_div_mod_converse, lemma_mod_bound,
};
use vstd::prelude::*;

verus! {

/// What a timer does when it reaches its duration.
#[derive(Clone, Copy, PartialEq, Eq, Structural, Debug)]
pub enum TimerMode {
    /// Stops at its duration and stays finished until it is reset.
    Once,
    /// Wraps around and keeps counting.
    Repeating,
}

/// A countdown over a fixed duration, in nanoseconds.
#[derive(Clone, Copy, PartialEq, Eq, Structural, Debug)]
pub struct Timer {
    pub mode: TimerMode,
    /// The length of one period.
    pub duration: u64,
    /// The time counted in the current period.
    pub elapsed: u64,
    /// Whether the timer has reached its duration; for a repeating timer
    /// this holds only on the tick on which it did.
    pub finished: bool,
    /// Whether the last tick was the one that reached the duration.
    pub just_finished: bool,
}

/// The sum of a sequence of time steps.
pub open spec fn total(deltas: Seq<u64>) -> nat
    decreases deltas.len(),
{
    if deltas.len() == 0 {
        0
    } else {
        total(deltas.drop_last()) + deltas.last() as nat
    }
}

/// Adding one step to a running sum that was reduced modulo `d` gives the
/// reduced new sum, and passes `d` exactly when the quotient grows.
pub proof fn lemma_wrap_step(s: int, delta: int, d: int)
    requires
        s >= 0,
        delta >= 0,
        d > 0,
    ensures
        (s % d + delta) % d == (s + delta) % d,
        (s % d + delta >= d) == ((s + delta) / d > s / d),
{
    let q = s / d;
    let r = s % d;
    lemma_fundamental_div_mod(s, d);
    lemma_mod_bound(s, d);
    let e = r + delta;
    let q2 = e / d;
    let r2 = e % d;
    lemma_fundamental_div_mod(e, d);
    lemma_mod_bound(e, d);
    assert(d * q + d * q2 == (q + q2) * d) by (nonlinear_arith);
    lemma_fundamental_div_mod_converse(s + delta, d, q + q2, r2);
    assert(e >= d ==> q2 >= 1) by (nonlinear_arith)
        requires
            e == d * q2 + r2,
            0 <= r2 < d,
            d > 0,
    ;
    assert(e < d ==> q2 <= 0) by (nonlinear_arith)
        requires
            e == d * q2 + r2,
            0 <= r2 < d,
            d > 0,
    ;
}

/// A longer run of steps sums to at least as much as any of its prefixes.
pub proof fn lemma_total_prefix(deltas: Seq<u64>, i: int)
    requires
        0 <= i <= deltas.len(),
    ensures
        total(deltas.take(i)) <= total(deltas),
    decreases deltas.len() - i,
{
    if i == deltas.len() {
        assert(deltas.take(i) =~= deltas);
    } else {
        lemma_total_prefix(deltas, i + 1);
        assert(deltas.take(i + 1).drop_last() =~= deltas.take(i));
    }
}

impl Timer {
    /// The invariant of a timer: the elapsed time never passes the
    /// duration, and the two flags agree with it.
    pub open spec fn wf(self) -> bool {
        &&& self.just_finished ==> self.finished
        &&& match self.mode {
            TimerMode::Once => {
                &&& self.elapsed <= self.duration
                &&& self.finished ==> self.elapsed == self.duration
            },
            TimerMode::Repeating => {
                &&& self.finished ==> self.just_finished
                &&& self.duration == 0 ==> self.elapsed == 0
                &&& self.duration > 0 ==> self.elapsed < self.duration
            },
        }
    }

    /// A timer that has counted nothing yet, as after `new` or `reset`.
    pub open spec fn fresh(self) -> bool {
        self.elapsed == 0 && !self.finished && !self.just_finished
    }

    /// The timer as `reset` leaves it.
    pub open spec fn rewound(self) -> Timer {
        Timer { elapsed: 0, finished: false, just_finished: false, ..self }
    }

    /// The timer after one tick of `delta` nanoseconds.
    pub open spec fn ticked(self, delta: u64) -> Timer {
        match self.mode {
            TimerMode::Once => {
                if self.finished {
                    Timer { just_finished: false, ..self }
                } else if self.elapsed + delta >= self.duration {
                    Timer { elapsed: self.duration, finished: true, just_finished: true, ..self }
                } else {
                    Timer {
                        elapsed: (self.elapsed + delta) as u64,
                        finished: false,
                        just_finished: false,
                        ..self
                    }
                }
            },
            TimerMode::Repeating => {
                if self.duration == 0 {
                    Timer { elapsed: 0, finished: true, just_finished: true, ..self }
                } else {
                    let reached = self.elapsed + delta >= self.duration;
                    Timer {
                        elapsed: ((self.elapsed + delta) % (self.duration as int)) as u64,
                        finished: reached,
                        just_finished: reached,
                        ..self
                    }
                }
            },
        }
    }

    /// The timer after one tick for each step of `deltas`, in order.
    pub open spec fn after(self, deltas: Seq<u64>) -> Timer
        decreases deltas.len(),
    {
        if deltas.len() == 0 {
            self
        } else {
            self.after(deltas.drop_last()).ticked(deltas.last())
        }
    }

    /// The elapsed share of the duration, in fixed point: `UNIT` stands
    /// for the whole of it. A timer of no duration is always at the end.
    pub open spec fn fraction_spec(self) -> int {
        if self.duration == 0 {
            UNIT as int
        } else {
            self.elapsed * UNIT / (self.duration as int)
        }
    }

    /// A fresh timer over `duration` nanoseconds.
    pub fn new(duration: u64, mode: TimerMode) -> (t: Timer)
        ensures
            t.wf(),
            t.fresh(),
            t.duration == duration,
            t.mode == mode,
    {
        Timer { mode, duration, elapsed: 0, finished: false, just_finished: false }
    }

    /// Advances the timer by `delta` nanoseconds.
    pub fn tick(&mut self, delta: u64)
        requires
            old(self).wf(),
        ensures
            *final(self) == old(self).ticked(delta),
            final(self).wf(),
    {
        match self.mode {
            TimerMode::Once => {
                if self.finished {
                    self.just_finished = false;
                } else if delta >= self.duration - self.elapsed {
                    self.elapsed = self.duration;
                    self.finished = true;
                    self.just_finished = true;
                } else {
                    self.elapsed = self.elapsed + delta;
                    self.finished = false;
                    self.just_finished = false;
                }
            },
            TimerMode::Repeating => {
                if self.duration == 0 {
                    self.elapsed = 0;
                    self.finished = true;
                    self.just_finished = true;
                } else {
                    let sum: u128 = self.elapsed as u128 + delta as u128;
                    let reached: bool = sum >= self.duration as u128;
                    let rest: u128 = sum % (self.duration as u128);
                    self.elapsed = rest as u64;
                    self.finished = reached;
                    self.just_finished = reached;
                }
            },
        }
    }

    /// Whether the timer has reached its duration.
    pub fn finished(&self) -> (r: bool)
        ensures
            r == self.finished,
    {
        self.finished
    }

    /// Whether the last tick was the one on which the timer reached its
    /// duration.
    pub fn just_finished(&self) -> (r: bool)
        ensures
            r == self.just_finished,
    {
        self.just_finished
    }

    /// Starts the timer over, keeping its duration and mode.
    pub fn reset(&mut self)
        ensures
            *final(self) == old(self).rewound(),
            final(self).fresh(),
            final(self).wf(),
    {
        self.elapsed = 0;
        self.finished = false;
        self.just_finished = false;
    }

    /// The elapsed share of the duration, between 0 and `UNIT`.
    pub fn fraction(&self) -> (f: i64)
        requires
            self.wf(),
        ensures
            f == self.fraction_spec(),
            0 <= f <= UNIT,
            self.mode == TimerMode::Once ==> (f == UNIT <==> self.elapsed == self.duration),
    {
        if self.duration == 0 {
            UNIT
        } else {
            assert(0 <= self.elapsed * 1_000_000 <= 0xffff_ffff_ffff_ffff * 1_000_000)
                by (nonlinear_arith);
            let scaled: u128 = self.elapsed as u128 * 1_000_000;
            let share: u128 = scaled / (self.duration as u128);
            proof {
                let e = self.elapsed as int;
                let d = self.duration as int;
                assert(e * UNIT / d <= UNIT && (e < d ==> e * UNIT / d < UNIT)
                    && (e == d ==> e * UNIT / d == UNIT)) by (nonlinear_arith)
                    requires
                        0 <= e <= d,
                        d > 0,
                        UNIT == 1_000_000,
                ;
            }
            share as i64
        }
    }
}

/// A tick keeps a timer well formed, and leaves its mode and duration.
pub proof fn lemma_ticked_wf(t: Timer, delta: u64)
    requires
        t.wf(),
    ensures
        t.ticked(delta).wf(),
        t.ticked(delta).mode == t.mode,
        t.ticked(delta).duration == t.duration,
{
    if t.mode == TimerMode::Repeating && t.duration > 0 {
        lemma_mod_bound(t.elapsed + delta, t.duration as int);
    }
}

/// The elapsed share of a well-formed timer lies between nothing and all.
pub proof fn lemma_fraction_bounds(t: Timer)
    requires
        t.wf(),
    ensures
        0 <= t.fraction_spec() <= UNIT,
{
    if t.duration > 0 {
        let e = t.elapsed as int;
        let d = t.duration as int;
        assert(0 <= e * UNIT / d <= UNIT) by (nonlinear_arith)
            requires
                0 <= e <= d,
                d > 0,
                UNIT == 1_000_000,
        ;
    }
}

/// Ticking keeps a timer well formed, however many times.
pub proof fn lemma_after_wf(t: Timer, deltas: Seq<u64>)
    requires
        t.wf(),
    ensures
        t.after(deltas).wf(),
        t.after(deltas).mode == t.mode,
        t.after(deltas).duration == t.duration,
    decreases deltas.len(),
{
    if deltas.len() > 0 {
        lemma_after_wf(t, deltas.drop_last());
        let prev = t.after(deltas.drop_last());
        if prev.mode == TimerMode::Repeating && prev.duration > 0 {
            lemma_mod_bound(prev.elapsed + deltas.last(), prev.duration as int);
        }
    }
}

/// A one-shot timer counts the accumulated time up to its duration: after
/// any run of ticks from a fresh start it is finished exactly if the steps
/// sum to the duration or more, and `just_finished` holds exactly on the
/// tick whose step made the sum reach it.
pub proof fn lemma_once_run(t: Timer, deltas: Seq<u64>)
    requires
        t.wf(),
        t.fresh(),
        t.mode == TimerMode::Once,
        deltas.len() > 0,
    ensures
        t.after(deltas).finished == (total(deltas) >= t.duration),
        t.after(deltas).just_finished == (total(deltas) >= t.duration && (deltas.len() == 1
            || total(deltas.drop_last()) < t.duration)),
        !t.after(deltas).finished ==> t.after(deltas).elapsed == total(deltas),
    decreases deltas.len(),
{
    let front = deltas.drop_last();
    lemma_after_wf(t, front);
    if deltas.len() == 1 {
        assert(front.len() == 0);
        assert(total(front) == 0);
    } else {
        lemma_once_run(t, front);
    }
}

/// A one-shot timer reports `just_finished` on at most one tick of a run
/// from a fresh start: never on two different ticks.
pub proof fn lemma_once_fires_once(t: Timer, deltas: Seq<u64>, i: int, j: int)
    requires
        t.wf(),
        t.fresh(),
        t.mode == TimerMode::Once,
        1 <= i < j <= deltas.len(),
    ensures
        !(t.after(deltas.take(i)).just_finished && t.after(deltas.take(j)).just_finished),
{
    let a = deltas.take(i);
    let b = deltas.take(j);
    lemma_once_run(t, a);
    lemma_once_run(t, b);
    lemma_total_prefix(b.drop_last(), i);
    assert(b.drop_last().take(i) =~= a);
}

/// A one-shot timer reports `just_finished` on some tick of every run
/// from a fresh start whose steps sum to its duration or more. With the
/// law before, it does so on exactly one.
pub proof fn lemma_once_fires(t: Timer, deltas: Seq<u64>)
    requires
        t.wf(),
        t.fresh(),
        t.mode == TimerMode::Once,
        deltas.len() > 0,
        total(deltas) >= t.duration,
    ensures
        exists|i: int| 1 <= i <= deltas.len() && (#[trigger] t.after(deltas.take(i))).just_finished,
    decreases deltas.len(),
{
    lemma_once_run(t, deltas);
    if t.after(deltas).just_finished {
        assert(deltas.take(deltas.len() as int) =~= deltas);
    } else {
        let front = deltas.drop_last();
        lemma_once_fires(t, front);
        let i = choose|i: int|
            1 <= i <= front.len() && (#[trigger] t.after(front.take(i))).just_finished;
        assert(deltas.take(i) =~= front.take(i));
    }
}

/// Once finished, a one-shot timer stays finished and never reports
/// `just_finished` again, whatever ticks follow, until it is reset.
pub proof fn lemma_once_stays_quiet(t: Timer, deltas: Seq<u64>)
    requires
        t.wf(),
        t.mode == TimerMode::Once,
        t.finished,
        deltas.len() > 0,
    ensures
        t.after(deltas).finished,
        !t.after(deltas).just_finished,
        t.after(deltas).elapsed == t.duration,
    decreases deltas.len(),
{
    let front = deltas.drop_last();
    lemma_after_wf(t, front);
    if deltas.len() > 1 {
        lemma_once_stays_quiet(t, front);
    } else {
        assert(t.after(front) == t);
    }
}

/// A repeating timer completes once per `duration` of accumulated time:
/// after any run of ticks from a fresh start its elapsed time is the sum
/// of the steps modulo the duration, and `just_finished` holds exactly on
/// the ticks during which the sum passed a multiple of the duration.
pub proof fn lemma_repeating_run(t: Timer, deltas: Seq<u64>)
    requires
        t.wf(),
        t.fresh(),
        t.mode == TimerMode::Repeating,
        t.duration > 0,
        deltas.len() > 0,
    ensures
        t.after(deltas).elapsed == total(deltas) % (t.duration as nat),
        t.after(deltas).just_finished == (total(deltas) / (t.duration as nat) > total(
            deltas.drop_last(),
        ) / (t.duration as nat)),
        t.after(deltas).finished == t.after(deltas).just_finished,
    decreases deltas.len(),
{
    let front = deltas.drop_last();
    let d = t.duration as int;
    lemma_after_wf(t, front);
    if deltas.len() == 1 {
        assert(front.len() == 0);
        assert(total(front) == 0);
        assert(0int % d == 0) by (nonlinear_arith)
            requires
                d > 0,
        ;
    } else {
        lemma_repeating_run(t, front);
    }
    lemma_wrap_step(total(front) as int, deltas.last() as int, d);
}

/// Whether the sum of the steps passes `bound` on tick `i` of the run
/// `deltas`, counting the ticks from one.
pub open spec fn crosses(deltas: Seq<u64>, bound: int, i: int) -> bool {
    &&& 1 <= i <= deltas.len()
    &&& total(deltas.take(i - 1)) < bound
    &&& bound <= total(deltas.take(i))
}

/// The sum of the steps passes a bound on at most one tick.
pub proof fn lemma_crossing_unique(deltas: Seq<u64>, bound: int, i: int, j: int)
    requires
        crosses(deltas, bound, i),
        crosses(deltas, bound, j),
    ensures
        i == j,
{
    if i < j {
        lemma_total_prefix(deltas.take(j - 1), i);
        assert(deltas.take(j - 1).take(i) =~= deltas.take(i));
    } else if j < i {
        lemma_total_prefix(deltas.take(i - 1), j);
        assert(deltas.take(i - 1).take(j) =~= deltas.take(j));
    }
}

/// A repeating timer reports every period: for each multiple of the
/// duration that the sum of the steps reaches, there is a tick on which
/// the sum passes it, and on that tick `just_finished` holds. By the law
/// before there is only one such tick.
pub proof fn lemma_repeating_fires_each_period(t: Timer, deltas: Seq<u64>, periods: nat)
    requires
        t.wf(),
        t.fresh(),
        t.mode == TimerMode::Repeating,
        t.duration > 0,
        periods >= 1,
        periods * t.duration <= total(deltas),
    ensures
        exists|i: int| #[trigger]
            crosses(deltas, periods * t.duration, i) && t.after(deltas.take(i)).just_finished,
    decreases deltas.len(),
{
    let d = t.duration as int;
    let bound = periods * t.duration;
    assert(bound >= 1) by (nonlinear_arith)
        requires
            periods >= 1,
            d >= 1,
            bound == periods * d,
    ;
    if deltas.len() == 0 {
        assert(total(deltas) == 0);
    } else {
        let front = deltas.drop_last();
        let n = deltas.len() as int;
        if total(front) >= bound {
            lemma_repeating_fires_each_period(t, front, periods);
            let i = choose|i: int| #[trigger]
                crosses(front, bound as int, i) && t.after(front.take(i)).just_finished;
            assert(deltas.take(i) =~= front.take(i));
            assert(deltas.take(i - 1) =~= front.take(i - 1));
            assert(crosses(deltas, bound as int, i));
        } else {
            assert(deltas.take(n) =~= deltas);
            assert(deltas.take(n - 1) =~= front);
            lemma_repeating_run(t, deltas);
            let low = total(front) as int;
            let high = total(deltas) as int;
            let m = periods as int;
            assert(low / d < m && high / d >= m) by (nonlinear_arith)
                requires
                    0 <= low < m * d,
                    m * d <= high,
                    d > 0,
            ;
            assert(crosses(deltas, bound as int, n));
        }
    }
}

/// A repeating timer of no duration completes on every tick.
pub proof fn lemma_repeating_zero(t: Timer, delta: u64)
    requires
        t.mode == TimerMode::Repeating,
        t.duration == 0,
    ensures
        t.ticked(delta).just_finished,
{
}

} // verus!
