//! Trick-or-treating and depositing: what happens between the ghost, the
//! houses, the sack and the pumpkin on every tick.

use crate::geometry::Vec2;
use crate::house::House;
use crate::inventory::{one_more, with_find, LootType, PlayerInventory};
use crate::sack::{CandySack, ProgressMeter};
use crate::transient::{spawn_floating_text, Message, TransientEntity};
use vstd::prelude::*;

verus! {

/// How close the ghost has to be to the pumpkin to deposit: 100 units.
pub const DEPOSIT_RANGE: u64 = 100_000_000;

/// A completed visit: which house it was, where it stands, and what it
/// gave.
#[derive(Debug, PartialEq, Eq)]
pub struct LootEvent {
    pub house: usize,
    pub position: Vec2,
    pub loot: LootType,
}

/// What is to be done about the notice that tells the player that the
/// sack is full.
#[derive(Clone, Copy, PartialEq, Eq, Structural, Debug)]
pub enum NoticeAction {
    Keep,
    Show,
    Remove,
}

/// What a tick of trick-or-treating brought about.
#[derive(Debug, PartialEq, Eq)]
pub struct InteractionOutcome {
    /// The visits completed on this tick, in the order of the houses.
    pub events: Vec<LootEvent>,
    pub notice: NoticeAction,
}

/// A deposit at the pumpkin.
#[derive(Clone, Copy, PartialEq, Eq, Structural, Debug)]
pub struct DepositEvent {
    /// The candies handed over.
    pub candies: u32,
    /// Whether a notice of a full sack was on show and is to be removed.
    pub notice_removed: bool,
}

/// The visits that a tick of `delta` completes with the ghost at `ghost`,
/// in the order of the houses.
pub open spec fn loot_events(houses: Seq<House>, ghost: Vec2, delta: u64) -> Seq<LootEvent>
    decreases houses.len(),
{
    if houses.len() == 0 {
        Seq::empty()
    } else {
        let front = loot_events(houses.drop_last(), ghost, delta);
        let last = houses.last();
        if last.completes(ghost, delta) {
            front.push(
                LootEvent {
                    house: (houses.len() - 1) as usize,
                    position: last.position,
                    loot: last.loot,
                },
            )
        } else {
            front
        }
    }
}

/// Every completed visit is reported at the place of a house.
pub proof fn lemma_loot_events_places(houses: Seq<House>, ghost: Vec2, delta: u64)
    requires
        forall|i: int| 0 <= i < houses.len() ==> (#[trigger] houses[i]).wf(),
    ensures
        loot_events(houses, ghost, delta).len() <= houses.len(),
        forall|i: int|
            0 <= i < loot_events(houses, ghost, delta).len() ==> (#[trigger] loot_events(
                houses,
                ghost,
                delta,
            )[i]).position.wf(),
    decreases houses.len(),
{
    if houses.len() > 0 {
        let front = houses.drop_last();
        assert forall|i: int| 0 <= i < front.len() implies (#[trigger] front[i]).wf() by {
            assert(front[i] == houses[i]);
        }
        lemma_loot_events_places(front, ghost, delta);
    }
}

/// The sack after `candies` more were offered to it: what goes beyond the
/// capacity is lost.
pub open spec fn filled(sack: CandySack, candies: nat) -> CandySack {
    if sack.current + candies >= sack.capacity {
        CandySack { current: sack.capacity, ..sack }
    } else {
        CandySack { current: (sack.current + candies) as u32, ..sack }
    }
}

/// What becomes of the notice of a full sack: it is shown while the sack
/// is full, and only once.
pub open spec fn notice_action(shown: bool, sack: CandySack) -> NoticeAction {
    if sack.current >= sack.capacity {
        if shown {
            NoticeAction::Keep
        } else {
            NoticeAction::Show
        }
    } else {
        if shown {
            NoticeAction::Remove
        } else {
            NoticeAction::Keep
        }
    }
}

/// The candy count after the visits `events` were recorded.
pub open spec fn candies_after(candies: u32, events: Seq<LootEvent>) -> u32
    decreases events.len(),
{
    if events.len() == 0 {
        candies
    } else {
        one_more(candies_after(candies, events.drop_last()))
    }
}

/// The list of finds after the visits `events` were recorded.
pub open spec fn finds_after(items: Seq<LootType>, events: Seq<LootEvent>) -> Seq<LootType>
    decreases events.len(),
{
    if events.len() == 0 {
        items
    } else {
        with_find(finds_after(items, events.drop_last()), events.last().loot)
    }
}

/// The floating texts that tell of the visits `events`, one at each
/// house, each with the candy count as it stood after that visit.
pub open spec fn loot_texts(candies: u32, events: Seq<LootEvent>) -> Seq<TransientEntity> {
    Seq::new(
        events.len(),
        |i: int|
            TransientEntity::text_at(
                events[i].position,
                Message::TotalCandies(candies_after(candies, events.take(i + 1))),
            ),
    )
}

/// Brings the notice of a full sack up to date: it goes up when the sack
/// is full and no notice is on show, and comes down when the sack is no
/// longer full. There is never more than one.
pub fn update_full_notice(sack: &CandySack, shown: &mut bool) -> (action: NoticeAction)
    ensures
        action == notice_action(*old(shown), *sack),
        *final(shown) == (sack.current >= sack.capacity),
{
    if sack.is_full() {
        if *shown {
            NoticeAction::Keep
        } else {
            *shown = true;
            NoticeAction::Show
        }
    } else {
        if *shown {
            *shown = false;
            NoticeAction::Remove
        } else {
            NoticeAction::Keep
        }
    }
}

/// One tick of trick-or-treating. The notice of a full sack is brought up
/// to date with the sack as the tick finds it. Then every house takes its
/// turn, in order: a dark house is skipped; at a lit house in range the
/// timer runs, and a house out of range starts over. Each visit that
/// completes puts one candy into the sack, unless it is full, and is
/// reported with the loot of its house.
pub fn visit_houses(
    ghost: &Vec2,
    sack: &mut CandySack,
    houses: &mut Vec<House>,
    notice_shown: &mut bool,
    delta: u64,
) -> (outcome: InteractionOutcome)
    requires
        old(sack).wf(),
        forall|i: int| 0 <= i < old(houses)@.len() ==> (#[trigger] old(houses)@[i]).wf(),
    ensures
        outcome.notice == notice_action(*old(notice_shown), *old(sack)),
        *final(notice_shown) == (old(sack).current >= old(sack).capacity),
        final(houses)@.len() == old(houses)@.len(),
        forall|i: int|
            0 <= i < old(houses)@.len() ==> final(houses)@[i] == (#[trigger] old(
                houses)@[i]).visited(*ghost, delta),
        forall|i: int| 0 <= i < final(houses)@.len() ==> (#[trigger] final(houses)@[i]).wf(),
        outcome.events@ == loot_events(old(houses)@, *ghost, delta),
        *final(sack) == filled(*old(sack), outcome.events@.len()),
        final(sack).wf(),
        old(sack).current == old(sack).capacity ==> *final(sack) == *old(sack),
{
    let notice: NoticeAction = update_full_notice(sack, notice_shown);
    let mut events: Vec<LootEvent> = Vec::new();
    let n: usize = houses.len();
    let mut i: usize = 0;
    while i < n
        invariant
            i <= n,
            n == houses@.len(),
            n == old(houses)@.len(),
            old(sack).wf(),
            sack.wf(),
            forall|j: int|
                0 <= j < i ==> houses@[j] == (#[trigger] old(houses)@[j]).visited(*ghost, delta),
            forall|j: int| i <= j < n ==> houses@[j] == #[trigger] old(houses)@[j],
            forall|j: int| 0 <= j < n ==> (#[trigger] houses@[j]).wf(),
            forall|j: int| 0 <= j < n ==> (#[trigger] old(houses)@[j]).wf(),
            events@ == loot_events(old(houses)@.take(i as int), *ghost, delta),
            events@.len() <= i,
            *sack == filled(*old(sack), events@.len()),
        decreases n - i,
    {
        proof {
            assert(old(houses)@.take(i + 1).drop_last() =~= old(houses)@.take(i as int));
            assert(old(houses)@.take(i + 1).last() == old(houses)@[i as int]);
        }
        let position: Vec2 = houses[i].position;
        let loot: Option<LootType> = houses[i].visit(ghost, delta);
        match loot {
            Some(loot) => {
                sack.add_candy();
                events.push(LootEvent { house: i, position, loot });
            },
            None => {},
        }
        i = i + 1;
    }
    assert(old(houses)@.take(n as int) =~= old(houses)@);
    InteractionOutcome { events, notice }
}

/// Records the completed visits in the inventory, in their order, and
/// spawns a floating text at each house that tells the candy count as it
/// then stands.
pub fn collect_loot(inventory: &mut PlayerInventory, events: Vec<LootEvent>) -> (texts: Vec<
    TransientEntity,
>)
    requires
        forall|i: int| 0 <= i < events@.len() ==> (#[trigger] events@[i]).position.wf(),
    ensures
        final(inventory).candies == candies_after(old(inventory).candies, events@),
        final(inventory).rare_items@ == finds_after(old(inventory).rare_items@, events@),
        texts@ == loot_texts(old(inventory).candies, events@),
        forall|i: int| 0 <= i < texts@.len() ==> (#[trigger] texts@[i]).wf(),
{
    let ghost events_seq = events@;
    let mut texts: Vec<TransientEntity> = Vec::new();
    let mut events = events;
    let n: usize = events.len();
    let mut i: usize = 0;
    while i < n
        invariant
            i <= n,
            n == events_seq.len(),
            events@.len() == n,
            forall|j: int| 0 <= j < n ==> (#[trigger] events_seq[j]).position.wf(),
            forall|j: int|
                0 <= j < n ==> (#[trigger] events@[j]).position == events_seq[j].position,
            forall|j: int| i <= j < n ==> events@[j] == #[trigger] events_seq[j],
            inventory.candies == candies_after(old(inventory).candies, events_seq.take(i as int)),
            inventory.rare_items@ == finds_after(
                old(inventory).rare_items@,
                events_seq.take(i as int),
            ),
            texts@.len() == i,
            forall|j: int|
                0 <= j < i ==> #[trigger] texts@[j] == loot_texts(
                    old(inventory).candies,
                    events_seq,
                )[j],
            forall|j: int| 0 <= j < i ==> (#[trigger] texts@[j]).wf(),
        decreases n - i,
    {
        proof {
            assert(events_seq.take(i + 1).drop_last() =~= events_seq.take(i as int));
            assert(events_seq.take(i + 1).last() == events_seq[i as int]);
        }
        let mut loot = LootType::Candy;
        core::mem::swap(&mut events[i].loot, &mut loot);
        let position: Vec2 = events[i].position;
        let count: u32 = inventory.collect(loot);
        texts.push(spawn_floating_text(position, Message::TotalCandies(count)));
        i = i + 1;
    }
    proof {
        assert(events_seq.take(n as int) =~= events_seq);
        assert(texts@ =~= loot_texts(old(inventory).candies, events_seq));
    }
    texts
}

/// Whether a ghost at `ghost` with the sack `sack` deposits at a pumpkin
/// at `pumpkin`: there is a meter to fill, the ghost is in range, and it
/// carries candy.
pub open spec fn deposits(
    ghost: Vec2,
    pumpkin: Vec2,
    sack: CandySack,
    meter: Option<ProgressMeter>,
) -> bool {
    &&& meter is Some
    &&& ghost.dist_sq(pumpkin) < DEPOSIT_RANGE * DEPOSIT_RANGE
    &&& sack.current > 0
}

/// The deposit. A ghost within range of the pumpkin that carries candy
/// hands all of it over: the meter rises by the worth of the sack and
/// stops at 100 percent, the sack is emptied, and the notice of a full
/// sack comes down. Otherwise nothing happens; above all nothing
/// happens while there is no meter, and the sack keeps its candy.
pub fn deposit_candy(
    ghost: &Vec2,
    pumpkin: &Vec2,
    sack: &mut CandySack,
    meter: &mut Option<ProgressMeter>,
    notice_shown: &mut bool,
) -> (event: Option<DepositEvent>)
    requires
        old(sack).wf(),
        *old(meter) matches Some(m) ==> m.wf(),
    ensures
        final(sack).wf(),
        *final(meter) matches Some(m) ==> m.wf(),
        deposits(*ghost, *pumpkin, *old(sack), *old(meter)) ==> {
            &&& event == Some(
                DepositEvent { candies: old(sack).current, notice_removed: *old(notice_shown) },
            )
            &&& final(sack).current == 0
            &&& final(sack).capacity == old(sack).capacity
            &&& !*final(notice_shown)
            &&& *final(meter) == Some(
                old(meter)->0.credited(old(sack).current, old(sack).capacity),
            )
        },
        !deposits(*ghost, *pumpkin, *old(sack), *old(meter)) ==> {
            &&& event is None
            &&& *final(sack) == *old(sack)
            &&& *final(meter) == *old(meter)
            &&& *final(notice_shown) == *old(notice_shown)
        },
{
    match *meter {
        Some(reading) => {
            if ghost.within(pumpkin, DEPOSIT_RANGE) && sack.current > 0 {
                let mut reading: ProgressMeter = reading;
                reading.credit(sack);
                *meter = Some(reading);
                let candies: u32 = sack.empty();
                let notice_removed: bool = *notice_shown;
                *notice_shown = false;
                Some(DepositEvent { candies, notice_removed })
            } else {
                None
            }
        },
        None => None,
    }
}

} // verus!
