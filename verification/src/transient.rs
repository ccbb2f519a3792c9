//! Short-lived entities: particles, floating texts and the fading trail of
//! the ghost. Each carries a one-shot lifetime timer, fades as the timer
//! runs, and is removed when it completes.

use crate::fixed::{clamp, clamp_to, UNIT};
use crate::geometry::{Vec2, COORD_MAX};
use crate::timer::{lemma_fraction_bounds, lemma_ticked_wf, Timer, TimerMode};
use vstd::prelude::*;

verus! {

/// How long a floating text lives: 1 second.
pub const TEXT_LIFETIME: u64 = 1_000_000_000;

/// How far a floating text rises over its lifetime: 50 units.
pub const TEXT_RISE: i64 = 50;

/// How far above its anchor a floating text appears: 30 units.
pub const TEXT_OFFSET: i64 = 30_000_000;

/// A colour, each channel a share of `UNIT`.
#[derive(Clone, Copy, PartialEq, Eq, Structural, Debug)]
pub struct Color {
    pub red: i64,
    pub green: i64,
    pub blue: i64,
}

/// The picture of a particle.
#[derive(Clone, Copy, PartialEq, Eq, Structural, Debug)]
pub enum ParticleSprite {
    MoneyShot,
    Sparkle,
}

/// What a floating text says.
#[derive(Clone, Copy, PartialEq, Eq, Structural, Debug)]
pub enum Message {
    /// The candies collected in the whole game, after a visit.
    TotalCandies(u32),
    /// The candies handed over at the pumpkin.
    Deposited(u32),
    /// The balloon was hit.
    Jackpot,
}

/// What a transient entity is, with what only its kind has.
#[derive(Clone, Copy, PartialEq, Eq, Structural, Debug)]
pub enum Payload {
    /// Flies on with its velocity until it expires.
    Particle { velocity: Vec2, rotation: i64, scale: i64, color: Color, sprite: ParticleSprite },
    /// Rises from its anchor while it fades.
    FloatingText { anchor: Vec2, message: Message },
    /// A copy of the ghost as it was: its scale and its rotation.
    Trail { scale: i64, rotation: i64 },
}

/// An entity with a finite lifetime.
#[derive(Clone, Copy, PartialEq, Eq, Structural, Debug)]
pub struct TransientEntity {
    pub position: Vec2,
    /// Runs from the spawn to the removal, once.
    pub lifetime: Timer,
    /// The opacity, a share of `UNIT`: what is left of the lifetime.
    pub alpha: i64,
    pub payload: Payload,
}

/// The height of a floating text that rose from `anchor_y` for the share
/// `fraction` of its lifetime.
pub open spec fn risen(anchor_y: int, fraction: int) -> int {
    clamp(anchor_y + TEXT_RISE * fraction, -COORD_MAX, COORD_MAX as int)
}

/// The entities of `s` with one tick of `delta` applied to each.
pub open spec fn aged_all(s: Seq<TransientEntity>, delta: u64) -> Seq<TransientEntity> {
    Seq::new(s.len(), |i: int| s[i].aged(delta))
}

/// The entities of `s` whose lifetime has not completed, in their order.
pub open spec fn pruned(s: Seq<TransientEntity>) -> Seq<TransientEntity>
    decreases s.len(),
{
    if s.len() == 0 {
        Seq::empty()
    } else if s.last().lifetime.finished {
        pruned(s.drop_last())
    } else {
        pruned(s.drop_last()).push(s.last())
    }
}

/// The number of entities of `s` whose lifetime has completed.
pub open spec fn expired(s: Seq<TransientEntity>) -> nat {
    (s.len() - pruned(s).len()) as nat
}

/// What is left after removal holds no completed entity, holds only
/// entities that were there before, and is no longer than what was there.
pub proof fn lemma_pruned_members(s: Seq<TransientEntity>)
    ensures
        pruned(s).len() <= s.len(),
        forall|i: int| 0 <= i < pruned(s).len() ==> !(#[trigger] pruned(s)[i]).lifetime.finished,
        forall|i: int| 0 <= i < pruned(s).len() ==> s.contains(#[trigger] pruned(s)[i]),
    decreases s.len(),
{
    if s.len() > 0 {
        let front = s.drop_last();
        lemma_pruned_members(front);
        assert forall|i: int| 0 <= i < pruned(s).len() implies s.contains(
            #[trigger] pruned(s)[i],
        ) by {
            if i < pruned(front).len() {
                let e = pruned(front)[i];
                assert(front.contains(e));
                let k = choose|k: int| 0 <= k < front.len() && front[k] == e;
                assert(s[k] == e);
            } else {
                assert(s[s.len() - 1] == s.last());
            }
        }
    }
}

/// Where nothing has completed, removal changes nothing.
pub proof fn lemma_pruned_fixpoint(s: Seq<TransientEntity>)
    requires
        forall|i: int| 0 <= i < s.len() ==> !(#[trigger] s[i]).lifetime.finished,
    ensures
        pruned(s) == s,
    decreases s.len(),
{
    if s.len() > 0 {
        lemma_pruned_fixpoint(s.drop_last());
        assert(s.drop_last().push(s.last()) =~= s);
    } else {
        assert(s =~= Seq::empty());
    }
}

/// Removal is idempotent: removing the completed entities a second time
/// changes nothing, since none is left to remove.
pub proof fn lemma_despawn_twice(s: Seq<TransientEntity>)
    ensures
        pruned(pruned(s)) == pruned(s),
        expired(pruned(s)) == 0,
{
    lemma_pruned_members(s);
    lemma_pruned_fixpoint(pruned(s));
}

/// A floating text at an anchor in the world is a well-formed entity that
/// has its life before it.
pub proof fn lemma_text_wf(anchor: Vec2, message: Message)
    requires
        anchor.wf(),
    ensures
        TransientEntity::text_at(anchor, message).wf(),
        !TransientEntity::text_at(anchor, message).lifetime.finished,
{
}

/// Ageing keeps a transient entity well formed.
pub proof fn lemma_aged_wf(e: TransientEntity, delta: u64)
    requires
        e.wf(),
    ensures
        e.aged(delta).wf(),
{
    lemma_ticked_wf(e.lifetime, delta);
    lemma_fraction_bounds(e.lifetime.ticked(delta));
}

impl TransientEntity {
    /// The invariant of a transient entity: a well-formed one-shot
    /// lifetime, an opacity between nothing and all, a place in the world.
    pub open spec fn wf(self) -> bool {
        &&& self.position.wf()
        &&& self.lifetime.wf()
        &&& self.lifetime.mode == TimerMode::Once
        &&& 0 <= self.alpha <= UNIT
    }

    /// The entity after a tick of `delta`. The lifetime advances, and the
    /// opacity becomes the share of the lifetime that is left. A particle
    /// that has not expired moves on with its velocity; a floating text
    /// stands as high above its anchor as its lifetime has run; a trail
    /// stays where it is.
    pub open spec fn aged(self, delta: u64) -> TransientEntity {
        let lifetime = self.lifetime.ticked(delta);
        let fraction = lifetime.fraction_spec();
        TransientEntity {
            position: match self.payload {
                Payload::Particle { velocity, .. } => if lifetime.finished {
                    self.position
                } else {
                    self.position.advanced(velocity, delta)
                },
                Payload::FloatingText { anchor, .. } => Vec2 {
                    x: self.position.x,
                    y: risen(anchor.y as int, fraction) as i64,
                },
                Payload::Trail { .. } => self.position,
            },
            lifetime,
            alpha: (UNIT - fraction) as i64,
            payload: self.payload,
        }
    }

    /// A floating text as it is spawned for an event at `anchor`.
    pub open spec fn text_at(anchor: Vec2, message: Message) -> TransientEntity {
        TransientEntity {
            position: Vec2 {
                x: anchor.x,
                y: clamp(anchor.y + TEXT_OFFSET, -COORD_MAX, COORD_MAX as int) as i64,
            },
            lifetime: Timer {
                mode: TimerMode::Once,
                duration: TEXT_LIFETIME,
                elapsed: 0,
                finished: false,
                just_finished: false,
            },
            alpha: UNIT,
            payload: Payload::FloatingText { anchor, message },
        }
    }

    /// Whether the lifetime has completed, so that the entity is due for
    /// removal.
    pub fn expired(&self) -> (r: bool)
        ensures
            r == self.lifetime.finished,
    {
        self.lifetime.finished()
    }

    /// Applies one tick of `delta` to the entity.
    pub fn age(&mut self, delta: u64)
        requires
            old(self).wf(),
        ensures
            *final(self) == old(self).aged(delta),
            final(self).wf(),
    {
        self.lifetime.tick(delta);
        let fraction: i64 = self.lifetime.fraction();
        self.alpha = UNIT - fraction;
        match self.payload {
            Payload::Particle { velocity, .. } => {
                if !self.lifetime.finished() {
                    self.position = self.position.advance(&velocity, delta);
                }
            },
            Payload::FloatingText { anchor, .. } => {
                let height: i128 = anchor.y as i128 + (TEXT_RISE as i128) * (fraction as i128);
                self.position.y = clamp_to(height, -COORD_MAX, COORD_MAX);
            },
            Payload::Trail { .. } => {},
        }
    }
}

/// Spawns the floating text for an event at `anchor`: it appears a little
/// above the anchor, fully opaque, and lives for a second.
pub fn spawn_floating_text(anchor: Vec2, message: Message) -> (text: TransientEntity)
    requires
        anchor.wf(),
    ensures
        text == TransientEntity::text_at(anchor, message),
        text.wf(),
{
    TransientEntity {
        position: Vec2 {
            x: anchor.x,
            y: clamp_to(anchor.y as i128 + TEXT_OFFSET as i128, -COORD_MAX, COORD_MAX),
        },
        lifetime: Timer::new(TEXT_LIFETIME, TimerMode::Once),
        alpha: UNIT,
        payload: Payload::FloatingText { anchor, message },
    }
}

/// Removes every entity whose lifetime has completed, keeping the others
/// in their order, and returns how many were removed. Nothing that was
/// removed is ever seen again; a second call removes nothing.
pub fn despawn_finished(entities: &mut Vec<TransientEntity>) -> (removed: usize)
    ensures
        final(entities)@ == pruned(old(entities)@),
        removed == expired(old(entities)@),
        forall|i: int|
            0 <= i < final(entities)@.len() ==> !(#[trigger] final(entities)@[i]).lifetime.finished,
        (forall|i: int| 0 <= i < old(entities)@.len() ==> (#[trigger] old(entities)@[i]).wf())
            ==> (forall|i: int| 0 <= i < final(entities)@.len() ==> (#[trigger] final(
            entities)@[i]).wf()),
{
    let n: usize = entities.len();
    let mut kept: Vec<TransientEntity> = Vec::new();
    let mut i: usize = 0;
    while i < n
        invariant
            i <= n,
            n == entities@.len(),
            entities@ == old(entities)@,
            kept@ == pruned(entities@.take(i as int)),
            kept@.len() <= i,
        decreases n - i,
    {
        let entity: TransientEntity = entities[i];
        proof {
            assert(entities@.take(i + 1).drop_last() =~= entities@.take(i as int));
            assert(entities@.take(i + 1).last() == entity);
        }
        if !entity.expired() {
            kept.push(entity);
        }
        i = i + 1;
    }
    proof {
        assert(entities@.take(n as int) =~= entities@);
        lemma_pruned_members(entities@);
        assert forall|i: int|
            0 <= i < kept@.len() && (forall|k: int|
                0 <= k < entities@.len() ==> (#[trigger] entities@[k]).wf()) implies (
        #[trigger] kept@[i]).wf() by {
            assert(entities@.contains(kept@[i]));
        }
    }
    let removed: usize = n - kept.len();
    *entities = kept;
    removed
}

/// One tick of every transient entity: each one ages by `delta`, and
/// those whose lifetime completes are removed. Returns how many were
/// removed.
pub fn update_transients(entities: &mut Vec<TransientEntity>, delta: u64) -> (removed: usize)
    requires
        forall|i: int| 0 <= i < old(entities)@.len() ==> (#[trigger] old(entities)@[i]).wf(),
    ensures
        final(entities)@ == pruned(aged_all(old(entities)@, delta)),
        removed == expired(aged_all(old(entities)@, delta)),
        forall|i: int| 0 <= i < final(entities)@.len() ==> (#[trigger] final(entities)@[i]).wf(),
        forall|i: int|
            0 <= i < final(entities)@.len() ==> !(#[trigger] final(entities)@[i]).lifetime.finished,
{
    let n: usize = entities.len();
    let mut i: usize = 0;
    while i < n
        invariant
            i <= n,
            n == entities@.len(),
            n == old(entities)@.len(),
            forall|j: int|
                0 <= j < i ==> entities@[j] == (#[trigger] old(entities)@[j]).aged(delta),
            forall|j: int| i <= j < n ==> entities@[j] == #[trigger] old(entities)@[j],
            forall|j: int| 0 <= j < n ==> (#[trigger] entities@[j]).wf(),
            forall|j: int| 0 <= j < n ==> (#[trigger] old(entities)@[j]).wf(),
        decreases n - i,
    {
        entities[i].age(delta);
        i = i + 1;
    }
    assert(entities@ =~= aged_all(old(entities)@, delta));
    despawn_finished(entities)
}

} // verus!
