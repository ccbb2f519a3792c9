//! Bullets and the balloon they are fired at.

use crate::fixed::{
    lemma_scaled_speed, lemma_sqrt_floor_bounds, mul_div, sqrt_floor, trunc_div, UNIT,
};
use crate::geometry::{
    lemma_component_le_length, lemma_unit_component, unit_toward, Vec2, COORD_MAX,
};
use crate::player::{FloatingAnimation, Player};
use crate::sack::{ProgressMeter, FULL};
use vstd::prelude::*;

verus! {

/// The speed of a bullet: 500 units per second.
pub const BULLET_SPEED: i64 = 500_000_000;

/// How close a bullet has to come to the balloon to hit it: 50 units.
pub const HIT_RADIUS: u64 = 50_000_000;

/// How far from the origin a bullet may fly before it is given up: 1000
/// units.
pub const WORLD_BOUND: u64 = 1_000_000_000;

/// How far the balloon floats up and down: 15 units.
pub const BALLOON_FLOAT_AMPLITUDE: i64 = 15_000_000;

/// How fast the balloon floats: 1.5 radians per second.
pub const BALLOON_FLOAT_FREQUENCY: u32 = 1_500_000;

/// The colour of a bullet, after the button that fired it.
#[derive(Clone, Copy, PartialEq, Eq, Structural, Debug)]
pub enum BulletTint {
    Red,
    Blue,
}

/// A bullet in flight.
#[derive(Clone, Copy, PartialEq, Eq, Structural, Debug)]
pub struct Bullet {
    pub position: Vec2,
    /// The direction of flight, a vector of length `UNIT`.
    pub direction: Vec2,
    /// The speed, per second.
    pub speed: i64,
    pub tint: BulletTint,
}

/// The balloon: the one target of the bullets. It floats about its
/// resting height like the ghost does.
#[derive(Clone, Copy, PartialEq, Eq, Structural, Debug)]
pub struct FloatingTarget {
    /// Where the balloon is drawn, floating included.
    pub position: Vec2,
    pub float: FloatingAnimation,
}

/// A hit on the balloon: where the balloon was, and how many bullets
/// struck it on the tick.
#[derive(Clone, Copy, PartialEq, Eq, Structural, Debug)]
pub struct Strike {
    pub place: Vec2,
    pub hits: usize,
}

/// What a tick made of the bullets in flight.
pub struct Resolution {
    /// The bullets that fly on, in their order.
    pub bullets: Seq<Bullet>,
    /// The number of bullets that struck the balloon.
    pub hits: nat,
}

/// The bullets of `s`, each flown on for `delta`.
pub open spec fn flown_all(s: Seq<Bullet>, delta: u64) -> Seq<Bullet> {
    Seq::new(s.len(), |i: int| s[i].flown(delta))
}

/// Whether a bullet strikes a balloon that stood at `target` when the
/// tick began: there was a balloon, and the bullet is within the hit
/// radius of its place.
pub open spec fn strikes(bullet: Bullet, target: Option<Vec2>) -> bool {
    target matches Some(place) && bullet.hits(place)
}

/// What becomes of bullets that have arrived at the places where `s` has
/// them, with the balloon, if there is one, at `target`. The place of the
/// balloon is taken once, and every bullet is held against it: each one
/// within the hit radius strikes the balloon and is used up. Of the
/// others, those beyond the bound of the world are given up, and the
/// rest fly on.
pub open spec fn resolve(s: Seq<Bullet>, target: Option<Vec2>) -> Resolution
    decreases s.len(),
{
    if s.len() == 0 {
        Resolution { bullets: Seq::empty(), hits: 0 }
    } else {
        let before = resolve(s.drop_last(), target);
        let bullet = s.last();
        if strikes(bullet, target) {
            Resolution { bullets: before.bullets, hits: before.hits + 1 }
        } else if bullet.lost() {
            before
        } else {
            Resolution { bullets: before.bullets.push(bullet), hits: before.hits }
        }
    }
}

/// The balloon is struck exactly if one of the bullets is within the hit
/// radius of it. A bullet is removed exactly if it struck the balloon or
/// is lost: those that fly on were there before and did neither, and
/// every bullet that did neither flies on.
pub proof fn lemma_resolve_hit(s: Seq<Bullet>, target: Option<Vec2>)
    ensures
        resolve(s, target).hits > 0 <==> exists|i: int|
            0 <= i < s.len() && strikes(#[trigger] s[i], target),
        resolve(s, target).bullets.len() + resolve(s, target).hits <= s.len(),
        forall|i: int|
            0 <= i < resolve(s, target).bullets.len() ==> {
                let b = #[trigger] resolve(s, target).bullets[i];
                s.contains(b) && !strikes(b, target) && !b.lost()
            },
        forall|i: int|
            0 <= i < s.len() && !strikes(#[trigger] s[i], target) && !s[i].lost() ==> resolve(
                s,
                target,
            ).bullets.contains(s[i]),
        (forall|i: int| 0 <= i < s.len() ==> !strikes(#[trigger] s[i], target) && !s[i].lost())
            ==> resolve(s, target).bullets == s,
    decreases s.len(),
{
    if s.len() > 0 {
        let front = s.drop_last();
        lemma_resolve_hit(front, target);
        let r = resolve(s, target);
        assert forall|i: int|
            0 <= i < s.len() && !strikes(#[trigger] s[i], target)
                && !s[i].lost() implies r.bullets.contains(s[i]) by {
            if i < front.len() {
                assert(front[i] == s[i]);
                let before = resolve(front, target).bullets;
                assert(before.contains(s[i]));
                let k = choose|k: int| 0 <= k < before.len() && before[k] == s[i];
                assert(r.bullets[k] == s[i]);
            } else {
                assert(r.bullets[r.bullets.len() - 1] == s[i]);
            }
        }
        if resolve(front, target).hits > 0 {
            let i = choose|i: int| 0 <= i < front.len() && strikes(#[trigger] front[i], target);
            assert(strikes(s[i], target));
        } else if strikes(s.last(), target) {
            assert(strikes(s[s.len() - 1], target));
        } else {
            assert forall|i: int| 0 <= i < s.len() implies !strikes(#[trigger] s[i], target) by {
                if i < front.len() {
                    assert(front[i] == s[i]);
                }
            }
        }
        assert forall|i: int| 0 <= i < r.bullets.len() implies {
            let b = #[trigger] r.bullets[i];
            s.contains(b) && !strikes(b, target) && !b.lost()
        } by {
            let b = r.bullets[i];
            if i < resolve(front, target).bullets.len() {
                assert(b == resolve(front, target).bullets[i]);
                assert(front.contains(b));
                let k = choose|k: int| 0 <= k < front.len() && front[k] == b;
                assert(s[k] == b);
            } else {
                assert(s[s.len() - 1] == b);
            }
        }
        if forall|i: int| 0 <= i < s.len() ==> !strikes(#[trigger] s[i], target) && !s[i].lost() {
            assert forall|i: int| 0 <= i < front.len() implies !strikes(
                #[trigger] front[i],
                target,
            ) && !front[i].lost() by {
                assert(front[i] == s[i]);
            }
            assert(!strikes(s[s.len() - 1], target) && !s[s.len() - 1].lost());
            assert(front.push(s.last()) =~= s);
        }
    } else {
        assert(s =~= Seq::empty());
    }
}

/// Without a balloon nothing is struck.
pub proof fn lemma_resolve_no_target(s: Seq<Bullet>)
    ensures
        resolve(s, None).hits == 0,
    decreases s.len(),
{
    if s.len() > 0 {
        lemma_resolve_no_target(s.drop_last());
    }
}

/// Flying on keeps a bullet well formed.
pub proof fn lemma_flown_wf(b: Bullet, delta: u64)
    requires
        b.wf(),
    ensures
        b.flown(delta).wf(),
{
}

/// Where all the bullets that flew into a tick are well formed, so are
/// those that fly on after it.
pub proof fn lemma_resolve_wf(s: Seq<Bullet>, target: Option<Vec2>)
    requires
        forall|i: int| 0 <= i < s.len() ==> (#[trigger] s[i]).wf(),
    ensures
        forall|i: int|
            0 <= i < resolve(s, target).bullets.len() ==> (#[trigger] resolve(
                s,
                target,
            ).bullets[i]).wf(),
{
    lemma_resolve_hit(s, target);
    assert forall|i: int| 0 <= i < resolve(s, target).bullets.len() implies (#[trigger] resolve(
        s,
        target,
    ).bullets[i]).wf() by {
        let b = resolve(s, target).bullets[i];
        assert(s.contains(b));
        let k = choose|k: int| 0 <= k < s.len() && s[k] == b;
        assert(s[k].wf());
    }
}

/// A shot from one point of the world at another, or at itself, sends
/// off a well-formed bullet.
pub proof fn lemma_shot_wf(from: Vec2, cursor: Vec2, left: bool)
    requires
        from.wf(),
        cursor.wf(),
    ensures
        shot(from, cursor, left).wf(),
{
    if from == cursor {
        return ;
    }
    let dx = cursor.x - from.x;
    let dy = cursor.y - from.y;
    let n = (dx * dx + dy * dy) as nat;
    let len = sqrt_floor(n) as int;
    lemma_component_le_length(dx, dy);
    lemma_component_le_length(dy, dx);
    assert(dy * dy + dx * dx == dx * dx + dy * dy);
    lemma_sqrt_floor_bounds(n);
    if len == 0 {
        assert(dx * dx + dy * dy >= 1) by (nonlinear_arith)
            requires
                dx != 0 || dy != 0,
        ;
    }
    lemma_unit_component(dx, len);
    lemma_unit_component(dy, len);
}

impl Bullet {
    /// The invariant of a bullet: it is in the world, its direction is no
    /// longer than a unit on either axis, and its speed is not negative.
    pub open spec fn wf(self) -> bool {
        &&& self.position.wf()
        &&& -UNIT <= self.direction.x <= UNIT
        &&& -UNIT <= self.direction.y <= UNIT
        &&& self.speed >= 0
    }

    /// The velocity of the bullet: its direction at its speed.
    pub open spec fn velocity(self) -> Vec2 {
        Vec2 {
            x: trunc_div(self.direction.x * self.speed, UNIT as int) as i64,
            y: trunc_div(self.direction.y * self.speed, UNIT as int) as i64,
        }
    }

    /// The bullet after it flew on for `delta`.
    pub open spec fn flown(self, delta: u64) -> Bullet {
        Bullet { position: self.position.advanced(self.velocity(), delta), ..self }
    }

    /// Whether the bullet is within the hit radius of a balloon at
    /// `target`.
    pub open spec fn hits(self, target: Vec2) -> bool {
        self.position.dist_sq(target) < HIT_RADIUS * HIT_RADIUS
    }

    /// Whether the bullet has left the world: whether it is farther from
    /// the origin than the bound.
    pub open spec fn lost(self) -> bool {
        self.position.dist_sq(Vec2 { x: 0, y: 0 }) > WORLD_BOUND * WORLD_BOUND
    }

    /// Lets the bullet fly on for `delta`.
    pub fn fly(&mut self, delta: u64)
        requires
            old(self).wf(),
        ensures
            *final(self) == old(self).flown(delta),
            final(self).wf(),
    {
        proof {
            lemma_scaled_speed(self.direction.x as int, self.speed as int);
            lemma_scaled_speed(self.direction.y as int, self.speed as int);
        }
        let vx: i128 = mul_div(self.direction.x, self.speed as u64, UNIT as u64);
        let vy: i128 = mul_div(self.direction.y, self.speed as u64, UNIT as u64);
        let velocity = Vec2 { x: vx as i64, y: vy as i64 };
        self.position = self.position.advance(&velocity, delta);
    }
}

impl FloatingTarget {
    /// The invariant of the balloon: it is in the world, and so is its
    /// resting height.
    pub open spec fn wf(self) -> bool {
        &&& self.position.wf()
        &&& -COORD_MAX <= self.float.original_y <= COORD_MAX
    }

    /// The balloon as the game starts: at the origin.
    pub open spec fn initial() -> FloatingTarget {
        FloatingTarget {
            position: Vec2 { x: 0, y: 0 },
            float: FloatingAnimation {
                original_y: 0,
                amplitude: BALLOON_FLOAT_AMPLITUDE,
                frequency: BALLOON_FLOAT_FREQUENCY,
            },
        }
    }

    /// The balloon as the game starts.
    pub fn new() -> (balloon: FloatingTarget)
        ensures
            balloon == FloatingTarget::initial(),
            balloon.wf(),
    {
        FloatingTarget {
            position: Vec2::zero(),
            float: FloatingAnimation {
                original_y: 0,
                amplitude: BALLOON_FLOAT_AMPLITUDE,
                frequency: BALLOON_FLOAT_FREQUENCY,
            },
        }
    }

    /// Floating: sets the height at which the balloon is drawn from its
    /// resting height and the sines of its two waves.
    pub fn float_to(&mut self, sin1: i64, sin2: i64)
        requires
            old(self).wf(),
            -UNIT <= sin1 <= UNIT,
            -UNIT <= sin2 <= UNIT,
        ensures
            *final(self) == (FloatingTarget {
                position: Vec2 {
                    x: old(self).position.x,
                    y: old(self).float.floated(sin1, sin2) as i64,
                },
                ..*old(self)
            }),
            final(self).wf(),
    {
        self.position.y = self.float.float_height(sin1, sin2);
    }
}

/// Whether a shot is fired: the meter is there and full, a button was
/// pressed, and the ghost is there. Where the pointer is does not
/// matter.
pub open spec fn fires(
    meter: Option<ProgressMeter>,
    player: Option<Player>,
    cursor: Vec2,
    left: bool,
    right: bool,
) -> bool {
    &&& meter matches Some(m) && m.value >= FULL
    &&& left || right
    &&& player is Some
}

/// The direction of a shot from `from` at `cursor`: the unit direction
/// from the one to the other, and no direction at all, the zero vector,
/// where the pointer is on the very spot from which the shot is fired.
pub open spec fn aim(from: Vec2, cursor: Vec2) -> Vec2 {
    if from == cursor {
        Vec2 { x: 0, y: 0 }
    } else {
        unit_toward(from, cursor)
    }
}

/// The bullet that a shot from `from` at `cursor` sends off. A bullet
/// that was fired at its own spot has no direction, and stays where it
/// was fired.
pub open spec fn shot(from: Vec2, cursor: Vec2, left: bool) -> Bullet {
    Bullet {
        position: from,
        direction: aim(from, cursor),
        speed: BULLET_SPEED,
        tint: if left {
            BulletTint::Red
        } else {
            BulletTint::Blue
        },
    }
}

/// Firing. With the meter full, a press of either button sends a bullet
/// from the ghost toward the pointer, at the speed of a bullet; the left
/// button makes it red, the right one blue, and the left one wins where
/// both were pressed. A bullet fired with the pointer on the ghost's own
/// spot has no direction.
pub fn fire_bullet(
    meter: &Option<ProgressMeter>,
    player: &Option<Player>,
    cursor: &Vec2,
    left: bool,
    right: bool,
) -> (bullet: Option<Bullet>)
    requires
        *meter matches Some(m) ==> m.wf(),
        *player matches Some(p) ==> p.wf(),
        cursor.wf(),
    ensures
        fires(*meter, *player, *cursor, left, right) ==> bullet == Some(
            shot(player->0.position, *cursor, left),
        ),
        !fires(*meter, *player, *cursor, left, right) ==> bullet is None,
        bullet matches Some(b) ==> b.wf() && b.position == player->0.position && b.speed
            == BULLET_SPEED,
{
    let can_shoot: bool = match meter {
        Some(m) => m.is_full(),
        None => false,
    };
    if !(can_shoot && (left || right)) {
        return None;
    }
    match player {
        Some(p) => {
            let direction: Vec2 = match p.position.toward(cursor) {
                Some(direction) => direction,
                None => Vec2::zero(),
            };
            Some(
                Bullet {
                    position: p.position,
                    direction,
                    speed: BULLET_SPEED,
                    tint: if left {
                        BulletTint::Red
                    } else {
                        BulletTint::Blue
                    },
                },
            )
        },
        None => None,
    }
}

/// The hit that a tick makes of `hits` strikes on a balloon at `target`.
pub open spec fn strike_of(target: Option<Vec2>, hits: nat) -> Option<Strike> {
    if target is Some && hits > 0 {
        Some(Strike { place: target->0, hits: hits as usize })
    } else {
        None
    }
}

/// One tick of the bullets. Every bullet flies on for `delta`. Then each
/// one is held against the balloon as it stood when the tick began: every
/// bullet within the hit radius strikes it and is used up, and the
/// balloon is gone if any did. Of the other bullets, those beyond the
/// bound of the world are given up. Returns the hit, if there was one.
pub fn resolve_bullets(
    bullets: &mut Vec<Bullet>,
    balloon: &mut Option<FloatingTarget>,
    delta: u64,
) -> (strike: Option<Strike>)
    requires
        forall|i: int| 0 <= i < old(bullets)@.len() ==> (#[trigger] old(bullets)@[i]).wf(),
    ensures
        final(bullets)@ == resolve(
            flown_all(old(bullets)@, delta),
            target_of(*old(balloon)),
        ).bullets,
        strike == strike_of(
            target_of(*old(balloon)),
            resolve(flown_all(old(bullets)@, delta), target_of(*old(balloon))).hits,
        ),
        strike matches Some(s) ==> s.hits == resolve(
            flown_all(old(bullets)@, delta),
            target_of(*old(balloon)),
        ).hits && Some(s.place) == target_of(*old(balloon)),
        *final(balloon) == if strike is Some {
            None
        } else {
            *old(balloon)
        },
        forall|i: int| 0 <= i < final(bullets)@.len() ==> (#[trigger] final(bullets)@[i]).wf(),
{
    let ghost flown = flown_all(old(bullets)@, delta);
    let ghost start = target_of(*balloon);
    let origin = Vec2::zero();
    let target: Option<Vec2> = match balloon {
        Some(b) => Some(b.position),
        None => None,
    };
    let mut hits: usize = 0;
    let mut kept: Vec<Bullet> = Vec::new();
    let n: usize = bullets.len();
    let mut i: usize = 0;
    while i < n
        invariant
            i <= n,
            n == bullets@.len(),
            bullets@ == old(bullets)@,
            flown == flown_all(old(bullets)@, delta),
            origin == (Vec2 { x: 0, y: 0 }),
            target == start,
            forall|j: int| 0 <= j < n ==> (#[trigger] bullets@[j]).wf(),
            kept@ == resolve(flown.take(i as int), start).bullets,
            hits == resolve(flown.take(i as int), start).hits,
            hits <= i,
            forall|j: int| 0 <= j < kept@.len() ==> (#[trigger] kept@[j]).wf(),
        decreases n - i,
    {
        let mut bullet: Bullet = bullets[i];
        bullet.fly(delta);
        proof {
            assert(flown.take(i + 1).drop_last() =~= flown.take(i as int));
            assert(flown.take(i + 1).last() == bullet);
        }
        let struck: bool = match target {
            Some(place) => bullet.position.within(&place, HIT_RADIUS),
            None => false,
        };
        if struck {
            hits = hits + 1;
        } else if !bullet.position.beyond(&origin, WORLD_BOUND) {
            kept.push(bullet);
        }
        i = i + 1;
    }
    assert(flown.take(n as int) =~= flown);
    *bullets = kept;
    match target {
        Some(place) => {
            if hits > 0 {
                *balloon = None;
                Some(Strike { place, hits })
            } else {
                None
            }
        },
        None => None,
    }
}

/// The place of a balloon that may not be there.
pub open spec fn target_of(balloon: Option<FloatingTarget>) -> Option<Vec2> {
    match balloon {
        Some(b) => Some(b.position),
        None => None,
    }
}

} // verus!
