//! Points, displacements and velocities in the plane, in fixed point.

use crate::fixed::{
    clamp, clamp_to, isqrt, lemma_sqrt_floor_bounds, lemma_trunc_div_bounds, mul_div, sqrt_floor,
    trunc_div, NANOS_PER_SECOND, UNIT,
};
use crate::easing::{lerp, lerp_spec};
use vstd::prelude::*;

verus! {

/// The largest coordinate of the world, a thousand million units from the
/// origin: positions are kept within it on both axes.
pub const COORD_MAX: i64 = 1_000_000_000_000_000;

/// A point or a vector of the plane. As a position or displacement its
/// components count millionths of a world unit, as a velocity millionths
/// of a unit per second, as a direction millionths of the unit length.
#[derive(Clone, Copy, PartialEq, Eq, Structural, Debug)]
pub struct Vec2 {
    pub x: i64,
    pub y: i64,
}

/// The square of a difference of coordinates.
pub open spec fn square(a: int) -> int {
    a * a
}

/// The direction from `from` to `to` as a vector of length `UNIT`, as
/// nearly as rounding allows: each component is the difference of the
/// coordinates, divided by the distance rounded down, and rounded toward
/// zero. Meaningful where the two points differ.
pub open spec fn unit_toward(from: Vec2, to: Vec2) -> Vec2 {
    let dx = to.x - from.x;
    let dy = to.y - from.y;
    let len = sqrt_floor((dx * dx + dy * dy) as nat) as int;
    Vec2 { x: trunc_div(dx * UNIT, len) as i64, y: trunc_div(dy * UNIT, len) as i64 }
}

/// One coordinate after moving with speed `v` for `delta` nanoseconds,
/// kept within the world.
pub open spec fn moved(c: int, v: int, delta: int) -> int {
    clamp(c + trunc_div(v * delta, NANOS_PER_SECOND as int), -COORD_MAX, COORD_MAX as int)
}

/// A coordinate difference is no longer than the vector it belongs to.
pub proof fn lemma_component_le_length(dx: int, dy: int)
    ensures
        dx <= sqrt_floor((dx * dx + dy * dy) as nat),
        -dx <= sqrt_floor((dx * dx + dy * dy) as nat),
{
    assert(dx * dx >= 0 && dy * dy >= 0) by (nonlinear_arith);
    let n = (dx * dx + dy * dy) as nat;
    let r = sqrt_floor(n) as int;
    lemma_sqrt_floor_bounds(n);
    if dx > r {
        assert(dx * dx >= (r + 1) * (r + 1)) by (nonlinear_arith)
            requires
                dx >= r + 1,
                r >= 0,
        ;
    }
    if -dx > r {
        assert(dx * dx >= (r + 1) * (r + 1)) by (nonlinear_arith)
            requires
                -dx >= r + 1,
                r >= 0,
        ;
    }
}

impl Vec2 {
    /// Whether both coordinates lie within the world.
    pub open spec fn wf(self) -> bool {
        &&& -COORD_MAX <= self.x <= COORD_MAX
        &&& -COORD_MAX <= self.y <= COORD_MAX
    }

    /// The squared distance between two points.
    pub open spec fn dist_sq(self, other: Vec2) -> int {
        square(self.x - other.x) + square(self.y - other.y)
    }

    /// The distance between two points, rounded down.
    pub open spec fn dist(self, other: Vec2) -> nat {
        sqrt_floor(self.dist_sq(other) as nat)
    }

    /// The point reached from `self` with velocity `velocity` in `delta`
    /// nanoseconds.
    pub open spec fn advanced(self, velocity: Vec2, delta: u64) -> Vec2 {
        Vec2 {
            x: moved(self.x as int, velocity.x as int, delta as int) as i64,
            y: moved(self.y as int, velocity.y as int, delta as int) as i64,
        }
    }

    /// The point with the given coordinates, each brought into the world.
    pub fn new(x: i64, y: i64) -> (v: Vec2)
        ensures
            v.wf(),
            v.x == clamp(x as int, -COORD_MAX, COORD_MAX as int),
            v.y == clamp(y as int, -COORD_MAX, COORD_MAX as int),
    {
        Vec2 {
            x: clamp_to(x as i128, -COORD_MAX, COORD_MAX),
            y: clamp_to(y as i128, -COORD_MAX, COORD_MAX),
        }
    }

    /// The origin.
    pub fn zero() -> (v: Vec2)
        ensures
            v == (Vec2 { x: 0, y: 0 }),
            v.wf(),
    {
        Vec2 { x: 0, y: 0 }
    }

    /// Whether `other` is strictly closer to `self` than `radius`.
    pub fn within(&self, other: &Vec2, radius: u64) -> (r: bool)
        ensures
            r == (self.dist_sq(*other) < radius * radius),
    {
        let dx: u128 = gap(self.x, other.x);
        let dy: u128 = gap(self.y, other.y);
        let reach: u128 = radius as u128;
        proof {
            lemma_square_order(dx as int, reach as int);
            lemma_square_order(dy as int, reach as int);
            lemma_square_order(reach as int, dy as int);
            assert(square(self.x - other.x) == dx * dx) by (nonlinear_arith)
                requires
                    dx == self.x - other.x || dx == other.x - self.x,
            ;
            assert(square(self.y - other.y) == dy * dy) by (nonlinear_arith)
                requires
                    dy == self.y - other.y || dy == other.y - self.y,
            ;
        }
        if dx >= reach || dy >= reach {
            false
        } else {
            dx * dx < reach * reach - dy * dy
        }
    }

    /// Whether `other` is strictly farther from `self` than `radius`.
    pub fn beyond(&self, other: &Vec2, radius: u64) -> (r: bool)
        ensures
            r == (self.dist_sq(*other) > radius * radius),
    {
        let dx: u128 = gap(self.x, other.x);
        let dy: u128 = gap(self.y, other.y);
        let reach: u128 = radius as u128;
        proof {
            lemma_square_order(dx as int, reach as int);
            lemma_square_order(dy as int, reach as int);
            lemma_square_order(reach as int, dy as int);
            assert(square(self.x - other.x) == dx * dx) by (nonlinear_arith)
                requires
                    dx == self.x - other.x || dx == other.x - self.x,
            ;
            assert(square(self.y - other.y) == dy * dy) by (nonlinear_arith)
                requires
                    dy == self.y - other.y || dy == other.y - self.y,
            ;
        }
        if dx > reach || dy > reach {
            true
        } else {
            dx * dx > reach * reach - dy * dy
        }
    }

    /// The distance to `other`, rounded down.
    pub fn distance(&self, other: &Vec2) -> (r: u64)
        requires
            self.wf(),
            other.wf(),
        ensures
            r == self.dist(*other),
    {
        let dx: u128 = gap(self.x, other.x);
        let dy: u128 = gap(self.y, other.y);
        proof {
            assert(0 <= dx * dx <= 4_000_000_000_000_000_000_000_000_000_000) by (nonlinear_arith)
                requires
                    0 <= dx <= 2_000_000_000_000_000,
            ;
            assert(0 <= dy * dy <= 4_000_000_000_000_000_000_000_000_000_000) by (nonlinear_arith)
                requires
                    0 <= dy <= 2_000_000_000_000_000,
            ;
            assert(square(self.x - other.x) == dx * dx) by (nonlinear_arith)
                requires
                    dx == self.x - other.x || dx == other.x - self.x,
            ;
            assert(square(self.y - other.y) == dy * dy) by (nonlinear_arith)
                requires
                    dy == self.y - other.y || dy == other.y - self.y,
            ;
        }
        isqrt(dx * dx + dy * dy)
    }

    /// The direction from `self` to `target` as a vector of length `UNIT`,
    /// or nothing where the two points coincide and no direction exists.
    pub fn toward(&self, target: &Vec2) -> (d: Option<Vec2>)
        requires
            self.wf(),
            target.wf(),
        ensures
            d is None <==> *self == *target,
            d matches Some(v) ==> v == unit_toward(*self, *target) && -UNIT <= v.x <= UNIT && -UNIT
                <= v.y <= UNIT,
    {
        if self.x == target.x && self.y == target.y {
            return None;
        }
        let len: u64 = self.distance(target);
        let dx: i64 = target.x - self.x;
        let dy: i64 = target.y - self.y;
        proof {
            let n = (dx * dx + dy * dy) as nat;
            assert(square(self.x - target.x) == dx * dx) by (nonlinear_arith)
                requires
                    dx == target.x - self.x,
            ;
            assert(square(self.y - target.y) == dy * dy) by (nonlinear_arith)
                requires
                    dy == target.y - self.y,
            ;
            assert(self.dist_sq(*target) == dx * dx + dy * dy);
            lemma_component_le_length(dx as int, dy as int);
            lemma_component_le_length(dy as int, dx as int);
            assert(dy * dy + dx * dx == dx * dx + dy * dy);
            lemma_sqrt_floor_bounds(n);
            assert(len > 0) by {
                if len == 0 {
                    assert(dx * dx + dy * dy >= 1) by (nonlinear_arith)
                        requires
                            dx != 0 || dy != 0,
                    ;
                }
            }
            lemma_unit_component(dx as int, len as int);
            lemma_unit_component(dy as int, len as int);
        }
        let ux: i128 = mul_div(dx, UNIT as u64, len);
        let uy: i128 = mul_div(dy, UNIT as u64, len);
        Some(Vec2 { x: ux as i64, y: uy as i64 })
    }

    /// The point a share `t` of the way from `self` to `target`, where
    /// `UNIT` is the whole way: each coordinate moves by its difference
    /// times `t`, rounded toward zero.
    pub fn lerp(&self, target: &Vec2, t: i64) -> (p: Vec2)
        requires
            0 <= t <= UNIT,
        ensures
            p.x == lerp_spec(self.x as int, target.x as int, t as int),
            p.y == lerp_spec(self.y as int, target.y as int, t as int),
            self.wf() && target.wf() ==> p.wf(),
            t == 0 ==> p == *self,
            t == UNIT ==> p == *target,
    {
        Vec2 { x: lerp(self.x, target.x, t), y: lerp(self.y, target.y, t) }
    }

    /// The point reached with velocity `velocity` in `delta` nanoseconds;
    /// a point that would leave the world stops at its edge.
    pub fn advance(&self, velocity: &Vec2, delta: u64) -> (p: Vec2)
        ensures
            p == self.advanced(*velocity, delta),
            p.wf(),
    {
        let sx: i128 = mul_div(velocity.x, delta, NANOS_PER_SECOND);
        let sy: i128 = mul_div(velocity.y, delta, NANOS_PER_SECOND);
        proof {
            lemma_trunc_div_bounds(velocity.x * delta, NANOS_PER_SECOND as int);
            lemma_trunc_div_bounds(velocity.y * delta, NANOS_PER_SECOND as int);
            assert(-0x8000_0000_0000_0000_0000_0000_0000_0000 < velocity.x * delta
                < 0x8000_0000_0000_0000_0000_0000_0000_0000) by (nonlinear_arith)
                requires
                    -0x8000_0000_0000_0000 <= velocity.x < 0x8000_0000_0000_0000,
                    0 <= delta < 0x1_0000_0000_0000_0000,
            ;
            assert(-0x8000_0000_0000_0000_0000_0000_0000_0000 < velocity.y * delta
                < 0x8000_0000_0000_0000_0000_0000_0000_0000) by (nonlinear_arith)
                requires
                    -0x8000_0000_0000_0000 <= velocity.y < 0x8000_0000_0000_0000,
                    0 <= delta < 0x1_0000_0000_0000_0000,
            ;
        }
        let nx: i128 = self.x as i128 + sx;
        let ny: i128 = self.y as i128 + sy;
        Vec2 { x: clamp_to(nx, -COORD_MAX, COORD_MAX), y: clamp_to(ny, -COORD_MAX, COORD_MAX) }
    }
}

/// The absolute difference of two coordinates.
pub fn gap(a: i64, b: i64) -> (g: u128)
    ensures
        g == if a >= b {
            a - b
        } else {
            b - a
        },
        g < 0x1_0000_0000_0000_0000,
{
    if a >= b {
        (a as i128 - b as i128) as u128
    } else {
        (b as i128 - a as i128) as u128
    }
}

/// Squares of natural numbers are ordered as the numbers are.
pub proof fn lemma_square_order(a: int, b: int)
    requires
        a >= 0,
        b >= 0,
    ensures
        a >= b ==> a * a >= b * b,
        a > b ==> a * a > b * b,
        a * a >= 0,
        b * b >= 0,
        a < 0x1_0000_0000_0000_0000 ==> a * a <= 0xffff_ffff_ffff_ffff_ffff_ffff_ffff_ffff,
        b < 0x1_0000_0000_0000_0000 ==> b * b <= 0xffff_ffff_ffff_ffff_ffff_ffff_ffff_ffff,
{
    assert(a >= b ==> a * a >= b * b) by (nonlinear_arith)
        requires
            a >= 0,
            b >= 0,
    ;
    assert(a > b ==> a * a > b * b) by (nonlinear_arith)
        requires
            a >= 0,
            b >= 0,
    ;
    assert(a * a >= 0 && b * b >= 0) by (nonlinear_arith);
    assert(a < 0x1_0000_0000_0000_0000 ==> a * a <= 0xffff_ffff_ffff_ffff_ffff_ffff_ffff_ffff)
        by (nonlinear_arith)
        requires
            a >= 0,
    ;
    assert(b < 0x1_0000_0000_0000_0000 ==> b * b <= 0xffff_ffff_ffff_ffff_ffff_ffff_ffff_ffff)
        by (nonlinear_arith)
        requires
            b >= 0,
    ;
}

/// A component no longer than the vector gives a unit component between
/// minus one and one.
pub proof fn lemma_unit_component(d: int, len: int)
    requires
        len > 0,
        -len <= d <= len,
    ensures
        -UNIT <= trunc_div(d * UNIT, len) <= UNIT,
{
    if d >= 0 {
        assert(0 <= (d * UNIT) / len <= UNIT) by (nonlinear_arith)
            requires
                0 <= d <= len,
                len > 0,
                UNIT == 1_000_000,
        ;
        assert(d * UNIT >= 0) by (nonlinear_arith)
            requires
                d >= 0,
                UNIT == 1_000_000,
        ;
    } else {
        assert(0 <= (-(d * UNIT)) / len <= UNIT) by (nonlinear_arith)
            requires
                0 <= -d <= len,
                len > 0,
                UNIT == 1_000_000,
        ;
        assert(d * UNIT < 0) by (nonlinear_arith)
            requires
                d < 0,
                UNIT == 1_000_000,
        ;
    }
}

} // verus!
