//! The equation of motion under constant acceleration, on integers.

use vstd::prelude::*;
use crate::numeric::{LIMIT, in_range, clamp, saturate, floor_div, lemma_product_bound};
use crate::vector::{Point, Vector};

verus! {

/// The largest time offset that changes an extrapolated coordinate: beyond it
/// every coordinate that moves at all has reached the coordinate limit.
pub const HORIZON: i64 = 3_000_000_000_000;

/// The coordinate reached from `p` after `dt` time units at velocity `v` and
/// acceleration `a`: `p + v·dt + a·dt²/2`, the halved term rounded down, the
/// result saturated at the coordinate limit.
pub open spec fn coordinate_after(p: int, v: int, a: int, dt: int) -> int {
    clamp(p + v * dt + (a * dt * dt) / 2)
}

/// The position reached from `start` after `dt` time units at velocity `v` and
/// acceleration `a`, coordinate by coordinate.
pub open spec fn position_after(start: Point, v: Point, a: Point, dt: int) -> Point {
    Point {
        x: coordinate_after(start.x, v.x, a.x, dt),
        y: coordinate_after(start.y, v.y, a.y, dt),
    }
}

/// `dt` moved to the nearest offset within the horizon.
pub open spec fn within_horizon(dt: int) -> int {
    if dt < -HORIZON {
        -(HORIZON as int)
    } else if dt > HORIZON {
        HORIZON as int
    } else {
        dt
    }
}

/// Where a coordinate ends up once the offset has passed the horizon.
spec fn far_coordinate(p: int, v: int, a: int, forward: bool) -> int {
    if a > 0 {
        LIMIT as int
    } else if a < 0 {
        -(LIMIT as int)
    } else if v == 0 {
        p
    } else if (v > 0) == forward {
        LIMIT as int
    } else {
        -(LIMIT as int)
    }
}

/// At or beyond the horizon a coordinate is at rest or at the coordinate limit.
proof fn lemma_beyond_horizon(p: int, v: int, a: int, d: int)
    requires
        in_range(p),
        in_range(v),
        in_range(a),
        d >= HORIZON || d <= -HORIZON,
    ensures
        coordinate_after(p, v, a, d) == far_coordinate(p, v, a, d > 0),
{
    let l: int = 1_000_000_000_000;
    let m: int = if d >= 0 { d } else { -d };
    let drift = v * d;
    let bend = a * d * d;
    // the velocity moves the coordinate by at most l * m, the acceleration,
    // where there is one, by at least 3 * l * m / 2
    assert(-(l * m) <= drift <= l * m) by (nonlinear_arith)
        requires
            -l <= v <= l,
            d == m || d == -m,
            m >= 0,
            drift == v * d,
    ;
    assert(l * m >= 3_000_000_000_000_000_000_000_000int) by (nonlinear_arith)
        requires
            m >= 3 * l,
            l == 1_000_000_000_000,
    ;
    if a > 0 {
        assert(bend >= 3 * (l * m)) by (nonlinear_arith)
            requires
                a >= 1,
                m >= 3 * l,
                l > 0,
                d == m || d == -m,
                bend == a * d * d,
        ;
    } else if a < 0 {
        assert(bend <= -(3 * (l * m))) by (nonlinear_arith)
            requires
                a <= -1,
                m >= 3 * l,
                l > 0,
                d == m || d == -m,
                bend == a * d * d,
        ;
    } else {
        assert(bend == 0) by (nonlinear_arith)
            requires
                a == 0,
                bend == a * d * d,
        ;
        assert(v > 0 && d > 0 ==> drift >= d) by (nonlinear_arith)
            requires
                drift == v * d,
        ;
        assert(v > 0 && d < 0 ==> drift <= d) by (nonlinear_arith)
            requires
                drift == v * d,
        ;
        assert(v < 0 && d > 0 ==> drift <= -d) by (nonlinear_arith)
            requires
                drift == v * d,
        ;
        assert(v < 0 && d < 0 ==> drift >= -d) by (nonlinear_arith)
            requires
                drift == v * d,
        ;
        assert(v == 0 ==> drift == 0) by (nonlinear_arith)
            requires
                drift == v * d,
        ;
    }
}

/// Offsets beyond the horizon reach the same coordinate as the horizon itself.
pub proof fn lemma_horizon(p: int, v: int, a: int, dt: int)
    requires
        in_range(p),
        in_range(v),
        in_range(a),
    ensures
        coordinate_after(p, v, a, dt) == coordinate_after(p, v, a, within_horizon(dt)),
{
    if dt > HORIZON {
        lemma_beyond_horizon(p, v, a, dt);
        lemma_beyond_horizon(p, v, a, HORIZON as int);
    } else if dt < -HORIZON {
        lemma_beyond_horizon(p, v, a, dt);
        lemma_beyond_horizon(p, v, a, -(HORIZON as int));
    }
}

/// The motion of an object at one moment, in the plane.
pub struct Course {
    /// Where the object is.
    pub position: Point,
    /// How fast it moves.
    pub velocity: Point,
    /// How fast its velocity changes.
    pub acceleration: Point,
}

impl Course {
    /// The position that the motion reaches after `dt` time units.
    pub open spec fn position_in(self, dt: int) -> Point {
        position_after(self.position, self.velocity, self.acceleration, dt)
    }

    /// The same motion with `offset` added to the acceleration, saturated.
    pub open spec fn pushed(self, offset: Point) -> Course {
        Course { acceleration: self.acceleration.plus(offset).clamped(), ..self }
    }

    /// The same motion without its acceleration.
    pub open spec fn steady(self) -> Course {
        Course { acceleration: Point { x: 0, y: 0 }, ..self }
    }
}

/// The motion of an object at one moment.
#[derive(Clone, Copy, Debug, PartialEq, Eq)]
pub struct Motion {
    /// Where the object is.
    pub position: Vector,
    /// How fast it moves.
    pub velocity: Vector,
    /// How fast its velocity changes.
    pub acceleration: Vector,
}

impl View for Motion {
    type V = Course;

    open spec fn view(&self) -> Course {
        Course {
            position: self.position@,
            velocity: self.velocity@,
            acceleration: self.acceleration@,
        }
    }
}

impl Motion {
    /// The position that the motion reaches after `dt` time units.
    pub fn future_position(&self, dt: i128) -> (r: Vector)
        ensures
            r@ == self@.position_in(dt as int),
    {
        let near: i64 = if dt < -(HORIZON as i128) {
            -HORIZON
        } else if dt > HORIZON as i128 {
            HORIZON
        } else {
            dt as i64
        };
        proof {
            use_type_invariant(&self.position);
            use_type_invariant(&self.velocity);
            use_type_invariant(&self.acceleration);
            lemma_horizon(self.position@.x, self.velocity@.x, self.acceleration@.x, dt as int);
            lemma_horizon(self.position@.y, self.velocity@.y, self.acceleration@.y, dt as int);
        }
        estimate_future_position(&self.position, &self.velocity, &self.acceleration, near)
    }
}

/// One coordinate of the equation of motion, for an offset within the horizon.
fn coordinate_at(p: i64, v: i64, a: i64, dt: i64) -> (r: i64)
    requires
        in_range(p as int),
        in_range(v as int),
        in_range(a as int),
        -HORIZON <= dt <= HORIZON,
    ensures
        r == coordinate_after(p as int, v as int, a as int, dt as int),
        in_range(r as int),
{
    proof {
        lemma_product_bound(v as int, dt as int, LIMIT as int, HORIZON as int);
        lemma_product_bound(a as int, dt as int, LIMIT as int, HORIZON as int);
        lemma_product_bound(a * dt, dt as int, LIMIT * HORIZON, HORIZON as int);
        assert(LIMIT * HORIZON == 3_000_000_000_000_000_000_000_000int) by (nonlinear_arith);
        assert(LIMIT * HORIZON * HORIZON == 9_000_000_000_000_000_000_000_000_000_000_000_000int)
            by (nonlinear_arith);
    }
    let wide: i128 = dt as i128;
    let drift: i128 = v as i128 * wide;
    let bend: i128 = floor_div(a as i128 * wide * wide, 2);
    saturate(p as i128 + drift + bend)
}

/// The position reached from `start` after `dt` time units at velocity `v` and
/// acceleration `a`.
pub fn estimate_future_position(start: &Vector, v: &Vector, a: &Vector, dt: i64) -> (r: Vector)
    ensures
        r@ == position_after(start@, v@, a@, dt as int),
{
    let (px, py): (i64, i64) = (start.x(), start.y());
    let (vx, vy): (i64, i64) = (v.x(), v.y());
    let (ax, ay): (i64, i64) = (a.x(), a.y());
    let near: i64 = if dt < -HORIZON {
        -HORIZON
    } else if dt > HORIZON {
        HORIZON
    } else {
        dt
    };
    proof {
        lemma_horizon(px as int, vx as int, ax as int, dt as int);
        lemma_horizon(py as int, vy as int, ay as int, dt as int);
    }
    let x: i64 = coordinate_at(px, vx, ax, near);
    let y: i64 = coordinate_at(py, vy, ay, near);
    Vector::new(x, y)
}

/// The equation of motion is exact up to the rounding of the halved term:
/// wherever the exact position lies within the coordinate limit, twice the
/// result differs from `2·p + 2·v·dt + a·dt²` by at most one, and not at all
/// when `a·dt²` is even.
pub proof fn lemma_equation_of_motion(p: int, v: int, a: int, dt: int)
    requires
        in_range(p + v * dt + (a * dt * dt) / 2),
    ensures
        0 <= 2 * p + 2 * (v * dt) + a * dt * dt - 2 * coordinate_after(p, v, a, dt) <= 1,
        (a * dt * dt) % 2 == 0 ==> 2 * coordinate_after(p, v, a, dt) == 2 * p + 2 * (v * dt)
            + a * dt * dt,
{
}

} // verus!
