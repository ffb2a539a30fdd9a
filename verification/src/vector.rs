//! Two-dimensional integer vectors whose coordinates stay within the
//! coordinate limit.

use vstd::prelude::*;
use crate::numeric::{
    LIMIT, in_range, clamp, floor_sqrt, is_floor_sqrt, saturate, floor_div, isqrt, lemma_floor_sqrt,
    lemma_floor_sqrt_bound, lemma_product_bound,
};

verus! {

/// A point, or a displacement, of the integer plane.
pub struct Point {
    pub x: int,
    pub y: int,
}

impl Point {
    /// Both coordinates lie within the coordinate limit.
    pub open spec fn in_world(self) -> bool {
        in_range(self.x) && in_range(self.y)
    }

    /// The squared Euclidean length.
    pub open spec fn norm_sq(self) -> int {
        self.x * self.x + self.y * self.y
    }

    /// The Euclidean length, rounded down.
    pub open spec fn length(self) -> int {
        floor_sqrt(self.norm_sq() as nat) as int
    }

    /// The coordinate-wise difference `self - other`.
    pub open spec fn minus(self, other: Point) -> Point {
        Point { x: self.x - other.x, y: self.y - other.y }
    }

    /// The coordinate-wise sum.
    pub open spec fn plus(self, other: Point) -> Point {
        Point { x: self.x + other.x, y: self.y + other.y }
    }

    /// The vector reversed.
    pub open spec fn negated(self) -> Point {
        Point { x: -self.x, y: -self.y }
    }

    /// The vector turned a quarter turn counter-clockwise.
    pub open spec fn perpendicular(self) -> Point {
        Point { x: -self.y, y: self.x }
    }

    /// Each coordinate moved to the nearest value within the coordinate limit.
    pub open spec fn clamped(self) -> Point {
        Point { x: clamp(self.x), y: clamp(self.y) }
    }

    /// The vector of the same direction whose length is `len`, each
    /// coordinate rounded down; the zero vector has no direction and stays zero.
    pub open spec fn scaled_to(self, len: int) -> Point {
        if self.length() == 0 {
            Point { x: 0, y: 0 }
        } else {
            Point { x: (self.x * len) / self.length(), y: (self.y * len) / self.length() }
        }
    }
}

/// A vector of the plane with both coordinates within the coordinate limit.
#[derive(Clone, Copy, Debug, PartialEq, Eq)]
pub struct Vector {
    x: i64,
    y: i64,
}

impl View for Vector {
    type V = Point;

    closed spec fn view(&self) -> Point {
        Point { x: self.x as int, y: self.y as int }
    }
}

impl Vector {
    /// Both coordinates lie within the coordinate limit.
    #[verifier::type_invariant]
    pub open spec fn valid(self) -> bool {
        self@.in_world()
    }

    /// The vector `(x, y)`, each coordinate saturated at the coordinate limit.
    pub fn new(x: i64, y: i64) -> (r: Vector)
        ensures
            r@ == (Point { x: x as int, y: y as int }).clamped(),
    {
        Vector { x: saturate(x as i128), y: saturate(y as i128) }
    }

    /// The zero vector.
    pub fn zero() -> (r: Vector)
        ensures
            r@ == (Point { x: 0, y: 0 }),
    {
        Vector { x: 0, y: 0 }
    }

    /// The first coordinate.
    pub fn x(&self) -> (r: i64)
        ensures
            r == self@.x,
            in_range(r as int),
    {
        proof {
            use_type_invariant(self);
        }
        self.x
    }

    /// The second coordinate.
    pub fn y(&self) -> (r: i64)
        ensures
            r == self@.y,
            in_range(r as int),
    {
        proof {
            use_type_invariant(self);
        }
        self.y
    }

    /// The sum of two vectors, saturated at the coordinate limit.
    pub fn plus(&self, other: &Vector) -> (r: Vector)
        ensures
            r@ == self@.plus(other@).clamped(),
    {
        proof {
            use_type_invariant(self);
            use_type_invariant(other);
        }
        Vector {
            x: saturate(self.x as i128 + other.x as i128),
            y: saturate(self.y as i128 + other.y as i128),
        }
    }

    /// The difference of two vectors, saturated at the coordinate limit.
    pub fn minus(&self, other: &Vector) -> (r: Vector)
        ensures
            r@ == self@.minus(other@).clamped(),
    {
        proof {
            use_type_invariant(self);
            use_type_invariant(other);
        }
        Vector {
            x: saturate(self.x as i128 - other.x as i128),
            y: saturate(self.y as i128 - other.y as i128),
        }
    }

    /// The vector reversed.
    pub fn negated(&self) -> (r: Vector)
        ensures
            r@ == self@.negated(),
    {
        proof {
            use_type_invariant(self);
        }
        Vector { x: -self.x, y: -self.y }
    }

    /// The vector turned a quarter turn counter-clockwise.
    pub fn perpendicular(&self) -> (r: Vector)
        ensures
            r@ == self@.perpendicular(),
    {
        proof {
            use_type_invariant(self);
        }
        Vector { x: -self.y, y: self.x }
    }

    /// The squared distance between two points.
    pub fn distance_squared(&self, other: &Vector) -> (r: u128)
        ensures
            r == self@.minus(other@).norm_sq(),
            r <= 8 * LIMIT * LIMIT,
    {
        proof {
            use_type_invariant(self);
            use_type_invariant(other);
        }
        let dx: i128 = self.x as i128 - other.x as i128;
        let dy: i128 = self.y as i128 - other.y as i128;
        proof {
            lemma_product_bound(dx as int, dx as int, 2 * LIMIT, 2 * LIMIT);
            lemma_product_bound(dy as int, dy as int, 2 * LIMIT, 2 * LIMIT);
            assert(dx * dx >= 0) by (nonlinear_arith);
            assert(dy * dy >= 0) by (nonlinear_arith);
        }
        (dx * dx + dy * dy) as u128
    }

    /// The distance between two points, rounded down.
    pub fn distance(&self, other: &Vector) -> (r: i64)
        ensures
            r == self@.minus(other@).length(),
            0 <= r <= 3 * LIMIT,
    {
        let d2: u128 = self.distance_squared(other);
        proof {
            assert(8 * LIMIT * LIMIT <= (3 * LIMIT) * (3 * LIMIT)) by (nonlinear_arith);
            lemma_floor_sqrt_bound(d2 as nat, (3 * LIMIT) as nat);
        }
        isqrt(d2) as i64
    }

    /// The squared length of the vector.
    pub fn length_squared(&self) -> (r: u128)
        ensures
            r == self@.norm_sq(),
            r <= 2 * LIMIT * LIMIT,
    {
        proof {
            use_type_invariant(self);
            lemma_product_bound(self.x as int, self.x as int, LIMIT as int, LIMIT as int);
            lemma_product_bound(self.y as int, self.y as int, LIMIT as int, LIMIT as int);
            assert(self.x * self.x >= 0) by (nonlinear_arith);
            assert(self.y * self.y >= 0) by (nonlinear_arith);
        }
        let x: i128 = self.x as i128;
        let y: i128 = self.y as i128;
        (x * x + y * y) as u128
    }

    /// The length of the vector, rounded down.
    pub fn length(&self) -> (r: i64)
        ensures
            r == self@.length(),
            0 <= r <= 2 * LIMIT,
    {
        let n: u128 = self.length_squared();
        proof {
            assert(2 * LIMIT * LIMIT <= (2 * LIMIT) * (2 * LIMIT)) by (nonlinear_arith);
            lemma_floor_sqrt_bound(n as nat, (2 * LIMIT) as nat);
        }
        isqrt(n) as i64
    }

    /// The vector of the same direction whose length is `len`; the zero
    /// vector stays zero. A negative `len` counts as zero, and one beyond the
    /// coordinate limit as the limit.
    pub fn scaled_to(&self, len: i64) -> (r: Vector)
        ensures
            r@ == self@.scaled_to(clamp_length(len as int)),
    {
        proof {
            use_type_invariant(self);
        }
        scaled_wide(self.x as i128, self.y as i128, len)
    }

    /// The direction from `self` to `other`, as a vector of length `len`.
    pub fn direction_to(&self, other: &Vector, len: i64) -> (r: Vector)
        ensures
            r@ == other@.minus(self@).scaled_to(clamp_length(len as int)),
    {
        proof {
            use_type_invariant(self);
            use_type_invariant(other);
        }
        scaled_wide(other.x as i128 - self.x as i128, other.y as i128 - self.y as i128, len)
    }

    /// The direction from `self` to `other` turned a quarter turn
    /// counter-clockwise, as a vector of length `len`.
    pub fn normal_to(&self, other: &Vector, len: i64) -> (r: Vector)
        ensures
            r@ == other@.minus(self@).perpendicular().scaled_to(clamp_length(len as int)),
    {
        proof {
            use_type_invariant(self);
            use_type_invariant(other);
        }
        scaled_wide(self.y as i128 - other.y as i128, other.x as i128 - self.x as i128, len)
    }
}

/// `len` moved into `[0, LIMIT]`.
pub open spec fn clamp_length(len: int) -> int {
    if len < 0 {
        0
    } else if len > LIMIT {
        LIMIT as int
    } else {
        len
    }
}

/// The vector `(x, y)` scaled to the length `len`.
fn scaled_wide(x: i128, y: i128, len: i64) -> (r: Vector)
    requires
        -2 * LIMIT <= x <= 2 * LIMIT,
        -2 * LIMIT <= y <= 2 * LIMIT,
    ensures
        r@ == (Point { x: x as int, y: y as int }).scaled_to(clamp_length(len as int)),
{
    let size: i128 = if len < 0 {
        0
    } else if len > LIMIT {
        LIMIT as i128
    } else {
        len as i128
    };
    proof {
        lemma_product_bound(x as int, x as int, 2 * LIMIT, 2 * LIMIT);
        lemma_product_bound(y as int, y as int, 2 * LIMIT, 2 * LIMIT);
        assert(x * x >= 0) by (nonlinear_arith);
        assert(y * y >= 0) by (nonlinear_arith);
        assert((2 * LIMIT) * (2 * LIMIT) == 4_000_000_000_000_000_000_000_000int)
            by (nonlinear_arith);
    }
    let norm: i128 = isqrt((x * x + y * y) as u128) as i128;
    if norm == 0 {
        Vector { x: 0, y: 0 }
    } else {
        proof {
            lemma_scaled_coordinate(Point { x: x as int, y: y as int }, size as int);
            lemma_product_bound(x as int, size as int, 2 * LIMIT, LIMIT as int);
            lemma_product_bound(y as int, size as int, 2 * LIMIT, LIMIT as int);
            assert(2 * LIMIT * LIMIT == 2_000_000_000_000_000_000_000_000int) by (nonlinear_arith);
        }
        let sx: i128 = floor_div(x * size, norm);
        let sy: i128 = floor_div(y * size, norm);
        Vector { x: sx as i64, y: sy as i64 }
    }
}

/// No coordinate of a vector exceeds the vector's rounded-down length.
pub proof fn lemma_coordinate_below_length(p: Point)
    ensures
        -p.length() <= p.x <= p.length(),
        -p.length() <= p.y <= p.length(),
{
    let n = p.norm_sq();
    assert(p.x * p.x >= 0 && p.y * p.y >= 0) by (nonlinear_arith);
    lemma_floor_sqrt(n as nat);
    let r = p.length();
    assert(is_floor_sqrt(n as nat, r as nat));
    assert((r + 1) * (r + 1) > p.x * p.x);
    assert((r + 1) * (r + 1) > p.y * p.y);
    assert(-r <= p.x <= r) by (nonlinear_arith)
        requires
            r >= 0,
            (r + 1) * (r + 1) > p.x * p.x,
    ;
    assert(-r <= p.y <= r) by (nonlinear_arith)
        requires
            r >= 0,
            (r + 1) * (r + 1) > p.y * p.y,
    ;
}

/// A vector scaled to a length has no coordinate beyond that length.
pub proof fn lemma_scaled_coordinate(p: Point, len: int)
    requires
        len >= 0,
    ensures
        -len <= p.scaled_to(len).x <= len,
        -len <= p.scaled_to(len).y <= len,
{
    let r = p.length();
    if r != 0 {
        lemma_coordinate_below_length(p);
        lemma_scaled_quotient(p.x, len, r);
        lemma_scaled_quotient(p.y, len, r);
    }
}

/// For `|c| <= r` the quotient `c * len / r` lies between `-len` and `len`.
proof fn lemma_scaled_quotient(c: int, len: int, r: int)
    requires
        r > 0,
        len >= 0,
        -r <= c <= r,
    ensures
        -len <= (c * len) / r <= len,
{
    let n = c * len;
    let q = n / r;
    vstd::arithmetic::div_mod::lemma_fundamental_div_mod(n, r);
    vstd::arithmetic::div_mod::lemma_mod_bound(n, r);
    let m = n % r;
    assert(n == r * q + m);
    assert(-(r * len) <= n <= r * len) by (nonlinear_arith)
        requires
            n == c * len,
            len >= 0,
            -r <= c <= r,
    ;
    assert(-len <= q <= len) by (nonlinear_arith)
        requires
            n == r * q + m,
            0 <= m < r,
            -(r * len) <= n <= r * len,
            r > 0,
            len >= 0,
    ;
}

} // verus!
