//! Angles, in millionths of a degree.

use vstd::prelude::*;
use crate::numeric::floor_mod;

verus! {

/// One degree.
pub const DEGREE: i64 = 1_000_000;

/// Half a turn.
pub const HALF_TURN: i64 = 180_000_000;

/// A full turn.
pub const FULL_TURN: i64 = 360_000_000;

/// The heading `a` brought into `[0, FULL_TURN)`.
pub open spec fn wrapped(a: int) -> int {
    a % (FULL_TURN as int)
}

/// The smallest rotation that takes heading `a` to heading `b`: positive is
/// counter-clockwise, and the result lies in `(-HALF_TURN, HALF_TURN]`.
pub open spec fn shortest_turn(a: int, b: int) -> int {
    let c = (b - a) % (FULL_TURN as int);
    if c > HALF_TURN {
        c - FULL_TURN
    } else {
        c
    }
}

/// Brings a heading into `[0, FULL_TURN)`.
pub fn wrap_heading(a: i64) -> (r: i64)
    ensures
        r == wrapped(a as int),
        0 <= r < FULL_TURN,
{
    floor_mod(a as i128, FULL_TURN as i128) as i64
}

/// The heading `a` turned by `step`, brought into `[0, FULL_TURN)`.
pub fn turned_heading(a: i64, step: i64) -> (r: i64)
    ensures
        r == wrapped(a + step),
        0 <= r < FULL_TURN,
{
    floor_mod(a as i128 + step as i128, FULL_TURN as i128) as i64
}

/// The smallest rotation between the headings `a` and `b`.
pub fn angle_diff(a: i64, b: i64) -> (r: i64)
    ensures
        r == shortest_turn(a as int, b as int),
        -HALF_TURN < r <= HALF_TURN,
{
    let c: i128 = floor_mod(b as i128 - a as i128, FULL_TURN as i128);
    if c > HALF_TURN as i128 {
        (c - FULL_TURN as i128) as i64
    } else {
        c as i64
    }
}

/// The smallest rotation from the heading `a` to the heading `b` turned by `offset`.
pub fn angle_diff_offset(a: i64, b: i64, offset: i64) -> (r: i64)
    ensures
        r == shortest_turn(a as int, b + offset),
        -HALF_TURN < r <= HALF_TURN,
{
    let c: i128 = floor_mod(b as i128 + offset as i128 - a as i128, FULL_TURN as i128);
    if c > HALF_TURN as i128 {
        (c - FULL_TURN as i128) as i64
    } else {
        c as i64
    }
}

/// Turning from `a` by the shortest turn to `b` arrives at `b`, up to whole turns.
pub proof fn lemma_shortest_turn_arrives(a: int, b: int)
    ensures
        wrapped(a + shortest_turn(a, b)) == wrapped(b),
{
    let f = FULL_TURN as int;
    let c = (b - a) % f;
    vstd::arithmetic::div_mod::lemma_fundamental_div_mod(b - a, f);
    let q = (b - a) / f;
    assert(b - a == f * q + c);
    if c > HALF_TURN {
        assert(a + shortest_turn(a, b) == b - f * (q + 1)) by (nonlinear_arith)
            requires
                shortest_turn(a, b) == c - f,
                b - a == f * q + c,
        ;
        vstd::arithmetic::div_mod::lemma_mod_multiples_vanish(-(q + 1), b, f);
        assert(b + f * (-(q + 1)) == b - f * (q + 1)) by (nonlinear_arith);
    } else {
        assert(a + shortest_turn(a, b) == b - f * q);
        vstd::arithmetic::div_mod::lemma_mod_multiples_vanish(-q, b, f);
        assert(b + f * (-q) == b - f * q) by (nonlinear_arith);
    }
}

} // verus!
