//! Why the refinement of the firing solution settles: against a target much
//! slower than the projectile, one refinement brings two times of flight
//! closer together.

use vstd::prelude::*;
use vstd::arithmetic::div_mod::{lemma_basic_div, lemma_div_denominator};
use vstd::arithmetic::power2::{
    pow2, lemma2_to64, lemma2_to64_rest, lemma_pow2_pos, lemma_pow2_strictly_increases,
    lemma_pow2_unfold,
};
use crate::numeric::{LIMIT, clamp, magnitude, lemma_floor_sqrt, lemma_floor_sqrt_bound};
use crate::vector::Point;
use crate::kinematics::{Course, coordinate_after};
use crate::solver::{aim_at, refine, refined_aim, refined_time};

verus! {

/// The sum of the magnitudes of the two coordinates.
pub open spec fn manhattan(p: Point) -> int {
    magnitude(p.x) + magnitude(p.y)
}

/// The fastest that a target moves within the first `span` time units, as a
/// sum over the coordinates: `|v.x| + |v.y| + (|a.x| + |a.y|) · span`.
pub open spec fn target_speed(target: Course, span: int) -> int {
    manhattan(target.velocity) + manhattan(target.acceleration) * span
}

/// Saturation never moves two values further apart.
pub proof fn lemma_clamp_is_lipschitz(x: int, y: int)
    ensures
        magnitude(clamp(x) - clamp(y)) <= magnitude(x - y),
{
}

/// A vector is no longer than the sum of the magnitudes of its coordinates.
pub proof fn lemma_length_below_manhattan(d: Point)
    ensures
        0 <= d.length() <= manhattan(d),
{
    let n = d.norm_sq();
    let m = manhattan(d);
    assert(d.x * d.x >= 0 && d.y * d.y >= 0) by (nonlinear_arith);
    lemma_floor_sqrt(n as nat);
    let r = d.length();
    assert(m * m >= n) by (nonlinear_arith)
        requires
            n == d.x * d.x + d.y * d.y,
            m == magnitude(d.x) + magnitude(d.y),
    ;
    if r > m {
        assert(r * r >= (m + 1) * (m + 1)) by (nonlinear_arith)
            requires
                r >= m + 1,
                m >= 0,
        ;
        assert((m + 1) * (m + 1) > m * m) by (nonlinear_arith)
            requires
                m >= 0,
        ;
    }
}

/// The inequality of Cauchy and Schwarz in the plane: the square of the
/// product of two vectors is at most the product of their squares.
proof fn lemma_cauchy_schwarz(bx: int, by: int, dx: int, dy: int)
    ensures
        (bx * dx + by * dy) * (bx * dx + by * dy) <= (bx * bx + by * by) * (dx * dx + dy * dy),
{
    let xu = bx * dx;
    let yv = by * dy;
    let xv = bx * dy;
    let yu = by * dx;
    let xx = bx * bx;
    let yy = by * by;
    let uu = dx * dx;
    let vv = dy * dy;
    assert((xx + yy) * (uu + vv) == xx * uu + xx * vv + yy * uu + yy * vv) by (nonlinear_arith);
    assert(xx * uu == xu * xu) by (nonlinear_arith)
        requires
            xx == bx * bx,
            uu == dx * dx,
            xu == bx * dx,
    ;
    assert(yy * vv == yv * yv) by (nonlinear_arith)
        requires
            yy == by * by,
            vv == dy * dy,
            yv == by * dy,
    ;
    assert(xx * vv == xv * xv) by (nonlinear_arith)
        requires
            xx == bx * bx,
            vv == dy * dy,
            xv == bx * dy,
    ;
    assert(yy * uu == yu * yu) by (nonlinear_arith)
        requires
            yy == by * by,
            uu == dx * dx,
            yu == by * dx,
    ;
    assert(xu * yv == xv * yu) by (nonlinear_arith)
        requires
            xu == bx * dx,
            yv == by * dy,
            xv == bx * dy,
            yu == by * dx,
    ;
    assert((xu + yv) * (xu + yv) == xu * xu + 2 * (xu * yv) + yv * yv) by (nonlinear_arith);
    assert((xv - yu) * (xv - yu) == xv * xv - 2 * (xv * yu) + yu * yu) by (nonlinear_arith);
    assert((xv - yu) * (xv - yu) >= 0) by (nonlinear_arith);
}

/// The product of two vectors is below the product of any two numbers that
/// exceed their lengths.
proof fn lemma_dot_below_lengths(b: Point, d: Point, u: int, w: int)
    requires
        u > 0,
        w > 0,
        b.norm_sq() < u * u,
        d.norm_sq() < w * w,
    ensures
        b.x * d.x + b.y * d.y < u * w,
{
    let dot = b.x * d.x + b.y * d.y;
    let nb = b.norm_sq();
    let nd = d.norm_sq();
    lemma_cauchy_schwarz(b.x, b.y, d.x, d.y);
    assert(nb >= 0 && nd >= 0) by (nonlinear_arith)
        requires
            nb == b.x * b.x + b.y * b.y,
            nd == d.x * d.x + d.y * d.y,
    ;
    assert(nb * nd < (u * u) * (w * w)) by (nonlinear_arith)
        requires
            0 <= nb < u * u,
            0 <= nd < w * w,
    ;
    assert((u * u) * (w * w) == (u * w) * (u * w)) by (nonlinear_arith);
    if dot >= u * w {
        assert(dot * dot >= (u * w) * (u * w)) by (nonlinear_arith)
            requires
                dot >= u * w,
                u * w > 0,
        ;
    }
    assert(u * w > 0) by (nonlinear_arith)
        requires
            u > 0,
            w > 0,
    ;
}

/// The triangle inequality for lengths that are rounded down: a vector is
/// no longer than another vector, their difference and one taken together.
pub proof fn lemma_triangle(a: Point, b: Point)
    ensures
        a.length() <= b.length() + a.minus(b).length() + 1,
{
    let d = a.minus(b);
    let na = a.norm_sq();
    let nb = b.norm_sq();
    let nd = d.norm_sq();
    assert(na >= 0 && nb >= 0 && nd >= 0) by (nonlinear_arith)
        requires
            na == a.x * a.x + a.y * a.y,
            nb == b.x * b.x + b.y * b.y,
            nd == d.x * d.x + d.y * d.y,
    ;
    lemma_floor_sqrt(na as nat);
    lemma_floor_sqrt(nb as nat);
    lemma_floor_sqrt(nd as nat);
    let ra = a.length();
    let u = b.length() + 1;
    let w = d.length() + 1;
    lemma_dot_below_lengths(b, d, u, w);
    let dot = b.x * d.x + b.y * d.y;
    assert(na == nb + nd + 2 * dot) by (nonlinear_arith)
        requires
            na == a.x * a.x + a.y * a.y,
            nb == b.x * b.x + b.y * b.y,
            nd == d.x * d.x + d.y * d.y,
            dot == b.x * d.x + b.y * d.y,
            d.x == a.x - b.x,
            d.y == a.y - b.y,
    ;
    assert((u + w) * (u + w) == u * u + w * w + 2 * (u * w)) by (nonlinear_arith);
    assert(na < (u + w) * (u + w));
    if ra >= u + w {
        assert(ra * ra >= (u + w) * (u + w)) by (nonlinear_arith)
            requires
                ra >= u + w,
                u + w >= 0,
        ;
    }
}

/// Two lengths differ by no more than the length of the difference of their
/// vectors, and one.
pub proof fn lemma_lengths_differ_by_the_difference(a: Point, b: Point)
    ensures
        magnitude(a.length() - b.length()) <= a.minus(b).length() + 1,
{
    lemma_triangle(a, b);
    lemma_triangle(b, a);
    let d = a.minus(b);
    let e = b.minus(a);
    assert(e.norm_sq() == d.norm_sq()) by (nonlinear_arith)
        requires
            e.x == -d.x,
            e.y == -d.y,
    ;
}

/// Two quotients by the same positive divisor differ by no more than the
/// quotient of a bound on the difference of the dividends, and one.
pub proof fn lemma_quotients_differ(x: int, y: int, s: int, m: int)
    requires
        s >= 1,
        magnitude(x - y) <= m,
    ensures
        magnitude(x / s - y / s) <= m / s + 1,
{
    vstd::arithmetic::div_mod::lemma_fundamental_div_mod(x, s);
    vstd::arithmetic::div_mod::lemma_fundamental_div_mod(y, s);
    vstd::arithmetic::div_mod::lemma_fundamental_div_mod(m, s);
    vstd::arithmetic::div_mod::lemma_mod_bound(x, s);
    vstd::arithmetic::div_mod::lemma_mod_bound(y, s);
    vstd::arithmetic::div_mod::lemma_mod_bound(m, s);
    let qx = x / s;
    let qy = y / s;
    let qm = m / s;
    assert(qx - qy <= qm + 1) by (nonlinear_arith)
        requires
            x == s * qx + x % s,
            y == s * qy + y % s,
            m == s * qm + m % s,
            0 <= x % s < s,
            0 <= y % s < s,
            0 <= m % s < s,
            x - y <= m,
            s >= 1,
    ;
    assert(qy - qx <= qm + 1) by (nonlinear_arith)
        requires
            x == s * qx + x % s,
            y == s * qy + y % s,
            m == s * qm + m % s,
            0 <= x % s < s,
            0 <= y % s < s,
            0 <= m % s < s,
            y - x <= m,
            s >= 1,
    ;
}

/// Between two moments of the first `span` time units, a coordinate moves by
/// no more than `|v| + |a| · span` times the time between them.
proof fn lemma_coordinate_moves_slowly(p: int, v: int, a: int, t1: int, t2: int, span: int)
    requires
        0 <= t1 <= span,
        0 <= t2 <= span,
    ensures
        magnitude(coordinate_after(p, v, a, t1) - coordinate_after(p, v, a, t2)) <= (magnitude(v)
            + magnitude(a) * span) * magnitude(t1 - t2),
{
    let gap = magnitude(t1 - t2);
    let m = a * t1 * t1;
    let n = a * t2 * t2;
    let h1 = m / 2;
    let h2 = n / 2;
    let x = p + v * t1 + h1;
    let y = p + v * t2 + h2;
    lemma_clamp_is_lipschitz(x, y);
    let drift = v * t1 - v * t2;
    assert(magnitude(drift) == magnitude(v) * gap) by (nonlinear_arith)
        requires
            drift == v * t1 - v * t2,
            gap == magnitude(t1 - t2),
    ;
    let sum = t1 + t2;
    assert(m - n == a * (t1 - t2) * sum) by (nonlinear_arith)
        requires
            m == a * t1 * t1,
            n == a * t2 * t2,
            sum == t1 + t2,
    ;
    let turn = magnitude(a) * gap;
    assert(magnitude(a * (t1 - t2)) == turn) by (nonlinear_arith)
        requires
            turn == magnitude(a) * magnitude(t1 - t2),
    ;
    assert(magnitude(m - n) <= turn * (2 * span)) by (nonlinear_arith)
        requires
            m - n == a * (t1 - t2) * sum,
            magnitude(a * (t1 - t2)) == turn,
            0 <= sum <= 2 * span,
            turn >= 0,
    ;
    assert(turn * (2 * span) == 2 * (magnitude(a) * span * gap)) by (nonlinear_arith)
        requires
            turn == magnitude(a) * gap,
    ;
    let bend = magnitude(a) * span * gap;
    assert(magnitude(h1 - h2) <= bend);
    assert((magnitude(v) + magnitude(a) * span) * gap == magnitude(v) * gap + bend)
        by (nonlinear_arith)
        requires
            bend == magnitude(a) * span * gap,
    ;
}

/// One refinement brings two times of flight closer together in the measure
/// in which the projectile is faster than the target. For two times of
/// flight within the first `span` time units, against a target of velocity
/// `v` and acceleration `a`, the refined times differ by no more than
/// `(w · |t1 - t2| + 1) / speed + 1`, where `w` is
/// `|v.x| + |v.y| + (|a.x| + |a.y|) · span`.
pub proof fn lemma_refinement_contracts(
    target: Course,
    agent: Point,
    speed: int,
    t1: int,
    t2: int,
    span: int,
)
    requires
        speed >= 1,
        0 <= t1 <= span,
        0 <= t2 <= span,
    ensures
        magnitude(refine(target, agent, speed, t1) - refine(target, agent, speed, t2)) <= (
        target_speed(target, span) * magnitude(t1 - t2) + 1) / speed + 1,
{
    let a1 = target.position_in(t1);
    let a2 = target.position_in(t2);
    let from1 = a1.minus(agent);
    let from2 = a2.minus(agent);
    let d = from1.minus(from2);
    let gap = magnitude(t1 - t2);
    lemma_coordinate_moves_slowly(
        target.position.x,
        target.velocity.x,
        target.acceleration.x,
        t1,
        t2,
        span,
    );
    lemma_coordinate_moves_slowly(
        target.position.y,
        target.velocity.y,
        target.acceleration.y,
        t1,
        t2,
        span,
    );
    assert(d.x == a1.x - a2.x && d.y == a1.y - a2.y);
    lemma_length_below_manhattan(d);
    lemma_lengths_differ_by_the_difference(from1, from2);
    let wx = magnitude(target.velocity.x) + magnitude(target.acceleration.x) * span;
    let wy = magnitude(target.velocity.y) + magnitude(target.acceleration.y) * span;
    let reach = target_speed(target, span) * gap;
    assert(target_speed(target, span) == wx + wy) by (nonlinear_arith)
        requires
            target_speed(target, span) == magnitude(target.velocity.x) + magnitude(
                target.velocity.y,
            ) + (magnitude(target.acceleration.x) + magnitude(target.acceleration.y)) * span,
            wx == magnitude(target.velocity.x) + magnitude(target.acceleration.x) * span,
            wy == magnitude(target.velocity.y) + magnitude(target.acceleration.y) * span,
    ;
    assert(reach == wx * gap + wy * gap) by (nonlinear_arith)
        requires
            reach == (wx + wy) * gap,
    ;
    assert(manhattan(d) <= reach);
    lemma_quotients_differ(from1.length(), from2.length(), speed, reach + 1);
}

/// Against a target at most half as fast as the projectile, one refinement
/// halves the difference of two times of flight, up to two time units.
pub proof fn lemma_refinement_halves(
    target: Course,
    agent: Point,
    speed: int,
    t1: int,
    t2: int,
    span: int,
)
    requires
        speed >= 1,
        0 <= t1 <= span,
        0 <= t2 <= span,
        2 * target_speed(target, span) <= speed,
    ensures
        magnitude(refine(target, agent, speed, t1) - refine(target, agent, speed, t2)) <= magnitude(
            t1 - t2,
        ) / 2 + 2,
{
    lemma_refinement_contracts(target, agent, speed, t1, t2, span);
    let gap = magnitude(t1 - t2);
    let w = target_speed(target, span);
    let m = w * gap + 1;
    let q = m / speed;
    vstd::arithmetic::div_mod::lemma_fundamental_div_mod(m, speed);
    vstd::arithmetic::div_mod::lemma_mod_bound(m, speed);
    assert(w >= 0) by (nonlinear_arith)
        requires
            w == manhattan(target.velocity) + manhattan(target.acceleration) * span,
            manhattan(target.velocity) >= 0,
            manhattan(target.acceleration) >= 0,
            span >= 0,
    ;
    assert(2 * q <= gap + 2) by (nonlinear_arith)
        requires
            m == speed * q + m % speed,
            0 <= m % speed < speed,
            m == w * gap + 1,
            2 * w <= speed,
            speed >= 1,
            gap >= 0,
            w >= 0,
    ;
}

/// Against a target at most half as fast as the projectile, each refinement
/// after the first changes the time of flight by at most half of what the
/// refinement before it changed, and two time units: the times of flight
/// settle, as long as they stay within `span`.
pub proof fn lemma_refinements_settle(target: Course, agent: Point, speed: int, k: nat, span: int)
    requires
        speed >= 1,
        k >= 1,
        refined_time(target, agent, speed, k) <= span,
        refined_time(target, agent, speed, k + 1) <= span,
        2 * target_speed(target, span) <= speed,
    ensures
        magnitude(
            refined_time(target, agent, speed, k + 2) - refined_time(target, agent, speed, k + 1),
        ) <= magnitude(
            refined_time(target, agent, speed, k + 1) - refined_time(target, agent, speed, k),
        ) / 2 + 2,
{
    let t0 = refined_time(target, agent, speed, k);
    let t1 = refined_time(target, agent, speed, k + 1);
    crate::solver::lemma_refinement_step(target, agent, speed, k);
    crate::solver::lemma_refinement_step(target, agent, speed, k + 1);
    crate::solver::lemma_flight_time_is_not_negative(target, agent, speed, k);
    crate::solver::lemma_flight_time_is_not_negative(target, agent, speed, k + 1);
    lemma_refinement_halves(target, agent, speed, t1, t0, span);
}

/// Against a target that keeps its velocity, the bound of
/// `lemma_refinement_contracts` holds with the speed of the target alone,
/// whatever the times of flight.
pub proof fn lemma_refinement_contracts_steady(
    target: Course,
    agent: Point,
    speed: int,
    t1: int,
    t2: int,
)
    requires
        speed >= 1,
        t1 >= 0,
        t2 >= 0,
        target.acceleration == (Point { x: 0, y: 0 }),
    ensures
        magnitude(refine(target, agent, speed, t1) - refine(target, agent, speed, t2)) <= (
        manhattan(target.velocity) * magnitude(t1 - t2) + 1) / speed + 1,
{
    let span = if t1 >= t2 { t1 } else { t2 };
    lemma_refinement_contracts(target, agent, speed, t1, t2, span);
    assert(target_speed(target, span) == manhattan(target.velocity)) by (nonlinear_arith)
        requires
            target_speed(target, span) == manhattan(target.velocity) + manhattan(
                target.acceleration,
            ) * span,
            manhattan(target.acceleration) == 0,
    ;
}

/// What the refinement after the `k`-th changes of the time of flight.
pub open spec fn change(target: Course, agent: Point, speed: int, k: nat) -> int {
    magnitude(refined_time(target, agent, speed, k + 1) - refined_time(target, agent, speed, k))
}

/// Seen from an agent within the coordinate limit, no refined time of flight
/// exceeds three times the coordinate limit.
pub proof fn lemma_flight_time_is_bounded(target: Course, agent: Point, speed: int, k: nat)
    requires
        speed >= 1,
        agent.in_world(),
        k >= 1,
    ensures
        0 <= refined_time(target, agent, speed, k) <= 3 * LIMIT,
{
    let aim = aim_at(target, k > 1, refined_time(target, agent, speed, (k - 1) as nat));
    let from = aim.minus(agent);
    assert(aim.in_world());
    assert(from.norm_sq() <= 8 * LIMIT * LIMIT) by (nonlinear_arith)
        requires
            -2 * LIMIT <= from.x <= 2 * LIMIT,
            -2 * LIMIT <= from.y <= 2 * LIMIT,
    ;
    assert(from.norm_sq() >= 0) by (nonlinear_arith);
    assert(8 * LIMIT * LIMIT <= (3 * LIMIT) * (3 * LIMIT)) by (nonlinear_arith);
    lemma_floor_sqrt_bound(from.norm_sq() as nat, (3 * LIMIT) as nat);
    let distance = from.length();
    assert(0 <= distance / speed <= distance) by (nonlinear_arith)
        requires
            distance >= 0,
            speed >= 1,
    ;
}

/// Against a target at most half as fast as the projectile, the changes of
/// the time of flight halve from refinement to refinement, down to four time
/// units: the refinement after the `n + 1`-th changes the time of flight by
/// at most `4 + c / 2^n`, where `c` is what the refinement after the first
/// changed.
pub proof fn lemma_changes_halve(target: Course, agent: Point, speed: int, span: int, n: nat)
    requires
        speed >= 1,
        2 * target_speed(target, span) <= speed,
        forall|j: nat| 1 <= j <= n + 1 ==> #[trigger] refined_time(target, agent, speed, j) <= span,
    ensures
        change(target, agent, speed, n + 1) <= 4 + change(target, agent, speed, 1) / (pow2(n)
            as int),
    decreases n,
{
    let first = change(target, agent, speed, 1);
    if n == 0 {
        lemma2_to64();
    } else {
        lemma_changes_halve(target, agent, speed, span, (n - 1) as nat);
        assert(refined_time(target, agent, speed, n) <= span);
        assert(refined_time(target, agent, speed, n + 1) <= span);
        lemma_refinements_settle(target, agent, speed, n, span);
        let smaller = pow2((n - 1) as nat) as int;
        lemma_pow2_pos((n - 1) as nat);
        lemma_pow2_unfold(n);
        let q = first / smaller;
        lemma_div_denominator(first, smaller, 2);
        assert(smaller * 2 == pow2(n));
        assert(q / 2 == first / (pow2(n) as int));
        let before = change(target, agent, speed, n);
        assert(before <= 4 + q);
        assert(before / 2 <= 2 + q / 2);
    }
}

/// Seen from an agent within the coordinate limit, against a target at most
/// half as fast as the projectile, the time of flight after forty-three or
/// more refinements is within four time units of the time of flight to its
/// own aim point: the firing solution meets the equation that it solves, up
/// to four time units.
pub proof fn lemma_solution_is_accurate(
    target: Course,
    agent: Point,
    speed: int,
    span: int,
    depth: nat,
)
    requires
        speed >= 1,
        agent.in_world(),
        depth >= 43,
        2 * target_speed(target, span) <= speed,
        forall|j: nat| 1 <= j <= depth ==> #[trigger] refined_time(target, agent, speed, j) <= span,
    ensures
        magnitude(
            refine(target, agent, speed, refined_time(target, agent, speed, depth)) - refined_time(
                target,
                agent,
                speed,
                depth,
            ),
        ) <= 4,
{
    let n = (depth - 1) as nat;
    lemma_changes_halve(target, agent, speed, span, n);
    crate::solver::lemma_refinement_step(target, agent, speed, depth);
    lemma_flight_time_is_bounded(target, agent, speed, 1);
    lemma_flight_time_is_bounded(target, agent, speed, 2);
    let first = change(target, agent, speed, 1);
    assert(0 <= first <= 3 * LIMIT);
    lemma2_to64_rest();
    if n > 42 {
        lemma_pow2_strictly_increases(42, n);
    }
    assert(first < pow2(n));
    lemma_basic_div(first, pow2(n) as int);
}

/// Seen from an agent within the coordinate limit, against a target that
/// keeps its velocity and is at most half as fast as the projectile, the
/// firing solution after forty-three or more refinements meets the equation
/// that it solves, up to four time units.
pub proof fn lemma_steady_solution_is_accurate(
    target: Course,
    agent: Point,
    speed: int,
    depth: nat,
)
    requires
        speed >= 1,
        agent.in_world(),
        depth >= 43,
        target.acceleration == (Point { x: 0, y: 0 }),
        2 * manhattan(target.velocity) <= speed,
    ensures
        magnitude(
            refine(target, agent, speed, refined_time(target, agent, speed, depth)) - refined_time(
                target,
                agent,
                speed,
                depth,
            ),
        ) <= 4,
{
    let span = 3 * LIMIT;
    assert(target_speed(target, span) == manhattan(target.velocity)) by (nonlinear_arith)
        requires
            target_speed(target, span) == manhattan(target.velocity) + manhattan(
                target.acceleration,
            ) * span,
            manhattan(target.acceleration) == 0,
    ;
    assert forall|j: nat| 1 <= j <= depth implies #[trigger] refined_time(target, agent, speed, j)
        <= span by {
        lemma_flight_time_is_bounded(target, agent, speed, j);
    }
    lemma_solution_is_accurate(target, agent, speed, span, depth);
}

/// Seen from an agent within the coordinate limit, against a target at most
/// half as fast as the projectile, one more refinement after forty-three or
/// more moves the aim point by no more than what the target covers in four
/// time units: in each coordinate by at most `4 · (|v| + |a| · span)`.
pub proof fn lemma_aim_point_settles(
    target: Course,
    agent: Point,
    speed: int,
    span: int,
    depth: nat,
)
    requires
        speed >= 1,
        agent.in_world(),
        depth >= 43,
        2 * target_speed(target, span) <= speed,
        forall|j: nat|
            1 <= j <= depth + 1 ==> #[trigger] refined_time(target, agent, speed, j) <= span,
    ensures
        ({
            let once_more = refined_aim(target, agent, speed, depth + 1);
            let aim = refined_aim(target, agent, speed, depth);
            &&& magnitude(once_more.x - aim.x) <= 4 * (magnitude(target.velocity.x) + magnitude(
                target.acceleration.x,
            ) * span)
            &&& magnitude(once_more.y - aim.y) <= 4 * (magnitude(target.velocity.y) + magnitude(
                target.acceleration.y,
            ) * span)
        }),
{
    let t = refined_time(target, agent, speed, depth);
    let next = refined_time(target, agent, speed, depth + 1);
    assert(t <= span);
    assert(next <= span);
    lemma_solution_is_accurate(target, agent, speed, span, depth);
    crate::solver::lemma_refinement_step(target, agent, speed, depth);
    crate::solver::lemma_flight_time_is_not_negative(target, agent, speed, depth);
    crate::solver::lemma_flight_time_is_not_negative(target, agent, speed, depth + 1);
    let gap = magnitude(next - t);
    assert(gap <= 4);
    lemma_coordinate_moves_slowly(
        target.position.x,
        target.velocity.x,
        target.acceleration.x,
        next,
        t,
        span,
    );
    lemma_coordinate_moves_slowly(
        target.position.y,
        target.velocity.y,
        target.acceleration.y,
        next,
        t,
        span,
    );
    let wx = magnitude(target.velocity.x) + magnitude(target.acceleration.x) * span;
    let wy = magnitude(target.velocity.y) + magnitude(target.acceleration.y) * span;
    assert(wx >= 0 && wy >= 0) by (nonlinear_arith)
        requires
            wx == magnitude(target.velocity.x) + magnitude(target.acceleration.x) * span,
            wy == magnitude(target.velocity.y) + magnitude(target.acceleration.y) * span,
            span >= 0,
    ;
    assert(wx * gap <= 4 * wx && wy * gap <= 4 * wy) by (nonlinear_arith)
        requires
            0 <= gap <= 4,
            wx >= 0,
            wy >= 0,
    ;
}

/// Seen from an agent within the coordinate limit, against a target that
/// keeps its velocity `v` and is at most half as fast as the projectile, one
/// more refinement after forty-three or more moves the aim point by at most
/// `4 · |v.x|` and `4 · |v.y|`.
pub proof fn lemma_steady_aim_point_settles(target: Course, agent: Point, speed: int, depth: nat)
    requires
        speed >= 1,
        agent.in_world(),
        depth >= 43,
        target.acceleration == (Point { x: 0, y: 0 }),
        2 * manhattan(target.velocity) <= speed,
    ensures
        ({
            let once_more = refined_aim(target, agent, speed, depth + 1);
            let aim = refined_aim(target, agent, speed, depth);
            &&& magnitude(once_more.x - aim.x) <= 4 * magnitude(target.velocity.x)
            &&& magnitude(once_more.y - aim.y) <= 4 * magnitude(target.velocity.y)
        }),
{
    let span = 3 * LIMIT;
    assert(target_speed(target, span) == manhattan(target.velocity)) by (nonlinear_arith)
        requires
            target_speed(target, span) == manhattan(target.velocity) + manhattan(
                target.acceleration,
            ) * span,
            manhattan(target.acceleration) == 0,
    ;
    assert forall|j: nat| 1 <= j <= depth + 1 implies #[trigger] refined_time(
        target,
        agent,
        speed,
        j,
    ) <= span by {
        lemma_flight_time_is_bounded(target, agent, speed, j);
    }
    lemma_aim_point_settles(target, agent, speed, span, depth);
    assert(0 * span == 0) by (nonlinear_arith);
}

} // verus!
