//! The translational intercept controller: pursue the aim point, or brake
//! once the agent would otherwise pass it too fast.

use vstd::prelude::*;
use crate::numeric::{LIMIT, saturate, floor_div, lemma_product_bound, lemma_quotient_fits};
use crate::vector::{Point, Vector, lemma_scaled_coordinate};
use crate::config::Config;

verus! {

/// Whether to brake at speed `speed` and distance `distance` from the aim
/// point: the agent moves, and the time to slow down to the passing speed,
/// `(speed - passing_speed) / max_acceleration`, is at least the time to
/// reach the aim point, `distance / speed`.
pub open spec fn should_brake(
    speed: int,
    distance: int,
    max_acceleration: int,
    passing_speed: int,
) -> bool {
    &&& speed > 0
    &&& (speed - passing_speed) * speed >= distance * max_acceleration
}

/// Full acceleration against the velocity.
pub open spec fn braking(velocity: Point, max_acceleration: int) -> Point {
    velocity.scaled_to(max_acceleration).negated()
}

/// Full acceleration along the heading, corrected while the agent moves by
/// the difference between the direction to the aim point and the direction
/// of travel, each at full acceleration.
pub open spec fn pursuing(
    to_target: Point,
    velocity: Point,
    heading: Point,
    max_acceleration: int,
) -> Point {
    let along = heading.scaled_to(max_acceleration);
    if velocity.length() > 0 {
        along.plus(to_target.scaled_to(max_acceleration)).minus(
            velocity.scaled_to(max_acceleration),
        ).clamped()
    } else {
        along
    }
}

/// The acceleration that takes the agent to the aim point.
pub open spec fn thrust(
    aim: Point,
    agent: Point,
    velocity: Point,
    heading: Point,
    max_acceleration: int,
    passing_speed: int,
) -> Point {
    let to_target = aim.minus(agent);
    if should_brake(velocity.length(), to_target.length(), max_acceleration, passing_speed) {
        braking(velocity, max_acceleration)
    } else {
        pursuing(to_target, velocity, heading, max_acceleration)
    }
}

/// The acceleration of an agent without a target: the acceleration that
/// brings it to rest within one tick, each coordinate rounded down.
pub open spec fn coasting(velocity: Point, tick_length: int) -> Point {
    Point { x: (-velocity.x) / tick_length, y: (-velocity.y) / tick_length }
}

/// The acceleration that takes an agent at `position`, moving at `velocity`
/// and heading along `heading`, to the aim point `aim`.
pub fn move_ship(
    aim: &Vector,
    position: &Vector,
    velocity: &Vector,
    heading: &Vector,
    config: &Config,
) -> (r: Vector)
    ensures
        r@ == thrust(
            aim@,
            position@,
            velocity@,
            heading@,
            config@.max_acceleration as int,
            config@.passing_speed as int,
        ),
{
    let settings = config.settings();
    let force: i64 = settings.max_acceleration;
    let speed: i128 = velocity.length() as i128;
    let distance: i128 = aim.distance(position) as i128;
    proof {
        lemma_product_bound(
            speed - settings.passing_speed,
            speed as int,
            2 * LIMIT,
            2 * LIMIT,
        );
        lemma_product_bound(distance as int, force as int, 3 * LIMIT, LIMIT as int);
        assert((2 * LIMIT) * (2 * LIMIT) < i128::MAX) by (nonlinear_arith);
        assert(3 * LIMIT * LIMIT < i128::MAX) by (nonlinear_arith);
    }
    let brake: bool = speed > 0 && (speed - settings.passing_speed as i128) * speed >= distance
        * force as i128;
    let against: Vector = velocity.scaled_to(force);
    if brake {
        against.negated()
    } else {
        let along: Vector = heading.scaled_to(force);
        if speed > 0 {
            let toward: Vector = position.direction_to(aim, force);
            let x: i128 = along.x() as i128 + toward.x() as i128 - against.x() as i128;
            let y: i128 = along.y() as i128 + toward.y() as i128 - against.y() as i128;
            Vector::new(saturate(x), saturate(y))
        } else {
            along
        }
    }
}

/// The acceleration of an agent without a target, moving at `velocity`.
pub fn coast(velocity: &Vector, config: &Config) -> (r: Vector)
    ensures
        r@ == coasting(velocity@, config@.tick_length as int),
{
    let tick: i128 = config.settings().tick_length as i128;
    proof {
        use_type_invariant(velocity);
        lemma_quotient_fits(-velocity@.x, tick as int);
        lemma_quotient_fits(-velocity@.y, tick as int);
    }
    let x: i128 = floor_div(-(velocity.x() as i128), tick);
    let y: i128 = floor_div(-(velocity.y() as i128), tick);
    Vector::new(x as i64, y as i64)
}

/// An agent at rest never brakes: it accelerates along its heading.
pub proof fn lemma_at_rest_follows_heading(
    aim: Point,
    agent: Point,
    heading: Point,
    max_acceleration: int,
    passing_speed: int,
)
    ensures
        thrust(aim, agent, Point { x: 0, y: 0 }, heading, max_acceleration, passing_speed)
            == heading.scaled_to(max_acceleration),
{
    let rest = Point { x: 0, y: 0 };
    assert(rest.norm_sq() == 0);
    crate::numeric::lemma_floor_sqrt(0);
    assert(rest.length() == 0) by {
        let r = rest.length();
        if r >= 1 {
            assert(r * r >= 1) by (nonlinear_arith)
                requires
                    r >= 1,
            ;
        }
    }
}

/// While the agent brakes, no coordinate of the commanded acceleration is
/// beyond the largest acceleration.
pub proof fn lemma_braking_is_bounded(velocity: Point, max_acceleration: int)
    requires
        max_acceleration >= 0,
    ensures
        -max_acceleration <= braking(velocity, max_acceleration).x <= max_acceleration,
        -max_acceleration <= braking(velocity, max_acceleration).y <= max_acceleration,
{
    lemma_scaled_coordinate(velocity, max_acceleration);
}

/// No coordinate of a commanded acceleration is beyond three times the
/// largest acceleration.
pub proof fn lemma_thrust_is_bounded(
    aim: Point,
    agent: Point,
    velocity: Point,
    heading: Point,
    max_acceleration: int,
    passing_speed: int,
)
    requires
        max_acceleration >= 0,
    ensures
        ({
            let r = thrust(aim, agent, velocity, heading, max_acceleration, passing_speed);
            &&& -3 * max_acceleration <= r.x <= 3 * max_acceleration
            &&& -3 * max_acceleration <= r.y <= 3 * max_acceleration
        }),
{
    lemma_scaled_coordinate(velocity, max_acceleration);
    lemma_scaled_coordinate(heading, max_acceleration);
    lemma_scaled_coordinate(aim.minus(agent), max_acceleration);
}

} // verus!
