//! The firing solution: the point at which a projectile fired now meets the
//! target, found by refining the time of flight a fixed number of times, and
//! the aim points of a target that turns as hard as it can to either side.

use vstd::prelude::*;
use crate::numeric::{LIMIT, floor_div};
use crate::vector::{Point, Vector};
use crate::kinematics::{Motion, Course};
use crate::config::{Config, Settings};
use crate::angle::{DEGREE, HALF_TURN, shortest_turn, angle_diff};

verus! {

/// The smallest angular uncertainty of a firing solution: one degree.
pub const MIN_UNCERTAINTY: i64 = DEGREE;

/// Where to aim, and how long the projectile flies to get there.
#[derive(Clone, Copy, Debug, PartialEq, Eq)]
pub struct Intercept {
    /// The point to aim at.
    pub aim_point: Vector,
    /// The time of flight to the aim point.
    pub flight_time: i64,
}

/// The time that a projectile of speed `speed` takes from `agent` to `aim`:
/// the distance, rounded down, over the speed, rounded down.
pub open spec fn flight_time_to(aim: Point, agent: Point, speed: int) -> int {
    aim.minus(agent).length() / speed
}

/// Where the target is after `t` time units; its acceleration counts only
/// where `accelerating` is set.
pub open spec fn aim_at(target: Course, accelerating: bool, t: int) -> Point {
    if accelerating {
        target.position_in(t)
    } else {
        target.steady().position_in(t)
    }
}

/// One refinement: the time of flight to the point that the target reaches
/// in the time `t`.
pub open spec fn refine(target: Course, agent: Point, speed: int, t: int) -> int {
    flight_time_to(aim_at(target, true, t), agent, speed)
}

/// The time of flight after `k` refinements. It starts from the time to the
/// target's present position; the first refinement aims at a target that
/// keeps its velocity, the later ones at one that keeps its acceleration.
pub open spec fn refined_time(target: Course, agent: Point, speed: int, k: nat) -> int
    decreases k,
{
    if k == 0 {
        flight_time_to(target.position, agent, speed)
    } else {
        flight_time_to(
            aim_at(target, k > 1, refined_time(target, agent, speed, (k - 1) as nat)),
            agent,
            speed,
        )
    }
}

/// The aim point after `k` refinements.
pub open spec fn refined_aim(target: Course, agent: Point, speed: int, k: nat) -> Point {
    aim_at(target, k > 0, refined_time(target, agent, speed, k))
}

/// The acceleration of the hardest turn that a target at `target` can make
/// to the left of the line from it to `agent`.
pub open spec fn evasion(target: Point, agent: Point, max_acceleration: int) -> Point {
    agent.minus(target).perpendicular().scaled_to(max_acceleration)
}

/// The time that a projectile takes from `agent` to `aim`.
pub fn time_of_flight(aim: &Vector, agent: &Vector, config: &Config) -> (r: i64)
    ensures
        r == flight_time_to(aim@, agent@, config@.projectile_speed as int),
        0 <= r <= 3 * LIMIT,
{
    let speed: i64 = config.settings().projectile_speed;
    let distance: i64 = aim.distance(agent);
    proof {
        assert(0 <= distance as int / speed as int <= distance) by (nonlinear_arith)
            requires
                distance >= 0,
                speed >= 1,
        ;
    }
    floor_div(distance as i128, speed as i128) as i64
}

/// The firing solution for a target in motion `target`, seen from `agent`:
/// the time of flight and the aim point after `solver_depth` refinements.
pub fn solve_intercept(target: &Motion, agent: &Vector, config: &Config) -> (r: Intercept)
    ensures
        r.flight_time == refined_time(
            target@,
            agent@,
            config@.projectile_speed as int,
            config@.solver_depth as nat,
        ),
        r.aim_point@ == refined_aim(
            target@,
            agent@,
            config@.projectile_speed as int,
            config@.solver_depth as nat,
        ),
        0 <= r.flight_time <= 3 * LIMIT,
{
    let depth: u32 = config.settings().solver_depth;
    let ghost speed: int = config@.projectile_speed as int;
    let coasting = Motion {
        position: target.position,
        velocity: target.velocity,
        acceleration: Vector::zero(),
    };
    let mut t: i64 = time_of_flight(&target.position, agent, config);
    let mut aim: Vector = coasting.future_position(t as i128);
    let mut k: u32 = 0;
    while k < depth
        invariant
            k <= depth,
            speed == config@.projectile_speed,
            0 <= t <= 3 * LIMIT,
            t == refined_time(target@, agent@, speed, k as nat),
            aim@ == refined_aim(target@, agent@, speed, k as nat),
        decreases depth - k,
    {
        t = time_of_flight(&aim, agent, config);
        aim = target.future_position(t as i128);
        k = k + 1;
    }
    Intercept { aim_point: aim, flight_time: t }
}

/// Once a refinement leaves the time of flight unchanged, every further
/// refinement leaves the time of flight and the aim point unchanged.
pub proof fn lemma_converged_solution_is_stable(
    target: Course,
    agent: Point,
    speed: int,
    k: nat,
    j: nat,
)
    requires
        k >= 1,
        refined_time(target, agent, speed, k + 1) == refined_time(target, agent, speed, k),
        j >= k,
    ensures
        refined_time(target, agent, speed, j) == refined_time(target, agent, speed, k),
        refined_aim(target, agent, speed, j) == refined_aim(target, agent, speed, k),
    decreases j,
{
    if j > k {
        lemma_converged_solution_is_stable(target, agent, speed, k, (j - 1) as nat);
        lemma_refinement_step(target, agent, speed, (j - 1) as nat);
        lemma_refinement_step(target, agent, speed, k);
    }
}

/// From the first refinement on, the next time of flight is one `refine` of
/// the present one.
pub proof fn lemma_refinement_step(target: Course, agent: Point, speed: int, k: nat)
    requires
        k >= 1,
    ensures
        refined_time(target, agent, speed, k + 1) == refine(
            target,
            agent,
            speed,
            refined_time(target, agent, speed, k),
        ),
{
}

/// No time of flight is negative.
pub proof fn lemma_flight_time_is_not_negative(target: Course, agent: Point, speed: int, k: nat)
    requires
        speed >= 1,
    ensures
        refined_time(target, agent, speed, k) >= 0,
{
    let aim = if k == 0 {
        target.position
    } else {
        aim_at(target, k > 1, refined_time(target, agent, speed, (k - 1) as nat))
    };
    let distance = aim.minus(agent).length();
    assert(distance / speed >= 0) by (nonlinear_arith)
        requires
            distance >= 0,
            speed >= 1,
    ;
}

/// A time of flight that `refine` leaves unchanged keeps its aim point under
/// one more refinement.
pub proof fn lemma_fixed_point_keeps_aim(target: Course, agent: Point, speed: int, t: int)
    requires
        refine(target, agent, speed, t) == t,
    ensures
        aim_at(target, true, refine(target, agent, speed, t)) == aim_at(target, true, t),
{
}

/// The firing solution together with the aim points of a target that turns
/// as hard as the agent itself could, to the left and to the right of the
/// line of sight.
#[derive(Clone, Copy, Debug, PartialEq, Eq)]
pub struct FiringGeometry {
    /// The point to aim at.
    pub aim_point: Vector,
    /// The time of flight to the aim point.
    pub flight_time: i64,
    /// The aim point if the target turns left for the whole flight.
    pub evading_left: Vector,
    /// The aim point if the target turns right for the whole flight.
    pub evading_right: Vector,
}

/// Whether `geometry` is the firing geometry of `target` seen from `agent`:
/// the firing solution after `solver_depth` refinements, and the points that
/// the target reaches in the same time if it turns as hard as the agent
/// could to the left or to the right of the line of sight.
pub open spec fn solves(
    geometry: FiringGeometry,
    target: Course,
    agent: Point,
    settings: Settings,
) -> bool {
    let speed = settings.projectile_speed as int;
    let depth = settings.solver_depth as nat;
    let swerve = evasion(target.position, agent, settings.max_acceleration as int);
    &&& geometry.flight_time == refined_time(target, agent, speed, depth)
    &&& geometry.aim_point@ == refined_aim(target, agent, speed, depth)
    &&& geometry.evading_left@ == target.pushed(swerve).position_in(geometry.flight_time as int)
    &&& geometry.evading_right@ == target.pushed(swerve.negated()).position_in(
        geometry.flight_time as int,
    )
}

/// The firing solution for `target` seen from `agent`, with the two aim
/// points that bound what the target can reach by turning.
pub fn calc_future_target(target: &Motion, agent: &Vector, config: &Config) -> (r: FiringGeometry)
    ensures
        solves(r, target@, agent@, config@),
{
    let solution: Intercept = solve_intercept(target, agent, config);
    let offset: Vector = target.position.normal_to(agent, config.settings().max_acceleration);
    let left = Motion {
        position: target.position,
        velocity: target.velocity,
        acceleration: target.acceleration.plus(&offset),
    };
    let right = Motion {
        position: target.position,
        velocity: target.velocity,
        acceleration: target.acceleration.plus(&offset.negated()),
    };
    FiringGeometry {
        aim_point: solution.aim_point,
        flight_time: solution.flight_time,
        evading_left: left.future_position(solution.flight_time as i128),
        evading_right: right.future_position(solution.flight_time as i128),
    }
}

/// The headings from the agent to the three points of a firing geometry.
#[derive(Clone, Copy, Debug, PartialEq, Eq)]
pub struct Bearings {
    /// Heading to the aim point.
    pub aim: i64,
    /// Heading to the aim point of a target that turns left.
    pub evading_left: i64,
    /// Heading to the aim point of a target that turns right.
    pub evading_right: i64,
}

/// The size of the smallest rotation between two headings.
pub open spec fn separation(a: int, b: int) -> int {
    if shortest_turn(a, b) < 0 {
        -shortest_turn(a, b)
    } else {
        shortest_turn(a, b)
    }
}

/// The half-width of the firing cone: the larger of the two angles between
/// the aim direction and the directions to the evading aim points, and no
/// less than `MIN_UNCERTAINTY`.
pub open spec fn uncertainty(bearings: Bearings) -> int {
    let left = separation(bearings.aim as int, bearings.evading_left as int);
    let right = separation(bearings.aim as int, bearings.evading_right as int);
    let wider = if left >= right { left } else { right };
    if wider >= MIN_UNCERTAINTY {
        wider
    } else {
        MIN_UNCERTAINTY as int
    }
}

/// The size of the smallest rotation between two headings.
pub fn angular_separation(a: i64, b: i64) -> (r: i64)
    ensures
        r == separation(a as int, b as int),
        0 <= r <= HALF_TURN,
{
    let turn: i64 = angle_diff(a, b);
    if turn < 0 {
        -turn
    } else {
        turn
    }
}

/// What a firing solution says.
pub struct Estimate {
    /// The point to aim at.
    pub aim_point: Point,
    /// The heading from the agent to the aim point.
    pub bearing: int,
    /// The time at which the solution was made.
    pub solve_time: int,
    /// The time of flight to the aim point.
    pub flight_time: int,
    /// The half-width of the firing cone.
    pub angular_uncertainty: int,
}

/// A firing solution: where to aim, and how far off the aim may be.
#[derive(Clone, Copy, Debug, PartialEq, Eq)]
pub struct TargetEstimate {
    aim_point: Vector,
    bearing: i64,
    solve_time: i64,
    flight_time: i64,
    angular_uncertainty: i64,
}

impl View for TargetEstimate {
    type V = Estimate;

    closed spec fn view(&self) -> Estimate {
        Estimate {
            aim_point: self.aim_point@,
            bearing: self.bearing as int,
            solve_time: self.solve_time as int,
            flight_time: self.flight_time as int,
            angular_uncertainty: self.angular_uncertainty as int,
        }
    }
}

impl TargetEstimate {
    /// The firing cone is at least `MIN_UNCERTAINTY` and at most half a turn
    /// wide to either side.
    #[verifier::type_invariant]
    pub open spec fn valid(self) -> bool {
        MIN_UNCERTAINTY <= self@.angular_uncertainty <= HALF_TURN
    }

    /// The firing solution made at time `now` from a geometry and the
    /// headings to its points.
    pub fn new(geometry: &FiringGeometry, bearings: &Bearings, now: i64) -> (r: TargetEstimate)
        ensures
            r@ == (Estimate {
                aim_point: geometry.aim_point@,
                bearing: bearings.aim as int,
                solve_time: now as int,
                flight_time: geometry.flight_time as int,
                angular_uncertainty: uncertainty(*bearings),
            }),
    {
        let left: i64 = angular_separation(bearings.aim, bearings.evading_left);
        let right: i64 = angular_separation(bearings.aim, bearings.evading_right);
        let wider: i64 = if left >= right { left } else { right };
        let angular_uncertainty: i64 = if wider >= MIN_UNCERTAINTY {
            wider
        } else {
            MIN_UNCERTAINTY
        };
        TargetEstimate {
            aim_point: geometry.aim_point,
            bearing: bearings.aim,
            solve_time: now,
            flight_time: geometry.flight_time,
            angular_uncertainty,
        }
    }

    /// The point to aim at.
    pub fn aim_point(&self) -> (r: Vector)
        ensures
            r@ == self@.aim_point,
    {
        self.aim_point
    }

    /// The heading from the agent to the aim point.
    pub fn bearing(&self) -> (r: i64)
        ensures
            r == self@.bearing,
    {
        self.bearing
    }

    /// The time at which the solution was made.
    pub fn solve_time(&self) -> (r: i64)
        ensures
            r == self@.solve_time,
    {
        self.solve_time
    }

    /// The time of flight to the aim point.
    pub fn flight_time(&self) -> (r: i64)
        ensures
            r == self@.flight_time,
    {
        self.flight_time
    }

    /// The half-width of the firing cone.
    pub fn angular_uncertainty(&self) -> (r: i64)
        ensures
            r == self@.angular_uncertainty,
            MIN_UNCERTAINTY <= r <= HALF_TURN,
    {
        proof {
            use_type_invariant(self);
        }
        self.angular_uncertainty
    }
}

} // verus!
