//! The fire-control gate: when the weapon may fire, and the dither that
//! walks the aim back and forth across the firing cone.

use vstd::prelude::*;
use crate::numeric::{LIMIT, floor_div, lemma_product_bound};
use crate::vector::{Point, Vector};
use crate::config::Config;
use crate::solver::{TargetEstimate, separation, angular_separation};

verus! {

/// Number of steps that the dither takes from the centre of the firing cone
/// to its edge.
pub const DITHER_STEPS: i64 = 5;

/// Where the dither stands: `phase` steps off the centre, moving up or down.
pub struct DitherState {
    /// Steps off the centre of the cone, from `-DITHER_STEPS` to `DITHER_STEPS`.
    pub phase: int,
    /// Whether the next step goes up.
    pub rising: bool,
}

impl DitherState {
    /// The phase is within the cone, and at an edge the dither has turned round.
    pub open spec fn valid(self) -> bool {
        &&& -DITHER_STEPS <= self.phase <= DITHER_STEPS
        &&& self.phase == DITHER_STEPS ==> !self.rising
        &&& self.phase == -DITHER_STEPS ==> self.rising
    }

    /// The state one step on: the phase moves by one, and turns round at an edge.
    pub open spec fn advanced(self) -> DitherState {
        let phase = if self.rising {
            self.phase + 1
        } else {
            self.phase - 1
        };
        DitherState {
            phase,
            rising: if phase >= DITHER_STEPS || phase <= -DITHER_STEPS {
                !self.rising
            } else {
                self.rising
            },
        }
    }

    /// The offset from the centre of a cone of half-width `angle_error`: the
    /// fraction `phase / DITHER_STEPS` of it, rounded down. A negative
    /// half-width counts as zero.
    pub open spec fn offset(self, angle_error: int) -> int {
        if angle_error <= 0 {
            0
        } else {
            (angle_error * self.phase) / (DITHER_STEPS as int)
        }
    }
}

/// The dither of the aim.
#[derive(Clone, Copy, Debug, PartialEq, Eq)]
pub struct Dither {
    phase: i64,
    rising: bool,
}

impl View for Dither {
    type V = DitherState;

    closed spec fn view(&self) -> DitherState {
        DitherState { phase: self.phase as int, rising: self.rising }
    }
}

impl Dither {
    /// The phase is within the cone, and at an edge the dither has turned round.
    #[verifier::type_invariant]
    pub open spec fn valid(self) -> bool {
        self@.valid()
    }

    /// A dither at the centre of the cone, about to move up.
    pub fn new() -> (r: Dither)
        ensures
            r@ == (DitherState { phase: 0, rising: true }),
    {
        Dither { phase: 0, rising: true }
    }

    /// Steps off the centre of the cone.
    pub fn phase(&self) -> (r: i64)
        ensures
            r == self@.phase,
            -DITHER_STEPS <= r <= DITHER_STEPS,
    {
        proof {
            use_type_invariant(self);
        }
        self.phase
    }

    /// Whether the next step goes up.
    pub fn rising(&self) -> (r: bool)
        ensures
            r == self@.rising,
    {
        self.rising
    }

    /// The offset from the centre of a cone of half-width `angle_error`.
    pub fn offset(&self, angle_error: i64) -> (r: i64)
        ensures
            r == self@.offset(angle_error as int),
    {
        if angle_error <= 0 {
            return 0;
        }
        proof {
            use_type_invariant(self);
            lemma_product_bound(
                angle_error as int,
                self.phase as int,
                0x8000_0000_0000_0000int,
                DITHER_STEPS as int,
            );
            lemma_offset_within(angle_error as int, self.phase as int);
        }
        let scaled: i128 = angle_error as i128 * self.phase as i128;
        floor_div(scaled, DITHER_STEPS as i128) as i64
    }

    /// Moves the dither one step on.
    pub fn advance(&mut self)
        ensures
            final(self)@ == old(self)@.advanced(),
    {
        proof {
            use_type_invariant(&*self);
        }
        let phase: i64 = if self.rising {
            self.phase + 1
        } else {
            self.phase - 1
        };
        let rising: bool = if phase >= DITHER_STEPS || phase <= -DITHER_STEPS {
            !self.rising
        } else {
            self.rising
        };
        *self = Dither { phase, rising };
    }
}

/// A fraction `phase / DITHER_STEPS` of an angle is no larger than the angle.
proof fn lemma_offset_within(angle: int, phase: int)
    requires
        -DITHER_STEPS <= phase <= DITHER_STEPS,
        angle >= 0,
    ensures
        -angle <= (angle * phase) / (DITHER_STEPS as int) <= angle,
{
    let n = angle * phase;
    assert(-(5 * angle) <= n <= 5 * angle) by (nonlinear_arith)
        requires
            n == angle * phase,
            -5 <= phase <= 5,
            angle >= 0,
    ;
}

/// The dither never leaves the firing cone: its offset is at most the
/// half-width of the cone, to either side.
pub proof fn lemma_dither_stays_in_cone(state: DitherState, angle_error: int)
    requires
        state.valid(),
        angle_error >= 0,
    ensures
        -angle_error <= state.offset(angle_error) <= angle_error,
{
    lemma_offset_within(angle_error, state.phase);
}

/// A step keeps the dither within the cone.
pub proof fn lemma_dither_step_is_valid(state: DitherState)
    requires
        state.valid(),
    ensures
        state.advanced().valid(),
{
}

/// Whether `aim` is within `max_range` of `agent`.
pub open spec fn within_range(aim: Point, agent: Point, max_range: int) -> bool {
    aim.minus(agent).norm_sq() <= max_range * max_range
}

/// Whether the weapon may fire: it is not reloading, the aim point is within
/// the effective range, and the heading is off the bearing to the aim point
/// by no more than the angular uncertainty.
pub open spec fn ready_to_fire(
    reload_ticks: int,
    aim: Point,
    agent: Point,
    max_range: int,
    heading: int,
    bearing: int,
    angular_uncertainty: int,
) -> bool {
    &&& reload_ticks == 0
    &&& within_range(aim, agent, max_range)
    &&& separation(heading, bearing) <= angular_uncertainty
}

/// Whether the weapon may fire at the firing solution `estimate`, from
/// `position` at heading `heading`, with `reload_ticks` ticks of reloading left.
pub fn weapon_ready(
    estimate: &TargetEstimate,
    position: &Vector,
    heading: i64,
    reload_ticks: u32,
    config: &Config,
) -> (r: bool)
    ensures
        r == ready_to_fire(
            reload_ticks as int,
            estimate@.aim_point,
            position@,
            config@.max_range as int,
            heading as int,
            estimate@.bearing,
            estimate@.angular_uncertainty,
        ),
        r ==> reload_ticks == 0,
{
    let reach: i128 = config.settings().max_range as i128;
    proof {
        lemma_product_bound(reach as int, reach as int, LIMIT as int, LIMIT as int);
        assert(reach * reach >= 0) by (nonlinear_arith);
        assert(LIMIT * LIMIT == 1_000_000_000_000_000_000_000_000int) by (nonlinear_arith);
    }
    let is_reloading: bool = reload_ticks > 0;
    let in_range: bool = estimate.aim_point().distance_squared(position) <= (reach * reach) as u128;
    let in_firing_arc: bool = angular_separation(heading, estimate.bearing())
        <= estimate.angular_uncertainty();
    !is_reloading && in_range && in_firing_arc
}

/// The weapon is never ready while it reloads, whatever the range and the angle.
pub proof fn lemma_no_fire_while_reloading(
    reload_ticks: int,
    aim: Point,
    agent: Point,
    max_range: int,
    heading: int,
    bearing: int,
    angular_uncertainty: int,
)
    requires
        reload_ticks > 0,
    ensures
        !ready_to_fire(reload_ticks, aim, agent, max_range, heading, bearing, angular_uncertainty),
{
}

} // verus!
