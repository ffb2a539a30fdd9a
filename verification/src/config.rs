//! The physical constants and thresholds of the agent.

use vstd::prelude::*;
use crate::numeric::LIMIT;

verus! {

/// How many times the agent's own acceleration a target may reach.
pub const TARGET_ACCELERATION_FACTOR: i64 = 10;

/// The constants of one agent, as the caller measured them.
#[derive(Clone, Copy, Debug, PartialEq, Eq)]
pub struct Settings {
    /// Speed of the projectile, in length units per time unit.
    pub projectile_speed: i64,
    /// Largest linear acceleration of the agent.
    pub max_acceleration: i64,
    /// Largest angular acceleration of the agent.
    pub max_angular_acceleration: i64,
    /// Length of one control tick, in time units.
    pub tick_length: i64,
    /// The time over which the acceleration bound of a target counts toward
    /// the position tolerance of a match: a detection may be off the
    /// extrapolated position by the bound times the time since the latest
    /// hit times this time.
    pub tolerance_time: i64,
    /// Largest range at which the weapon is effective.
    pub max_range: i64,
    /// Speed from which the agent is taken to close as fast as it can.
    pub cruise_speed: i64,
    /// Speed below which the agent no longer brakes.
    pub passing_speed: i64,
    /// Distance to the predicted target below which the sensor beam is widened.
    pub close_range: i64,
    /// Number of refinements of the firing solution.
    pub solver_depth: u32,
}

impl Settings {
    /// The projectile moves, a tick takes time, the agent can turn, and no
    /// constant is negative or beyond the coordinate limit.
    pub open spec fn acceptable(self) -> bool {
        &&& 1 <= self.projectile_speed <= LIMIT
        &&& 0 <= self.max_acceleration <= LIMIT
        &&& 1 <= self.max_angular_acceleration <= LIMIT
        &&& 1 <= self.tick_length <= LIMIT
        &&& 0 <= self.tolerance_time <= LIMIT
        &&& 0 <= self.max_range <= LIMIT
        &&& 0 <= self.cruise_speed <= LIMIT
        &&& 0 <= self.passing_speed <= LIMIT
        &&& 0 <= self.close_range <= LIMIT
    }

    /// Whether the settings are acceptable.
    pub fn is_acceptable(&self) -> (r: bool)
        ensures
            r == self.acceptable(),
    {
        let rates: bool = 1 <= self.projectile_speed && self.projectile_speed <= LIMIT
            && 0 <= self.max_acceleration && self.max_acceleration <= LIMIT
            && 1 <= self.max_angular_acceleration && self.max_angular_acceleration <= LIMIT;
        let times: bool = 1 <= self.tick_length && self.tick_length <= LIMIT
            && 0 <= self.tolerance_time && self.tolerance_time <= LIMIT;
        let thresholds: bool = 0 <= self.max_range && self.max_range <= LIMIT
            && 0 <= self.cruise_speed && self.cruise_speed <= LIMIT
            && 0 <= self.passing_speed && self.passing_speed <= LIMIT
            && 0 <= self.close_range && self.close_range <= LIMIT;
        rates && times && thresholds
    }
}

/// Settings that were found acceptable.
#[derive(Clone, Copy, Debug, PartialEq, Eq)]
pub struct Config {
    settings: Settings,
}

impl View for Config {
    type V = Settings;

    closed spec fn view(&self) -> Settings {
        self.settings
    }
}

impl Config {
    /// The settings are acceptable.
    #[verifier::type_invariant]
    pub open spec fn valid(self) -> bool {
        self@.acceptable()
    }

    /// The largest acceleration that a tracked target is granted.
    pub open spec fn target_acceleration(self) -> int {
        TARGET_ACCELERATION_FACTOR * self@.max_acceleration
    }

    /// Accepts the settings if they are acceptable.
    pub fn new(settings: Settings) -> (r: Option<Config>)
        ensures
            r is Some <==> settings.acceptable(),
            r matches Some(c) ==> c@ == settings,
    {
        if settings.is_acceptable() {
            Some(Config { settings })
        } else {
            None
        }
    }

    /// The settings that were accepted.
    pub fn settings(&self) -> (r: Settings)
        ensures
            r == self@,
            r.acceptable(),
    {
        proof {
            use_type_invariant(self);
        }
        self.settings
    }
}

} // verus!
