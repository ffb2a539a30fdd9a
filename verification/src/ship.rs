//! The agent: one tick of sensing, solving and commanding.
//!
//! A tick has two halves. `Ship::tick` takes in what the sensors report,
//! keeps the track, and plans. Where it plans to engage it hands out a firing
//! geometry; the caller measures the headings to the points of that geometry
//! and hands them to `Ship::engage`, which decides torque, fire and thrust.

use vstd::prelude::*;
use crate::numeric::{LIMIT, lemma_product_bound};
use crate::vector::{Point, Vector};
use crate::angle::{shortest_turn, angle_diff_offset};
use crate::config::{Config, Settings};
use crate::track::ScanHit;
use crate::search::{Mode, SearchMode, RadarCommand};
use crate::solver::{
    FiringGeometry, Bearings, TargetEstimate, Estimate, calc_future_target, solves, uncertainty,
};
use crate::attitude::{AttitudeCommand, steer, steering};
use crate::gate::{Dither, DitherState, weapon_ready, ready_to_fire};
use crate::intercept::{move_ship, coast, thrust, coasting};
use crate::kinematics::Motion;

verus! {

/// The largest number of ticks in a row that the agent skips.
pub const MAX_SKIPPED_TICKS: u64 = 5;

/// How far beyond the effective range a target has to be for a tick to be
/// skipped, in tenths of the range: thirteen tenths.
pub const SKIP_MARGIN_TENTHS: i64 = 13;

/// The weapon that the agent fires.
pub const WEAPON: usize = 0;

/// Whether `target` is further from `agent` than `SKIP_MARGIN_TENTHS` tenths
/// of `max_range`: whether ten times the distance exceeds thirteen times the
/// range, stated on the squares.
pub open spec fn beyond_skip_margin(target: Point, agent: Point, max_range: int) -> bool {
    10 * 10 * target.minus(agent).norm_sq() > (SKIP_MARGIN_TENTHS * SKIP_MARGIN_TENTHS) * (max_range
        * max_range)
}

/// What the agent reads of itself and of its surroundings in one tick.
#[derive(Clone, Copy, Debug, PartialEq, Eq)]
pub struct Sensors {
    /// The time of the tick.
    pub time: i64,
    /// Where the agent is.
    pub position: Vector,
    /// How fast the agent moves.
    pub velocity: Vector,
    /// The heading of the agent.
    pub heading: i64,
    /// A vector along the heading of the agent, of any length but zero.
    pub heading_direction: Vector,
    /// How fast the heading changes.
    pub angular_velocity: i64,
    /// Ticks until the weapon has reloaded; zero when it is ready.
    pub reload_ticks: u32,
    /// What the directional sensor detected, if anything.
    pub detection: Option<ScanHit>,
    /// What the telemetry channel reported of the target, if anything.
    pub message: Option<ScanHit>,
}

/// What the agent decides in the first half of a tick.
#[derive(Clone, Copy, Debug, PartialEq, Eq)]
pub enum TickPlan {
    /// The target is out of range and the agent at cruise speed: nothing
    /// else is decided this tick.
    Skip { radar: RadarCommand },
    /// There is no target: slow down.
    Coast { radar: RadarCommand, acceleration: Vector },
    /// There is a target: `geometry` is its firing geometry.
    Engage { radar: RadarCommand, geometry: FiringGeometry },
}

/// What the agent decides in the second half of a tick.
#[derive(Clone, Copy, Debug, PartialEq, Eq)]
pub struct Commands {
    /// What to ask of the body's rotation.
    pub attitude: AttitudeCommand,
    /// Whether to fire the weapon.
    pub fire: bool,
    /// The linear acceleration.
    pub acceleration: Vector,
}

/// What the agent holds from tick to tick.
pub struct ShipState {
    /// The constants of the agent.
    pub settings: Settings,
    /// The scan and search controller.
    pub mode: Mode,
    /// Whether the weapon was found ready in the latest engagement.
    pub is_weapon_ready: bool,
    /// The dither of the aim.
    pub dither: DitherState,
    /// Ticks skipped in a row.
    pub skipped: int,
}

impl ShipState {
    /// The mode after the sensors have been taken in: the detection goes
    /// through the scan and search controller, the telemetry report joins the
    /// track without matching.
    pub open spec fn sensed(self, sensors: Sensors) -> Mode {
        let scanned = self.mode.stepped(
            sensors.detection,
            sensors.time as int,
            sensors.position@,
            self.settings,
        );
        match sensors.message {
            Some(hit) => Mode::Track { track: scanned.reported(hit, self.settings) },
            None => scanned,
        }
    }

    /// Whether the tick is skipped: the latest hit of the track is beyond
    /// the skip margin, the agent moves at cruise speed or faster, and fewer
    /// than `MAX_SKIPPED_TICKS` ticks were skipped in a row.
    pub open spec fn skips(self, agent: Point, velocity: Point) -> bool {
        &&& self.mode matches Mode::Track { track }
        &&& beyond_skip_margin(track.latest().position@, agent, self.settings.max_range as int)
        &&& velocity.norm_sq() >= self.settings.cruise_speed * self.settings.cruise_speed
        &&& self.skipped < MAX_SKIPPED_TICKS
    }

    /// The heading error that the attitude controller works on: from the
    /// heading to the bearing of the aim point, moved by the dither.
    pub open spec fn heading_error(self, estimate: Estimate, heading: int) -> int {
        shortest_turn(heading, estimate.bearing + self.dither.offset(estimate.angular_uncertainty))
    }
}

/// The agent.
#[derive(Debug, PartialEq, Eq)]
pub struct Ship {
    config: Config,
    radar: SearchMode,
    is_weapon_ready: bool,
    dither: Dither,
    ticks_since_last_check: u64,
}

impl View for Ship {
    type V = ShipState;

    closed spec fn view(&self) -> ShipState {
        ShipState {
            settings: self.config@,
            mode: self.radar@,
            is_weapon_ready: self.is_weapon_ready,
            dither: self.dither@,
            skipped: self.ticks_since_last_check as int,
        }
    }
}

impl Ship {
    /// An agent that sweeps, with the weapon not ready and the dither at the
    /// centre.
    pub fn new(config: Config) -> (r: Ship)
        ensures
            r@ == (ShipState {
                settings: config@,
                mode: Mode::Sweep { heading: 0 },
                is_weapon_ready: false,
                dither: DitherState { phase: 0, rising: true },
                skipped: 0,
            }),
    {
        Ship {
            config,
            radar: SearchMode::new(),
            is_weapon_ready: false,
            dither: Dither::new(),
            ticks_since_last_check: 0,
        }
    }

    /// The constants of the agent.
    pub fn config(&self) -> (r: Config)
        ensures
            r@ == self@.settings,
    {
        self.config
    }

    /// Whether an object is tracked.
    pub fn has_target(&self) -> (r: bool)
        ensures
            r == (self@.mode is Track),
    {
        self.radar.is_tracking()
    }

    /// The scan and search controller as it stands.
    pub fn search_mode(&self) -> (r: &SearchMode)
        ensures
            r@ == self@.mode,
    {
        &self.radar
    }

    /// The dither of the aim as it stands.
    pub fn dither(&self) -> (r: Dither)
        ensures
            r@ == self@.dither,
    {
        self.dither
    }

    /// Whether the weapon was found ready in the latest engagement.
    pub fn is_weapon_ready(&self) -> (r: bool)
        ensures
            r == self@.is_weapon_ready,
    {
        self.is_weapon_ready
    }

    /// Ticks skipped in a row.
    pub fn ticks_since_last_check(&self) -> (r: u64)
        ensures
            r == self@.skipped,
    {
        self.ticks_since_last_check
    }

    /// Takes in a telemetry report of the target, if there is one: it opens
    /// a track where there is none and joins the track where there is one.
    pub fn radio(&mut self, message: Option<ScanHit>)
        ensures
            final(self)@ == (ShipState {
                mode: match message {
                    Some(hit) => Mode::Track {
                        track: old(self)@.mode.reported(hit, old(self)@.settings),
                    },
                    None => old(self)@.mode,
                },
                ..old(self)@
            }),
    {
        match message {
            Some(hit) => {
                self.radar.accept(hit, &self.config);
            },
            None => {},
        }
    }

    /// Takes in what the directional sensor detected, drops an expired track,
    /// and points the sensor.
    pub fn scan(
        &mut self,
        detection: Option<ScanHit>,
        now: i64,
        position: &Vector,
    ) -> (r: RadarCommand)
        ensures
            final(self)@ == (ShipState {
                mode: old(self)@.mode.stepped(
                    detection,
                    now as int,
                    position@,
                    old(self)@.settings,
                ),
                ..old(self)@
            }),
            final(self)@.mode.commands(r, now as int, position@, old(self)@.settings),
    {
        self.radar.scan(detection, now, position, &self.config)
    }

    /// Whether to skip the rest of the tick, counting the ticks skipped in a
    /// row.
    pub fn skip_tick(&mut self, position: &Vector, velocity: &Vector) -> (r: bool)
        ensures
            r == old(self)@.skips(position@, velocity@),
            final(self)@ == (ShipState {
                skipped: if r {
                    old(self)@.skipped + 1
                } else {
                    0
                },
                ..old(self)@
            }),
    {
        let settings = self.config.settings();
        let reach: i128 = settings.max_range as i128;
        let cruise: i128 = settings.cruise_speed as i128;
        proof {
            lemma_product_bound(reach as int, reach as int, LIMIT as int, LIMIT as int);
            lemma_product_bound(cruise as int, cruise as int, LIMIT as int, LIMIT as int);
            assert(reach * reach >= 0) by (nonlinear_arith);
            assert(cruise * cruise >= 0) by (nonlinear_arith);
            assert(LIMIT * LIMIT < i128::MAX) by (nonlinear_arith);
        }
        let tenths: u128 = (SKIP_MARGIN_TENTHS * SKIP_MARGIN_TENTHS) as u128;
        let margin: u128 = tenths * (reach * reach) as u128;
        let out_of_range: bool = match &self.radar {
            SearchMode::Track { target } => {
                100 * target.position().distance_squared(position) > margin
            },
            SearchMode::Sweep { .. } => false,
        };
        let should_skip: bool = out_of_range && self.ticks_since_last_check < MAX_SKIPPED_TICKS
            && velocity.length_squared() >= (cruise * cruise) as u128;
        if should_skip {
            self.ticks_since_last_check = self.ticks_since_last_check + 1;
        } else {
            self.ticks_since_last_check = 0;
        }
        should_skip
    }

    /// The firing geometry of the tracked object seen from `position`, if an
    /// object is tracked.
    pub fn calc_future_target(&self, position: &Vector) -> (r: Option<FiringGeometry>)
        ensures
            match r {
                Some(geometry) => self@.mode matches Mode::Track { track } && solves(
                    geometry,
                    track.course(false),
                    position@,
                    self@.settings,
                ),
                None => self@.mode is Sweep,
            },
    {
        match &self.radar {
            SearchMode::Track { target } => {
                let motion: Motion = target.motion(false);
                Some(calc_future_target(&motion, position, &self.config))
            },
            SearchMode::Sweep { .. } => None,
        }
    }

    /// Finds whether the weapon may fire at `estimate`, and keeps the answer.
    pub fn update_weapon_readiness(
        &mut self,
        estimate: &TargetEstimate,
        position: &Vector,
        heading: i64,
        reload_ticks: u32,
    )
        ensures
            final(self)@ == (ShipState {
                is_weapon_ready: ready_to_fire(
                    reload_ticks as int,
                    estimate@.aim_point,
                    position@,
                    old(self)@.settings.max_range as int,
                    heading as int,
                    estimate@.bearing,
                    estimate@.angular_uncertainty,
                ),
                ..old(self)@
            }),
            final(self)@.is_weapon_ready ==> reload_ticks == 0,
    {
        let ready: bool = weapon_ready(estimate, position, heading, reload_ticks, &self.config);
        self.is_weapon_ready = ready;
    }

    /// The offset of the aim within a firing cone of half-width `angle_error`;
    /// the dither moves one step on where the weapon is ready, and so fires
    /// this tick.
    pub fn get_fire_offset(&mut self, angle_error: i64) -> (r: i64)
        ensures
            r == old(self)@.dither.offset(angle_error as int),
            final(self)@ == (ShipState {
                dither: if old(self)@.is_weapon_ready {
                    old(self)@.dither.advanced()
                } else {
                    old(self)@.dither
                },
                ..old(self)@
            }),
    {
        let offset: i64 = self.dither.offset(angle_error);
        if self.is_weapon_ready {
            self.dither.advance();
        }
        offset
    }

    /// Decides the torque that turns the agent onto the dithered aim.
    pub fn turn(
        &mut self,
        estimate: &TargetEstimate,
        heading: i64,
        angular_velocity: i64,
    ) -> (r: AttitudeCommand)
        ensures
            r == steering(
                old(self)@.heading_error(estimate@, heading as int),
                angular_velocity as int,
                old(self)@.settings.max_angular_acceleration as int,
                old(self)@.settings.tick_length as int,
            ),
            final(self)@ == (ShipState {
                dither: if old(self)@.is_weapon_ready {
                    old(self)@.dither.advanced()
                } else {
                    old(self)@.dither
                },
                ..old(self)@
            }),
    {
        let jitter: i64 = self.get_fire_offset(estimate.angular_uncertainty());
        let diff: i64 = angle_diff_offset(heading, estimate.bearing(), jitter);
        steer(diff, angular_velocity, &self.config)
    }

    /// Whether to fire: whether the weapon was found ready.
    pub fn fire(&self) -> (r: bool)
        ensures
            r == self@.is_weapon_ready,
    {
        self.is_weapon_ready
    }

    /// The linear acceleration that takes the agent to the aim point.
    pub fn move_ship(
        &self,
        estimate: &TargetEstimate,
        position: &Vector,
        velocity: &Vector,
        heading_direction: &Vector,
    ) -> (r: Vector)
        ensures
            r@ == thrust(
                estimate@.aim_point,
                position@,
                velocity@,
                heading_direction@,
                self@.settings.max_acceleration as int,
                self@.settings.passing_speed as int,
            ),
    {
        let aim: Vector = estimate.aim_point();
        move_ship(&aim, position, velocity, heading_direction, &self.config)
    }

    /// The first half of a tick: takes in the sensors, keeps the track, and
    /// plans. Without a track the agent coasts; with one it engages, unless
    /// the tick is skipped.
    pub fn tick(&mut self, sensors: &Sensors) -> (r: TickPlan)
        ensures
            final(self)@.settings == old(self)@.settings,
            final(self)@.mode == old(self)@.sensed(*sensors),
            final(self)@.is_weapon_ready == old(self)@.is_weapon_ready,
            final(self)@.dither == old(self)@.dither,
            planned(old(self)@, *sensors, final(self)@, r),
    {
        let radar: RadarCommand = self.scan(sensors.detection, sensors.time, &sensors.position);
        self.radio(sensors.message);
        if self.skip_tick(&sensors.position, &sensors.velocity) {
            TickPlan::Skip { radar }
        } else {
            match self.calc_future_target(&sensors.position) {
                Some(geometry) => TickPlan::Engage { radar, geometry },
                None => {
                    let acceleration: Vector = coast(&sensors.velocity, &self.config);
                    TickPlan::Coast { radar, acceleration }
                },
            }
        }
    }

    /// The second half of a tick: from the firing geometry and the headings
    /// to its points, decides torque, fire and thrust.
    pub fn engage(
        &mut self,
        sensors: &Sensors,
        geometry: &FiringGeometry,
        bearings: &Bearings,
    ) -> (r: (TargetEstimate, Commands))
        ensures
            r.0@ == estimated(*geometry, *bearings, sensors.time as int),
            final(self)@ == (ShipState {
                is_weapon_ready: r.1.fire,
                dither: if r.1.fire {
                    old(self)@.dither.advanced()
                } else {
                    old(self)@.dither
                },
                ..old(self)@
            }),
            r.1.fire == ready_to_fire(
                sensors.reload_ticks as int,
                geometry.aim_point@,
                sensors.position@,
                old(self)@.settings.max_range as int,
                sensors.heading as int,
                bearings.aim as int,
                uncertainty(*bearings),
            ),
            r.1.fire ==> sensors.reload_ticks == 0,
            r.1.attitude == steering(
                old(self)@.heading_error(r.0@, sensors.heading as int),
                sensors.angular_velocity as int,
                old(self)@.settings.max_angular_acceleration as int,
                old(self)@.settings.tick_length as int,
            ),
            r.1.acceleration@ == thrust(
                geometry.aim_point@,
                sensors.position@,
                sensors.velocity@,
                sensors.heading_direction@,
                old(self)@.settings.max_acceleration as int,
                old(self)@.settings.passing_speed as int,
            ),
    {
        let estimate: TargetEstimate = TargetEstimate::new(geometry, bearings, sensors.time);
        self.update_weapon_readiness(
            &estimate,
            &sensors.position,
            sensors.heading,
            sensors.reload_ticks,
        );
        let spin: i64 = sensors.angular_velocity;
        let attitude: AttitudeCommand = self.turn(&estimate, sensors.heading, spin);
        let fire: bool = self.fire();
        let acceleration: Vector = self.move_ship(
            &estimate,
            &sensors.position,
            &sensors.velocity,
            &sensors.heading_direction,
        );
        (estimate, Commands { attitude, fire, acceleration })
    }
}

/// What a firing solution made at `now` from `geometry` and `bearings` says.
pub open spec fn estimated(geometry: FiringGeometry, bearings: Bearings, now: int) -> Estimate {
    Estimate {
        aim_point: geometry.aim_point@,
        bearing: bearings.aim as int,
        solve_time: now,
        flight_time: geometry.flight_time as int,
        angular_uncertainty: uncertainty(bearings),
    }
}

/// Whether `plan` is what the agent plans in a tick that takes it from
/// `before` to `after`.
pub open spec fn planned(
    before: ShipState,
    sensors: Sensors,
    after: ShipState,
    plan: TickPlan,
) -> bool {
    let sensed = ShipState { mode: before.sensed(sensors), ..before };
    let skip = sensed.skips(sensors.position@, sensors.velocity@);
    let scanned = before.mode.stepped(
        sensors.detection,
        sensors.time as int,
        sensors.position@,
        before.settings,
    );
    &&& after.skipped == if skip { before.skipped + 1 } else { 0 }
    &&& match plan {
        TickPlan::Skip { radar } => {
            &&& skip
            &&& scanned.commands(radar, sensors.time as int, sensors.position@, before.settings)
        },
        TickPlan::Coast { radar, acceleration } => {
            &&& !skip
            &&& sensed.mode is Sweep
            &&& scanned.commands(radar, sensors.time as int, sensors.position@, before.settings)
            &&& acceleration@ == coasting(sensors.velocity@, before.settings.tick_length as int)
        },
        TickPlan::Engage { radar, geometry } => {
            &&& !skip
            &&& sensed.mode matches Mode::Track { track }
            &&& scanned.commands(radar, sensors.time as int, sensors.position@, before.settings)
            &&& solves(geometry, track.course(false), sensors.position@, before.settings)
        },
    }
}

/// Once `MAX_SKIPPED_TICKS` ticks have been skipped in a row, the next tick
/// is not skipped: the agent takes up its full work again.
pub proof fn lemma_skips_are_bounded(state: ShipState, agent: Point, velocity: Point)
    requires
        state.skipped >= MAX_SKIPPED_TICKS,
    ensures
        !state.skips(agent, velocity),
{
}

/// An agent without a track never skips a tick, and while it is given no
/// detection and no report it keeps sweeping.
pub proof fn lemma_sweeping_agent_keeps_sweeping(state: ShipState, sensors: Sensors)
    requires
        state.mode is Sweep,
        sensors.detection is None,
        sensors.message is None,
    ensures
        state.sensed(sensors) is Sweep,
        !(ShipState { mode: state.sensed(sensors), ..state }).skips(
            sensors.position@,
            sensors.velocity@,
        ),
{
}

} // verus!
