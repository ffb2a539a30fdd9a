//! The scan and search controller: sweep the sensor while nothing is
//! tracked, follow the track while there is one.

use vstd::prelude::*;
use crate::numeric::{LIMIT, lemma_product_bound};
use crate::vector::{Point, Vector};
use crate::angle::{FULL_TURN, wrapped, turned_heading};
use crate::config::{Config, Settings, TARGET_ACCELERATION_FACTOR};
use crate::track::{ScanHit, Track, Target, EXPIRY_TICKS};

verus! {

/// The angle by which the sensor heading advances each tick of a sweep.
pub const SWEEP_STEP: i64 = 10_000_000;

/// The beam width of a sweep: wide, to find a target.
pub const SWEEP_WIDTH: i64 = 30_000_000;

/// The beam width on a track: narrow, to resolve a distant target.
pub const TRACK_WIDTH: i64 = 10_000_000;

/// The beam width on a track that is about to pass close by.
pub const CLOSE_WIDTH: i64 = 120_000_000;

/// Where the sensor is to look next.
#[derive(Clone, Copy, Debug, PartialEq, Eq)]
pub enum RadarCommand {
    /// Look along `heading` with a beam `width` wide.
    Sweep { heading: i64, width: i64 },
    /// Look at `point` with a beam `width` wide.
    Follow { point: Vector, width: i64 },
}

/// What the controller holds: the heading of a sweep, or a track.
pub enum Mode {
    /// Nothing is tracked; the sensor looked along `heading` last.
    Sweep { heading: int },
    /// One object is tracked.
    Track { track: Track },
}

/// Whether `a` is strictly nearer to `agent` than `b` is.
pub open spec fn nearer(a: Point, b: Point, agent: Point) -> bool {
    a.minus(agent).norm_sq() < b.minus(agent).norm_sq()
}

/// The beam width for a track predicted at `point`, seen from `agent`.
pub open spec fn beam_width(point: Point, agent: Point, close_range: int) -> int {
    if point.minus(agent).norm_sq() < close_range * close_range {
        CLOSE_WIDTH as int
    } else {
        TRACK_WIDTH as int
    }
}

impl Mode {
    /// Every hit of the track, if there is one, is valid.
    pub open spec fn valid(self) -> bool {
        self matches Mode::Track { track } ==> track.valid()
    }

    /// The mode after a detection, or after none. A sweep that detects opens
    /// a track. A track takes a detection that matches; one that does not
    /// match replaces the track if it is strictly nearer to the agent than
    /// the latest hit, and is dropped otherwise.
    pub open spec fn detected(
        self,
        detection: Option<ScanHit>,
        agent: Point,
        settings: Settings,
    ) -> Mode {
        let window = EXPIRY_TICKS * settings.tick_length;
        let bound = TARGET_ACCELERATION_FACTOR * settings.max_acceleration;
        let slack = settings.tolerance_time as int;
        match detection {
            None => self,
            Some(hit) => match self {
                Mode::Sweep { .. } => Mode::Track { track: Track::opened(hit, window) },
                Mode::Track { track } => if track.plausible(hit, bound, slack) {
                    Mode::Track { track: track.with_hit(hit) }
                } else if nearer(hit.position@, track.latest().position@, agent) {
                    Mode::Track { track: Track::opened(hit, window) }
                } else {
                    self
                },
            },
        }
    }

    /// The mode once an expired track is dropped: the sweep starts anew.
    pub open spec fn pruned(self, now: int) -> Mode {
        match self {
            Mode::Track { track } => if track.expired_at(now) {
                Mode::Sweep { heading: 0 }
            } else {
                self
            },
            Mode::Sweep { .. } => self,
        }
    }

    /// The mode once a sweep has advanced by one step.
    pub open spec fn swept(self) -> Mode {
        match self {
            Mode::Sweep { heading } => Mode::Sweep { heading: wrapped(heading + SWEEP_STEP) },
            Mode::Track { .. } => self,
        }
    }

    /// The mode after one tick.
    pub open spec fn stepped(
        self,
        detection: Option<ScanHit>,
        now: int,
        agent: Point,
        settings: Settings,
    ) -> Mode {
        self.detected(detection, agent, settings).pruned(now).swept()
    }

    /// Whether `command` is what this mode asks of the sensor at time `now`:
    /// a sweep looks along its heading, a track at the position predicted
    /// one tick ahead.
    pub open spec fn commands(
        self,
        command: RadarCommand,
        now: int,
        agent: Point,
        settings: Settings,
    ) -> bool {
        match self {
            Mode::Sweep { heading } => command == (RadarCommand::Sweep {
                heading: heading as i64,
                width: SWEEP_WIDTH,
            }),
            Mode::Track { track } => {
                &&& command matches RadarCommand::Follow { point, width }
                &&& point@ == track.predicted(now + settings.tick_length, false)
                &&& width == beam_width(point@, agent, settings.close_range as int)
            },
        }
    }
}

/// The scan and search controller.
#[derive(Debug, PartialEq, Eq)]
pub enum SearchMode {
    /// Nothing is tracked; the sensor looked along `heading` last.
    Sweep { heading: i64 },
    /// One object is tracked.
    Track { target: Target },
}

impl View for SearchMode {
    type V = Mode;

    open spec fn view(&self) -> Mode {
        match *self {
            SearchMode::Sweep { heading } => Mode::Sweep { heading: heading as int },
            SearchMode::Track { target } => Mode::Track { track: target@ },
        }
    }
}

impl SearchMode {
    /// A controller that starts to sweep.
    pub fn new() -> (r: SearchMode)
        ensures
            r@ == (Mode::Sweep { heading: 0 }),
    {
        SearchMode::Sweep { heading: 0 }
    }

    /// Whether an object is tracked.
    pub fn is_tracking(&self) -> (r: bool)
        ensures
            r == (self@ is Track),
    {
        match self {
            SearchMode::Sweep { .. } => false,
            SearchMode::Track { .. } => true,
        }
    }

    /// Takes in a detection, as `Mode::detected` says.
    pub fn detect(&mut self, detection: Option<ScanHit>, agent: &Vector, config: &Config)
        ensures
            final(self)@ == old(self)@.detected(detection, agent@, config@),
    {
        let hit: ScanHit = match detection {
            Some(hit) => hit,
            None => {
                return ;
            },
        };
        let open: bool = match self {
            SearchMode::Sweep { .. } => true,
            SearchMode::Track { target } => {
                if target.match_last_seen(&hit, config) {
                    target.add_scan(hit);
                    false
                } else {
                    hit.position.distance_squared(agent) < target.position().distance_squared(agent)
                }
            },
        };
        if open {
            *self = SearchMode::Track { target: Target::new(hit, config) };
        }
    }

    /// Takes in a report of the tracked object that needs no matching: it
    /// opens a track where there is none, and joins the track where there is
    /// one.
    pub fn accept(&mut self, hit: ScanHit, config: &Config)
        ensures
            final(self)@ == (Mode::Track { track: old(self)@.reported(hit, config@) }),
    {
        match self {
            SearchMode::Sweep { .. } => {
                *self = SearchMode::Track { target: Target::new(hit, config) };
            },
            SearchMode::Track { target } => {
                target.add_scan(hit);
            },
        }
    }

    /// Drops an expired track, as `Mode::pruned` says.
    pub fn prune(&mut self, now: i64)
        ensures
            final(self)@ == old(self)@.pruned(now as int),
    {
        let expired: bool = match self {
            SearchMode::Sweep { .. } => false,
            SearchMode::Track { target } => target.has_expired(now),
        };
        if expired {
            *self = SearchMode::Sweep { heading: 0 };
        }
    }

    /// Advances a sweep and points the sensor: a sweep looks one step on, a
    /// track is followed to where it is predicted one tick ahead.
    pub fn point(&mut self, now: i64, agent: &Vector, config: &Config) -> (r: RadarCommand)
        ensures
            final(self)@ == old(self)@.swept(),
            final(self)@.commands(r, now as int, agent@, config@),
    {
        match self {
            SearchMode::Sweep { heading } => {
                let next: i64 = turned_heading(*heading, SWEEP_STEP);
                *heading = next;
                RadarCommand::Sweep { heading: next, width: SWEEP_WIDTH }
            },
            SearchMode::Track { target } => {
                let settings = config.settings();
                let since: i128 = now as i128 - target.last_seen() as i128;
                let ahead: i128 = since + settings.tick_length as i128;
                let point: Vector = target.position_in(ahead, false);
                let close: i128 = settings.close_range as i128;
                proof {
                    lemma_product_bound(close as int, close as int, LIMIT as int, LIMIT as int);
                    assert(close * close >= 0) by (nonlinear_arith);
                    assert(LIMIT * LIMIT < i128::MAX) by (nonlinear_arith);
                }
                let width: i64 = if point.distance_squared(agent) < (close * close) as u128 {
                    CLOSE_WIDTH
                } else {
                    TRACK_WIDTH
                };
                RadarCommand::Follow { point, width }
            },
        }
    }

    /// One tick of the controller: takes in the detection, drops an expired
    /// track, and points the sensor.
    pub fn scan(
        &mut self,
        detection: Option<ScanHit>,
        now: i64,
        agent: &Vector,
        config: &Config,
    ) -> (r: RadarCommand)
        ensures
            final(self)@ == old(self)@.stepped(detection, now as int, agent@, config@),
            final(self)@.commands(r, now as int, agent@, config@),
    {
        self.detect(detection, agent, config);
        self.prune(now);
        self.point(now, agent, config)
    }
}

impl Mode {
    /// The track after a report that needs no matching.
    pub open spec fn reported(self, hit: ScanHit, settings: Settings) -> Track {
        match self {
            Mode::Sweep { .. } => Track::opened(hit, EXPIRY_TICKS * settings.tick_length),
            Mode::Track { track } => track.with_hit(hit),
        }
    }

    /// The mode after `n` ticks without a detection at the times `now(i)`.
    pub open spec fn quiet(
        self,
        n: nat,
        now: spec_fn(nat) -> int,
        agent: Point,
        settings: Settings,
    ) -> Mode
        decreases n,
    {
        if n == 0 {
            self
        } else {
            self.quiet((n - 1) as nat, now, agent, settings).stepped(
                None,
                now((n - 1) as nat),
                agent,
                settings,
            )
        }
    }
}

/// Without a detection a sweep stays a sweep, and its command is a sweep.
pub proof fn lemma_sweep_without_detection(
    mode: Mode,
    now: int,
    agent: Point,
    settings: Settings,
    command: RadarCommand,
)
    requires
        mode is Sweep,
    ensures
        mode.stepped(None, now, agent, settings) is Sweep,
        mode.stepped(None, now, agent, settings).commands(command, now, agent, settings)
            ==> command is Sweep,
{
}

/// However many ticks pass without a detection, a sweep stays a sweep: after
/// `n` ticks it looks `n` steps further on.
pub proof fn lemma_quiet_sweep(
    heading: int,
    n: nat,
    now: spec_fn(nat) -> int,
    agent: Point,
    settings: Settings,
)
    ensures
        (Mode::Sweep { heading }).quiet(n, now, agent, settings) == if n == 0 {
            Mode::Sweep { heading }
        } else {
            Mode::Sweep { heading: wrapped(heading + n * SWEEP_STEP) }
        },
    decreases n,
{
    let start = Mode::Sweep { heading };
    if n == 1 {
        assert(start.quiet(0, now, agent, settings) == start);
    } else if n > 1 {
        lemma_quiet_sweep(heading, (n - 1) as nat, now, agent, settings);
        let before = heading + (n - 1) * SWEEP_STEP;
        vstd::arithmetic::div_mod::lemma_add_mod_noop(before, SWEEP_STEP as int, FULL_TURN as int);
        vstd::arithmetic::div_mod::lemma_small_mod(SWEEP_STEP as nat, FULL_TURN as nat);
        vstd::arithmetic::div_mod::lemma_mod_twice(before, FULL_TURN as int);
        vstd::arithmetic::div_mod::lemma_add_mod_noop(
            wrapped(before),
            SWEEP_STEP as int,
            FULL_TURN as int,
        );
        assert(before + SWEEP_STEP == heading + n * SWEEP_STEP) by (nonlinear_arith)
            requires
                before == heading + (n - 1) * SWEEP_STEP,
        ;
    }
}

/// A track that has not expired is kept through a tick without a detection.
pub proof fn lemma_track_survives_quiet_tick(
    track: Track,
    now: int,
    agent: Point,
    settings: Settings,
)
    requires
        !track.expired_at(now),
    ensures
        (Mode::Track { track }).stepped(None, now, agent, settings) == (Mode::Track { track }),
{
}

/// A track that has expired is dropped, and the sweep starts anew.
pub proof fn lemma_expired_track_is_dropped(
    mode: Mode,
    detection: Option<ScanHit>,
    now: int,
    agent: Point,
    settings: Settings,
)
    requires
        mode.detected(detection, agent, settings) matches Mode::Track { track } && track.expired_at(
            now,
        ),
    ensures
        mode.stepped(detection, now, agent, settings) == (Mode::Sweep {
            heading: wrapped(SWEEP_STEP as int),
        }),
{
}

} // verus!
