//! The target track: the history of the sensor hits of one object, the
//! motion estimated from its two latest hits, and the rule by which a new
//! detection joins the track.

use vstd::prelude::*;
use crate::numeric::{LIMIT, in_range, clamp, saturate, floor_div, lemma_product_bound};
use crate::vector::{Point, Vector};
use crate::kinematics::{Motion, Course};
use crate::config::{Config, TARGET_ACCELERATION_FACTOR};

verus! {

/// Number of ticks that a track outlives its latest hit: one full sweep of
/// the sensor in thirty-six steps, and four ticks of margin.
pub const EXPIRY_TICKS: i64 = 40;

/// One sensor return: where the object was, how it moved, and when.
#[derive(Clone, Copy, Debug, PartialEq, Eq)]
pub struct ScanHit {
    /// Position of the object.
    pub position: Vector,
    /// Velocity of the object.
    pub velocity: Vector,
    /// Time of the detection.
    pub time: i64,
}

impl ScanHit {
    /// Position and velocity lie within the coordinate limit.
    pub open spec fn valid(self) -> bool {
        self.position.valid() && self.velocity.valid()
    }

    /// The acceleration between an earlier hit and this one: the difference
    /// of the velocities over the time between the hits, rounded down and
    /// saturated; zero where no time has passed.
    pub open spec fn acceleration_since(self, earlier: ScanHit) -> Point {
        let gap = self.time - earlier.time;
        if gap <= 0 {
            Point { x: 0, y: 0 }
        } else {
            Point {
                x: clamp((self.velocity@.x - earlier.velocity@.x) / gap),
                y: clamp((self.velocity@.y - earlier.velocity@.y) / gap),
            }
        }
    }

    /// A hit at `position`, moving at `velocity`, detected at `time`.
    pub fn new(position: Vector, velocity: Vector, time: i64) -> (r: ScanHit)
        ensures
            r == (ScanHit { position, velocity, time }),
    {
        ScanHit { position, velocity, time }
    }

    /// The acceleration between an earlier hit and this one.
    pub fn acceleration(&self, earlier: &ScanHit) -> (r: Vector)
        ensures
            r@ == self.acceleration_since(*earlier),
    {
        let gap: i128 = self.time as i128 - earlier.time as i128;
        if gap <= 0 {
            Vector::zero()
        } else {
            let dx: i128 = self.velocity.x() as i128 - earlier.velocity.x() as i128;
            let dy: i128 = self.velocity.y() as i128 - earlier.velocity.y() as i128;
            let ax: i64 = saturate(floor_div(dx, gap));
            let ay: i64 = saturate(floor_div(dy, gap));
            Vector::new(ax, ay)
        }
    }
}

/// What a track holds: every hit of the object, oldest first, and the expiry
/// window.
pub struct Track {
    /// The hits, oldest first.
    pub history: Seq<ScanHit>,
    /// The time after the latest hit at which the track expires.
    pub expire_after: int,
}

impl Track {
    /// The history is not empty, and every hit of it is valid.
    pub open spec fn valid(self) -> bool {
        &&& self.history.len() >= 1
        &&& forall|i: int| 0 <= i < self.history.len() ==> (#[trigger] self.history[i]).valid()
    }

    /// The track that a first hit opens.
    pub open spec fn opened(hit: ScanHit, expire_after: int) -> Track {
        Track { history: seq![hit], expire_after }
    }

    /// The track after `hit` has joined it: the history is the old one
    /// followed by `hit`.
    pub open spec fn with_hit(self, hit: ScanHit) -> Track {
        Track { history: self.history.push(hit), expire_after: self.expire_after }
    }

    /// The latest hit.
    pub open spec fn latest(self) -> ScanHit {
        self.history.last()
    }

    /// The hit before the latest, once there is one.
    pub open spec fn previous(self) -> Option<ScanHit> {
        if self.history.len() >= 2 {
            Some(self.history[self.history.len() - 2])
        } else {
            None
        }
    }

    /// The time of the latest hit.
    pub open spec fn last_seen(self) -> int {
        self.latest().time as int
    }

    /// The acceleration estimated from the two latest hits; zero while the
    /// track has a single hit.
    pub open spec fn estimated_acceleration(self) -> Point {
        match self.previous() {
            Some(earlier) => self.latest().acceleration_since(earlier),
            None => Point { x: 0, y: 0 },
        }
    }

    /// The acceleration that a prediction assumes.
    pub open spec fn assumed_acceleration(self, ignore_acceleration: bool) -> Point {
        if ignore_acceleration {
            Point { x: 0, y: 0 }
        } else {
            self.estimated_acceleration()
        }
    }

    /// The motion of the object at its latest hit.
    pub open spec fn course(self, ignore_acceleration: bool) -> Course {
        Course {
            position: self.latest().position@,
            velocity: self.latest().velocity@,
            acceleration: self.assumed_acceleration(ignore_acceleration),
        }
    }

    /// The position predicted for time `t` from the latest hit:
    /// `p + v·dt + a·dt²/2` with `dt` the time since that hit.
    pub open spec fn predicted(self, t: int, ignore_acceleration: bool) -> Point {
        self.course(ignore_acceleration).position_in(t - self.latest().time)
    }

    /// Whether `candidate` can be the tracked object, for a target that
    /// accelerates by at most `bound`: time has passed since the latest hit,
    /// the change of velocity over that time is within `bound`, and the
    /// position is off the position extrapolated at constant velocity by no
    /// more than `bound` times that time, taken over `tolerance_time`.
    pub open spec fn plausible(self, candidate: ScanHit, bound: int, tolerance_time: int) -> bool {
        let dt = candidate.time - self.latest().time;
        let reach = bound * dt;
        let tolerance = reach * tolerance_time;
        &&& dt > 0
        &&& candidate.velocity@.minus(self.latest().velocity@).norm_sq() <= reach * reach
        &&& candidate.position@.minus(self.predicted(candidate.time as int, true)).norm_sq()
            <= tolerance * tolerance
    }

    /// Whether the track has expired at time `now`.
    pub open spec fn expired_at(self, now: int) -> bool {
        now - self.last_seen() >= self.expire_after
    }
}

/// The track of one object.
#[derive(Debug, PartialEq, Eq)]
pub struct Target {
    hits: Vec<ScanHit>,
    expire_after: i64,
}

impl View for Target {
    type V = Track;

    closed spec fn view(&self) -> Track {
        Track { history: self.hits@, expire_after: self.expire_after as int }
    }
}

impl Target {
    /// The history is not empty, and every hit of it is valid.
    #[verifier::type_invariant]
    pub open spec fn valid(self) -> bool {
        self@.valid()
    }

    /// A track of the single hit `hit` that expires `expire_after` time units
    /// after its latest hit.
    pub fn with_expiry(hit: ScanHit, expire_after: i64) -> (r: Target)
        ensures
            r@ == Track::opened(hit, expire_after as int),
    {
        proof {
            use_type_invariant(&hit.position);
            use_type_invariant(&hit.velocity);
        }
        let mut hits: Vec<ScanHit> = Vec::new();
        hits.push(hit);
        assert(hits@ =~= seq![hit]);
        Target { hits, expire_after }
    }

    /// A track of the single hit `hit` that outlives its latest hit by
    /// `EXPIRY_TICKS` ticks.
    pub fn new(hit: ScanHit, config: &Config) -> (r: Target)
        ensures
            r@ == Track::opened(hit, EXPIRY_TICKS * config@.tick_length),
    {
        let tick: i64 = config.settings().tick_length;
        Target::with_expiry(hit, EXPIRY_TICKS * tick)
    }

    /// The number of hits in the history.
    pub fn len(&self) -> (r: usize)
        ensures
            r == self@.history.len(),
            r >= 1,
    {
        proof {
            use_type_invariant(self);
        }
        self.hits.len()
    }

    /// The hit at place `index` of the history, oldest first, if there is one.
    pub fn hit(&self, index: usize) -> (r: Option<ScanHit>)
        ensures
            r == if index < self@.history.len() {
                Some(self@.history[index as int])
            } else {
                None
            },
    {
        if index < self.hits.len() {
            Some(self.hits[index])
        } else {
            None
        }
    }

    /// The latest hit.
    pub fn last_hit(&self) -> (r: ScanHit)
        ensures
            r == self@.latest(),
            r.valid(),
    {
        proof {
            use_type_invariant(self);
        }
        self.hits[self.hits.len() - 1]
    }

    /// The hit before the latest, once there is one.
    pub fn previous_hit(&self) -> (r: Option<ScanHit>)
        ensures
            r == self@.previous(),
    {
        let n: usize = self.hits.len();
        if n >= 2 {
            Some(self.hits[n - 2])
        } else {
            None
        }
    }

    /// The time after the latest hit at which the track expires.
    pub fn expiry_window(&self) -> (r: i64)
        ensures
            r == self@.expire_after,
    {
        self.expire_after
    }

    /// The time of the latest hit.
    pub fn last_seen(&self) -> (r: i64)
        ensures
            r == self@.last_seen(),
    {
        self.last_hit().time
    }

    /// The position of the latest hit.
    pub fn position(&self) -> (r: Vector)
        ensures
            r == self@.latest().position,
    {
        self.last_hit().position
    }

    /// The velocity of the latest hit.
    pub fn velocity(&self) -> (r: Vector)
        ensures
            r == self@.latest().velocity,
    {
        self.last_hit().velocity
    }

    /// The acceleration estimated from the two latest hits.
    pub fn acceleration(&self) -> (r: Vector)
        ensures
            r@ == self@.estimated_acceleration(),
    {
        let latest: ScanHit = self.last_hit();
        match self.previous_hit() {
            Some(earlier) => latest.acceleration(&earlier),
            None => Vector::zero(),
        }
    }

    /// The motion of the object at its latest hit; the acceleration is left
    /// out of it where `ignore_acceleration` is set.
    pub fn motion(&self, ignore_acceleration: bool) -> (r: Motion)
        ensures
            r@ == self@.course(ignore_acceleration),
            r.position == self@.latest().position,
            r.velocity == self@.latest().velocity,
    {
        let acceleration: Vector = if ignore_acceleration {
            Vector::zero()
        } else {
            self.acceleration()
        };
        let latest: ScanHit = self.last_hit();
        Motion { position: latest.position, velocity: latest.velocity, acceleration }
    }

    /// The position predicted for the time `dt` time units after the latest
    /// hit.
    pub fn position_in(&self, dt: i128, ignore_acceleration: bool) -> (r: Vector)
        ensures
            r@ == self@.predicted(self@.latest().time + dt, ignore_acceleration),
    {
        self.motion(ignore_acceleration).future_position(dt)
    }

    /// The position predicted for time `t`: `p + v·dt + a·dt²/2` from the
    /// latest hit, with `dt` the time since that hit, which may be negative.
    pub fn future_position(&self, t: i64, ignore_acceleration: bool) -> (r: Vector)
        ensures
            r@ == self@.predicted(t as int, ignore_acceleration),
    {
        self.position_in(t as i128 - self.last_seen() as i128, ignore_acceleration)
    }

    /// Takes `hit` into the track: the history grows by `hit`, which becomes
    /// the latest hit, and no earlier hit changes.
    pub fn add_scan(&mut self, hit: ScanHit)
        ensures
            final(self)@ == old(self)@.with_hit(hit),
            final(self)@.history == old(self)@.history.push(hit),
            final(self)@.expire_after == old(self)@.expire_after,
    {
        proof {
            use_type_invariant(&*self);
            use_type_invariant(&hit.position);
            use_type_invariant(&hit.velocity);
        }
        // A track is never without a hit: a track of `hit` alone stands in
        // while the history is out and grows.
        let mut grown: Target = Target::with_expiry(hit, self.expire_after);
        core::mem::swap(self, &mut grown);
        let Target { hits, expire_after } = grown;
        let mut hits: Vec<ScanHit> = hits;
        hits.push(hit);
        *self = Target { hits, expire_after };
    }

    /// Whether the track has expired at time `now`: whether at least
    /// `expire_after` time units have passed since the latest hit.
    pub fn has_expired(&self, now: i64) -> (r: bool)
        ensures
            r == self@.expired_at(now as int),
    {
        now as i128 - self.last_seen() as i128 >= self.expire_after as i128
    }

    /// Whether `candidate` can be the tracked object.
    pub fn match_last_seen(&self, candidate: &ScanHit, config: &Config) -> (r: bool)
        ensures
            r == self@.plausible(
                *candidate,
                config.target_acceleration(),
                config@.tolerance_time as int,
            ),
    {
        let settings = config.settings();
        let latest: ScanHit = self.last_hit();
        let dt: i128 = candidate.time as i128 - latest.time as i128;
        if dt <= 0 {
            return false;
        }
        let own: i128 = settings.max_acceleration as i128;
        proof {
            assert(0 <= TARGET_ACCELERATION_FACTOR * own <= 10 * LIMIT) by (nonlinear_arith)
                requires
                    0 <= own <= LIMIT,
            ;
        }
        let bound: i128 = TARGET_ACCELERATION_FACTOR as i128 * own;
        proof {
            lemma_product_bound(bound as int, dt as int, 10 * LIMIT, 0x1_0000_0000_0000_0000int);
            assert(10 * LIMIT * 0x1_0000_0000_0000_0000int < i128::MAX) by (nonlinear_arith);
            assert(bound * dt >= 0) by (nonlinear_arith)
                requires
                    bound >= 0,
                    dt > 0,
            ;
        }
        let reach: i128 = bound * dt;
        let predicted: Vector = self.future_position(candidate.time, true);
        let dv2: u128 = candidate.velocity.distance_squared(&latest.velocity);
        let dp2: u128 = candidate.position.distance_squared(&predicted);
        within_reach(dv2, reach, 1) && within_reach(dp2, reach, settings.tolerance_time as i128)
    }
}

/// Whether the squared distance `squared` is at most the square of
/// `reach * factor`.
fn within_reach(squared: u128, reach: i128, factor: i128) -> (r: bool)
    requires
        squared <= 8 * LIMIT * LIMIT,
        0 <= reach <= 10 * LIMIT * 0x1_0000_0000_0000_0000int,
        0 <= factor <= LIMIT,
    ensures
        r == (squared <= (reach * factor) * (reach * factor)),
{
    let wide: i128 = 3 * LIMIT as i128;
    if factor == 0 {
        assert(reach * factor == 0) by (nonlinear_arith)
            requires
                factor == 0,
        ;
        return squared == 0;
    }
    if reach >= wide {
        proof {
            let far = reach * factor;
            assert(far >= 3 * LIMIT) by (nonlinear_arith)
                requires
                    far == reach * factor,
                    reach >= 3 * LIMIT,
                    factor >= 1,
            ;
            assert(far * far >= 8 * LIMIT * LIMIT) by (nonlinear_arith)
                requires
                    far >= 3 * LIMIT,
            ;
        }
        return true;
    }
    proof {
        lemma_product_bound(reach as int, factor as int, 3 * LIMIT, LIMIT as int);
        assert(3 * LIMIT * LIMIT < i128::MAX) by (nonlinear_arith);
        assert(reach * factor >= 0) by (nonlinear_arith)
            requires
                reach >= 0,
                factor >= 0,
        ;
    }
    let far: i128 = reach * factor;
    if far >= wide {
        proof {
            assert(far * far >= 8 * LIMIT * LIMIT) by (nonlinear_arith)
                requires
                    far >= 3 * LIMIT,
            ;
        }
        true
    } else {
        proof {
            assert(0 <= far * far <= (3 * LIMIT) * (3 * LIMIT)) by (nonlinear_arith)
                requires
                    0 <= far <= 3 * LIMIT,
            ;
            assert((3 * LIMIT) * (3 * LIMIT) < i128::MAX) by (nonlinear_arith);
        }
        squared <= (far * far) as u128
    }
}

/// Wherever the exact position lies within the coordinate limit, twice a
/// predicted coordinate differs from `2·p + 2·v·dt + a·dt²` by at most one:
/// the prediction is exact up to the rounding of the halved term.
pub proof fn lemma_prediction_is_exact(track: Track, t: int, ignore_acceleration: bool)
    requires
        track.valid(),
        ({
            let dt = t - track.latest().time;
            let a = track.assumed_acceleration(ignore_acceleration);
            let p = track.latest().position@;
            let v = track.latest().velocity@;
            &&& in_range(p.x + v.x * dt + (a.x * dt * dt) / 2)
            &&& in_range(p.y + v.y * dt + (a.y * dt * dt) / 2)
        }),
    ensures
        ({
            let dt = t - track.latest().time;
            let a = track.assumed_acceleration(ignore_acceleration);
            let p = track.latest().position@;
            let v = track.latest().velocity@;
            let r = track.predicted(t, ignore_acceleration);
            &&& 0 <= 2 * p.x + 2 * (v.x * dt) + a.x * dt * dt - 2 * r.x <= 1
            &&& 0 <= 2 * p.y + 2 * (v.y * dt) + a.y * dt * dt - 2 * r.y <= 1
            &&& ignore_acceleration ==> r == (Point { x: p.x + v.x * dt, y: p.y + v.y * dt })
        }),
{
    let dt = t - track.latest().time;
    if ignore_acceleration {
        assert(0 * dt * dt == 0) by (nonlinear_arith);
    }
}

/// A hit that joins a track lengthens the history by one and becomes the
/// latest hit; every earlier hit stays where it was, the hit that was the
/// latest becomes the previous one, and the expiry window stays.
pub proof fn lemma_history_grows(track: Track, hit: ScanHit)
    requires
        track.history.len() >= 1,
    ensures
        track.with_hit(hit).history.len() == track.history.len() + 1,
        forall|i: int|
            0 <= i < track.history.len() ==> track.with_hit(hit).history[i] == track.history[i],
        track.with_hit(hit).latest() == hit,
        track.with_hit(hit).previous() == Some(track.latest()),
        track.with_hit(hit).last_seen() == hit.time,
        track.with_hit(hit).expire_after == track.expire_after,
        track.valid() && hit.valid() ==> track.with_hit(hit).valid(),
{
}

/// A track expires exactly when `expire_after` time units have passed since
/// its latest hit; at exactly `expire_after` it has expired.
pub proof fn lemma_expiry_boundary(track: Track, now: int)
    ensures
        track.expired_at(now) <==> now - track.last_seen() >= track.expire_after,
        track.expired_at(track.last_seen() + track.expire_after),
        !track.expired_at(track.last_seen() + track.expire_after - 1),
{
}

/// A detection whose change of velocity per unit of time exceeds the bound
/// is never matched, nor is one that brings no later time.
pub proof fn lemma_excess_acceleration_rejected(
    track: Track,
    candidate: ScanHit,
    bound: int,
    tolerance_time: int,
)
    requires
        ({
            let dt = candidate.time - track.latest().time;
            dt <= 0 || candidate.velocity@.minus(track.latest().velocity@).norm_sq() > (bound * dt)
                * (bound * dt)
        }),
    ensures
        !track.plausible(candidate, bound, tolerance_time),
{
}

/// A detection that brings a later time, a change of velocity within the
/// bound and a position within the tolerance is always matched.
pub proof fn lemma_within_bounds_accepted(
    track: Track,
    candidate: ScanHit,
    bound: int,
    tolerance_time: int,
)
    requires
        ({
            let dt = candidate.time - track.latest().time;
            let off = candidate.position@.minus(track.predicted(candidate.time as int, true));
            let gain = candidate.velocity@.minus(track.latest().velocity@);
            &&& dt > 0
            &&& gain.norm_sq() <= (bound * dt) * (bound * dt)
            &&& off.norm_sq() <= (bound * dt * tolerance_time) * (bound * dt * tolerance_time)
        }),
    ensures
        track.plausible(candidate, bound, tolerance_time),
{
}

/// A detection that continues the latest hit at constant velocity, at a
/// later time, is always matched.
pub proof fn lemma_constant_velocity_matches(
    track: Track,
    candidate: ScanHit,
    bound: int,
    tolerance_time: int,
)
    requires
        candidate.time > track.latest().time,
        candidate.velocity@ == track.latest().velocity@,
        candidate.position@ == track.predicted(candidate.time as int, true),
    ensures
        track.plausible(candidate, bound, tolerance_time),
{
    let reach = bound * (candidate.time - track.latest().time);
    let tolerance = reach * tolerance_time;
    assert(reach * reach >= 0) by (nonlinear_arith);
    assert(tolerance * tolerance >= 0) by (nonlinear_arith);
}

} // verus!
