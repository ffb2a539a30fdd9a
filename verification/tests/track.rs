use fire_control::config::{Config, Settings};
use fire_control::numeric::LIMIT;
use fire_control::track::{ScanHit, Target, EXPIRY_TICKS};
use fire_control::vector::Vector;

fn track_config() -> Config {
    Config::new(Settings {
        projectile_speed: 1000,
        max_acceleration: 6,
        max_angular_acceleration: 10,
        tick_length: 10,
        tolerance_time: 1,
        max_range: 3_000_000,
        cruise_speed: 360,
        passing_speed: 200,
        close_range: 100_000,
        solver_depth: 100,
    })
    .unwrap()
}

fn hit(px: i64, py: i64, vx: i64, vy: i64, time: i64) -> ScanHit {
    ScanHit::new(Vector::new(px, py), Vector::new(vx, vy), time)
}

#[test]
fn track_opens_with_one_hit() {
    let first = hit(100, 200, 5, -5, 1000);
    let track = Target::new(first, &track_config());
    assert_eq!(track.len(), 1);
    assert_eq!(track.last_hit(), first);
    assert_eq!(track.previous_hit(), None);
    assert_eq!(track.last_seen(), 1000);
    assert_eq!(track.position(), Vector::new(100, 200));
    assert_eq!(track.velocity(), Vector::new(5, -5));
    assert_eq!(track.acceleration(), Vector::zero());
}

#[test]
fn track_expires_forty_ticks_after_its_latest_hit_by_default() {
    assert_eq!(EXPIRY_TICKS, 40);
    let track = Target::new(hit(0, 0, 0, 0, 1000), &track_config());
    assert_eq!(track.expiry_window(), 400);
    assert!(!track.has_expired(1399));
    assert!(track.has_expired(1400));
}

#[test]
fn track_with_window_expires_exactly_at_the_window() {
    let track = Target::with_expiry(hit(0, 0, 0, 0, 500), 40);
    assert_eq!(track.expiry_window(), 40);
    assert!(!track.has_expired(500));
    assert!(!track.has_expired(539));
    assert!(track.has_expired(540));
    assert!(track.has_expired(541));
    assert!(track.has_expired(i64::MAX));
    assert!(!track.has_expired(i64::MIN));
}

#[test]
fn track_expiry_counts_from_the_latest_hit() {
    let mut track = Target::with_expiry(hit(0, 0, 0, 0, 500), 40);
    assert!(track.has_expired(540));
    track.add_scan(hit(0, 0, 0, 0, 530));
    assert_eq!(track.last_seen(), 530);
    assert!(!track.has_expired(540));
    assert!(!track.has_expired(569));
    assert!(track.has_expired(570));
}

#[test]
fn track_expiry_at_the_ends_of_time() {
    let late = Target::with_expiry(hit(0, 0, 0, 0, i64::MAX), i64::MAX);
    assert!(!late.has_expired(i64::MAX));
    let early = Target::with_expiry(hit(0, 0, 0, 0, i64::MIN), i64::MAX);
    assert!(early.has_expired(i64::MAX));
    assert!(early.has_expired(-1));
    assert!(!early.has_expired(-2));
    let never_alive = Target::with_expiry(hit(0, 0, 0, 0, 0), 0);
    assert!(never_alive.has_expired(0));
    let negative = Target::with_expiry(hit(0, 0, 0, 0, 0), -5);
    assert!(negative.has_expired(-5));
    assert!(!negative.has_expired(-6));
}

#[test]
fn track_keeps_every_hit_in_order() {
    let a = hit(0, 0, 1, 1, 0);
    let b = hit(10, 10, 1, 1, 10);
    let c = hit(20, 20, 1, 1, 20);
    let mut track = Target::with_expiry(a, 40);
    track.add_scan(b);
    assert_eq!(track.len(), 2);
    assert_eq!(track.last_hit(), b);
    assert_eq!(track.previous_hit(), Some(a));
    track.add_scan(c);
    assert_eq!(track.len(), 3);
    assert_eq!(track.hit(0), Some(a));
    assert_eq!(track.hit(1), Some(b));
    assert_eq!(track.hit(2), Some(c));
    assert_eq!(track.hit(3), None);
    assert_eq!(track.last_hit(), c);
    assert_eq!(track.previous_hit(), Some(b));
    assert_eq!(track.expiry_window(), 40);
}

#[test]
fn track_history_grows_by_one_hit_at_a_time() {
    let mut track = Target::with_expiry(hit(0, 0, 5, -5, 0), 40);
    let mut step: i64 = 1;
    while step <= 200 {
        track.add_scan(hit(5 * step, -5 * step, 5, -5, step));
        assert_eq!(track.len(), step as usize + 1);
        assert_eq!(track.last_seen(), step);
        step += 1;
    }
    let mut index: usize = 0;
    while index <= 200 {
        let place = index as i64;
        assert_eq!(track.hit(index), Some(hit(5 * place, -5 * place, 5, -5, place)));
        index += 1;
    }
    assert_eq!(track.hit(201), None);
    assert_eq!(track.hit(usize::MAX), None);
}

#[test]
fn track_takes_a_hit_twice() {
    let a = hit(0, 0, 1, 1, 0);
    let mut track = Target::with_expiry(a, 40);
    track.add_scan(a);
    assert_eq!(track.len(), 2);
    assert_eq!(track.hit(0), Some(a));
    assert_eq!(track.hit(1), Some(a));
    assert_eq!(track.previous_hit(), Some(a));
    assert_eq!(track.acceleration(), Vector::zero());
}

#[test]
fn track_acceleration_is_the_difference_of_velocities_over_time() {
    let mut track = Target::with_expiry(hit(0, 0, 0, 0, 0), 40);
    track.add_scan(hit(0, 0, 10, -5, 5));
    assert_eq!(track.acceleration(), Vector::new(2, -1));
    track.add_scan(hit(0, 0, 3, 2, 7));
    // (3 - 10) / 2 rounded down, (2 + 5) / 2 rounded down
    assert_eq!(track.acceleration(), Vector::new(-4, 3));
}

#[test]
fn track_acceleration_is_zero_without_a_time_gap() {
    let mut track = Target::with_expiry(hit(0, 0, 0, 0, 100), 40);
    track.add_scan(hit(0, 0, 50, 50, 100));
    assert_eq!(track.acceleration(), Vector::zero());
    track.add_scan(hit(0, 0, -50, 80, 90));
    assert_eq!(track.acceleration(), Vector::zero());
}

#[test]
fn hit_acceleration_saturates() {
    let earlier = hit(0, 0, -LIMIT, LIMIT, 0);
    let later = hit(0, 0, LIMIT, -LIMIT, 1);
    assert_eq!(later.acceleration(&earlier), Vector::new(LIMIT, -LIMIT));
    assert_eq!(earlier.acceleration(&later), Vector::zero());
    let much_later = hit(0, 0, LIMIT, -LIMIT, 4);
    assert_eq!(
        much_later.acceleration(&earlier),
        Vector::new(LIMIT / 2, -LIMIT / 2)
    );
}

#[test]
fn track_predicts_by_the_equation_of_motion() {
    let mut track = Target::with_expiry(hit(0, 0, 0, 0, 0), 40);
    track.add_scan(hit(100, 0, 10, -5, 5));
    // acceleration (2, -1); three time units after the latest hit
    // x: 100 + 30 + 9 = 139; y: -15 + floor(-9 / 2) = -20
    assert_eq!(track.future_position(8, false), Vector::new(139, -20));
    assert_eq!(track.future_position(8, true), Vector::new(130, -15));
    assert_eq!(track.future_position(5, false), Vector::new(100, 0));
    assert_eq!(track.position_in(3, false), Vector::new(139, -20));
}

#[test]
fn track_predicts_the_past() {
    let mut track = Target::with_expiry(hit(0, 0, 0, 0, 0), 40);
    track.add_scan(hit(100, 0, 10, -5, 5));
    // two time units before the latest hit
    // x: 100 - 20 + 4 = 84; y: 10 + floor(-4 / 2) = 8
    assert_eq!(track.future_position(3, false), Vector::new(84, 8));
    assert_eq!(track.future_position(3, true), Vector::new(80, 10));
}

#[test]
fn track_with_one_hit_predicts_without_acceleration() {
    let track = Target::with_expiry(hit(100, 50, 7, -2, 10), 40);
    assert_eq!(track.future_position(20, false), Vector::new(170, 30));
    assert_eq!(track.future_position(20, true), Vector::new(170, 30));
    assert_eq!(track.motion(false).acceleration, Vector::zero());
}

#[test]
fn track_prediction_over_all_of_time() {
    let track = Target::with_expiry(hit(100, 50, 1, 0, i64::MIN), 40);
    assert_eq!(track.future_position(i64::MAX, false), Vector::new(LIMIT, 50));
    let late = Target::with_expiry(hit(100, 50, 1, 0, i64::MAX), 40);
    assert_eq!(late.future_position(i64::MIN, false), Vector::new(-LIMIT, 50));
    assert_eq!(late.future_position(i64::MAX - 3, false), Vector::new(97, 50));
}

#[test]
fn track_motion_is_that_of_the_latest_hit() {
    let mut track = Target::with_expiry(hit(0, 0, 0, 0, 0), 40);
    track.add_scan(hit(100, 0, 10, -5, 5));
    let motion = track.motion(false);
    assert_eq!(motion.position, Vector::new(100, 0));
    assert_eq!(motion.velocity, Vector::new(10, -5));
    assert_eq!(motion.acceleration, Vector::new(2, -1));
    assert_eq!(track.motion(true).acceleration, Vector::zero());
}

#[test]
fn constant_velocity_hits_always_match() {
    let config = track_config();
    let mut track = Target::new(hit(0, 0, 50, 20, 0), &config);
    let mut step: i64 = 1;
    while step <= 20 {
        let next = hit(5000 * step, 2000 * step, 50, 20, 100 * step);
        assert!(track.match_last_seen(&next, &config));
        track.add_scan(next);
        step += 1;
    }
    assert_eq!(track.acceleration(), Vector::zero());
}

#[test]
fn hit_implying_fifty_times_the_acceleration_never_matches() {
    let config = track_config();
    let track = Target::new(hit(0, 0, 50, 20, 0), &config);
    // 50 * 6 per time unit, over 100 time units
    let wild = hit(5000, 2000, 50 + 30_000, 20, 100);
    assert!(!track.match_last_seen(&wild, &config));
    let wild_back = hit(5000, 2000, 50, 20 - 30_000, 100);
    assert!(!track.match_last_seen(&wild_back, &config));
    let mut dt: i64 = 1;
    while dt <= 1000 {
        let candidate = hit(50 * dt, 20 * dt, 50 + 300 * dt, 20, dt);
        assert!(!track.match_last_seen(&candidate, &config));
        dt += 37;
    }
}

#[test]
fn hit_at_the_acceleration_bound_matches() {
    let config = track_config();
    let track = Target::new(hit(0, 0, 50, 20, 0), &config);
    // the bound is 10 * 6 per time unit: 6000 over 100 time units
    assert!(track.match_last_seen(&hit(5000, 2000, 6050, 20, 100), &config));
    assert!(!track.match_last_seen(&hit(5000, 2000, 6051, 20, 100), &config));
    assert!(track.match_last_seen(&hit(5000, 2000, 50 - 3600, 20 + 4800, 100), &config));
    assert!(!track.match_last_seen(&hit(5000, 2000, 50 - 3600, 20 + 4801, 100), &config));
}

#[test]
fn hit_off_the_extrapolated_position_is_rejected() {
    let config = track_config();
    let track = Target::new(hit(0, 0, 50, 20, 0), &config);
    // extrapolated position (5000, 2000), tolerance 60 * 100
    assert!(track.match_last_seen(&hit(5000 + 6000, 2000, 50, 20, 100), &config));
    assert!(!track.match_last_seen(&hit(5000 + 6001, 2000, 50, 20, 100), &config));
    assert!(track.match_last_seen(&hit(5000 + 3600, 2000 - 4800, 50, 20, 100), &config));
    assert!(!track.match_last_seen(&hit(5000 + 3601, 2000 - 4800, 50, 20, 100), &config));
}

#[test]
fn track_match_ignores_the_estimated_acceleration() {
    let config = track_config();
    let mut track = Target::new(hit(0, 0, 0, 0, 0), &config);
    track.add_scan(hit(0, 0, 50, 0, 10));
    // the extrapolation keeps the velocity (50, 0): (5000, 0) after 100
    assert!(track.match_last_seen(&hit(5000, 0, 50, 0, 110), &config));
    assert!(track.match_last_seen(&hit(5000 + 6000, 0, 50, 0, 110), &config));
    assert!(!track.match_last_seen(&hit(5000 + 6001, 0, 50, 0, 110), &config));
}

#[test]
fn hit_without_later_time_is_rejected() {
    let config = track_config();
    let track = Target::new(hit(0, 0, 50, 20, 100), &config);
    assert!(!track.match_last_seen(&hit(0, 0, 50, 20, 100), &config));
    assert!(!track.match_last_seen(&hit(-50, -20, 50, 20, 99), &config));
    assert!(!track.match_last_seen(&hit(0, 0, 50, 20, i64::MIN), &config));
    assert!(track.match_last_seen(&hit(50, 20, 50, 20, 101), &config));
}

#[test]
fn hit_long_after_the_latest_matches_whatever_it_brings() {
    let config = track_config();
    let track = Target::new(hit(0, 0, 0, 0, 0), &config);
    assert!(track.match_last_seen(&hit(LIMIT, -LIMIT, -LIMIT, LIMIT, i64::MAX), &config));
    let early = Target::new(hit(LIMIT, LIMIT, LIMIT, LIMIT, i64::MIN), &config);
    assert!(early.match_last_seen(&hit(-LIMIT, -LIMIT, -LIMIT, -LIMIT, i64::MAX), &config));
}

#[test]
fn track_of_an_agent_that_cannot_accelerate_matches_only_steady_targets() {
    let settings = Settings { max_acceleration: 0, ..track_config().settings() };
    let config = Config::new(settings).unwrap();
    let track = Target::new(hit(0, 0, 50, 20, 0), &config);
    assert!(track.match_last_seen(&hit(5000, 2000, 50, 20, 100), &config));
    assert!(!track.match_last_seen(&hit(5001, 2000, 50, 20, 100), &config));
    assert!(!track.match_last_seen(&hit(5000, 2000, 51, 20, 100), &config));
}

#[test]
fn position_tolerance_grows_with_the_tolerance_time() {
    let settings = Settings { tolerance_time: 3, ..track_config().settings() };
    let config = Config::new(settings).unwrap();
    let track = Target::new(hit(0, 0, 50, 20, 0), &config);
    // extrapolated position (5000, 2000), tolerance 60 * 100 * 3
    assert!(track.match_last_seen(&hit(5000 + 18_000, 2000, 50, 20, 100), &config));
    assert!(!track.match_last_seen(&hit(5000 + 18_001, 2000, 50, 20, 100), &config));
    // the bound on the change of velocity stays 60 * 100
    assert!(track.match_last_seen(&hit(5000, 2000, 6050, 20, 100), &config));
    assert!(!track.match_last_seen(&hit(5000, 2000, 6051, 20, 100), &config));
}

#[test]
fn without_tolerance_time_the_position_has_to_be_exact() {
    let settings = Settings { tolerance_time: 0, ..track_config().settings() };
    let config = Config::new(settings).unwrap();
    let track = Target::new(hit(0, 0, 50, 20, 0), &config);
    assert!(track.match_last_seen(&hit(5000, 2000, 50, 20, 100), &config));
    assert!(track.match_last_seen(&hit(5000, 2000, 6050, 20, 100), &config));
    assert!(!track.match_last_seen(&hit(5001, 2000, 50, 20, 100), &config));
    assert!(!track.match_last_seen(&hit(5000, 1999, 50, 20, 100), &config));
}

#[test]
fn position_tolerance_with_the_largest_settings() {
    let settings = Settings {
        max_acceleration: LIMIT,
        tolerance_time: LIMIT,
        ..track_config().settings()
    };
    let config = Config::new(settings).unwrap();
    let track = Target::new(hit(LIMIT, LIMIT, 0, 0, i64::MIN), &config);
    assert!(track.match_last_seen(&hit(-LIMIT, -LIMIT, LIMIT, -LIMIT, i64::MAX), &config));
    assert!(track.match_last_seen(&hit(-LIMIT, -LIMIT, LIMIT, -LIMIT, i64::MIN + 1), &config));
}
