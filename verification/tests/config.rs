use fire_control::config::{Config, Settings, TARGET_ACCELERATION_FACTOR};
use fire_control::numeric::LIMIT;

fn usual_settings() -> Settings {
    Settings {
        projectile_speed: 1000,
        max_acceleration: 6,
        max_angular_acceleration: 10,
        tick_length: 10,
        tolerance_time: 1,
        max_range: 3_000_000,
        cruise_speed: 360,
        passing_speed: 200,
        close_range: 100_000,
        solver_depth: 100,
    }
}

#[test]
fn config_accepts_usual_settings() {
    let config = Config::new(usual_settings());
    assert!(config.is_some());
    assert_eq!(config.unwrap().settings(), usual_settings());
    assert!(usual_settings().is_acceptable());
}

#[test]
fn config_accepts_the_smallest_and_the_largest_settings() {
    let smallest = Settings {
        projectile_speed: 1,
        max_acceleration: 0,
        max_angular_acceleration: 1,
        tick_length: 1,
        tolerance_time: 0,
        max_range: 0,
        cruise_speed: 0,
        passing_speed: 0,
        close_range: 0,
        solver_depth: 0,
    };
    assert!(Config::new(smallest).is_some());
    let largest = Settings {
        projectile_speed: LIMIT,
        max_acceleration: LIMIT,
        max_angular_acceleration: LIMIT,
        tick_length: LIMIT,
        tolerance_time: LIMIT,
        max_range: LIMIT,
        cruise_speed: LIMIT,
        passing_speed: LIMIT,
        close_range: LIMIT,
        solver_depth: u32::MAX,
    };
    assert!(Config::new(largest).is_some());
}

#[test]
fn config_rejects_a_projectile_that_does_not_move() {
    assert!(Config::new(Settings { projectile_speed: 0, ..usual_settings() }).is_none());
    assert!(Config::new(Settings { projectile_speed: -1, ..usual_settings() }).is_none());
    assert!(Config::new(Settings { projectile_speed: LIMIT + 1, ..usual_settings() }).is_none());
}

#[test]
fn config_rejects_a_negative_or_excessive_acceleration() {
    assert!(Config::new(Settings { max_acceleration: -1, ..usual_settings() }).is_none());
    assert!(Config::new(Settings { max_acceleration: LIMIT + 1, ..usual_settings() }).is_none());
}

#[test]
fn config_rejects_an_agent_that_cannot_turn() {
    assert!(Config::new(Settings { max_angular_acceleration: 0, ..usual_settings() }).is_none());
    assert!(Config::new(Settings { max_angular_acceleration: -5, ..usual_settings() }).is_none());
    assert!(
        Config::new(Settings { max_angular_acceleration: LIMIT + 1, ..usual_settings() }).is_none()
    );
}

#[test]
fn config_rejects_a_tick_without_length() {
    assert!(Config::new(Settings { tick_length: 0, ..usual_settings() }).is_none());
    assert!(Config::new(Settings { tick_length: -10, ..usual_settings() }).is_none());
    assert!(Config::new(Settings { tick_length: LIMIT + 1, ..usual_settings() }).is_none());
}

#[test]
fn config_rejects_a_tolerance_time_out_of_range() {
    assert!(Config::new(Settings { tolerance_time: -1, ..usual_settings() }).is_none());
    assert!(Config::new(Settings { tolerance_time: LIMIT + 1, ..usual_settings() }).is_none());
    assert!(Config::new(Settings { tolerance_time: 0, ..usual_settings() }).is_some());
}

#[test]
fn config_rejects_thresholds_out_of_range() {
    assert!(Config::new(Settings { max_range: -1, ..usual_settings() }).is_none());
    assert!(Config::new(Settings { max_range: LIMIT + 1, ..usual_settings() }).is_none());
    assert!(Config::new(Settings { cruise_speed: -1, ..usual_settings() }).is_none());
    assert!(Config::new(Settings { cruise_speed: LIMIT + 1, ..usual_settings() }).is_none());
    assert!(Config::new(Settings { passing_speed: -1, ..usual_settings() }).is_none());
    assert!(Config::new(Settings { passing_speed: LIMIT + 1, ..usual_settings() }).is_none());
    assert!(Config::new(Settings { close_range: -1, ..usual_settings() }).is_none());
    assert!(Config::new(Settings { close_range: LIMIT + 1, ..usual_settings() }).is_none());
}

#[test]
fn config_grants_a_target_ten_times_the_own_acceleration() {
    assert_eq!(TARGET_ACCELERATION_FACTOR, 10);
}
