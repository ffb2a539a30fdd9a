use fire_control::kinematics::{estimate_future_position, Motion, HORIZON};
use fire_control::numeric::LIMIT;
use fire_control::vector::Vector;

#[test]
fn future_position_follows_the_equation_of_motion() {
    let p = Vector::new(100, 0);
    let v = Vector::new(10, -3);
    let a = Vector::new(2, 1);
    // x: 100 + 10*3 + 2*9/2 = 139; y: 0 - 9 + floor(9/2) = -5
    assert_eq!(estimate_future_position(&p, &v, &a, 3), Vector::new(139, -5));
    // x: 100 + 40 + 16 = 156; y: -12 + 8 = -4
    assert_eq!(estimate_future_position(&p, &v, &a, 4), Vector::new(156, -4));
}

#[test]
fn future_position_at_offset_zero_is_the_position() {
    let p = Vector::new(-17, 23);
    let v = Vector::new(10, -3);
    let a = Vector::new(2, 1);
    assert_eq!(estimate_future_position(&p, &v, &a, 0), p);
}

#[test]
fn future_position_without_acceleration_is_linear() {
    let p = Vector::new(1000, 0);
    let v = Vector::new(0, 50);
    let a = Vector::zero();
    assert_eq!(estimate_future_position(&p, &v, &a, 10), Vector::new(1000, 500));
    assert_eq!(estimate_future_position(&p, &v, &a, 1000), Vector::new(1000, 50_000));
}

#[test]
fn future_position_of_a_negative_offset_looks_back() {
    let p = Vector::new(100, 0);
    let v = Vector::new(10, -3);
    let a = Vector::new(2, 1);
    // x: 100 - 30 + 9 = 79; y: 0 + 9 + floor(9/2) = 13
    assert_eq!(estimate_future_position(&p, &v, &a, -3), Vector::new(79, 13));
}

#[test]
fn future_position_rounds_the_halved_term_down() {
    let p = Vector::zero();
    let v = Vector::zero();
    assert_eq!(estimate_future_position(&p, &v, &Vector::new(1, -1), 1), Vector::new(0, -1));
    assert_eq!(estimate_future_position(&p, &v, &Vector::new(1, -1), 2), Vector::new(2, -2));
    assert_eq!(estimate_future_position(&p, &v, &Vector::new(3, -3), 3), Vector::new(13, -14));
}

#[test]
fn future_position_saturates_at_the_limit() {
    let p = Vector::new(LIMIT, -LIMIT);
    let v = Vector::new(1, -1);
    let a = Vector::zero();
    assert_eq!(estimate_future_position(&p, &v, &a, 5), Vector::new(LIMIT, -LIMIT));
    assert_eq!(estimate_future_position(&p, &v, &a, -5), Vector::new(LIMIT - 5, -LIMIT + 5));
}

#[test]
fn future_position_beyond_the_horizon() {
    let p = Vector::new(5, 7);
    let still = Vector::zero();
    assert_eq!(estimate_future_position(&p, &still, &still, i64::MAX), p);
    assert_eq!(estimate_future_position(&p, &still, &still, i64::MIN), p);
    let v = Vector::new(1, -1);
    assert_eq!(estimate_future_position(&p, &v, &still, i64::MAX), Vector::new(LIMIT, -LIMIT));
    assert_eq!(estimate_future_position(&p, &v, &still, i64::MIN), Vector::new(-LIMIT, LIMIT));
    assert_eq!(estimate_future_position(&p, &v, &still, HORIZON + 1), Vector::new(LIMIT, -LIMIT));
    let a = Vector::new(-1, 1);
    let fast = Vector::new(LIMIT, -LIMIT);
    assert_eq!(estimate_future_position(&p, &fast, &a, i64::MAX), Vector::new(-LIMIT, LIMIT));
    assert_eq!(estimate_future_position(&p, &fast, &a, i64::MIN), Vector::new(-LIMIT, LIMIT));
}

#[test]
fn future_position_at_the_horizon_with_the_largest_values() {
    let p = Vector::new(LIMIT, LIMIT);
    let v = Vector::new(LIMIT, -LIMIT);
    let a = Vector::new(LIMIT, -LIMIT);
    assert_eq!(estimate_future_position(&p, &v, &a, HORIZON), Vector::new(LIMIT, -LIMIT));
    assert_eq!(estimate_future_position(&p, &v, &a, -HORIZON), Vector::new(LIMIT, -LIMIT));
}

#[test]
fn motion_reaches_its_future_position() {
    let motion = Motion {
        position: Vector::new(100, 0),
        velocity: Vector::new(10, -3),
        acceleration: Vector::new(2, 1),
    };
    assert_eq!(motion.future_position(3), Vector::new(139, -5));
    assert_eq!(motion.future_position(0), Vector::new(100, 0));
    assert_eq!(motion.future_position(i128::MAX), Vector::new(LIMIT, LIMIT));
    assert_eq!(motion.future_position(i128::MIN), Vector::new(LIMIT, LIMIT));
}
