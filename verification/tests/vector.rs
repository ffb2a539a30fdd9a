use fire_control::numeric::LIMIT;
use fire_control::vector::Vector;

#[test]
fn vector_keeps_coordinates_within_the_limit() {
    let v = Vector::new(3, -4);
    assert_eq!(v.x(), 3);
    assert_eq!(v.y(), -4);
    assert_eq!(Vector::zero(), Vector::new(0, 0));
}

#[test]
fn vector_saturates_coordinates_beyond_the_limit() {
    let v = Vector::new(LIMIT + 1, i64::MIN);
    assert_eq!(v.x(), LIMIT);
    assert_eq!(v.y(), -LIMIT);
    let w = Vector::new(i64::MAX, -LIMIT - 7);
    assert_eq!(w.x(), LIMIT);
    assert_eq!(w.y(), -LIMIT);
}

#[test]
fn vector_sum_and_difference_saturate() {
    let a = Vector::new(10, 20);
    let b = Vector::new(3, -5);
    assert_eq!(a.plus(&b), Vector::new(13, 15));
    assert_eq!(a.minus(&b), Vector::new(7, 25));
    let far = Vector::new(LIMIT, -LIMIT);
    assert_eq!(far.plus(&far), Vector::new(LIMIT, -LIMIT));
    assert_eq!(far.minus(&far.negated()), Vector::new(LIMIT, -LIMIT));
}

#[test]
fn vector_negation_and_quarter_turn() {
    let v = Vector::new(3, -4);
    assert_eq!(v.negated(), Vector::new(-3, 4));
    assert_eq!(v.perpendicular(), Vector::new(4, 3));
    assert_eq!(Vector::new(1, 0).perpendicular(), Vector::new(0, 1));
    assert_eq!(Vector::new(0, 1).perpendicular(), Vector::new(-1, 0));
    assert_eq!(v.perpendicular().perpendicular(), v.negated());
}

#[test]
fn vector_length_is_rounded_down() {
    assert_eq!(Vector::new(3, 4).length(), 5);
    assert_eq!(Vector::new(3, 4).length_squared(), 25);
    assert_eq!(Vector::new(1, 1).length(), 1);
    assert_eq!(Vector::new(2, 2).length(), 2);
    assert_eq!(Vector::new(-6, 8).length(), 10);
    assert_eq!(Vector::zero().length(), 0);
    assert_eq!(Vector::new(LIMIT, LIMIT).length(), 1_414_213_562_373);
}

#[test]
fn vector_distance_between_the_far_corners() {
    let a = Vector::new(LIMIT, LIMIT);
    let b = Vector::new(-LIMIT, -LIMIT);
    let side: u128 = 2 * LIMIT as u128;
    assert_eq!(a.distance_squared(&b), 2 * side * side);
    assert_eq!(a.distance(&b), 2_828_427_124_746);
    assert_eq!(Vector::new(1, 2).distance(&Vector::new(4, 6)), 5);
    assert_eq!(Vector::new(1, 2).distance_squared(&Vector::new(4, 6)), 25);
}

#[test]
fn vector_scaled_to_a_length() {
    assert_eq!(Vector::new(3, 4).scaled_to(10), Vector::new(6, 8));
    assert_eq!(Vector::new(-3, 4).scaled_to(10), Vector::new(-6, 8));
    assert_eq!(Vector::new(0, -7).scaled_to(3), Vector::new(0, -3));
    assert_eq!(Vector::new(300, 400).scaled_to(1), Vector::new(0, 0));
    assert_eq!(Vector::new(-300, 400).scaled_to(1), Vector::new(-1, 0));
}

#[test]
fn vector_scaled_to_a_length_keeps_zero_at_zero() {
    assert_eq!(Vector::zero().scaled_to(10), Vector::zero());
    assert_eq!(Vector::new(3, 4).scaled_to(0), Vector::zero());
}

#[test]
fn vector_scaled_to_a_length_out_of_range() {
    assert_eq!(Vector::new(3, 4).scaled_to(-1), Vector::zero());
    assert_eq!(Vector::new(0, 4).scaled_to(i64::MAX), Vector::new(0, LIMIT));
}

#[test]
fn vector_direction_between_two_points() {
    let from = Vector::new(10, 10);
    let to = Vector::new(13, 14);
    assert_eq!(from.direction_to(&to, 10), Vector::new(6, 8));
    assert_eq!(to.direction_to(&from, 10), Vector::new(-6, -8));
    assert_eq!(from.direction_to(&from, 10), Vector::zero());
    let a = Vector::new(-LIMIT, 0);
    let b = Vector::new(LIMIT, 0);
    assert_eq!(a.direction_to(&b, 5), Vector::new(5, 0));
}

#[test]
fn vector_normal_to_the_line_between_two_points() {
    let from = Vector::new(0, 0);
    let to = Vector::new(3, 4);
    assert_eq!(from.normal_to(&to, 10), Vector::new(-8, 6));
    assert_eq!(to.normal_to(&from, 10), Vector::new(8, -6));
    assert_eq!(from.normal_to(&from, 10), Vector::zero());
}
