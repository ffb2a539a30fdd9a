use fire_control::numeric::{floor_div, floor_mod, isqrt, saturate, LIMIT};

#[test]
fn isqrt_of_squares_and_their_neighbours() {
    assert_eq!(isqrt(0), 0);
    assert_eq!(isqrt(1), 1);
    assert_eq!(isqrt(2), 1);
    assert_eq!(isqrt(3), 1);
    assert_eq!(isqrt(4), 2);
    assert_eq!(isqrt(15), 3);
    assert_eq!(isqrt(16), 4);
    assert_eq!(isqrt(17), 4);
    assert_eq!(isqrt(24), 4);
    assert_eq!(isqrt(25), 5);
}

#[test]
fn isqrt_of_large_numbers() {
    let million: u128 = 1_000_000;
    assert_eq!(isqrt(million * million), 1_000_000);
    assert_eq!(isqrt(million * million - 1), 999_999);
    assert_eq!(isqrt(million * million + 2 * million), 1_000_000);
    assert_eq!(isqrt(million * million + 2 * million + 1), 1_000_001);
    assert_eq!(isqrt(u128::MAX), u64::MAX);
    let top: u128 = u64::MAX as u128;
    assert_eq!(isqrt(top * top), u64::MAX);
    assert_eq!(isqrt(top * top - 1), u64::MAX - 1);
}

#[test]
fn isqrt_meets_its_definition_on_a_range() {
    let mut n: u128 = 0;
    while n < 5000 {
        let r = isqrt(n) as u128;
        assert!(r * r <= n);
        assert!(n < (r + 1) * (r + 1));
        n += 1;
    }
}

#[test]
fn saturate_keeps_values_within_the_limit() {
    assert_eq!(saturate(0), 0);
    assert_eq!(saturate(-5), -5);
    assert_eq!(saturate(LIMIT as i128), LIMIT);
    assert_eq!(saturate(-(LIMIT as i128)), -LIMIT);
}

#[test]
fn saturate_clamps_beyond_the_limit() {
    assert_eq!(saturate(LIMIT as i128 + 1), LIMIT);
    assert_eq!(saturate(-(LIMIT as i128) - 1), -LIMIT);
    assert_eq!(saturate(i128::MAX), LIMIT);
    assert_eq!(saturate(i128::MIN), -LIMIT);
}

#[test]
fn floor_div_rounds_toward_negative_infinity() {
    assert_eq!(floor_div(7, 2), 3);
    assert_eq!(floor_div(-7, 2), -4);
    assert_eq!(floor_div(-8, 2), -4);
    assert_eq!(floor_div(0, 5), 0);
    assert_eq!(floor_div(-1, 5), -1);
    assert_eq!(floor_div(4, 5), 0);
}

#[test]
fn floor_mod_is_never_negative() {
    assert_eq!(floor_mod(7, 2), 1);
    assert_eq!(floor_mod(-7, 2), 1);
    assert_eq!(floor_mod(-1, 360), 359);
    assert_eq!(floor_mod(720, 360), 0);
}
