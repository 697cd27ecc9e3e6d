use physics_sim::numeric::{advance, floor_div, half, offset_by, saturate_wide, translate};

#[test]
fn saturate_wide_keeps_what_fits() {
    assert_eq!(saturate_wide(0), 0);
    assert_eq!(saturate_wide(-42), -42);
    assert_eq!(saturate_wide(i64::MAX as i128), i64::MAX);
    assert_eq!(saturate_wide(i64::MIN as i128), i64::MIN);
}

#[test]
fn saturate_wide_stops_at_the_bounds() {
    assert_eq!(saturate_wide(i64::MAX as i128 + 1), i64::MAX);
    assert_eq!(saturate_wide(i64::MIN as i128 - 1), i64::MIN);
    assert_eq!(saturate_wide(i128::MAX), i64::MAX);
    assert_eq!(saturate_wide(i128::MIN), i64::MIN);
}

#[test]
fn offset_by_adds_and_saturates() {
    assert_eq!(offset_by(25, 10), 35);
    assert_eq!(offset_by(-25, 10), -15);
    assert_eq!(offset_by(i64::MAX, 1), i64::MAX);
    assert_eq!(offset_by(i64::MIN, -1), i64::MIN);
    assert_eq!(offset_by(i64::MAX, i64::MIN), -1);
}

#[test]
fn translate_moves_both_coordinates() {
    assert_eq!(translate((1, 2), (10, -20)), (11, -18));
    assert_eq!(translate((i64::MAX, i64::MIN), (1, -1)), (i64::MAX, i64::MIN));
}

#[test]
fn advance_is_start_plus_rate_times_ticks() {
    assert_eq!(advance(25, 1, 10), 35);
    assert_eq!(advance(25, -3, 10), -5);
    assert_eq!(advance(25, 0, u64::MAX), 25);
    assert_eq!(advance(25, 7, 0), 25);
}

#[test]
fn advance_saturates() {
    assert_eq!(advance(0, 1, u64::MAX), i64::MAX);
    assert_eq!(advance(0, -1, u64::MAX), i64::MIN);
    assert_eq!(advance(i64::MIN, i64::MIN, u64::MAX), i64::MIN);
    assert_eq!(advance(i64::MAX, i64::MAX, u64::MAX), i64::MAX);
    assert_eq!(advance(i64::MIN, 1, i64::MAX as u64), -1);
}

#[test]
fn half_rounds_towards_negative_infinity() {
    assert_eq!(half(10), 5);
    assert_eq!(half(7), 3);
    assert_eq!(half(0), 0);
    assert_eq!(half(-1), -1);
    assert_eq!(half(-3), -2);
    assert_eq!(half(-4), -2);
    assert_eq!(half(i64::MAX), i64::MAX / 2);
    assert_eq!(half(i64::MIN), i64::MIN / 2);
}

#[test]
fn floor_div_rounds_towards_negative_infinity() {
    assert_eq!(floor_div(7, 2), 3);
    assert_eq!(floor_div(-7, 2), -4);
    assert_eq!(floor_div(-8, 2), -4);
    assert_eq!(floor_div(0, 5), 0);
    assert_eq!(floor_div(-1, 1_000), -1);
    assert_eq!(floor_div(i128::MIN, 1), i128::MIN);
}
