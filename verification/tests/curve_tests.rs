use nuc_fan_control::curve::{interpolate_speed, is_valid_curve, speed_at, FanPoint};

fn point(temperature: i32, speed: i32) -> FanPoint {
    FanPoint { temperature, speed }
}

fn three_point_curve() -> Vec<FanPoint> {
    vec![point(40, 20), point(60, 50), point(80, 100)]
}

#[test]
fn interpolates_inside_the_second_bracket() {
    // 20 + (50 - 40) / (60 - 40 + 0.001) * (50 - 20) = 34.99925..., cut to 34
    assert_eq!(speed_at(&three_point_curve(), 50), Some(34));
}

#[test]
fn no_bracket_above_the_last_point() {
    assert_eq!(speed_at(&three_point_curve(), 81), None);
    assert_eq!(speed_at(&three_point_curve(), i64::MAX), None);
    assert_eq!(speed_at(&[], 0), None);
    assert_eq!(speed_at(&[point(10, 50)], 11), None);
}

#[test]
fn first_point_is_bracketed_with_the_origin() {
    // 0 + 20 / (40 + 0.001) * 30 = 14.9996..., cut to 14
    assert_eq!(speed_at(&three_point_curve(), 30), Some(14));
    assert_eq!(speed_at(&three_point_curve(), 0), Some(0));
}

#[test]
fn breakpoints_fall_one_short_of_their_speed() {
    let curve = three_point_curve();
    assert_eq!(speed_at(&curve, 40), Some(19));
    assert_eq!(speed_at(&curve, 60), Some(49));
    assert_eq!(speed_at(&curve, 80), Some(99));
    assert_eq!(speed_at(&curve, 41), Some(21));
    assert_eq!(speed_at(&curve, 61), Some(52));
}

#[test]
fn two_point_curve_stays_between_its_speeds() {
    let curve = [point(30, 10), point(70, 90)];
    let mut t: i64 = 31;
    while t <= 70 {
        let s = speed_at(&curve, t).unwrap();
        assert!(10 <= s && s <= 90);
        t += 1;
    }
    assert_eq!(speed_at(&curve, 50), Some(49));
    assert_eq!(speed_at(&curve, 70), Some(89));
}

#[test]
fn equal_speeds_are_met_exactly_at_the_upper_point() {
    let curve = [point(30, 60), point(70, 60)];
    assert_eq!(speed_at(&curve, 70), Some(60));
    assert_eq!(speed_at(&curve, 31), Some(60));
}

#[test]
fn first_speed_is_met_exactly_below_zero_or_at_speed_zero() {
    assert_eq!(speed_at(&[point(-10, 40), point(20, 80)], -10), Some(40));
    assert_eq!(speed_at(&[point(30, 0), point(70, 60)], 30), Some(0));
    assert_eq!(speed_at(&[point(0, 40), point(20, 80)], 0), Some(0));
}

#[test]
fn falling_curve_is_cut_as_a_whole() {
    // 50 + (20 - 50) / (20.001) * 10 = 35.00075..., cut to 35
    assert_eq!(speed_at(&[point(40, 50), point(60, 20)], 50), Some(35));
    assert_eq!(interpolate_speed(point(40, 50), point(60, 20), 50), 35);
    // 50 - 30 / 20.001 * 20 = 20.0015..., cut to 20: the second speed itself
    assert_eq!(speed_at(&[point(40, 50), point(60, 20)], 60), Some(20));
    // 50 - 30 / 20.001 * 1 = 48.50007..., cut to 48
    assert_eq!(speed_at(&[point(40, 50), point(60, 20)], 41), Some(48));
}

#[test]
fn negative_values_are_cut_toward_zero() {
    // -50 + 30 / 20.001 * 10 = -35.00075..., cut to -35
    assert_eq!(interpolate_speed(point(40, -50), point(60, -20), 50), -35);
    // -20 - 30 / 20.001 * 10 = -34.99925..., cut to -34
    assert_eq!(interpolate_speed(point(40, -20), point(60, -50), 50), -34);
    // 5 - 10 / 10.001 * 9 = -3.9991..., cut to -3
    assert_eq!(interpolate_speed(point(0, 5), point(10, -5), 9), -3);
    // -30 - 30 / 20.001 * 20 = -59.9985..., cut to -59; not the second speed
    assert_eq!(interpolate_speed(point(40, -30), point(60, -60), 60), -59);
    // -60 + 30 / 20.001 * 20 = -30.0015..., cut to -30: the second speed
    assert_eq!(interpolate_speed(point(40, -60), point(60, -30), 60), -30);
}

#[test]
fn zero_width_bracket_divides_by_the_thousandth() {
    assert_eq!(interpolate_speed(point(0, 0), point(0, 30), 0), 0);
    assert_eq!(interpolate_speed(point(0, 0), point(0, 30), -5), -150000);
    assert_eq!(interpolate_speed(point(50, 10), point(50, 90), 51), 80010);
}

#[test]
fn extreme_inputs_do_not_overflow() {
    let lower = point(i32::MAX, i32::MIN);
    let upper = point(i32::MAX, i32::MAX);
    let expected: i128 =
        (i32::MIN as i128) + 1000 * 4294967295i128 * ((i64::MIN as i128) - (i32::MAX as i128));
    assert_eq!(interpolate_speed(point(-5, 7), point(-5, 7), i64::MAX), 7);
    assert_eq!(interpolate_speed(lower, upper, i64::MIN), expected);
    assert_eq!(speed_at(&[upper], i64::MIN).is_some(), true);
}

#[test]
fn unsorted_curve_is_scanned_in_order() {
    let curve = [point(80, 100), point(40, 20)];
    // the first point is at or above 50, so the origin and (80, 100) bracket it
    assert_eq!(speed_at(&curve, 50), Some(62));
    assert_eq!(is_valid_curve(&curve), false);
}

#[test]
fn validity_asks_for_percentages_and_ascending_temperatures() {
    assert_eq!(is_valid_curve(&three_point_curve()), true);
    assert_eq!(is_valid_curve(&[]), true);
    assert_eq!(is_valid_curve(&[point(40, 20), point(40, 30)]), true);
    assert_eq!(is_valid_curve(&[point(40, 101)]), false);
    assert_eq!(is_valid_curve(&[point(40, -1)]), false);
    assert_eq!(is_valid_curve(&[point(40, 20), point(39, 30)]), false);
    assert_eq!(is_valid_curve(&[point(10, 0), point(20, 100), point(15, 50)]), false);
}
