use ffxiv_scene::curve::{effective_time, evaluate, Curve, CurveAttribute, Keyframe};
use ffxiv_scene::transform::{Axis, ElementaryTransform, Fraction};

fn kf(time: i32, value: i32) -> Keyframe {
    Keyframe { time, value }
}

fn rotation_y(rows: Vec<Keyframe>) -> Curve {
    Curve { attribute: CurveAttribute::RotationY, rows }
}

fn expect_rotation(e: ElementaryTransform) -> (Axis, Fraction) {
    match e {
        ElementaryTransform::Rotation { axis, degrees } => (axis, degrees),
        ElementaryTransform::Identity => panic!("expected a rotation, got the identity"),
    }
}

#[test]
fn evaluate_midpoint_is_half_blend() {
    let curve = rotation_y(vec![kf(0, 0), kf(10, 90)]);
    let (axis, degrees) = expect_rotation(evaluate(&curve, 5, None));
    assert_eq!(axis, Axis::Y);
    // 0 * (10 - 5) + 90 * (5 - 0) over (10 - 0)
    assert_eq!(degrees.num, 450);
    assert_eq!(degrees.den, 10);
    assert_eq!(degrees.num, 45 * degrees.den as i128);
}

#[test]
fn evaluate_at_exact_keyframe_returns_its_value() {
    let curve = rotation_y(vec![kf(0, 0), kf(5, 50), kf(10, 90)]);
    let (_, degrees) = expect_rotation(evaluate(&curve, 5, None));
    assert_eq!(degrees.num, 50 * degrees.den as i128);
    let (_, at_start) = expect_rotation(evaluate(&curve, 0, None));
    assert_eq!(at_start.num, 0);
    let (_, at_end) = expect_rotation(evaluate(&curve, 10, None));
    assert_eq!(at_end.num, 90 * at_end.den as i128);
}

#[test]
fn evaluate_empty_curve_is_identity() {
    let curve = rotation_y(vec![]);
    assert_eq!(evaluate(&curve, 0, None), ElementaryTransform::Identity);
    assert_eq!(evaluate(&curve, 7, Some(10)), ElementaryTransform::Identity);
}

#[test]
fn evaluate_single_row_curve_is_identity() {
    let curve = rotation_y(vec![kf(0, 30)]);
    assert_eq!(evaluate(&curve, 0, None), ElementaryTransform::Identity);
    assert_eq!(evaluate(&curve, 123, None), ElementaryTransform::Identity);
    assert_eq!(evaluate(&curve, -9, Some(10)), ElementaryTransform::Identity);
}

#[test]
fn evaluate_position_attribute_is_identity() {
    // Position-tagged curves yield the identity transform: the documented
    // current behavior, asserted literally.
    for attribute in [
        CurveAttribute::PositionX,
        CurveAttribute::PositionY,
        CurveAttribute::PositionZ,
        CurveAttribute::Unknown(0x13),
    ] {
        let curve = Curve { attribute, rows: vec![kf(0, 0), kf(10, 90)] };
        assert_eq!(evaluate(&curve, 5, None), ElementaryTransform::Identity);
    }
}

#[test]
fn evaluate_loop_wraps_forward_time() {
    let curve = rotation_y(vec![kf(0, 0), kf(10, 90)]);
    let plain = evaluate(&curve, 5, Some(10));
    let wrapped = evaluate(&curve, 15, Some(10));
    let wrapped_twice = evaluate(&curve, 25, Some(10));
    assert_eq!(plain, wrapped);
    assert_eq!(plain, wrapped_twice);
    let (_, degrees) = expect_rotation(wrapped);
    assert_eq!(degrees.num, 45 * degrees.den as i128);
}

#[test]
fn evaluate_negative_time_keeps_dividend_sign() {
    // The loop reduction keeps the dividend's sign: -3 stays -3, it does not
    // wrap to 7.
    assert_eq!(effective_time(-3, Some(10)), -3);
    assert_eq!(effective_time(15, Some(10)), 5);
    assert_eq!(effective_time(7, None), 7);
    assert_eq!(effective_time(5, Some(0)), 5);

    let curve = Curve {
        attribute: CurveAttribute::RotationX,
        rows: vec![kf(-10, 0), kf(10, 200)],
    };
    let (axis, degrees) = expect_rotation(evaluate(&curve, -3, Some(10)));
    assert_eq!(axis, Axis::X);
    // 0 * (10 - (-3)) + 200 * ((-3) - (-10)) over (10 - (-10))
    assert_eq!(degrees.num, 1400);
    assert_eq!(degrees.den, 20);
}

#[test]
fn effective_time_handles_extreme_divisors() {
    // A negative period keeps the dividend's sign too, and the one remainder
    // the machine cannot form directly is still the mathematical zero.
    assert_eq!(effective_time(5, Some(-10)), 5);
    assert_eq!(effective_time(-3, Some(-10)), -3);
    assert_eq!(effective_time(i64::MIN, Some(-1)), 0);
    assert_eq!(effective_time(i64::MIN, Some(10)), i64::MIN % 10);
    assert_eq!(effective_time(i64::MAX, Some(7)), i64::MAX % 7);
}

#[test]
fn evaluate_zero_length_bracket_returns_shared_value() {
    let curve = rotation_y(vec![kf(5, 10), kf(5, 20)]);
    let (_, degrees) = expect_rotation(evaluate(&curve, 5, None));
    assert_eq!(degrees.num, 10);
    assert_eq!(degrees.den, 1);
}

#[test]
fn evaluate_before_first_row_returns_first_value() {
    let curve = rotation_y(vec![kf(5, 10), kf(8, 20)]);
    let (_, degrees) = expect_rotation(evaluate(&curve, 2, None));
    assert_eq!(degrees.num, 10);
    assert_eq!(degrees.den, 1);
}

#[test]
fn evaluate_after_last_row_extrapolates_from_ends() {
    let curve = rotation_y(vec![kf(5, 10), kf(8, 20)]);
    let (_, degrees) = expect_rotation(evaluate(&curve, 100, None));
    // start is the first row with time <= 100, the first row; end falls back
    // to the last row: 10 * (8 - 100) + 20 * (100 - 5) over (8 - 5).
    assert_eq!(degrees.num, 980);
    assert_eq!(degrees.den, 3);
}

#[test]
fn evaluate_bracket_scan_takes_first_match_in_stored_order() {
    // Rows deliberately out of time order: the forward scan's tie-break is
    // part of the contract.
    let curve = rotation_y(vec![kf(10, 90), kf(0, 0)]);
    // at 5: start = first row with time <= 5 = the second row (0, 0);
    // end = first row with time >= 5 = the first row (10, 90).
    let (_, degrees) = expect_rotation(evaluate(&curve, 5, None));
    assert_eq!(degrees.num, 0 * (10 - 5) + 90 * (5 - 0));
    assert_eq!(degrees.den, 10);
}
