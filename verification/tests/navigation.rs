use physics_sim::navigation::{pan_region, ZoomFactor};

#[test]
fn zoom_factor_needs_two_positive_numbers() {
    assert_eq!(ZoomFactor::new(0, 1), None);
    assert_eq!(ZoomFactor::new(1, 0), None);
    assert_eq!(ZoomFactor::new(0, 0), None);
    assert!(ZoomFactor::new(1, 1).is_some());
}

#[test]
fn zoom_factor_keeps_its_terms() {
    let factor = ZoomFactor::new(3, 4).unwrap();
    assert_eq!((factor.numerator(), factor.denominator()), (3, 4));
}

#[test]
fn identity_is_one_over_one() {
    let factor = ZoomFactor::identity();
    assert_eq!((factor.numerator(), factor.denominator()), (1, 1));
}

#[test]
fn reciprocal_swaps_the_terms() {
    let factor = ZoomFactor::new(3, 4).unwrap().reciprocal();
    assert_eq!((factor.numerator(), factor.denominator()), (4, 3));
}

#[test]
fn pan_moves_both_corners() {
    assert_eq!(pan_region(((0, 0), (100, 100)), (50, -20)), ((50, -20), (150, 80)));
}

#[test]
fn pan_by_nothing_changes_nothing() {
    assert_eq!(pan_region(((1, 2), (3, 4)), (0, 0)), ((1, 2), (3, 4)));
}

#[test]
fn two_pans_equal_one_pan_by_their_sum() {
    let region = ((0, 0), (100, 100));
    let stepwise = pan_region(pan_region(region, (7, -3)), (-20, 40));
    assert_eq!(stepwise, pan_region(region, (-13, 37)));
    assert_eq!(stepwise, ((-13, 37), (87, 137)));
}

#[test]
fn pans_commute() {
    let region = ((0, 0), (100, 100));
    assert_eq!(
        pan_region(pan_region(region, (7, -3)), (-20, 40)),
        pan_region(pan_region(region, (-20, 40)), (7, -3))
    );
}

#[test]
fn pan_saturates() {
    assert_eq!(
        pan_region(((i64::MAX - 10, 0), (i64::MAX, 100)), (20, 0)),
        ((i64::MAX, 0), (i64::MAX, 100))
    );
    assert_eq!(
        pan_region(((0, 0), (100, 100)), (i128::MAX, i128::MIN)),
        ((i64::MAX, i64::MIN), (i64::MAX, i64::MIN))
    );
}

#[test]
fn zoom_by_one_half_halves_the_extent_about_the_centre() {
    let half = ZoomFactor::new(1, 2).unwrap();
    assert_eq!(half.zoom_region(((0, 0), (100, 100))), ((25, 25), (75, 75)));
}

#[test]
fn zoom_by_two_doubles_the_extent_about_the_centre() {
    let double = ZoomFactor::new(2, 1).unwrap();
    assert_eq!(double.zoom_region(((0, 0), (100, 100))), ((-50, -50), (150, 150)));
}

#[test]
fn zoom_by_one_changes_nothing() {
    let region = ((-7, 3), (12, 99));
    assert_eq!(ZoomFactor::identity().zoom_region(region), region);
    assert_eq!(ZoomFactor::new(5, 5).unwrap().zoom_region(region), region);
}

#[test]
fn zoom_keeps_the_centre() {
    let third = ZoomFactor::new(1, 3).unwrap();
    assert_eq!(third.zoom_region(((100, -60), (400, 60))), ((200, -20), (300, 20)));
}

#[test]
fn zoom_rounds_towards_negative_infinity() {
    let half = ZoomFactor::new(1, 2).unwrap();
    assert_eq!(half.zoom_region(((0, 0), (5, 3))), ((1, 0), (3, 2)));
}

#[test]
fn zoom_of_a_mirrored_region() {
    let half = ZoomFactor::new(1, 2).unwrap();
    assert_eq!(half.zoom_region(((100, 100), (0, 0))), ((75, 75), (25, 25)));
}

#[test]
fn zoom_round_trip_returns_to_the_corners() {
    let region = ((0, 0), (100, 100));
    let factor = ZoomFactor::new(1, 2).unwrap();
    assert_eq!(factor.reciprocal().zoom_region(factor.zoom_region(region)), region);
    let out = ZoomFactor::new(3, 1).unwrap();
    assert_eq!(out.reciprocal().zoom_region(out.zoom_region(region)), region);
}

#[test]
fn zoom_saturates() {
    let huge = ZoomFactor::new(u32::MAX, 1).unwrap();
    assert_eq!(
        huge.zoom_region(((i64::MIN, -1), (i64::MAX, 1))),
        ((i64::MIN, -4_294_967_295), (i64::MAX, 4_294_967_295))
    );
}

#[test]
fn zoom_can_collapse_a_small_region() {
    let tiny = ZoomFactor::new(1, u32::MAX).unwrap();
    assert_eq!(tiny.zoom_region(((0, 0), (2, 2))), ((0, 0), (1, 1)));
    assert_eq!(tiny.zoom_region(((0, 0), (1, 1))), ((0, 0), (0, 0)));
}

#[test]
fn zoom_round_trip_with_rounding_stays_close() {
    let regions = [((0i64, 0i64), (5i64, 3i64)), ((-7, 11), (1_000, -13)), ((1, 2), (2, 1))];
    let factors = [(1u32, 2u32), (2, 1), (3, 7), (7, 3), (1, 100), (100, 1), (999, 1_000)];
    for region in regions {
        for (numer, denom) in factors {
            let factor = ZoomFactor::new(numer, denom).unwrap();
            let back = factor.reciprocal().zoom_region(factor.zoom_region(region));
            let tolerance = (denom / numer + 1) as i64;
            assert!((back.0 .0 - region.0 .0).abs() <= tolerance);
            assert!((back.0 .1 - region.0 .1).abs() <= tolerance);
            assert!((back.1 .0 - region.1 .0).abs() <= tolerance);
            assert!((back.1 .1 - region.1 .1).abs() <= tolerance);
        }
    }
}

#[test]
fn zoom_round_trip_with_rounding_exact_values() {
    let half = ZoomFactor::new(1, 2).unwrap();
    let there = half.zoom_region(((0, 0), (5, 3)));
    assert_eq!(there, ((1, 0), (3, 2)));
    assert_eq!(half.reciprocal().zoom_region(there), ((0, -1), (4, 3)));
}
