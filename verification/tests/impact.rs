use ballistics::{locate_impact, ImpactDetector, Scalar, TrajectoryPoint};

fn bits(x: f64) -> Scalar {
    Scalar::from_bits(x.to_bits())
}

fn path(heights: &[f64]) -> Vec<TrajectoryPoint> {
    heights
        .iter()
        .enumerate()
        .map(|(i, &y)| TrajectoryPoint { x: bits(i as f64), y: bits(y) })
        .collect()
}

#[test]
fn a_level_target_is_struck_at_the_first_sample_below_it() {
    let points = path(&[0.0, 1.0, 2.0, 1.0, -0.5, -3.0]);
    assert_eq!(locate_impact(&points, bits(0.0)), Some(4));
}

#[test]
fn a_sample_on_the_plane_is_no_impact() {
    let points = path(&[0.0, 1.0, 0.0, -0.0, -1e-300]);
    assert_eq!(locate_impact(&points, bits(0.0)), Some(4));
}

#[test]
fn a_target_above_the_launch_point_is_struck_at_the_launch() {
    // The height is relative to the target plane: the launch point of a
    // target ten metres up lies ten metres below it, and the plane counts as
    // cleared from the start.
    let points = path(&[-10.0, -9.0, -3.0, 2.0, 5.0, 2.0, -1.0]);
    assert_eq!(locate_impact(&points, bits(10.0)), Some(0));
}

#[test]
fn a_target_below_the_launch_point_has_to_be_cleared_first() {
    let points = path(&[-2.0, -1.0, 0.5, 3.0, 1.0, -0.25, -4.0]);
    assert_eq!(locate_impact(&points, bits(-10.0)), Some(5));
    // The same samples with the plane counted as cleared strike at once.
    assert_eq!(locate_impact(&points, bits(0.0)), Some(0));
}

#[test]
fn the_seed_goes_by_the_sign_of_the_offset_alone() {
    let below = path(&[-1.0, -2.0, -3.0]);
    assert_eq!(locate_impact(&below, bits(-0.001)), None);
    assert_eq!(locate_impact(&below, bits(-0.0)), Some(0));
    assert_eq!(locate_impact(&below, bits(0.0)), Some(0));
    assert_eq!(locate_impact(&below, bits(0.001)), Some(0));
    assert_eq!(locate_impact(&below, bits(f64::NAN)), Some(0));
    assert_eq!(locate_impact(&below, bits(f64::NEG_INFINITY)), None);
}

#[test]
fn a_flight_that_stays_up_has_no_impact() {
    let points = path(&[0.0, 1.0, 2.0, 3.0]);
    assert_eq!(locate_impact(&points, bits(0.0)), None);
    assert_eq!(locate_impact(&points, bits(-5.0)), None);
    assert_eq!(locate_impact(&Vec::new(), bits(0.0)), None);
}

#[test]
fn heights_that_are_no_numbers_neither_clear_nor_strike() {
    let points = path(&[f64::NAN, -1.0, f64::NAN, 1.0, f64::NAN, -1.0]);
    assert_eq!(locate_impact(&points, bits(-1.0)), Some(5));
    assert_eq!(locate_impact(&points, bits(1.0)), Some(1));
}

#[test]
fn the_detector_carries_one_flag() {
    let mut detector = ImpactDetector::new(bits(-3.0));
    assert!(!detector.cleared);
    assert!(!detector.observe(TrajectoryPoint { x: bits(0.0), y: bits(-1.0) }));
    assert!(!detector.cleared);
    assert!(!detector.observe(TrajectoryPoint { x: bits(1.0), y: bits(0.0) }));
    assert!(detector.cleared);
    assert!(!detector.observe(TrajectoryPoint { x: bits(2.0), y: bits(4.0) }));
    assert!(detector.observe(TrajectoryPoint { x: bits(3.0), y: bits(-0.5) }));
    assert!(detector.cleared);
    let seeded = ImpactDetector::new(bits(3.0));
    assert!(seeded.cleared);
    assert!(ImpactDetector::new(bits(0.0)).cleared);
}
