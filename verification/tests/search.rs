use ballistics::angle::UNITS_PER_DEGREE;
use ballistics::{
    AimSearch, Angle, Cursor, RangeSearch, Scalar, SolveError, Stride, TrajectoryKind,
};

fn bits(x: f64) -> Scalar {
    Scalar::from_bits(x.to_bits())
}

/// The angle of `millionths` millionths of a degree.
fn micro(millionths: i128) -> Angle {
    Angle::from_units(millionths * (UNITS_PER_DEGREE / 1_000_000))
}

#[test]
fn a_cursor_starts_with_a_stride_of_one_degree() {
    let cursor = Cursor::start(Angle::from_degrees(45), true, 6);
    assert_eq!(cursor.angle, Angle::from_degrees(45));
    assert_eq!(cursor.stride, Stride { descending: true, level: 0 });
    assert_eq!(cursor.iterations, 0);
    assert_eq!(cursor.precision, 6);
    assert!(!cursor.is_finished());
}

#[test]
fn a_cursor_that_keeps_its_stride_moves_on() {
    let mut cursor = Cursor::start(Angle::from_degrees(45), true, 6);
    assert_eq!(cursor.step(false, 0), Ok(()));
    assert_eq!(cursor.angle, Angle::from_degrees(44));
    assert_eq!(cursor.stride, Stride { descending: true, level: 0 });
    assert_eq!(cursor.iterations, 0);
}

#[test]
fn a_cursor_that_turns_moves_back_by_a_tenth() {
    let mut cursor = Cursor::start(Angle::from_degrees(45), true, 6);
    assert_eq!(cursor.step(true, 1), Ok(()));
    assert_eq!(cursor.angle, micro(45_100_000));
    assert_eq!(cursor.stride, Stride { descending: false, level: 1 });
    assert_eq!(cursor.iterations, 1);
    assert_eq!(cursor.step(true, 1), Ok(()));
    assert_eq!(cursor.angle, micro(45_090_000));
    assert_eq!(cursor.stride, Stride { descending: true, level: 2 });
    assert_eq!(cursor.iterations, 2);
}

#[test]
fn a_cursor_ends_when_its_iterations_reach_the_precision() {
    let mut cursor = Cursor::start(Angle::from_degrees(10), false, 2);
    assert_eq!(cursor.step(true, 1), Ok(()));
    assert!(!cursor.is_finished());
    assert_eq!(cursor.angle, micro(9_900_000));
    // The attempt that ends the search is its last: the cursor stays.
    assert_eq!(cursor.step(true, 1), Ok(()));
    assert!(cursor.is_finished());
    assert_eq!(cursor.angle, micro(9_900_000));
    assert_eq!(cursor.stride, Stride { descending: true, level: 1 });
    let mut jump = Cursor::start(Angle::from_degrees(10), false, 3);
    assert_eq!(jump.step(false, 5), Ok(()));
    assert_eq!(jump.iterations, 5);
    assert!(jump.is_finished());
    assert_eq!(jump.angle, Angle::from_degrees(10));
    let mut edge = Cursor::start(Angle::from_degrees(90), false, 5);
    assert_eq!(edge.step(false, 5), Ok(()));
    assert!(edge.is_finished());
}

#[test]
fn a_cursor_that_would_leave_the_cone_diverges_and_stays() {
    let mut cursor = Cursor::start(Angle::from_degrees(-90), true, 6);
    let before = cursor;
    assert_eq!(cursor.step(false, 0), Err(SolveError::Diverged));
    assert_eq!(cursor, before);
    let mut top = Cursor::start(Angle::from_degrees(90), false, 6);
    assert_eq!(top.step(false, 5), Err(SolveError::Diverged));
    assert_eq!(top.iterations, 0);
    assert_eq!(top.step(true, 1), Ok(()));
    assert_eq!(top.angle, micro(89_900_000));
}

#[test]
fn a_cursor_at_the_finest_level_turns_on_the_spot() {
    let mut cursor = Cursor {
        angle: Angle::from_degrees(30),
        stride: Stride { descending: false, level: 36 },
        iterations: 36,
        precision: 40,
    };
    assert_eq!(cursor.step(false, 0), Ok(()));
    assert_eq!(cursor.angle.to_units(), 30 * UNITS_PER_DEGREE + 1);
    assert_eq!(cursor.step(true, 1), Ok(()));
    assert_eq!(cursor.stride, Stride { descending: true, level: 37 });
    assert_eq!(cursor.angle.to_units(), 30 * UNITS_PER_DEGREE + 1);
    assert_eq!(cursor.iterations, 37);
    assert_eq!(cursor.step(true, 1), Ok(()));
    assert_eq!(cursor.stride, Stride { descending: false, level: 37 });
    assert_eq!(cursor.angle.to_units(), 30 * UNITS_PER_DEGREE + 1);
    assert_eq!(cursor.iterations, 38);
    let before = cursor;
    assert_eq!(cursor.step(false, 0), Ok(()));
    assert_eq!(cursor, before);
}

/// A range search whose stride has shrunk to nothing.
fn spent_range_search() -> RangeSearch {
    RangeSearch {
        cursor: Cursor {
            angle: Angle::from_degrees(30),
            stride: Stride { descending: true, level: 37 },
            iterations: 40,
            precision: 50,
        },
        best: bits(9.0),
        achieved_at: Some(Angle::from_degrees(31)),
    }
}

#[test]
fn a_range_search_that_an_attempt_leaves_as_it_was_diverges() {
    let mut search = spent_range_search();
    let before = search;
    assert_eq!(search.record(None), Err(SolveError::Diverged));
    assert_eq!(search, before);
}

#[test]
fn a_range_search_without_stride_still_counts() {
    let mut search = spent_range_search();
    assert_eq!(search.record(Some(bits(8.0))), Ok(()));
    assert_eq!(search.cursor.iterations, 41);
    assert_eq!(search.cursor.angle, Angle::from_degrees(30));
    assert_eq!(search.cursor.stride, Stride { descending: false, level: 37 });
    assert_eq!(search.best, bits(9.0));
    assert_eq!(search.record(Some(bits(10.0))), Ok(()));
    assert_eq!(search.cursor.iterations, 41);
    assert_eq!(search.cursor.angle, Angle::from_degrees(30));
    assert_eq!(search.best, bits(10.0));
    assert_eq!(search.achieved_at, Some(Angle::from_degrees(30)));
    assert_eq!(search.record(Some(bits(10.0))), Ok(()));
    assert_eq!(search.cursor.iterations, 46);
    assert_eq!(search.record(Some(bits(10.0))), Ok(()));
    assert_eq!(search.cursor.iterations, 51);
    assert!(search.cursor.is_finished());
}

#[test]
fn an_aim_search_that_an_attempt_leaves_as_it_was_diverges() {
    let mut search = AimSearch {
        cursor: Cursor {
            angle: Angle::from_degrees(30),
            stride: Stride { descending: true, level: 37 },
            iterations: 37,
            precision: 40,
        },
        target: bits(100.0),
    };
    let before = search;
    assert_eq!(search.record(None), Err(SolveError::Diverged));
    assert_eq!(search.record(Some(bits(100.0))), Err(SolveError::Diverged));
    assert_eq!(search.record(Some(bits(101.0))), Err(SolveError::Diverged));
    assert_eq!(search, before);
    assert_eq!(search.record(Some(bits(99.0))), Ok(()));
    assert_eq!(search.cursor.iterations, 38);
    assert_eq!(search.cursor.angle, Angle::from_degrees(30));
    assert_eq!(search.cursor.stride, Stride { descending: false, level: 37 });
}

#[test]
fn a_range_search_starts_at_forty_five_degrees_going_down() {
    let search = RangeSearch::start(6);
    assert_eq!(search.cursor, Cursor::start(Angle::from_degrees(45), true, 6));
    assert_eq!(search.best, Scalar::new_zero());
    assert_eq!(search.achieved_at, None);
    assert_eq!(search.to_solution().distance, Scalar::new_zero());
    assert!(!search.to_solution().attained);
    assert_eq!(search.to_solution().angle, Angle::from_degrees(45));
}

#[test]
fn a_farther_impact_becomes_the_best_and_the_search_goes_on() {
    let mut search = RangeSearch::start(6);
    assert_eq!(search.record(Some(bits(10.0))), Ok(()));
    assert_eq!(search.best, bits(10.0));
    assert_eq!(search.cursor.angle, Angle::from_degrees(44));
    assert_eq!(search.cursor.iterations, 0);
    assert_eq!(search.achieved_at, Some(Angle::from_degrees(45)));
    assert_eq!(search.record(Some(bits(12.0))), Ok(()));
    assert_eq!(search.best, bits(12.0));
    assert_eq!(search.achieved_at, Some(Angle::from_degrees(44)));
    assert_eq!(search.cursor.angle, Angle::from_degrees(43));
    assert_eq!(search.cursor.stride, Stride { descending: true, level: 0 });
}

#[test]
fn a_nearer_impact_turns_the_search_and_counts_one() {
    let mut search = RangeSearch::start(6);
    assert_eq!(search.record(Some(bits(12.0))), Ok(()));
    assert_eq!(search.record(Some(bits(11.0))), Ok(()));
    assert_eq!(search.best, bits(12.0));
    assert_eq!(search.achieved_at, Some(Angle::from_degrees(45)));
    assert_eq!(search.cursor.iterations, 1);
    assert_eq!(search.cursor.stride, Stride { descending: false, level: 1 });
    assert_eq!(search.cursor.angle, micro(44_100_000));
}

#[test]
fn an_impact_level_with_the_best_counts_five() {
    let mut search = RangeSearch::start(6);
    assert_eq!(search.record(Some(bits(12.0))), Ok(()));
    assert_eq!(search.record(Some(bits(12.0))), Ok(()));
    assert_eq!(search.best, bits(12.0));
    assert_eq!(search.cursor.iterations, 5);
    assert_eq!(search.cursor.stride, Stride { descending: true, level: 0 });
    assert_eq!(search.cursor.angle, Angle::from_degrees(43));
    assert!(!search.cursor.is_finished());
    assert_eq!(search.record(Some(bits(12.0))), Ok(()));
    assert_eq!(search.cursor.iterations, 10);
    assert!(search.cursor.is_finished());
    assert_eq!(search.cursor.angle, Angle::from_degrees(43));
    assert_eq!(search.to_solution().distance, bits(12.0));
    assert!(search.to_solution().attained);
    assert_eq!(search.to_solution().angle, Angle::from_degrees(43));
}

#[test]
fn an_attempt_without_impact_only_moves_the_search() {
    let mut search = RangeSearch::start(6);
    assert_eq!(search.record(Some(bits(7.0))), Ok(()));
    assert_eq!(search.record(None), Ok(()));
    assert_eq!(search.best, bits(7.0));
    assert_eq!(search.cursor.iterations, 0);
    assert_eq!(search.cursor.angle, Angle::from_degrees(43));
    assert_eq!(search.cursor.stride, Stride { descending: true, level: 0 });
}

#[test]
fn a_negative_zero_is_level_with_the_initial_best() {
    let mut search = RangeSearch::start(6);
    assert_eq!(search.record(Some(bits(-0.0))), Ok(()));
    assert_eq!(search.best, bits(-0.0));
    assert_eq!(search.cursor.iterations, 5);
}

#[test]
fn a_distance_that_is_no_number_is_taken_as_level() {
    let mut search = RangeSearch::start(6);
    assert_eq!(search.record(Some(bits(3.0))), Ok(()));
    assert_eq!(search.record(Some(bits(f64::NAN))), Ok(()));
    assert_eq!(search.best, bits(f64::NAN));
    assert_eq!(search.cursor.iterations, 5);
    assert_eq!(search.cursor.stride, Stride { descending: true, level: 0 });
}

#[test]
fn a_negative_impact_distance_is_nearer_than_the_initial_best() {
    let mut search = RangeSearch::start(6);
    assert_eq!(search.record(Some(bits(-4.0))), Ok(()));
    assert_eq!(search.best, Scalar::new_zero());
    assert_eq!(search.achieved_at, None);
    assert_eq!(search.cursor.iterations, 1);
    assert_eq!(search.cursor.stride, Stride { descending: false, level: 1 });
}

#[test]
fn a_range_search_that_fails_stays_as_it_was() {
    let mut search = RangeSearch {
        cursor: Cursor::start(Angle::from_degrees(-90), true, 6),
        best: bits(5.0),
        achieved_at: Some(Angle::from_degrees(-89)),
    };
    let before = search;
    assert_eq!(search.record(Some(bits(6.0))), Err(SolveError::Diverged));
    assert_eq!(search, before);
    assert_eq!(search.record(None), Err(SolveError::Diverged));
    assert_eq!(search.record(Some(bits(5.0))), Err(SolveError::Diverged));
    assert_eq!(search, before);
    assert_eq!(search.record(Some(bits(4.0))), Ok(()));
    assert_eq!(search.cursor.angle, micro(-89_900_000));
}

#[test]
fn a_direct_search_starts_going_down_and_a_lofted_one_going_up() {
    let direct = AimSearch::start(Angle::from_degrees(40), TrajectoryKind::Direct, bits(100.0), 3);
    assert_eq!(direct.cursor.stride, Stride { descending: true, level: 0 });
    assert_eq!(direct.cursor.angle, Angle::from_degrees(40));
    assert_eq!(direct.target, bits(100.0));
    let lofted = AimSearch::start(Angle::from_degrees(40), TrajectoryKind::Lofted, bits(100.0), 3);
    assert_eq!(lofted.cursor.stride, Stride { descending: false, level: 0 });
}

#[test]
fn a_descending_search_turns_when_it_falls_short() {
    let mut search = AimSearch::start(Angle::from_degrees(40), TrajectoryKind::Direct, bits(100.0), 3);
    assert_eq!(search.record(Some(bits(120.0))), Ok(()));
    assert_eq!(search.cursor.angle, Angle::from_degrees(39));
    assert_eq!(search.cursor.iterations, 0);
    assert_eq!(search.record(Some(bits(100.0))), Ok(()));
    assert_eq!(search.cursor.angle, Angle::from_degrees(38));
    assert_eq!(search.cursor.iterations, 0);
    assert_eq!(search.record(Some(bits(90.0))), Ok(()));
    assert_eq!(search.cursor.stride, Stride { descending: false, level: 1 });
    assert_eq!(search.cursor.angle, micro(38_100_000));
    assert_eq!(search.cursor.iterations, 1);
}

#[test]
fn a_climbing_search_turns_when_it_overshoots() {
    let mut search = AimSearch::start(Angle::from_degrees(40), TrajectoryKind::Lofted, bits(100.0), 3);
    assert_eq!(search.record(Some(bits(90.0))), Ok(()));
    assert_eq!(search.cursor.angle, Angle::from_degrees(41));
    assert_eq!(search.record(Some(bits(100.0))), Ok(()));
    assert_eq!(search.cursor.angle, Angle::from_degrees(42));
    assert_eq!(search.cursor.iterations, 0);
    assert_eq!(search.record(Some(bits(100.5))), Ok(()));
    assert_eq!(search.cursor.stride, Stride { descending: true, level: 1 });
    assert_eq!(search.cursor.angle, micro(41_900_000));
    assert_eq!(search.cursor.iterations, 1);
}

#[test]
fn an_aim_search_runs_to_its_precision() {
    let mut search = AimSearch::start(Angle::from_degrees(40), TrajectoryKind::Direct, bits(100.0), 3);
    assert_eq!(search.record(Some(bits(90.0))), Ok(()));
    assert_eq!(search.record(Some(bits(99.0))), Ok(()));
    assert_eq!(search.cursor.angle, micro(40_200_000));
    assert_eq!(search.record(Some(bits(101.0))), Ok(()));
    assert_eq!(search.cursor.angle, micro(40_190_000));
    assert_eq!(search.cursor.iterations, 2);
    assert_eq!(search.record(None), Ok(()));
    assert_eq!(search.cursor.angle, micro(40_180_000));
    assert_eq!(search.record(Some(bits(f64::NAN))), Ok(()));
    assert_eq!(search.cursor.angle, micro(40_170_000));
    assert!(!search.cursor.is_finished());
    assert_eq!(search.record(Some(bits(99.5))), Ok(()));
    assert_eq!(search.cursor.iterations, 3);
    assert!(search.cursor.is_finished());
    assert_eq!(search.cursor.angle, micro(40_170_000));
    assert_eq!(search.cursor.stride, Stride { descending: true, level: 2 });
}

#[test]
fn an_aim_search_that_fails_stays_as_it_was() {
    let mut search = AimSearch::start(Angle::from_degrees(90), TrajectoryKind::Lofted, bits(100.0), 3);
    let before = search;
    assert_eq!(search.record(Some(bits(50.0))), Err(SolveError::Diverged));
    assert_eq!(search, before);
    assert_eq!(search.record(None), Err(SolveError::Diverged));
    assert_eq!(search.record(Some(bits(150.0))), Ok(()));
    assert_eq!(search.cursor.angle, micro(89_900_000));
}
