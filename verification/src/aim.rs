//! The distance-matching solve.
//!
//! The solve first finds the maximum range; a target beyond it is infeasible.
//! It then searches from the angle of the maximum range, stepping down by one
//! degree for a direct trajectory and up for a lofted one. An attempt that
//! overshoots the target while the search is climbing, or falls short of it
//! while the search is descending, turns the search around, shrinks the
//! stride to a tenth and counts one iteration. The search ends when its
//! iterations reach the precision, and returns the flight of its last attempt
//! with the angle of that attempt.
//!
//! A search that an attempt leaves exactly as it was would repeat that
//! attempt for ever; it fails instead. This happens to an attempt that does
//! not turn the search once the stride has shrunk to nothing, so that no
//! search of a precision of 38 or more can end.

use vstd::prelude::*;
use crate::angle::{
    lemma_pow10_bounds, lemma_reversed_is_a_tenth, Angle, FINEST_LEVEL, SPENT_LEVEL,
};
use crate::range::{find_distance_angle, impacts, lemma_max_range_errors, max_range};
use crate::sampler::{flight, fly, impact_distance, Flight, FlightStatus};
use crate::scalar::{lemma_trichotomy, Scalar};
use crate::scenario::{Scenario, SolveError};
use crate::search::{lemma_moved_progress, Cursor, MAX_PRECISION};
use crate::trajectory::{model_ready_in_cone, TrajectoryPoint};

verus! {

/// The trajectory that a distance-matching solve is asked for.
#[derive(Clone, Copy, Debug, PartialEq, Eq, Structural)]
pub enum TrajectoryKind {
    /// The flat trajectory: the search starts by lowering the angle.
    Direct,
    /// The high trajectory: the search starts by raising the angle.
    Lofted,
}

/// State of a distance-matching search.
#[derive(Clone, Copy, Debug, PartialEq, Eq, Structural)]
pub struct AimSearch {
    pub cursor: Cursor,
    /// The distance to match.
    pub target: Scalar,
}

/// Result of a distance-matching solve.
#[derive(Clone, Debug, PartialEq, Eq)]
pub struct AimSolution {
    /// The flight of the last attempt. It ends in an impact.
    pub flight: Flight,
    /// The angle of the last attempt, at which `flight` was flown.
    pub angle: Angle,
}

impl AimSearch {
    /// The search before its first attempt.
    pub open spec fn initial(
        seed: Angle,
        kind: TrajectoryKind,
        target: Scalar,
        precision: u8,
    ) -> AimSearch {
        AimSearch { cursor: Cursor::initial(seed, kind == TrajectoryKind::Direct, precision), target }
    }

    /// An attempt with this outcome turns the search around: it fell short
    /// of the target while the search was descending, or overshot it while
    /// the search was climbing.
    pub open spec fn turns(self, outcome: Option<Scalar>) -> bool {
        match outcome {
            None => false,
            Some(x) => if self.cursor.stride.descending {
                x.less(self.target)
            } else {
                x.greater(self.target)
            },
        }
    }

    /// The search after an attempt whose impact distance is `outcome`, or
    /// that had no impact.
    pub open spec fn after(self, outcome: Option<Scalar>) -> Result<AimSearch, SolveError> {
        let moved = if self.turns(outcome) {
            self.cursor.moved(true, 1)
        } else {
            self.cursor.moved(false, 0)
        };
        match moved {
            Err(e) => Err(e),
            Ok(cursor) => if cursor == self.cursor {
                Err(SolveError::Diverged)
            } else {
                Ok(AimSearch { cursor, target: self.target })
            },
        }
    }

    /// The angle one stride back from the cursor: the angle of the attempt
    /// before, once the search has made one.
    pub open spec fn previous(self) -> Angle {
        Angle { units: (self.cursor.angle.units - self.cursor.stride.offset()) as i128 }
    }

    /// The stride has been shrunk once for each iteration counted, as far as
    /// a stride can be.
    pub open spec fn in_step(self) -> bool {
        if self.cursor.iterations < SPENT_LEVEL {
            self.cursor.stride.level == self.cursor.iterations
        } else {
            self.cursor.stride.level == SPENT_LEVEL
        }
    }

    /// Starts a search at `seed`.
    pub fn start(seed: Angle, kind: TrajectoryKind, target: Scalar, precision: u8) -> (r:
        AimSearch)
        requires
            seed.in_cone(),
            1 <= precision <= MAX_PRECISION,
        ensures
            r == AimSearch::initial(seed, kind, target, precision),
            r.cursor.wf(),
            !r.cursor.finished(),
    {
        let descending = match kind {
            TrajectoryKind::Direct => true,
            TrajectoryKind::Lofted => false,
        };
        AimSearch { cursor: Cursor::start(seed, descending, precision), target }
    }

    /// Takes the outcome of the attempt at the cursor's angle. On failure
    /// the search stays as it was.
    pub fn record(&mut self, outcome: Option<Scalar>) -> (r: Result<(), SolveError>)
        requires
            old(self).cursor.wf(),
            !old(self).cursor.finished(),
        ensures
            match old(self).after(outcome) {
                Ok(next) => r.is_ok() && *final(self) == next,
                Err(e) => r == Err::<(), SolveError>(e) && *final(self) == *old(self),
            },
            r.is_ok() ==> final(self).cursor.wf(),
    {
        let turns = match outcome {
            None => false,
            Some(x) => if self.cursor.stride.descending {
                x.lt(self.target)
            } else {
                x.gt(self.target)
            },
        };
        if turns {
            self.cursor.step(true, 1)
        } else {
            let attempted = self.cursor.angle;
            let moved = self.cursor.step(false, 0);
            if moved.is_ok() && self.cursor.angle.units == attempted.units {
                return Err(SolveError::Diverged);
            }
            moved
        }
    }
}

/// Every attempt that a search survives brings it nearer to its end, and
/// only an attempt that turns the search can end it; the search then stays
/// at that attempt's angle and keeps the stride that led there.
pub proof fn lemma_after_progress(search: AimSearch, outcome: Option<Scalar>)
    requires
        search.cursor.wf(),
        !search.cursor.finished(),
        search.after(outcome).is_ok(),
    ensures
        search.after(outcome).unwrap().cursor.wf(),
        search.after(outcome).unwrap().cursor.precision == search.cursor.precision,
        search.after(outcome).unwrap().target == search.target,
        search.after(outcome).unwrap().cursor.finished() ==> search.turns(outcome) && search.after(
            outcome,
        ).unwrap().cursor.angle == search.cursor.angle && search.after(
            outcome,
        ).unwrap().cursor.stride == search.cursor.stride,
        search.after(outcome).unwrap().cursor.remaining() < search.cursor.remaining() || (
        search.after(outcome).unwrap().cursor.remaining() == search.cursor.remaining()
            && search.after(outcome).unwrap().cursor.room() < search.cursor.room()),
{
    if search.turns(outcome) {
        lemma_moved_progress(search.cursor, true, 1);
    } else {
        lemma_moved_progress(search.cursor, false, 0);
    }
}

/// The state in which a search ends when `impact` gives the impact distance
/// of an attempt at each angle, or the failure that stops it.
pub open spec fn aim_search(
    impact: spec_fn(Angle) -> Option<Scalar>,
    search: AimSearch,
) -> Result<AimSearch, SolveError>
    decreases search.cursor.remaining(), search.cursor.room(),
    when search.cursor.wf()
    via aim_search_decreases
{
    if search.cursor.finished() {
        Ok(search)
    } else {
        match search.after(impact(search.cursor.angle)) {
            Err(e) => Err(e),
            Ok(next) => aim_search(impact, next),
        }
    }
}

#[via_fn]
proof fn aim_search_decreases(impact: spec_fn(Angle) -> Option<Scalar>, search: AimSearch) {
    if !search.cursor.finished() && search.after(impact(search.cursor.angle)).is_ok() {
        lemma_after_progress(search, impact(search.cursor.angle));
    }
}

/// The state in which the search of a distance-matching solve ends, or why
/// the solve fails. The search starts at the angle that the maximum-range
/// solve returns.
pub open spec fn aimed<F: Fn(&Scenario, Angle, u64) -> TrajectoryPoint>(
    model: F,
    scenario: Scenario,
    precision: i8,
    kind: TrajectoryKind,
    distance: Scalar,
) -> Result<AimSearch, SolveError> {
    match max_range(model, scenario, precision) {
        Err(e) => Err(e),
        Ok(range) => if distance.greater(range.distance) {
            Err(SolveError::InfeasibleTarget { max_distance: range.distance })
        } else {
            aim_search(
                impacts(model, scenario),
                AimSearch::initial(range.angle, kind, distance, precision as u8),
            )
        },
    }
}

/// `r` is what the distance-matching solve returns: the angle at which the
/// search ended with the flight at that angle, which ends in an impact, or
/// the failure.
pub open spec fn solves<F: Fn(&Scenario, Angle, u64) -> TrajectoryPoint>(
    model: F,
    scenario: Scenario,
    precision: i8,
    kind: TrajectoryKind,
    distance: Scalar,
    r: Result<AimSolution, SolveError>,
) -> bool {
    match r {
        Ok(solution) => {
            &&& aimed(model, scenario, precision, kind, distance).is_ok()
            &&& solution.angle == aimed(
                model,
                scenario,
                precision,
                kind,
                distance,
            ).unwrap().cursor.angle
            &&& solution.flight@ == flight(model, scenario, solution.angle)
            &&& solution.flight.status == FlightStatus::Impact
        },
        Err(e) => aimed(model, scenario, precision, kind, distance) == Err::<AimSearch, SolveError>(
            e,
        ),
    }
}

/// Finds a launch angle at which the projectile strikes the target plane at
/// `distance`, on a trajectory of the kind asked for.
///
/// A scenario that is not valid, or a precision that is not positive, is
/// rejected before the model is called. A distance beyond the maximum range
/// is rejected with that range and without a trajectory. The solve fails
/// where a search cannot end; at a precision of 38 or more none can, since
/// each iteration takes a turn and a stride shrunk 37 times moves nothing.
pub fn find_trajectory_angle<F: Fn(&Scenario, Angle, u64) -> TrajectoryPoint>(
    scenario: &Scenario,
    precision: i8,
    kind: TrajectoryKind,
    distance: Scalar,
    model: &F,
) -> (r: Result<AimSolution, SolveError>)
    requires
        scenario.valid() && precision > 0 ==> model_ready_in_cone(*model, *scenario),
    ensures
        solves(*model, *scenario, precision, kind, distance, r),
{
    let range = match find_distance_angle(scenario, precision, model) {
        Err(e) => {
            return Err(e);
        },
        Ok(range) => range,
    };
    if distance.gt(range.distance) {
        return Err(SolveError::InfeasibleTarget { max_distance: range.distance });
    }
    let mut search = AimSearch::start(range.angle, kind, distance, precision as u8);
    loop
        invariant
            0 < precision,
            scenario.valid(),
            search.cursor.wf(),
            !search.cursor.finished(),
            model_ready_in_cone(*model, *scenario),
            aim_search(impacts(*model, *scenario), search) == aim_search(
                impacts(*model, *scenario),
                AimSearch::initial(range.angle, kind, distance, precision as u8),
            ),
            max_range(*model, *scenario, precision) == Ok::<_, SolveError>(range),
            !distance.greater(range.distance),
        decreases search.cursor.remaining(), search.cursor.room(),
    {
        let attempted = search.cursor.angle;
        let attempt = fly(scenario, attempted, model);
        let outcome = attempt.impact_distance();
        proof {
            assert(outcome == impacts(*model, *scenario)(search.cursor.angle));
            assert(aim_search(impacts(*model, *scenario), search) == (match search.after(outcome) {
                Err(e) => Err(e),
                Ok(next) => aim_search(impacts(*model, *scenario), next),
            }));
            if search.after(outcome).is_ok() {
                lemma_after_progress(search, outcome);
            }
        }
        match search.record(outcome) {
            Err(e) => {
                return Err(e);
            },
            Ok(_) => {},
        }
        if search.cursor.is_finished() {
            return Ok(AimSolution { flight: attempt, angle: attempted });
        }
    }
}

/// A search fails only where it cannot move on: at an attempt that does not
/// turn it and whose stride leads out of the launch cone or is nothing, or
/// at a turn that leads out of the launch cone.
pub proof fn lemma_after_fails(search: AimSearch, outcome: Option<Scalar>)
    requires
        search.cursor.wf(),
        !search.cursor.finished(),
        search.after(outcome).is_err(),
    ensures
        search.after(outcome) == Err::<AimSearch, SolveError>(SolveError::Diverged),
        search.turns(outcome) ==> search.cursor.angle.advanced(
            search.cursor.stride.reversed(),
        ).is_none(),
        !search.turns(outcome) ==> search.cursor.angle.advanced(search.cursor.stride).is_none()
            || search.cursor.stride.level > FINEST_LEVEL,
{
    lemma_reversed_is_a_tenth(search.cursor.stride);
    if search.cursor.stride.level <= FINEST_LEVEL {
        lemma_pow10_bounds((FINEST_LEVEL - search.cursor.stride.level) as nat);
    }
}

/// A search that ends has counted its iterations and stays at the angle of
/// its last attempt, which lies in the launch cone and turned the search, so
/// that its flight landed. A search fails only as one that cannot end.
pub proof fn lemma_aim_search_ends(impact: spec_fn(Angle) -> Option<Scalar>, search: AimSearch)
    requires
        search.cursor.wf(),
        !search.cursor.finished(),
    ensures
        match aim_search(impact, search) {
            Ok(end) => {
                &&& end.cursor.wf()
                &&& end.cursor.finished()
                &&& end.target == search.target
                &&& end.turns(impact(end.cursor.angle))
                &&& impact(end.cursor.angle).is_some()
            },
            Err(e) => e == SolveError::Diverged,
        },
    decreases search.cursor.remaining(), search.cursor.room(),
{
    let outcome = impact(search.cursor.angle);
    if search.after(outcome).is_ok() {
        lemma_after_progress(search, outcome);
        let next = search.after(outcome).unwrap();
        if !next.cursor.finished() {
            lemma_aim_search_ends(impact, next);
        }
    }
}

/// The precision is the angular resolution of a search. A search that ends
/// made its last attempt with a stride of 10^(1 - precision) degree, which
/// asks for a precision of at most 37. That attempt missed the target in the
/// direction of the stride: it fell short while the search was descending,
/// or overshot while the search was climbing. The attempt before, one such
/// stride back, did not miss the target in that way, so that the two bracket
/// the target. Only a search that ends with its very first attempt has no
/// attempt before.
pub proof fn lemma_aim_brackets(
    impact: spec_fn(Angle) -> Option<Scalar>,
    search: AimSearch,
    first: bool,
)
    requires
        search.cursor.wf(),
        !search.cursor.finished(),
        search.in_step(),
        first ==> search.cursor.stride.level <= FINEST_LEVEL,
        !first ==> !search.turns(impact(search.previous())),
    ensures
        match aim_search(impact, search) {
            Ok(end) => {
                &&& search.cursor.precision <= SPENT_LEVEL
                &&& end.cursor.stride.level == search.cursor.precision - 1
                &&& end.turns(impact(end.cursor.angle))
                &&& (first && end.cursor.angle == search.cursor.angle) || !end.turns(
                    impact(end.previous()),
                )
            },
            Err(e) => e == SolveError::Diverged,
        },
    decreases search.cursor.remaining(), search.cursor.room(),
{
    let outcome = impact(search.cursor.angle);
    lemma_reversed_is_a_tenth(search.cursor.stride);
    if search.after(outcome).is_ok() {
        lemma_after_progress(search, outcome);
        let next = search.after(outcome).unwrap();
        if outcome.is_some() {
            lemma_trichotomy(outcome.unwrap(), search.target);
        }
        if !next.cursor.finished() {
            assert(next.previous() == search.cursor.angle);
            lemma_aim_brackets(impact, next, false);
        }
    }
}

/// The distance-matching solve rejects its input exactly when the scenario
/// is not valid or the precision is not positive; it calls the target
/// infeasible exactly when the maximum-range solve succeeds and the distance
/// is greater than the range it found, which the error then carries; and it
/// fails otherwise only where a search cannot end. Where it succeeds the
/// distance is not greater than the maximum range, the precision is at most
/// 37, and the flight at the angle returned ends in an impact.
pub proof fn lemma_aimed_errors<F: Fn(&Scenario, Angle, u64) -> TrajectoryPoint>(
    model: F,
    scenario: Scenario,
    precision: i8,
    kind: TrajectoryKind,
    distance: Scalar,
    max_distance: Scalar,
)
    ensures
        aimed(model, scenario, precision, kind, distance) == Err::<AimSearch, SolveError>(
            SolveError::InvalidParameter,
        ) <==> !scenario.valid() || precision <= 0,
        aimed(model, scenario, precision, kind, distance) == Err::<AimSearch, SolveError>(
            SolveError::InfeasibleTarget { max_distance },
        ) <==> max_range(model, scenario, precision).is_ok() && distance.greater(
            max_range(model, scenario, precision).unwrap().distance,
        ) && max_distance == max_range(model, scenario, precision).unwrap().distance,
        match aimed(model, scenario, precision, kind, distance) {
            Ok(end) => {
                &&& max_range(model, scenario, precision).is_ok()
                &&& !distance.greater(max_range(model, scenario, precision).unwrap().distance)
                &&& end.cursor.angle.in_cone()
                &&& flight(model, scenario, end.cursor.angle).1 == FlightStatus::Impact
                &&& precision <= SPENT_LEVEL
            },
            Err(e) => e == SolveError::InvalidParameter || e == SolveError::Diverged || (
            max_range(model, scenario, precision).is_ok() && e == SolveError::InfeasibleTarget {
                max_distance: max_range(model, scenario, precision).unwrap().distance,
            }),
        },
{
    lemma_max_range_errors(model, scenario, precision);
    match max_range(model, scenario, precision) {
        Ok(range) => {
            if !distance.greater(range.distance) {
                let start = AimSearch::initial(range.angle, kind, distance, precision as u8);
                lemma_aim_search_ends(impacts(model, scenario), start);
                lemma_aim_brackets(impacts(model, scenario), start, true);
                if aim_search(impacts(model, scenario), start).is_ok() {
                    let end = aim_search(impacts(model, scenario), start).unwrap();
                    assert(impacts(model, scenario)(end.cursor.angle) == impact_distance(
                        flight(model, scenario, end.cursor.angle),
                    ));
                }
            }
        },
        Err(_) => {},
    }
}

/// A distance-matching solve that succeeds has bracketed the target between
/// its last two attempts, 10^(1 - precision) degree apart: the last missed
/// the target in the direction of its stride and the one before did not.
/// Only a solve whose first attempt, at the angle of the maximum range, was
/// its last has no attempt before.
pub proof fn lemma_aimed_brackets<F: Fn(&Scenario, Angle, u64) -> TrajectoryPoint>(
    model: F,
    scenario: Scenario,
    precision: i8,
    kind: TrajectoryKind,
    distance: Scalar,
)
    requires
        aimed(model, scenario, precision, kind, distance).is_ok(),
    ensures
        ({
            let end = aimed(model, scenario, precision, kind, distance).unwrap();
            let impact = impacts(model, scenario);
            &&& end.target == distance
            &&& end.cursor.stride.level == precision - 1
            &&& end.turns(impact(end.cursor.angle))
            &&& end.cursor.angle == max_range(model, scenario, precision).unwrap().angle
                || !end.turns(impact(end.previous()))
        }),
{
    lemma_max_range_errors(model, scenario, precision);
    let range = max_range(model, scenario, precision).unwrap();
    let start = AimSearch::initial(range.angle, kind, distance, precision as u8);
    lemma_aim_search_ends(impacts(model, scenario), start);
    lemma_aim_brackets(impacts(model, scenario), start, true);
}

/// Solving twice gives the same result: what the distance-matching solve
/// returns is fixed by the scenario, the precision, the kind of trajectory,
/// the distance and the model.
pub proof fn lemma_aimed_repeats<F: Fn(&Scenario, Angle, u64) -> TrajectoryPoint>(
    model: F,
    scenario: Scenario,
    precision: i8,
    kind: TrajectoryKind,
    distance: Scalar,
    first: Result<AimSolution, SolveError>,
    second: Result<AimSolution, SolveError>,
)
    requires
        solves(model, scenario, precision, kind, distance, first),
        solves(model, scenario, precision, kind, distance, second),
    ensures
        first.is_ok() == second.is_ok(),
        first.is_ok() ==> first.unwrap().flight@ == second.unwrap().flight@ && first.unwrap().angle
            == second.unwrap().angle,
        first.is_err() ==> first.unwrap_err() == second.unwrap_err(),
{
}

} // verus!
