//! The maximum-range solve.
//!
//! The search starts at 45 degrees and steps down by one degree. An attempt
//! that lands farther than the best distance so far becomes the new best and
//! the search keeps going; one that lands nearer turns the search around,
//! shrinks the stride to a tenth and counts one iteration; one that lands
//! neither farther nor nearer becomes the new best and counts five
//! iterations. An attempt without impact changes nothing. The search ends
//! when its iterations reach the precision, and returns the best distance
//! with the angle of the attempt that landed there.
//!
//! A search that an attempt leaves exactly as it was would repeat that
//! attempt for ever; it fails instead. This happens only to an attempt
//! without impact once the stride has shrunk to nothing.

use vstd::prelude::*;
use crate::angle::{
    lemma_pow10_bounds, lemma_reversed_is_a_tenth, Angle, Stride, FINEST_LEVEL, UNITS_PER_DEGREE,
};
use crate::impact::seeded;
use crate::sampler::{
    flight, fly, impact_distance, lemma_flight_of_still_model, lemma_seeded_flight_lands,
};
use crate::scalar::{lemma_order_transitive, lemma_trichotomy, Scalar};
use crate::scenario::{Scenario, SolveError};
use crate::search::{lemma_moved_progress, Cursor, MAX_PRECISION};
use crate::trajectory::{model_ready_in_cone, position, TrajectoryPoint};

verus! {

/// Degrees of the first attempt.
pub const START_DEGREES: i8 = 45;

/// Iterations counted by an attempt that lands neither farther nor nearer
/// than the best.
pub const MATCH_CREDIT: u8 = 5;

/// State of a maximum-range search.
#[derive(Clone, Copy, Debug, PartialEq, Eq, Structural)]
pub struct RangeSearch {
    pub cursor: Cursor,
    /// The best distance so far; zero before any attempt has been accepted.
    pub best: Scalar,
    /// The angle of the attempt that landed at the best distance, once an
    /// attempt has been accepted.
    pub achieved_at: Option<Angle>,
}

/// Result of a maximum-range solve.
#[derive(Clone, Copy, Debug, PartialEq, Eq, Structural)]
pub struct RangeSolution {
    /// The greatest impact distance of all attempts; zero where no attempt
    /// was accepted.
    pub distance: Scalar,
    /// The angle of the attempt that landed at that distance; where no
    /// attempt was accepted, the angle of the last attempt.
    pub angle: Angle,
    /// An attempt was accepted, so that `angle` achieves `distance`.
    pub attained: bool,
}

impl RangeSearch {
    /// The state is one that a search can hold.
    pub open spec fn wf(self) -> bool {
        &&& self.cursor.wf()
        &&& self.achieved_at.is_some() ==> self.achieved_at.unwrap().in_cone()
    }

    /// The search before its first attempt.
    pub open spec fn initial(precision: u8) -> RangeSearch {
        RangeSearch {
            cursor: Cursor::initial(
                Angle { units: (START_DEGREES * UNITS_PER_DEGREE) as i128 },
                true,
                precision,
            ),
            best: Scalar::zero(),
            achieved_at: None,
        }
    }

    /// The attempt landed farther than the best.
    pub open spec fn farther(self, outcome: Option<Scalar>) -> bool {
        outcome.is_some() && outcome.unwrap().greater(self.best)
    }

    /// The attempt landed nearer than the best.
    pub open spec fn nearer(self, outcome: Option<Scalar>) -> bool {
        outcome.is_some() && outcome.unwrap().less(self.best)
    }

    /// The attempt landed, and not nearer than the best: it is accepted.
    pub open spec fn accepted(self, outcome: Option<Scalar>) -> bool {
        outcome.is_some() && !outcome.unwrap().less(self.best)
    }

    /// The search after an attempt whose impact distance is `outcome`, or
    /// that had no impact.
    pub open spec fn after(self, outcome: Option<Scalar>) -> Result<RangeSearch, SolveError> {
        let moved = if self.nearer(outcome) {
            self.cursor.moved(true, 1)
        } else if self.farther(outcome) || outcome.is_none() {
            self.cursor.moved(false, 0)
        } else {
            self.cursor.moved(false, MATCH_CREDIT)
        };
        match moved {
            Err(e) => Err(e),
            Ok(cursor) => {
                let next = if self.accepted(outcome) {
                    RangeSearch {
                        cursor,
                        best: outcome.unwrap(),
                        achieved_at: Some(self.cursor.angle),
                    }
                } else {
                    RangeSearch { cursor, ..self }
                };
                if next == self {
                    Err(SolveError::Diverged)
                } else {
                    Ok(next)
                }
            },
        }
    }

    /// One if an attempt with this outcome lands farther than the best, else
    /// zero. A search whose stride is nothing repeats an attempt that landed
    /// farther once more, and then finds it level with the best.
    pub open spec fn pending(self, outcome: Option<Scalar>) -> nat {
        if self.farther(outcome) {
            1
        } else {
            0
        }
    }

    /// The angle one stride back from the cursor: the angle of the attempt
    /// before, once the search has made one.
    pub open spec fn previous(self) -> Angle {
        Angle { units: (self.cursor.angle.units - self.cursor.stride.offset()) as i128 }
    }

    /// What a search that has ended returns.
    pub open spec fn solution(self) -> RangeSolution {
        RangeSolution {
            distance: self.best,
            angle: match self.achieved_at {
                Some(angle) => angle,
                None => self.cursor.angle,
            },
            attained: self.achieved_at.is_some(),
        }
    }

    /// Starts a search.
    pub fn start(precision: u8) -> (r: RangeSearch)
        requires
            1 <= precision <= MAX_PRECISION,
        ensures
            r == RangeSearch::initial(precision),
            r.wf(),
            !r.cursor.finished(),
    {
        RangeSearch {
            cursor: Cursor::start(Angle::from_degrees(START_DEGREES), true, precision),
            best: Scalar::new_zero(),
            achieved_at: None,
        }
    }

    /// Takes the outcome of the attempt at the cursor's angle. On failure
    /// the search stays as it was.
    pub fn record(&mut self, outcome: Option<Scalar>) -> (r: Result<(), SolveError>)
        requires
            old(self).wf(),
            !old(self).cursor.finished(),
        ensures
            match old(self).after(outcome) {
                Ok(next) => r.is_ok() && *final(self) == next,
                Err(e) => r == Err::<(), SolveError>(e) && *final(self) == *old(self),
            },
            r.is_ok() ==> final(self).wf(),
    {
        let attempted = self.cursor.angle;
        match outcome {
            None => {
                let moved = self.cursor.step(false, 0);
                if moved.is_ok() && self.cursor.angle.units == attempted.units {
                    return Err(SolveError::Diverged);
                }
                moved
            },
            Some(x) => {
                if x.lt(self.best) {
                    self.cursor.step(true, 1)
                } else if x.gt(self.best) {
                    let moved = self.cursor.step(false, 0);
                    if moved.is_ok() {
                        self.best = x;
                        self.achieved_at = Some(attempted);
                    }
                    moved
                } else {
                    let moved = self.cursor.step(false, MATCH_CREDIT);
                    if moved.is_ok() {
                        self.best = x;
                        self.achieved_at = Some(attempted);
                    }
                    moved
                }
            },
        }
    }

    /// The result of a search.
    pub fn to_solution(&self) -> (r: RangeSolution)
        ensures
            r == self.solution(),
    {
        match self.achieved_at {
            Some(angle) => RangeSolution { distance: self.best, angle, attained: true },
            None => RangeSolution {
                distance: self.best,
                angle: self.cursor.angle,
                attained: false,
            },
        }
    }
}

/// Every attempt that a search survives brings it nearer to its end: it
/// counts an iteration, or it uses up room in the launch cone, or it stays at
/// its angle with a better best distance that the next attempt will match.
pub proof fn lemma_after_progress(search: RangeSearch, outcome: Option<Scalar>)
    requires
        search.wf(),
        !search.cursor.finished(),
        search.after(outcome).is_ok(),
    ensures
        search.after(outcome).unwrap().wf(),
        search.after(outcome).unwrap().cursor.precision == search.cursor.precision,
        search.after(outcome).unwrap().cursor.remaining() < search.cursor.remaining() || (
        search.after(outcome).unwrap().cursor.remaining() == search.cursor.remaining() && (
        search.after(outcome).unwrap().cursor.room() < search.cursor.room() || (search.after(
            outcome,
        ).unwrap().cursor == search.cursor && search.after(outcome).unwrap().pending(outcome)
            < search.pending(outcome)))),
{
    if outcome.is_some() {
        lemma_trichotomy(outcome.unwrap(), search.best);
    }
    if search.nearer(outcome) {
        lemma_moved_progress(search.cursor, true, 1);
    } else if search.farther(outcome) || outcome.is_none() {
        lemma_moved_progress(search.cursor, false, 0);
    } else {
        lemma_moved_progress(search.cursor, false, MATCH_CREDIT);
    }
}

/// The state in which a search ends when `impact` gives the impact distance
/// of an attempt at each angle, or the failure that stops it.
pub open spec fn range_search(
    impact: spec_fn(Angle) -> Option<Scalar>,
    search: RangeSearch,
) -> Result<RangeSearch, SolveError>
    decreases search.cursor.remaining(), search.cursor.room(), search.pending(
        impact(search.cursor.angle),
    ),
    when search.wf()
    via range_search_decreases
{
    if search.cursor.finished() {
        Ok(search)
    } else {
        match search.after(impact(search.cursor.angle)) {
            Err(e) => Err(e),
            Ok(next) => range_search(impact, next),
        }
    }
}

#[via_fn]
proof fn range_search_decreases(impact: spec_fn(Angle) -> Option<Scalar>, search: RangeSearch) {
    if !search.cursor.finished() && search.after(impact(search.cursor.angle)).is_ok() {
        lemma_after_progress(search, impact(search.cursor.angle));
    }
}

/// Impact distance of the scenario's flight at each angle.
pub open spec fn impacts<F: Fn(&Scenario, Angle, u64) -> TrajectoryPoint>(
    model: F,
    scenario: Scenario,
) -> spec_fn(Angle) -> Option<Scalar> {
    |angle: Angle| impact_distance(flight(model, scenario, angle))
}

/// What the maximum-range solve returns.
pub open spec fn max_range<F: Fn(&Scenario, Angle, u64) -> TrajectoryPoint>(
    model: F,
    scenario: Scenario,
    precision: i8,
) -> Result<RangeSolution, SolveError> {
    if !scenario.valid() || precision <= 0 {
        Err(SolveError::InvalidParameter)
    } else {
        match range_search(impacts(model, scenario), RangeSearch::initial(precision as u8)) {
            Ok(end) => Ok(end.solution()),
            Err(e) => Err(e),
        }
    }
}

/// Finds the greatest distance at which the projectile can strike the target
/// plane, and the angle that achieves it.
///
/// A scenario that is not valid, or a precision that is not positive, is
/// rejected before the model is called. Every precision from 1 to 127 is
/// served. The solve fails only where the search cannot end.
pub fn find_distance_angle<F: Fn(&Scenario, Angle, u64) -> TrajectoryPoint>(
    scenario: &Scenario,
    precision: i8,
    model: &F,
) -> (r: Result<RangeSolution, SolveError>)
    requires
        scenario.valid() && precision > 0 ==> model_ready_in_cone(*model, *scenario),
    ensures
        r == max_range(*model, *scenario, precision),
        r.is_ok() ==> r.unwrap().angle.in_cone(),
{
    if precision <= 0 {
        return Err(SolveError::InvalidParameter);
    }
    match scenario.validate() {
        Err(e) => {
            return Err(e);
        },
        Ok(_) => {},
    }
    let mut search = RangeSearch::start(precision as u8);
    while !search.cursor.is_finished()
        invariant
            0 < precision,
            scenario.valid(),
            search.wf(),
            model_ready_in_cone(*model, *scenario),
            range_search(impacts(*model, *scenario), search) == range_search(
                impacts(*model, *scenario),
                RangeSearch::initial(precision as u8),
            ),
        decreases
                search.cursor.remaining(),
                search.cursor.room(),
                search.pending(impacts(*model, *scenario)(search.cursor.angle)),
    {
        let attempt = fly(scenario, search.cursor.angle, model);
        let outcome = attempt.impact_distance();
        proof {
            assert(outcome == impacts(*model, *scenario)(search.cursor.angle));
            assert(range_search(impacts(*model, *scenario), search) == (match search.after(outcome) {
                Err(e) => Err(e),
                Ok(next) => range_search(impacts(*model, *scenario), next),
            }));
            if search.after(outcome).is_ok() {
                lemma_after_progress(search, outcome);
            }
        }
        match search.record(outcome) {
            Err(e) => {
                return Err(e);
            },
            Ok(_) => {},
        }
    }
    Ok(search.to_solution())
}

/// The search from `search` makes an attempt at `angle` before it ends or
/// fails.
pub open spec fn range_tries(
    impact: spec_fn(Angle) -> Option<Scalar>,
    search: RangeSearch,
    angle: Angle,
) -> bool
    decreases search.cursor.remaining(), search.cursor.room(), search.pending(
        impact(search.cursor.angle),
    ),
    when search.wf()
    via range_tries_decreases
{
    !search.cursor.finished() && (search.cursor.angle == angle || match search.after(
        impact(search.cursor.angle),
    ) {
        Ok(next) => range_tries(impact, next, angle),
        Err(_) => false,
    })
}

#[via_fn]
proof fn range_tries_decreases(
    impact: spec_fn(Angle) -> Option<Scalar>,
    search: RangeSearch,
    angle: Angle,
) {
    if !search.cursor.finished() && search.after(impact(search.cursor.angle)).is_ok() {
        lemma_after_progress(search, impact(search.cursor.angle));
    }
}

/// A search that ends has counted its iterations, has kept its precision and
/// holds only angles of the launch cone. A search fails only as one that
/// cannot end.
pub proof fn lemma_range_search_ends(impact: spec_fn(Angle) -> Option<Scalar>, search: RangeSearch)
    requires
        search.wf(),
    ensures
        match range_search(impact, search) {
            Ok(end) => end.wf() && end.cursor.finished() && end.cursor.precision
                == search.cursor.precision,
            Err(e) => e == SolveError::Diverged,
        },
    decreases search.cursor.remaining(), search.cursor.room(), search.pending(
        impact(search.cursor.angle),
    ),
{
    if !search.cursor.finished() {
        let outcome = impact(search.cursor.angle);
        if search.after(outcome).is_ok() {
            lemma_after_progress(search, outcome);
            lemma_range_search_ends(impact, search.after(outcome).unwrap());
        }
    }
}

/// A search fails only where it cannot move on: at an attempt that does not
/// turn it and whose stride leads out of the launch cone, or at an attempt
/// without impact once the stride is nothing.
pub proof fn lemma_after_fails(search: RangeSearch, outcome: Option<Scalar>)
    requires
        search.wf(),
        !search.cursor.finished(),
        search.after(outcome).is_err(),
    ensures
        search.after(outcome) == Err::<RangeSearch, SolveError>(SolveError::Diverged),
        search.cursor.angle.advanced(
            if search.nearer(outcome) {
                search.cursor.stride.reversed()
            } else {
                search.cursor.stride
            },
        ).is_none() || (outcome.is_none() && search.cursor.stride.level > FINEST_LEVEL),
{
    if outcome.is_some() {
        lemma_trichotomy(outcome.unwrap(), search.best);
    }
    if search.cursor.stride.level <= FINEST_LEVEL {
        lemma_pow10_bounds((FINEST_LEVEL - search.cursor.stride.level) as nat);
    }
}

/// An attempt that turns a search never fails it: the search moves back
/// towards the angle it came from, by less than it came, and that angle lay
/// in the launch cone.
pub proof fn lemma_turn_succeeds(search: RangeSearch, outcome: Option<Scalar>)
    requires
        search.wf(),
        !search.cursor.finished(),
        search.previous().in_cone(),
        search.nearer(outcome),
    ensures
        search.after(outcome).is_ok(),
        search.after(outcome).unwrap().best == search.best,
        search.after(outcome).unwrap().achieved_at == search.achieved_at,
        search.after(outcome).unwrap().cursor.iterations == search.cursor.iterations + 1,
        !search.after(outcome).unwrap().cursor.finished() ==> search.after(
            outcome,
        ).unwrap().previous() == search.cursor.angle && (search.cursor.angle.units
            <= search.after(outcome).unwrap().cursor.angle.units <= search.previous().units
            || search.previous().units <= search.after(outcome).unwrap().cursor.angle.units
            <= search.cursor.angle.units),
{
    lemma_reversed_is_a_tenth(search.cursor.stride);
    lemma_trichotomy(outcome.unwrap(), search.best);
    if search.cursor.stride.level <= FINEST_LEVEL {
        lemma_pow10_bounds((FINEST_LEVEL - search.cursor.stride.level) as nat);
    }
}

/// A search whose attempts all land nearer than its best turns at every
/// attempt, stays between its last two angles, and ends with the best it
/// had, whatever the precision.
proof fn lemma_all_nearer_from(impact: spec_fn(Angle) -> Option<Scalar>, search: RangeSearch)
    requires
        search.wf(),
        !search.cursor.finished() ==> (44 * UNITS_PER_DEGREE <= search.cursor.angle.units < 45
            * UNITS_PER_DEGREE && 44 * UNITS_PER_DEGREE <= search.previous().units <= 45
            * UNITS_PER_DEGREE),
        forall|a: Angle|
            a.in_cone() && a.units < 45 * UNITS_PER_DEGREE ==> (#[trigger] impact(a)).is_some()
                && impact(a).unwrap().less(search.best),
    ensures
        range_search(impact, search).is_ok(),
        range_search(impact, search).unwrap().best == search.best,
        range_search(impact, search).unwrap().achieved_at == search.achieved_at,
    decreases search.cursor.remaining(),
{
    if !search.cursor.finished() {
        let outcome = impact(search.cursor.angle);
        lemma_turn_succeeds(search, outcome);
        lemma_after_progress(search, outcome);
        lemma_all_nearer_from(impact, search.after(outcome).unwrap());
    }
}

/// Where the first attempt, at 45 degrees, lands farther than zero and every
/// flight at a lower angle lands nearer than that, the search turns at every
/// attempt after the first and ends, at every precision from 1 to 127, with
/// the distance and the angle of the first attempt.
pub proof fn lemma_max_range_of_crest_at_start<F: Fn(&Scenario, Angle, u64) -> TrajectoryPoint>(
    model: F,
    scenario: Scenario,
    precision: i8,
)
    requires
        scenario.valid(),
        precision > 0,
        impacts(model, scenario)(RangeSearch::initial(precision as u8).cursor.angle).is_some(),
        impacts(model, scenario)(RangeSearch::initial(precision as u8).cursor.angle).unwrap().greater(
            Scalar::zero(),
        ),
        forall|a: Angle|
            a.in_cone() && a.units < START_DEGREES * UNITS_PER_DEGREE ==> (#[trigger] impacts(
                model,
                scenario,
            )(a)).is_some() && impacts(model, scenario)(a).unwrap().less(
                impacts(model, scenario)(
                    RangeSearch::initial(precision as u8).cursor.angle,
                ).unwrap(),
            ),
    ensures
        max_range(model, scenario, precision) == Ok::<RangeSolution, SolveError>(
            RangeSolution {
                distance: impacts(model, scenario)(
                    RangeSearch::initial(precision as u8).cursor.angle,
                ).unwrap(),
                angle: RangeSearch::initial(precision as u8).cursor.angle,
                attained: true,
            },
        ),
{
    let impact = impacts(model, scenario);
    let start = RangeSearch::initial(precision as u8);
    let outcome = impact(start.cursor.angle);
    lemma_pow10_bounds(36);
    lemma_trichotomy(outcome.unwrap(), start.best);
    assert(start.after(outcome).is_ok());
    lemma_after_progress(start, outcome);
    lemma_all_nearer_from(impact, start.after(outcome).unwrap());
}

/// The distance that a search returns is a maximum: where every distance is
/// a number, the result is no less than the best distance the search began
/// with, and no less than the impact distance of any attempt it made.
pub proof fn lemma_best_bounds_attempts(
    impact: spec_fn(Angle) -> Option<Scalar>,
    search: RangeSearch,
    angle: Angle,
)
    requires
        search.wf(),
        !search.best.is_nan(),
        forall|a: Angle| (#[trigger] impact(a)).is_some() ==> !impact(a).unwrap().is_nan(),
        range_search(impact, search).is_ok(),
    ensures
        range_search(impact, search).unwrap().best.at_least(search.best),
        range_tries(impact, search, angle) && impact(angle).is_some() ==> range_search(
            impact,
            search,
        ).unwrap().best.at_least(impact(angle).unwrap()),
    decreases search.cursor.remaining(), search.cursor.room(), search.pending(
        impact(search.cursor.angle),
    ),
{
    if !search.cursor.finished() {
        let outcome = impact(search.cursor.angle);
        let next = search.after(outcome).unwrap();
        let end = range_search(impact, search).unwrap();
        lemma_after_progress(search, outcome);
        assert(next.best.at_least(search.best) && (outcome.is_some() ==> next.best.at_least(
            outcome.unwrap(),
        ))) by {
            if outcome.is_some() {
                lemma_trichotomy(outcome.unwrap(), search.best);
            }
        }
        lemma_best_bounds_attempts(impact, next, angle);
        lemma_order_transitive(search.best, next.best, end.best);
        if outcome.is_some() {
            lemma_order_transitive(outcome.unwrap(), next.best, end.best);
        }
    }
}

/// The distance that a search returns is attained. Where the search names
/// the angle of an accepted attempt, that angle lies in the launch cone and
/// the flight at it lands at the distance returned; where it names none, no
/// attempt was accepted and the distance is the one the search began with.
pub proof fn lemma_best_is_attained(impact: spec_fn(Angle) -> Option<Scalar>, search: RangeSearch)
    requires
        search.wf(),
        search.achieved_at.is_some() ==> impact(search.achieved_at.unwrap()) == Some(search.best),
        range_search(impact, search).is_ok(),
    ensures
        match range_search(impact, search).unwrap().achieved_at {
            Some(a) => a.in_cone() && impact(a) == Some(range_search(impact, search).unwrap().best),
            None => search.achieved_at.is_none() && range_search(impact, search).unwrap().best
                == search.best,
        },
    decreases search.cursor.remaining(), search.cursor.room(), search.pending(
        impact(search.cursor.angle),
    ),
{
    if !search.cursor.finished() {
        let outcome = impact(search.cursor.angle);
        let next = search.after(outcome).unwrap();
        lemma_after_progress(search, outcome);
        lemma_best_is_attained(impact, next);
    }
}

/// Where every attempt that lands does so at distance zero, a search that
/// began with a best distance of zero returns a distance of zero.
pub proof fn lemma_zero_impacts_keep_zero(
    impact: spec_fn(Angle) -> Option<Scalar>,
    search: RangeSearch,
)
    requires
        search.wf(),
        search.best.equal(Scalar::zero()),
        forall|a: Angle|
            (#[trigger] impact(a)).is_some() ==> impact(a).unwrap().equal(Scalar::zero()),
        range_search(impact, search).is_ok(),
    ensures
        range_search(impact, search).unwrap().best.equal(Scalar::zero()),
    decreases search.cursor.remaining(), search.cursor.room(), search.pending(
        impact(search.cursor.angle),
    ),
{
    if !search.cursor.finished() {
        let outcome = impact(search.cursor.angle);
        lemma_after_progress(search, outcome);
        lemma_zero_impacts_keep_zero(impact, search.after(outcome).unwrap());
    }
}

/// A search whose attempts all strike at distance zero keeps its stride and
/// counts five iterations with each attempt.
proof fn lemma_zero_impacts_from(
    impact: spec_fn(Angle) -> Option<Scalar>,
    search: RangeSearch,
    attempts: int,
)
    requires
        search.wf(),
        search.cursor.stride == (Stride { descending: true, level: 0 }),
        search.best.equal(Scalar::zero()),
        0 <= attempts,
        !search.cursor.finished() ==> search.cursor.angle.units == (START_DEGREES - attempts)
            * UNITS_PER_DEGREE,
        !search.cursor.finished() ==> search.cursor.iterations == MATCH_CREDIT * attempts,
        forall|a: Angle|
            a.in_cone() ==> (#[trigger] impact(a)).is_some() && impact(a).unwrap().equal(
                Scalar::zero(),
            ),
    ensures
        range_search(impact, search).is_ok(),
        range_search(impact, search).unwrap().best.equal(Scalar::zero()),
        range_search(impact, search).unwrap().achieved_at.is_some() || search.cursor.finished(),
    decreases search.cursor.remaining(),
{
    if !search.cursor.finished() {
        let outcome = impact(search.cursor.angle);
        lemma_pow10_bounds(36);
        assert(search.cursor.stride.magnitude() == UNITS_PER_DEGREE);
        assert(search.cursor.moved(false, MATCH_CREDIT).is_ok());
        let next = search.after(outcome).unwrap();
        lemma_after_progress(search, outcome);
        lemma_zero_impacts_from(impact, next, attempts + 1);
        lemma_best_is_attained_step(impact, next);
    }
}

/// A search that has accepted an attempt still names one when it ends.
proof fn lemma_best_is_attained_step(impact: spec_fn(Angle) -> Option<Scalar>, search: RangeSearch)
    requires
        search.wf(),
        search.achieved_at.is_some(),
        range_search(impact, search).is_ok(),
    ensures
        range_search(impact, search).unwrap().achieved_at.is_some(),
    decreases search.cursor.remaining(), search.cursor.room(), search.pending(
        impact(search.cursor.angle),
    ),
{
    if !search.cursor.finished() {
        let outcome = impact(search.cursor.angle);
        lemma_after_progress(search, outcome);
        lemma_best_is_attained_step(impact, search.after(outcome).unwrap());
    }
}

/// Where every flight in the launch cone strikes the target plane at
/// distance zero, the search ends and the maximum range is zero.
pub proof fn lemma_zero_impacts_zero_range(impact: spec_fn(Angle) -> Option<Scalar>, precision: u8)
    requires
        1 <= precision <= MAX_PRECISION,
        forall|a: Angle|
            a.in_cone() ==> (#[trigger] impact(a)).is_some() && impact(a).unwrap().equal(
                Scalar::zero(),
            ),
    ensures
        range_search(impact, RangeSearch::initial(precision)).is_ok(),
        range_search(impact, RangeSearch::initial(precision)).unwrap().best.equal(Scalar::zero()),
        range_search(impact, RangeSearch::initial(precision)).unwrap().achieved_at.is_some(),
{
    lemma_zero_impacts_from(impact, RangeSearch::initial(precision), 0);
}

/// The maximum-range solve rejects its input exactly when the scenario is
/// not valid or the precision is not positive. On every other input it
/// returns a distance and an angle of the launch cone, unless the search
/// cannot end.
pub proof fn lemma_max_range_errors<F: Fn(&Scenario, Angle, u64) -> TrajectoryPoint>(
    model: F,
    scenario: Scenario,
    precision: i8,
)
    ensures
        max_range(model, scenario, precision) == Err::<RangeSolution, SolveError>(
            SolveError::InvalidParameter,
        ) <==> !scenario.valid() || precision <= 0,
        match max_range(model, scenario, precision) {
            Ok(solution) => solution.angle.in_cone(),
            Err(e) => e == SolveError::InvalidParameter || e == SolveError::Diverged,
        },
{
    if scenario.valid() && precision > 0 {
        lemma_range_search_ends(impacts(model, scenario), RangeSearch::initial(precision as u8));
    }
}

/// Where every flight in the launch cone strikes the target plane at
/// distance zero, the maximum-range solve succeeds and returns distance
/// zero.
pub proof fn lemma_max_range_of_zero_impacts<F: Fn(&Scenario, Angle, u64) -> TrajectoryPoint>(
    model: F,
    scenario: Scenario,
    precision: i8,
)
    requires
        scenario.valid(),
        precision > 0,
        forall|a: Angle|
            a.in_cone() ==> (#[trigger] impacts(model, scenario)(a)).is_some() && impacts(
                model,
                scenario,
            )(a).unwrap().equal(Scalar::zero()),
    ensures
        max_range(model, scenario, precision).is_ok(),
        max_range(model, scenario, precision).unwrap().distance.equal(Scalar::zero()),
{
    lemma_zero_impacts_zero_range(impacts(model, scenario), precision as u8);
}

/// A projectile that never leaves the launch point horizontally has a
/// maximum range of zero for a target that is not below the launch point.
/// Where the model puts every sample at horizontal displacement zero, and
/// some sample of every flight below the target plane, the solve succeeds and
/// returns distance zero at every precision.
pub proof fn lemma_max_range_of_still_model<F: Fn(&Scenario, Angle, u64) -> TrajectoryPoint>(
    model: F,
    scenario: Scenario,
    precision: i8,
)
    requires
        scenario.valid(),
        precision > 0,
        seeded(scenario.vertical_offset),
        forall|a: Angle, step: u64|
            a.in_cone() && step <= scenario.environment.last_step ==> (#[trigger] position(
                model,
                scenario,
                a,
                step,
            )).x.equal(Scalar::zero()),
        forall|a: Angle|
            #![trigger a.in_cone()]
            a.in_cone() ==> exists|step: u64|
                step <= scenario.environment.last_step && (#[trigger] position(
                    model,
                    scenario,
                    a,
                    step,
                )).y.less(Scalar::zero()),
    ensures
        max_range(model, scenario, precision).is_ok(),
        max_range(model, scenario, precision).unwrap().distance.equal(Scalar::zero()),
{
    assert forall|a: Angle| a.in_cone() implies (#[trigger] impacts(model, scenario)(a)).is_some()
        && impacts(model, scenario)(a).unwrap().equal(Scalar::zero()) by {
        let step = choose|step: u64|
            step <= scenario.environment.last_step && (#[trigger] position(
                model,
                scenario,
                a,
                step,
            )).y.less(Scalar::zero());
        lemma_seeded_flight_lands(model, scenario, a, step);
        lemma_flight_of_still_model(model, scenario, a);
    }
    lemma_max_range_of_zero_impacts(model, scenario, precision);
}

/// The maximum range is attained: where the solve says so, the flight at the
/// angle returned lands at the distance returned, so that sampling at that
/// angle ends at that distance; where it does not, no attempt was accepted
/// and the distance returned is zero.
pub proof fn lemma_max_range_attained<F: Fn(&Scenario, Angle, u64) -> TrajectoryPoint>(
    model: F,
    scenario: Scenario,
    precision: i8,
)
    requires
        max_range(model, scenario, precision).is_ok(),
    ensures
        ({
            let solution = max_range(model, scenario, precision).unwrap();
            &&& solution.angle.in_cone()
            &&& solution.attained ==> impact_distance(flight(model, scenario, solution.angle))
                == Some(solution.distance)
            &&& !solution.attained ==> solution.distance == Scalar::zero()
        }),
{
    let start = RangeSearch::initial(precision as u8);
    lemma_best_is_attained(impacts(model, scenario), start);
    lemma_range_search_ends(impacts(model, scenario), start);
}

/// Solving twice gives the same result: what the maximum-range solve
/// returns is fixed by the scenario, the precision and the model.
pub proof fn lemma_max_range_repeats<F: Fn(&Scenario, Angle, u64) -> TrajectoryPoint>(
    model: F,
    scenario: Scenario,
    precision: i8,
    first: Result<RangeSolution, SolveError>,
    second: Result<RangeSolution, SolveError>,
)
    requires
        first == max_range(model, scenario, precision),
        second == max_range(model, scenario, precision),
    ensures
        first == second,
{
}

} // verus!
