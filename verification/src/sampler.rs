//! The trajectory sampler: one forward simulation of a fixed launch.

use vstd::prelude::*;
use crate::impact::{
    cleared_before, impact_index, is_impact, lemma_cleared_step, lemma_impact_found,
    lemma_no_impact, seeded, strikes_at, ImpactDetector,
};
use crate::scalar::Scalar;
use crate::scenario::{Scenario, SolveError};
use crate::trajectory::{lemma_position, model_ready, position, samples, TrajectoryPoint};

verus! {

/// How a simulated flight ended.
#[derive(Clone, Copy, Debug, PartialEq, Eq, Structural)]
pub enum FlightStatus {
    /// The projectile struck the target plane; the last point is the impact.
    Impact,
    /// The maximum duration ran out before the projectile struck the target
    /// plane; the last point is just the last one simulated.
    UnboundedSimulation,
}

/// One simulated flight: the points from the launch up to and including the
/// impact sample, or all points of the maximum duration where the projectile
/// did not strike the target plane within it.
#[derive(Clone, Debug, PartialEq, Eq)]
pub struct Flight {
    pub points: Vec<TrajectoryPoint>,
    pub status: FlightStatus,
}

impl View for Flight {
    type V = (Seq<TrajectoryPoint>, FlightStatus);

    open spec fn view(&self) -> (Seq<TrajectoryPoint>, FlightStatus) {
        (self.points@, self.status)
    }
}

/// The flight that a sequence of samples records: the samples up to the
/// impact, with the impact, or all of them.
pub open spec fn recorded(all: Seq<TrajectoryPoint>, seeded: bool) -> (
    Seq<TrajectoryPoint>,
    FlightStatus,
) {
    match impact_index(all, seeded) {
        Some(i) => (all.take(i + 1), FlightStatus::Impact),
        None => (all, FlightStatus::UnboundedSimulation),
    }
}

/// The flight of the scenario for `launch`.
pub open spec fn flight<A, F: Fn(&Scenario, A, u64) -> TrajectoryPoint>(
    model: F,
    scenario: Scenario,
    launch: A,
) -> (Seq<TrajectoryPoint>, FlightStatus) {
    recorded(samples(model, scenario, launch), seeded(scenario.vertical_offset))
}

/// Horizontal displacement of the impact of a flight, if it has one.
pub open spec fn impact_distance(flight: (Seq<TrajectoryPoint>, FlightStatus)) -> Option<Scalar> {
    if flight.1 == FlightStatus::Impact && flight.0.len() > 0 {
        Some(flight.0.last().x)
    } else {
        None
    }
}

impl Flight {
    /// The last recorded point.
    pub fn last_point(&self) -> (r: Option<TrajectoryPoint>)
        ensures
            self.points@.len() > 0 ==> r == Some(self.points@.last()),
            self.points@.len() == 0 ==> r.is_none(),
    {
        let n = self.points.len();
        if n > 0 {
            Some(self.points[n - 1])
        } else {
            None
        }
    }

    /// Horizontal displacement of the impact, if the flight has one.
    pub fn impact_distance(&self) -> (r: Option<Scalar>)
        ensures
            r == impact_distance(self@),
    {
        let n = self.points.len();
        match self.status {
            FlightStatus::Impact => if n > 0 {
                Some(self.points[n - 1].x)
            } else {
                None
            },
            FlightStatus::UnboundedSimulation => None,
        }
    }

    /// Number of time steps from the launch to the last recorded point.
    pub fn elapsed_steps(&self) -> (r: usize)
        ensures
            self.points@.len() > 0 ==> r == self.points@.len() - 1,
            self.points@.len() == 0 ==> r == 0,
    {
        let n = self.points.len();
        if n > 0 {
            n - 1
        } else {
            0
        }
    }
}

/// What a recorded flight looks like. It is a beginning of the samples and
/// holds at least the launch. Where it landed, its last point is the impact:
/// it lies below the target plane after the plane has been cleared, and no
/// point before it does. Where it did not land it holds every sample, and
/// none of them strikes.
pub proof fn lemma_recorded_shape(all: Seq<TrajectoryPoint>, seeded: bool)
    requires
        all.len() > 0,
    ensures
        0 < recorded(all, seeded).0.len() <= all.len(),
        recorded(all, seeded).0 == all.take(recorded(all, seeded).0.len() as int),
        recorded(all, seeded).1 == FlightStatus::Impact ==> is_impact(
            all,
            seeded,
            recorded(all, seeded).0.len() - 1,
        ) && recorded(all, seeded).0.last().y.less(Scalar::zero()),
        recorded(all, seeded).1 == FlightStatus::UnboundedSimulation ==> recorded(all, seeded).0
            == all && forall|i: int| 0 <= i < all.len() ==> !strikes_at(all, seeded, i),
{
    match impact_index(all, seeded) {
        Some(i) => {
            assert(is_impact(all, seeded, i));
            assert(all.take(i + 1).len() == i + 1);
        },
        None => {
            assert(all.take(all.len() as int) =~= all);
            assert forall|i: int| 0 <= i < all.len() implies !strikes_at(all, seeded, i) by {
                if strikes_at(all, seeded, i) {
                    lemma_first_strike(all, seeded, i);
                }
            }
        },
    }
}

/// Where some sample strikes, a first one does.
proof fn lemma_first_strike(all: Seq<TrajectoryPoint>, seeded: bool, i: int)
    requires
        strikes_at(all, seeded, i),
    ensures
        exists|j: int| is_impact(all, seeded, j),
    decreases i,
{
    if forall|j: int| 0 <= j < i ==> !strikes_at(all, seeded, j) {
        assert(is_impact(all, seeded, i));
    } else {
        let j = choose|j: int| 0 <= j < i && strikes_at(all, seeded, j);
        lemma_first_strike(all, seeded, j);
    }
}

/// A flight of a model that never leaves the launch point horizontally
/// holds only points of horizontal displacement zero.
pub proof fn lemma_flight_of_still_model<A, F: Fn(&Scenario, A, u64) -> TrajectoryPoint>(
    model: F,
    scenario: Scenario,
    launch: A,
)
    requires
        forall|step: u64|
            step <= scenario.environment.last_step ==> (#[trigger] position(
                model,
                scenario,
                launch,
                step,
            )).x.equal(Scalar::zero()),
    ensures
        forall|i: int|
            0 <= i < flight(model, scenario, launch).0.len() ==> (#[trigger] flight(
                model,
                scenario,
                launch,
            ).0[i]).x.equal(Scalar::zero()),
        impact_distance(flight(model, scenario, launch)).is_some() ==> impact_distance(
            flight(model, scenario, launch),
        ).unwrap().equal(Scalar::zero()),
{
    let all = samples(model, scenario, launch);
    let flown = flight(model, scenario, launch);
    lemma_recorded_shape(all, seeded(scenario.vertical_offset));
    assert forall|i: int| 0 <= i < flown.0.len() implies (#[trigger] flown.0[i]).x.equal(
        Scalar::zero(),
    ) by {
        assert(flown.0[i] == all[i]);
        assert(all[i] == position(model, scenario, launch, i as u64));
    }
}

/// A flight towards a target that is not below the launch point lands if any
/// of its samples lies below the target plane.
pub proof fn lemma_seeded_flight_lands<A, F: Fn(&Scenario, A, u64) -> TrajectoryPoint>(
    model: F,
    scenario: Scenario,
    launch: A,
    step: u64,
)
    requires
        seeded(scenario.vertical_offset),
        step <= scenario.environment.last_step,
        position(model, scenario, launch, step).y.less(Scalar::zero()),
    ensures
        flight(model, scenario, launch).1 == FlightStatus::Impact,
        impact_distance(flight(model, scenario, launch)).is_some(),
{
    let all = samples(model, scenario, launch);
    assert(all[step as int] == position(model, scenario, launch, step));
    assert(strikes_at(all, true, step as int));
    lemma_first_strike(all, true, step as int);
    lemma_recorded_shape(all, true);
}

/// Simulates one flight: samples the model instant by instant and stops at
/// the impact or after the last instant.
pub fn fly<A: Copy, F: Fn(&Scenario, A, u64) -> TrajectoryPoint>(
    scenario: &Scenario,
    launch: A,
    model: &F,
) -> (r: Flight)
    requires
        model_ready(*model, *scenario, launch),
    ensures
        r@ == flight(*model, *scenario, launch),
        r.points@.len() > 0,
{
    let last_step = scenario.environment.last_step;
    let ghost all = samples(*model, *scenario, launch);
    let ghost seed = seeded(scenario.vertical_offset);
    let mut detector = ImpactDetector::new(scenario.vertical_offset);
    let mut points: Vec<TrajectoryPoint> = Vec::new();
    let mut landed = false;
    let mut step: u64 = 0;
    loop
        invariant_except_break
            !landed,
            points@ == all.take(step as int),
            detector.cleared == cleared_before(all, seed, step as int),
        invariant
            step <= last_step,
            last_step == scenario.environment.last_step,
            all == samples(*model, *scenario, launch),
            seed == seeded(scenario.vertical_offset),
            all.len() == last_step + 1,
            model_ready(*model, *scenario, launch),
            forall|j: int| 0 <= j < step ==> !strikes_at(all, seed, j),
        ensures
            points@ == all.take(step + 1),
            landed ==> is_impact(all, seed, step as int),
            !landed ==> step == last_step && !strikes_at(all, seed, step as int),
        decreases last_step - step,
    {
        let point = model(scenario, launch, step);
        proof {
            lemma_position(*model, *scenario, launch, step, point);
            lemma_cleared_step(all, seed, step as int);
            assert(all[step as int] == point);
            assert(all.take(step as int).push(point) =~= all.take(step + 1));
        }
        points.push(point);
        if detector.observe(point) {
            landed = true;
            break;
        }
        if step == last_step {
            break;
        }
        step = step + 1;
    }
    proof {
        if landed {
            lemma_impact_found(all, seed, step as int);
        } else {
            lemma_no_impact(all, seed);
            assert(all.take(step + 1) =~= all);
        }
    }
    let status = if landed {
        FlightStatus::Impact
    } else {
        FlightStatus::UnboundedSimulation
    };
    Flight { points, status }
}

/// Samples the trajectory of the scenario for `launch`, which is handed to
/// the model as it is.
///
/// A scenario that is not valid is rejected before the model is called. The
/// flight returned holds at least the launch, and its status tells an impact
/// from a flight that ran out of time.
pub fn find_trajectory_distance_time<A: Copy, F: Fn(&Scenario, A, u64) -> TrajectoryPoint>(
    scenario: &Scenario,
    launch: A,
    model: &F,
) -> (r: Result<Flight, SolveError>)
    requires
        scenario.valid() ==> model_ready(*model, *scenario, launch),
    ensures
        scenario.valid() ==> r.is_ok() && r.unwrap()@ == flight(*model, *scenario, launch),
        !scenario.valid() ==> r.is_err() && r.unwrap_err() == SolveError::InvalidParameter,
        r.is_ok() ==> r.unwrap().points@.len() > 0,
{
    match scenario.validate() {
        Err(e) => Err(e),
        Ok(_) => Ok(fly(scenario, launch, model)),
    }
}

/// Sampling twice gives the same flight: what the sampler returns is fixed
/// by the scenario, the launch and the model.
pub proof fn lemma_sampling_repeats<A, F: Fn(&Scenario, A, u64) -> TrajectoryPoint>(
    model: F,
    scenario: Scenario,
    launch: A,
    first: Result<Flight, SolveError>,
    second: Result<Flight, SolveError>,
)
    requires
        scenario.valid() ==> first.is_ok() && first.unwrap()@ == flight(model, scenario, launch),
        !scenario.valid() ==> first.is_err() && first.unwrap_err() == SolveError::InvalidParameter,
        scenario.valid() ==> second.is_ok() && second.unwrap()@ == flight(model, scenario, launch),
        !scenario.valid() ==> second.is_err() && second.unwrap_err()
            == SolveError::InvalidParameter,
    ensures
        first.is_ok() == second.is_ok(),
        first.is_ok() ==> first.unwrap()@ == second.unwrap()@,
        first.is_err() ==> first.unwrap_err() == second.unwrap_err(),
{
}

} // verus!
