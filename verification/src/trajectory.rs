//! Trajectory points, and the kinematic model as the library sees it.
//!
//! The position of the projectile at a sampling instant is computed by a
//! function that the caller hands in. It takes the scenario, what describes
//! the launch, and the index of the instant. The searches describe a launch
//! by an [`Angle`]; the sampler hands on whatever it is given. The library
//! asks of the model only that it can be called on every sampling instant of
//! the scenario and that it is a function: the same scenario, launch and
//! instant give the same point.

use vstd::prelude::*;
use crate::angle::Angle;
use crate::scalar::Scalar;
use crate::scenario::Scenario;

verus! {

/// Horizontal displacement from the launch point and height above the target
/// plane, both in m, at one sampling instant.
#[derive(Clone, Copy, Debug, PartialEq, Eq, Structural)]
pub struct TrajectoryPoint {
    pub x: Scalar,
    pub y: Scalar,
}

/// For `launch` the model may be called on every sampling instant of the
/// scenario, and returns one point for each.
pub open spec fn model_ready<A, F: Fn(&Scenario, A, u64) -> TrajectoryPoint>(
    model: F,
    scenario: Scenario,
    launch: A,
) -> bool {
    &&& forall|step: u64|
        step <= scenario.environment.last_step ==> #[trigger] call_requires(
            model,
            (&scenario, launch, step),
        )
    &&& forall|step: u64, p: TrajectoryPoint, q: TrajectoryPoint|
        #[trigger] call_ensures(model, (&scenario, launch, step), p) && #[trigger] call_ensures(
            model,
            (&scenario, launch, step),
            q,
        ) ==> p == q
}

/// The model is ready at every angle of the launch cone.
pub open spec fn model_ready_in_cone<F: Fn(&Scenario, Angle, u64) -> TrajectoryPoint>(
    model: F,
    scenario: Scenario,
) -> bool {
    forall|angle: Angle| angle.in_cone() ==> #[trigger] model_ready(model, scenario, angle)
}

/// The point that the model returns for a launch and an instant.
pub open spec fn position<A, F: Fn(&Scenario, A, u64) -> TrajectoryPoint>(
    model: F,
    scenario: Scenario,
    launch: A,
    step: u64,
) -> TrajectoryPoint {
    choose|p: TrajectoryPoint| call_ensures(model, (&scenario, launch, step), p)
}

/// The points of all sampling instants of a flight, from the launch to the
/// last instant within the maximum duration.
pub open spec fn samples<A, F: Fn(&Scenario, A, u64) -> TrajectoryPoint>(
    model: F,
    scenario: Scenario,
    launch: A,
) -> Seq<TrajectoryPoint> {
    Seq::new(
        (scenario.environment.last_step + 1) as nat,
        |k: int| position(model, scenario, launch, k as u64),
    )
}

/// A point that the model has returned is the point that `position` names.
pub proof fn lemma_position<A, F: Fn(&Scenario, A, u64) -> TrajectoryPoint>(
    model: F,
    scenario: Scenario,
    launch: A,
    step: u64,
    p: TrajectoryPoint,
)
    requires
        model_ready(model, scenario, launch),
        call_ensures(model, (&scenario, launch, step), p),
    ensures
        p == position(model, scenario, launch, step),
{
    let q = position(model, scenario, launch, step);
    assert(call_ensures(model, (&scenario, launch, step), q));
}

} // verus!
