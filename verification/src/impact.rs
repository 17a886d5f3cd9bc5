//! Impact detection on a time-ordered sequence of trajectory points.
//!
//! A projectile strikes the target plane at the first sample that lies below
//! the plane once the projectile has cleared it. Whether it has cleared the
//! plane before the first sample is decided by the sign of the vertical offset
//! alone: a target below the launch point has to be cleared by a sample at or
//! above the plane first, any other target counts as cleared from the start.

use vstd::prelude::*;
use crate::scalar::Scalar;
use crate::trajectory::TrajectoryPoint;

verus! {

/// The plane counts as cleared before the first sample: the vertical offset
/// is not negative.
pub open spec fn seeded(vertical_offset: Scalar) -> bool {
    !vertical_offset.less(Scalar::zero())
}

/// The plane has been cleared before sample `i`.
pub open spec fn cleared_before(points: Seq<TrajectoryPoint>, seeded: bool, i: int) -> bool {
    seeded || exists|j: int|
        0 <= j < i && j < points.len() && (#[trigger] points[j]).y.at_least(Scalar::zero())
}

/// Sample `i` lies below the plane after the plane has been cleared.
pub open spec fn strikes_at(points: Seq<TrajectoryPoint>, seeded: bool, i: int) -> bool {
    &&& 0 <= i < points.len()
    &&& points[i].y.less(Scalar::zero())
    &&& cleared_before(points, seeded, i)
}

/// Sample `i` is the impact: the first sample that strikes.
pub open spec fn is_impact(points: Seq<TrajectoryPoint>, seeded: bool, i: int) -> bool {
    &&& strikes_at(points, seeded, i)
    &&& forall|j: int| 0 <= j < i ==> !strikes_at(points, seeded, j)
}

/// Index of the impact sample, if the sequence has one.
pub open spec fn impact_index(points: Seq<TrajectoryPoint>, seeded: bool) -> Option<int> {
    if exists|i: int| is_impact(points, seeded, i) {
        Some(choose|i: int| is_impact(points, seeded, i))
    } else {
        None
    }
}

/// A sequence has at most one impact sample, and `impact_index` names it.
pub proof fn lemma_impact_found(points: Seq<TrajectoryPoint>, seeded: bool, i: int)
    requires
        is_impact(points, seeded, i),
    ensures
        impact_index(points, seeded) == Some(i),
{
    let j = choose|j: int| is_impact(points, seeded, j);
    if j < i {
        assert(!strikes_at(points, seeded, j));
    } else if i < j {
        assert(!strikes_at(points, seeded, i));
    }
}

/// A sequence in which no sample strikes has no impact.
pub proof fn lemma_no_impact(points: Seq<TrajectoryPoint>, seeded: bool)
    requires
        forall|j: int| 0 <= j < points.len() ==> !strikes_at(points, seeded, j),
    ensures
        impact_index(points, seeded).is_none(),
{
    if exists|i: int| is_impact(points, seeded, i) {
        let i = choose|i: int| is_impact(points, seeded, i);
        assert(strikes_at(points, seeded, i));
    }
}

/// Clearing the plane before sample `i + 1` is clearing it before sample `i`
/// or at sample `i`.
pub proof fn lemma_cleared_step(points: Seq<TrajectoryPoint>, seeded: bool, i: int)
    requires
        0 <= i < points.len(),
    ensures
        cleared_before(points, seeded, i + 1) == (cleared_before(points, seeded, i)
            || points[i].y.at_least(Scalar::zero())),
{
    if cleared_before(points, seeded, i + 1) && !seeded {
        let j = choose|j: int|
            0 <= j < i + 1 && j < points.len() && (#[trigger] points[j]).y.at_least(
                Scalar::zero(),
            );
        if j < i {
            assert(cleared_before(points, seeded, i));
        }
    }
    if points[i].y.at_least(Scalar::zero()) {
        assert(cleared_before(points, seeded, i + 1));
    }
    if cleared_before(points, seeded, i) && !seeded {
        let j = choose|j: int|
            0 <= j < i && j < points.len() && (#[trigger] points[j]).y.at_least(Scalar::zero());
        assert(0 <= j < i + 1 && points[j].y.at_least(Scalar::zero()));
    }
}

/// The state that impact detection carries from sample to sample.
#[derive(Clone, Copy, Debug, PartialEq, Eq, Structural)]
pub struct ImpactDetector {
    /// The projectile has cleared the target plane.
    pub cleared: bool,
}

impl ImpactDetector {
    /// The detector before the first sample.
    pub fn new(vertical_offset: Scalar) -> (detector: ImpactDetector)
        ensures
            detector.cleared == seeded(vertical_offset),
    {
        ImpactDetector { cleared: !vertical_offset.lt(Scalar::new_zero()) }
    }

    /// Takes the next sample and tells whether it is the impact.
    pub fn observe(&mut self, point: TrajectoryPoint) -> (hit: bool)
        ensures
            final(self).cleared == (old(self).cleared || point.y.at_least(Scalar::zero())),
            hit == (old(self).cleared && point.y.less(Scalar::zero())),
    {
        let zero = Scalar::new_zero();
        if !self.cleared && point.y.ge(zero) {
            self.cleared = true;
        }
        point.y.lt(zero) && self.cleared
    }
}

/// Finds the impact sample of a recorded sequence.
pub fn locate_impact(points: &Vec<TrajectoryPoint>, vertical_offset: Scalar) -> (r: Option<usize>)
    ensures
        match r {
            Some(i) => impact_index(points@, seeded(vertical_offset)) == Some(i as int),
            None => impact_index(points@, seeded(vertical_offset)).is_none(),
        },
{
    let mut detector = ImpactDetector::new(vertical_offset);
    let mut i: usize = 0;
    while i < points.len()
        invariant
            i <= points.len(),
            detector.cleared == cleared_before(points@, seeded(vertical_offset), i as int),
            forall|j: int| 0 <= j < i ==> !strikes_at(points@, seeded(vertical_offset), j),
        decreases points.len() - i,
    {
        proof {
            lemma_cleared_step(points@, seeded(vertical_offset), i as int);
        }
        if detector.observe(points[i]) {
            proof {
                lemma_impact_found(points@, seeded(vertical_offset), i as int);
            }
            return Some(i);
        }
        i = i + 1;
    }
    proof {
        lemma_no_impact(points@, seeded(vertical_offset));
    }
    None
}

} // verus!
