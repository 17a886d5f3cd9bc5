//! What a solve is given, and how it can fail.

use vstd::prelude::*;
use crate::scalar::Scalar;

verus! {

/// The projectile: drag coefficient, launch velocity in m/s and mass in kg.
#[derive(Clone, Copy, Debug, PartialEq, Eq, Structural)]
pub struct ProjectileParameters {
    pub drag: Scalar,
    pub velocity: Scalar,
    pub mass: Scalar,
}

/// The environment: gravitational acceleration in m/s^2, the longest flight
/// that is simulated, in seconds, and the index of the last sampling instant
/// that lies within that duration. Instant 0 is the launch; consecutive
/// instants are one time step apart.
#[derive(Clone, Copy, Debug, PartialEq, Eq, Structural)]
pub struct EnvironmentParameters {
    pub gravity: Scalar,
    pub max_duration: Scalar,
    pub last_step: u64,
}

/// Everything that fixes a trajectory but the launch angle. The vertical
/// offset is the height of the target plane above the launch point, in m.
#[derive(Clone, Copy, Debug, PartialEq, Eq, Structural)]
pub struct Scenario {
    pub projectile: ProjectileParameters,
    pub environment: EnvironmentParameters,
    pub vertical_offset: Scalar,
}

/// Why a solve returned no result.
#[derive(Clone, Copy, Debug, PartialEq, Eq, Structural)]
pub enum SolveError {
    /// Drag, mass, gravity or the maximum duration is not positive, the
    /// velocity is negative, or the precision is not positive.
    InvalidParameter,
    /// The requested distance is beyond the maximum range, which is given.
    InfeasibleTarget { max_distance: Scalar },
    /// The search cannot end: it stepped out of the launch cone, or an
    /// attempt left it exactly as it was.
    Diverged,
}

impl ProjectileParameters {
    /// Drag and mass are positive and the velocity is not negative.
    pub open spec fn valid(self) -> bool {
        &&& self.drag.greater(Scalar::zero())
        &&& self.velocity.at_least(Scalar::zero())
        &&& self.mass.greater(Scalar::zero())
    }

    /// Decides [`Self::valid`].
    pub fn is_valid(&self) -> (r: bool)
        ensures
            r == self.valid(),
    {
        let zero = Scalar::new_zero();
        self.drag.gt(zero) && self.velocity.ge(zero) && self.mass.gt(zero)
    }
}

impl EnvironmentParameters {
    /// Gravity and the maximum duration are positive.
    pub open spec fn valid(self) -> bool {
        &&& self.gravity.greater(Scalar::zero())
        &&& self.max_duration.greater(Scalar::zero())
    }

    /// Decides [`Self::valid`].
    pub fn is_valid(&self) -> (r: bool)
        ensures
            r == self.valid(),
    {
        let zero = Scalar::new_zero();
        self.gravity.gt(zero) && self.max_duration.gt(zero)
    }
}

impl Scenario {
    /// Projectile and environment are valid. The vertical offset may be any
    /// number.
    pub open spec fn valid(self) -> bool {
        self.projectile.valid() && self.environment.valid()
    }

    /// Rejects a scenario that is not valid.
    pub fn validate(&self) -> (r: Result<(), SolveError>)
        ensures
            self.valid() ==> r == Ok::<(), SolveError>(()),
            !self.valid() ==> r == Err::<(), SolveError>(SolveError::InvalidParameter),
    {
        if self.projectile.is_valid() && self.environment.is_valid() {
            Ok(())
        } else {
            Err(SolveError::InvalidParameter)
        }
    }
}

} // verus!
