//! Decision core of a ballistic solver under linear drag.
//!
//! The library simulates flights of a projectile sample by sample, detects
//! the impact on a target plane, and searches for the launch angle of the
//! maximum range and for the launch angle that strikes at a given distance.
//! The position of the projectile at a sampling instant is computed by a
//! kinematic model that the caller supplies; the library orders the numbers
//! it is given and never computes with them. Launch angles are held in exact
//! decimal arithmetic.

pub mod aim;
pub mod angle;
pub mod impact;
pub mod range;
pub mod sampler;
pub mod scalar;
pub mod scenario;
pub mod search;
pub mod trajectory;

pub use aim::{find_trajectory_angle, AimSearch, AimSolution, TrajectoryKind};
pub use angle::{Angle, Stride};
pub use impact::{locate_impact, ImpactDetector};
pub use range::{find_distance_angle, RangeSearch, RangeSolution};
pub use sampler::{find_trajectory_distance_time, fly, Flight, FlightStatus};
pub use scalar::Scalar;
pub use scenario::{EnvironmentParameters, ProjectileParameters, Scenario, SolveError};
pub use search::Cursor;
pub use trajectory::TrajectoryPoint;
