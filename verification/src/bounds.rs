use vstd::prelude::*;

verus! {

/// Largest magnitude that a coordinate of a particle position or of a
/// region corner may have. Chosen so that a squared distance between two
/// in-range points fits in a `u64` and every force numerator fits in a
/// `u128`.
pub const POS_LIMIT: i64 = 1_073_741_824;

/// Largest total mass that a simulation (and so any quad-tree node) may
/// carry; also the largest mass a single particle may have.
pub const MASS_LIMIT: u64 = 1_099_511_627_776;

/// Largest value accepted for the gravity, epsilon and scale parameters.
pub const PARAM_LIMIT: u64 = 1_048_576;

/// Velocity components are saturated to this magnitude when a step
/// integrates the accumulated force, so that positions advance by a
/// bounded amount per step and the arithmetic stays exact.
pub const VEL_LIMIT: i64 = 33_554_432;

/// Each pairwise force contribution is saturated to this magnitude
/// before it is accumulated.
pub const DELTA_LIMIT: i64 = 33_554_432;

/// A force total handed back through a `Vector2` accumulator is
/// saturated to this magnitude. It is twice `VEL_LIMIT`, which makes the
/// saturation transparent: clamping the total first and then the updated
/// velocity gives the same velocity as clamping only once.
pub const FORCE_CLAMP: i64 = 67_108_864;

/// Largest diameter a particle may have.
pub const DIAM_LIMIT: u64 = 4_294_967_296;

/// The opening angle is given in thousandths: an internal node of side
/// `s` at distance `d` is expanded when `s * ANGLE_SCALE > angle * d`.
pub const ANGLE_SCALE: u64 = 1000;

} // verus!
