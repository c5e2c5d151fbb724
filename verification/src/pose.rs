//! The pose attached to a marker's 2D bounds, carried opaquely.

use vstd::prelude::*;

verus! {

/// A marker pose as the runtime reports it: the position and orientation
/// scalars of the 2D-bound center, held as their IEEE-754 bit patterns.
///
/// The tracker never computes on a pose; it copies the pose reported for an
/// entity unchanged into the output, so the scalars stay opaque here and the
/// driver converts them at the boundary.
#[derive(Clone, Copy, Debug, PartialEq, Eq, Structural)]
pub struct Pose {
    pub position_x_bits: u32,
    pub position_y_bits: u32,
    pub position_z_bits: u32,
    pub orientation_x_bits: u32,
    pub orientation_y_bits: u32,
    pub orientation_z_bits: u32,
    pub orientation_w_bits: u32,
}

} // verus!
