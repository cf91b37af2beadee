use vstd::prelude::*;

verus! {

/// Team identifier of the side that sees the field as it is.
pub const BLUE_TEAM: i32 = 0;

/// Team identifier of the side that sees the field mirrored.
pub const ORANGE_TEAM: i32 = 1;

/// Divisor by which positions and linear velocities are standardized.
pub const POS_STD: u32 = 2300;

/// Number of boost pads on the field.
pub const BOOST_PADS: usize = 34;

} // verus!
