//! Time offsets of the solar-radiation input features.

use vstd::prelude::*;

verus! {

/// Hours relative to the valid time at which top-of-atmosphere solar
/// radiation is sampled for each node.
pub const SOLAR_TIME_SHIFTS_HOURS: [i64; 11] = [-12, -9, -6, -3, -1, 0, 1, 3, 6, 9, 12];

} // verus!
