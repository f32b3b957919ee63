//! SMS/STS series-specific constants.

use vstd::prelude::*;

verus! {

/// Resolution of the servo in steps (0-4095).
pub const SMS_STS_RESOLUTION_STEPS: u16 = 4096;

/// Maximum position value (steps).
pub const SMS_STS_MAX_POSITION_STEPS: u16 = 4095;

} // verus!
