//! SCSCL series-specific constants.

use vstd::prelude::*;

verus! {

/// Resolution of the servo in steps (0-1023).
pub const SCSCL_RESOLUTION_STEPS: u16 = 1024;

/// No-load speed in steps per second.
pub const SCSCL_NO_LOAD_SPEED_STEPS_PER_SEC: u16 = 1500;

/// No-load speed in RPM.
pub const SCSCL_NO_LOAD_SPEED_RPM: u16 = 54;

/// Maximum position value (steps).
pub const SCSCL_MAX_POSITION_STEPS: u16 = 1023;

} // verus!
