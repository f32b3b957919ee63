//! Register addresses used for raw protocol operations (sync read/write).

use vstd::prelude::*;

verus! {

pub const TARGET_POSITION: u8 = 0x2A;

pub const CURRENT_POSITION: u8 = 0x38;

} // verus!
