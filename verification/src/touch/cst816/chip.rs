//! Chip IDs seen in the `CHIP_ID` register.

use vstd::prelude::*;

verus! {

pub const CST816S: u8 = 0xB4;
pub const CST816T: u8 = 0xB5;
pub const CST816D: u8 = 0xB6;

} // verus!
