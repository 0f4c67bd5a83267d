//! Status codes returned by `GET_STATUS`.

use vstd::prelude::*;

verus! {

pub const OK: u8 = 0x00;
pub const REQUEST_NOT_SUPPORTED: u8 = 0x02;
pub const PROTOCOL_ERROR: u8 = 0x03;
pub const INVALID_PARAMETER: u8 = 0x04;

} // verus!
