//! `IRQ_CTL` bits.

use vstd::prelude::*;

verus! {

/// Pulse INT every scan period while a finger is down.
pub const EN_TOUCH: u8 = 0x40;
/// Pulse INT when the touch state changes.
pub const EN_CHANGE: u8 = 0x20;
/// Pulse INT for recognised gestures.
pub const EN_MOTION: u8 = 0x10;

} // verus!
