//! The panel upright.

use vstd::prelude::*;

verus! {

pub const WIDTH: u16 = 240;
pub const HEIGHT: u16 = 280;
/// The size of the visible part in tenths of a millimetre.
pub const WIDTH_TENTH_MM: u16 = 280;
pub const HEIGHT_TENTH_MM: u16 = 326;
/// The controller's RAM, in which the visible part sits at an offset.
pub const RAM_WIDTH: u16 = 240;
pub const RAM_HEIGHT: u16 = 320;
pub const X_OFFSET: u16 = 0;
pub const Y_OFFSET: u16 = 20;
pub const MADCTL: u8 = 0x00;

} // verus!
