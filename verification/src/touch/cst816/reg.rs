//! The registers of the controller.

use vstd::prelude::*;

verus! {

pub const GESTURE_ID: u8 = 0x01;
pub const FINGER_NUM: u8 = 0x02;
pub const XPOS_H: u8 = 0x03;
pub const XPOS_L: u8 = 0x04;
pub const YPOS_H: u8 = 0x05;
pub const YPOS_L: u8 = 0x06;
pub const CHIP_ID: u8 = 0xA7;
pub const FW_VERSION: u8 = 0xA9;
/// Interrupt low pulse width in 0.1 ms, 1..=200, default 10.
pub const IRQ_PULSE_WIDTH: u8 = 0xED;
/// Scan period while touched in 10 ms units, 1..=30, default 1.
pub const NOR_SCAN_PER: u8 = 0xEE;
pub const IRQ_CTL: u8 = 0xFA;
/// Non-zero keeps the chip out of its low-power mode, where it stops
/// answering on I2C.
pub const DIS_AUTO_SLEEP: u8 = 0xFE;

} // verus!
