//! Touch input for the gudlet boards, shared between microcontrollers.
//!
//! GUD carries pixels only, so touch goes to the host the standard way: a
//! USB HID touch screen interface (HID 1.11, Usage Tables 1.4 Digitizer
//! page) beside the GUD interface on the same composite device. Linux binds
//! hid-multitouch to it and macOS binds its HID stack, with nothing to
//! install on either.
//!
//! [`hid`] holds the report descriptor and the report encoding, [`descriptor`]
//! what the descriptor says, [`cst816`] the I2C driver for the CST816 controller
//! on the Waveshare 1.69" boards, and [`usbd`] the class requests that a USB
//! stack routes to the interface.

pub mod cst816;
pub mod descriptor;
pub mod finger;
pub mod hid;
pub mod host;
pub mod laws;
pub mod poll;
pub mod usbd;

pub use crate::touch::cst816::{Cst816, Point};
pub use crate::touch::hid::{Panel, ReportCell, TouchHidState, TouchReport, TouchTracker};
