//! The firmware of the Waveshare RP2040-Touch-LCD-1.69.

pub mod console;
pub mod console_laws;
pub mod device;
pub mod gud;
pub mod laws;
pub mod panel;
pub mod panel_laws;
pub mod queue;
pub mod touch;
pub mod usb;
