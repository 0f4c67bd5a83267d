//! The firmware of the Waveshare ESP32-S3-Touch-LCD-1.69.

pub mod console;
pub mod console_laws;
pub mod crash;
pub mod device;
pub mod gud;
pub mod laws;
pub mod panel;
pub mod panel_laws;
pub mod stats;
pub mod touch;
