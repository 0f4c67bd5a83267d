//! Device side of a small USB display: the GUD protocol, the panel it drives,
//! the pixel pipeline between the two, and the touch screen beside them.

pub mod bytes;
pub mod chunks;
pub mod esp32s3;
pub mod line;
pub mod numbers;
pub mod panel;
pub mod pipeline;
pub mod protocol;
pub mod readout;
pub mod rp2040;
pub mod touch;
pub mod usb;
