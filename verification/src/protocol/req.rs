//! Vendor request numbers.

use vstd::prelude::*;

verus! {

pub const GET_STATUS: u8 = 0x00;
pub const GET_DESCRIPTOR: u8 = 0x01;
pub const GET_FORMATS: u8 = 0x40;
pub const GET_PROPERTIES: u8 = 0x41;
pub const GET_CONNECTORS: u8 = 0x50;
pub const GET_CONNECTOR_PROPERTIES: u8 = 0x51;
pub const SET_CONNECTOR_FORCE_DETECT: u8 = 0x53;
pub const GET_CONNECTOR_STATUS: u8 = 0x54;
pub const GET_CONNECTOR_MODES: u8 = 0x55;
pub const GET_CONNECTOR_EDID: u8 = 0x56;
pub const SET_BUFFER: u8 = 0x60;
pub const SET_STATE_CHECK: u8 = 0x61;
pub const SET_STATE_COMMIT: u8 = 0x62;
pub const SET_CONTROLLER_ENABLE: u8 = 0x63;
pub const SET_DISPLAY_ENABLE: u8 = 0x64;

} // verus!
