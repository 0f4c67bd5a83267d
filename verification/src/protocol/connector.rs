//! What a request asks of the connector: a model of the requests that change
//! it or reach the panel.

use vstd::prelude::*;

use crate::bytes;
use crate::protocol::display::{self, Display, BYTES_PER_PIXEL, COMPRESSION_LZ4};
use crate::protocol::{req, status};

verus! {

pub const PIXEL_FORMAT_RGB565: u8 = 0x40;
pub const CONNECTOR_TYPE_PANEL: u8 = 0;
pub const CONNECTOR_STATUS_CONNECTED: u8 = 0x01;
pub const PROPERTY_BACKLIGHT_BRIGHTNESS: u16 = 12;

/// One framebuffer update announced by `SET_BUFFER`, already validated
/// against the display.
#[derive(Clone, Copy, Debug, PartialEq, Eq, Structural)]
pub struct Rect {
    pub x: u16,
    pub y: u16,
    pub width: u16,
    pub height: u16,
    /// Uncompressed pixel bytes.
    pub length: u32,
    /// Bytes actually sent on the bulk endpoint (== length when raw).
    pub payload: u32,
    pub compressed: bool,
}

/// Work for the panel, in the order it must be applied.
#[derive(Clone, Copy, Debug, PartialEq, Eq, Structural)]
pub enum Command {
    /// An update follows on the bulk endpoint.
    Update(Rect),
    /// Backlight, 0..=100.
    Brightness(u8),
    /// Display on/off.
    Enable(bool),
}

/// The connector as requests see it.
pub struct Connector {
    pub display: Display,
    /// Status of the last request.
    pub status: u8,
    pub brightness: u8,
    /// Brightness that the next `SET_STATE_COMMIT` applies.
    pub pending_brightness: u8,
    pub enabled: bool,
}

impl Connector {
    /// Brightness is a percentage.
    pub open spec fn valid(self) -> bool {
        &&& self.brightness <= 100
        &&& self.pending_brightness <= 100
    }

    /// What a vendor IN request is answered: the reply, or the status code to
    /// stall with.
    pub open spec fn reply(self, request: u8, value: u16) -> Result<Seq<u8>, u8> {
        if request == req::GET_STATUS {
            Ok(seq![self.status])
        } else if request == req::GET_DESCRIPTOR {
            Ok(display::descriptor_bytes(self.display))
        } else if request == req::GET_FORMATS {
            Ok(seq![PIXEL_FORMAT_RGB565])
        } else if request == req::GET_PROPERTIES {
            Ok(seq![])
        } else if request == req::GET_CONNECTORS {
            Ok(seq![CONNECTOR_TYPE_PANEL, 0, 0, 0, 0])
        } else if !is_connector_query(request) {
            Err(status::REQUEST_NOT_SUPPORTED)
        } else if value != 0 {
            Err(status::INVALID_PARAMETER)
        } else if request == req::GET_CONNECTOR_PROPERTIES {
            Ok(display::property_bytes(PROPERTY_BACKLIGHT_BRIGHTNESS, self.brightness as u64))
        } else if request == req::GET_CONNECTOR_STATUS {
            Ok(seq![CONNECTOR_STATUS_CONNECTED])
        } else if request == req::GET_CONNECTOR_MODES {
            Ok(display::mode_bytes(self.display))
        } else {
            Ok(seq![])
        }
    }

    /// The connector after a vendor IN request: the request's status stands
    /// for the next `GET_STATUS`, which itself changes nothing.
    pub open spec fn after_reply(self, request: u8, value: u16) -> Connector {
        if request == req::GET_STATUS {
            self
        } else {
            match self.reply(request, value) {
                Ok(_) => self.with_status(status::OK),
                Err(code) => self.with_status(code),
            }
        }
    }

    /// The commands that a vendor OUT request has for the panel, in order, or
    /// the status code that refuses it.
    pub open spec fn commands(self, request: u8, data: Seq<u8>) -> Result<Seq<Command>, u8> {
        if request == req::SET_BUFFER {
            match announced_rect(self.display, data) {
                Ok(rect) => Ok(seq![Command::Update(rect)]),
                Err(code) => Err(code),
            }
        } else if request == req::SET_STATE_CHECK {
            if data.len() < 26 {
                Err(status::PROTOCOL_ERROR)
            } else if state_matches(self.display, data) && staged(
                data,
                self.brightness,
                property_count(data),
            ).1 {
                Ok(seq![])
            } else {
                Err(status::INVALID_PARAMETER)
            }
        } else if request == req::SET_STATE_COMMIT {
            if self.pending_brightness != self.brightness && self.enabled {
                Ok(seq![Command::Brightness(self.pending_brightness)])
            } else {
                Ok(seq![])
            }
        } else if request == req::SET_DISPLAY_ENABLE {
            if data.len() == 0 {
                Err(status::PROTOCOL_ERROR)
            } else if (data[0] != 0) == self.enabled {
                Ok(seq![])
            } else if data[0] != 0 {
                Ok(seq![Command::Enable(true), Command::Brightness(self.brightness)])
            } else {
                Ok(seq![Command::Enable(false), Command::Brightness(0)])
            }
        } else if request == req::SET_CONTROLLER_ENABLE || request
            == req::SET_CONNECTOR_FORCE_DETECT {
            Ok(seq![])
        } else {
            Err(status::REQUEST_NOT_SUPPORTED)
        }
    }

    /// The connector after a vendor OUT request, its status aside.
    pub open spec fn after(self, request: u8, data: Seq<u8>) -> Connector {
        if request == req::SET_STATE_CHECK && data.len() >= 26 && state_matches(
            self.display,
            data,
        ) {
            Connector {
                pending_brightness: staged(data, self.brightness, property_count(data)).0,
                ..self
            }
        } else if request == req::SET_STATE_COMMIT {
            Connector { brightness: self.pending_brightness, ..self }
        } else if request == req::SET_DISPLAY_ENABLE && data.len() > 0 {
            Connector { enabled: data[0] != 0, ..self }
        } else {
            self
        }
    }

    /// The same connector with another status.
    pub open spec fn with_status(self, status: u8) -> Connector {
        Connector { status, ..self }
    }
}

/// The request is about one connector, which `wValue` names.
pub open spec fn is_connector_query(request: u8) -> bool {
    ||| request == req::GET_CONNECTOR_PROPERTIES
    ||| request == req::GET_CONNECTOR_STATUS
    ||| request == req::GET_CONNECTOR_MODES
    ||| request == req::GET_CONNECTOR_EDID
}

/// The announcement lies on the display, is as long as its pixels, and is no
/// longer than the display takes.
pub open spec fn on_display(d: Display, data: Seq<u8>) -> bool {
    let x = bytes::u32_at(data, 0);
    let y = bytes::u32_at(data, 4);
    let width = bytes::u32_at(data, 8);
    let height = bytes::u32_at(data, 12);
    let length = bytes::u32_at(data, 16);
    &&& width > 0
    &&& height > 0
    &&& x + width <= d.width
    &&& y + height <= d.height
    &&& length == width * height * BYTES_PER_PIXEL
    &&& d.max_buffer_size == 0 || length <= d.max_buffer_size
}

/// The payload is LZ4, the display takes that, and it does not expand.
pub open spec fn takes_lz4(d: Display, data: Seq<u8>) -> bool {
    &&& data[20] == COMPRESSION_LZ4
    &&& d.compression % 2 == 1
    &&& 0 < bytes::u32_at(data, 21) <= bytes::u32_at(data, 16)
}

/// The update that a `SET_BUFFER` data stage announces, or the status code
/// that refuses it.
pub open spec fn announced_rect(d: Display, data: Seq<u8>) -> Result<Rect, u8> {
    if data.len() < 25 {
        Err(status::PROTOCOL_ERROR)
    } else if on_display(d, data) && (data[20] == 0 || takes_lz4(d, data)) {
        Ok(
            Rect {
                x: bytes::u32_at(data, 0) as u16,
                y: bytes::u32_at(data, 4) as u16,
                width: bytes::u32_at(data, 8) as u16,
                height: bytes::u32_at(data, 12) as u16,
                length: bytes::u32_at(data, 16) as u32,
                payload: (if data[20] == 0 {
                    bytes::u32_at(data, 16)
                } else {
                    bytes::u32_at(data, 21)
                }) as u32,
                compressed: data[20] != 0,
            },
        )
    } else {
        Err(status::INVALID_PARAMETER)
    }
}

/// The state asks for the display's one mode and format on its one connector.
pub open spec fn state_matches(d: Display, data: Seq<u8>) -> bool {
    &&& bytes::u16_at(data, 4) == d.width
    &&& bytes::u16_at(data, 12) == d.height
    &&& data[24] == PIXEL_FORMAT_RGB565
    &&& data[25] == 0
}

/// Whole properties behind the state: ten bytes each.
pub open spec fn property_count(data: Seq<u8>) -> nat {
    ((data.len() - 26) / 10) as nat
}

/// The number of property `k`.
pub open spec fn property_id(data: Seq<u8>, k: int) -> int {
    bytes::u16_at(data, 26 + 10 * k)
}

/// The value of property `k`: the low half of the field.
pub open spec fn property_value(data: Seq<u8>, k: int) -> int {
    bytes::u32_at(data, 26 + 10 * k + 2)
}

/// The brightness that the first `n` properties stage, starting from
/// `brightness`, and whether they are all acceptable. A brightness over 100
/// ends it; other properties are passed over.
pub open spec fn staged(data: Seq<u8>, brightness: u8, n: nat) -> (u8, bool)
    decreases n,
{
    if n == 0 {
        (brightness, true)
    } else {
        let (value, good) = staged(data, brightness, (n - 1) as nat);
        if !good || property_id(data, n - 1) != PROPERTY_BACKLIGHT_BRIGHTNESS {
            (value, good)
        } else if property_value(data, n - 1) > 100 {
            (value, false)
        } else {
            (property_value(data, n - 1) as u8, true)
        }
    }
}

/// Once a property is refused, those behind it change nothing.
pub proof fn staged_stops(data: Seq<u8>, brightness: u8, m: nat, n: nat)
    requires
        m <= n,
        !staged(data, brightness, m).1,
    ensures
        staged(data, brightness, n) == staged(data, brightness, m),
    decreases n - m,
{
    if m < n {
        staged_stops(data, brightness, m, (n - 1) as nat);
    }
}

} // verus!
