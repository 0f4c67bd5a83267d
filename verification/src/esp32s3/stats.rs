//! Counters for the debug console. They wrap.

use vstd::prelude::*;

use crate::protocol::Rect;

verus! {

/// The panel state of a display that is on, at 100 percent.
pub const ON_AT_FULL_BRIGHTNESS: u32 = 1 + 100 * 256;

#[derive(Clone, Copy, Debug, PartialEq, Eq, Structural)]
pub struct Stats {
    pub updates: u32,
    /// Uncompressed pixel bytes.
    pub bytes: u32,
    /// Bytes that actually crossed USB.
    pub wire_bytes: u32,
    pub rejected: u32,
    pub last_rejected_request: u8,
    pub abandoned: u32,
    /// Payload reads that ended early because the endpoint was disabled
    /// (bus reset or configuration change) or a packet overran the buffer.
    pub rx_disabled: u32,
    pub rx_overflow: u32,
    pub decode_errors: u32,
    /// Profiling: microseconds spent in each stage, and USB packets received.
    pub rx_us: u32,
    pub rx_packets: u32,
    pub decode_us: u32,
    pub swap_us: u32,
    pub spi_us: u32,
    /// Time the receiver spent waiting for the host's next command.
    pub idle_us: u32,
    /// Time the receiver spent waiting for a free band buffer.
    pub starve_us: u32,
    /// Bands the panel worker actually pushed to the glass, and pixel bytes.
    pub bands_written: u32,
    pub pixels_written: u32,
    /// Panel state as last commanded: bit0 display enabled, bits 8.. brightness.
    pub panel_state: u32,
    /// Bring-up counters: every control request seen (ours or not), DTR as
    /// last observed by the console task, bytes received on the console's
    /// OUT endpoint, console writes that completed / timed out.
    pub control_requests: u32,
    pub dtr: u32,
    pub console_rx_bytes: u32,
    pub console_tx_ok: u32,
    pub console_tx_timeout: u32,
    /// Touch reports sent, dropped because the host was not polling, and
    /// controller reads that failed.
    pub touch_reports: u32,
    pub touch_dropped: u32,
    pub touch_errors: u32,
}

/// Nothing counted; the display is on, at full brightness.
pub open spec fn fresh() -> Stats {
    Stats {
        updates: 0,
        bytes: 0,
        wire_bytes: 0,
        rejected: 0,
        last_rejected_request: 0,
        abandoned: 0,
        rx_disabled: 0,
        rx_overflow: 0,
        decode_errors: 0,
        rx_us: 0,
        rx_packets: 0,
        decode_us: 0,
        swap_us: 0,
        spi_us: 0,
        idle_us: 0,
        starve_us: 0,
        bands_written: 0,
        pixels_written: 0,
        panel_state: ON_AT_FULL_BRIGHTNESS,
        control_requests: 0,
        dtr: 0,
        console_rx_bytes: 0,
        console_tx_ok: 0,
        console_tx_timeout: 0,
        touch_reports: 0,
        touch_dropped: 0,
        touch_errors: 0,
    }
}

impl Stats {
    pub fn new() -> (s: Self)
        ensures
            s == fresh(),
    {
        Stats {
            updates: 0,
            bytes: 0,
            wire_bytes: 0,
            rejected: 0,
            last_rejected_request: 0,
            abandoned: 0,
            rx_disabled: 0,
            rx_overflow: 0,
            decode_errors: 0,
            rx_us: 0,
            rx_packets: 0,
            decode_us: 0,
            swap_us: 0,
            spi_us: 0,
            idle_us: 0,
            starve_us: 0,
            bands_written: 0,
            pixels_written: 0,
            panel_state: ON_AT_FULL_BRIGHTNESS,
            control_requests: 0,
            dtr: 0,
            console_rx_bytes: 0,
            console_tx_ok: 0,
            console_tx_timeout: 0,
            touch_reports: 0,
            touch_dropped: 0,
            touch_errors: 0,
        }
    }

    /// One more update announced.
    pub open spec fn with_update(self, rect: Rect) -> Stats {
        Stats {
            updates: self.updates.wrapping_add(1),
            bytes: self.bytes.wrapping_add(rect.length),
            wire_bytes: self.wire_bytes.wrapping_add(rect.payload),
            ..self
        }
    }

    pub fn count_update(&mut self, rect: &Rect)
        ensures
            *final(self) == old(self).with_update(*rect),
    {
        self.updates = self.updates.wrapping_add(1);
        self.bytes = self.bytes.wrapping_add(rect.length);
        self.wire_bytes = self.wire_bytes.wrapping_add(rect.payload);
    }

    /// One more request refused.
    pub open spec fn with_rejected(self, request: u8) -> Stats {
        Stats {
            rejected: self.rejected.wrapping_add(1),
            last_rejected_request: request,
            ..self
        }
    }

    pub fn count_rejected(&mut self, request: u8)
        ensures
            *final(self) == old(self).with_rejected(request),
    {
        self.rejected = self.rejected.wrapping_add(1);
        self.last_rejected_request = request;
    }

    /// The display switched on or off.
    pub open spec fn with_enabled(self, on: bool) -> Stats {
        Stats {
            panel_state: (self.panel_state / 2 * 2 + if on {
                1int
            } else {
                0
            }) as u32,
            ..self
        }
    }

    pub fn set_enabled(&mut self, on: bool)
        ensures
            *final(self) == old(self).with_enabled(on),
    {
        let bit: u32 = if on {
            1
        } else {
            0
        };
        self.panel_state = self.panel_state / 2 * 2 + bit;
    }

    /// The backlight set.
    pub open spec fn with_brightness(self, percent: u8) -> Stats {
        Stats { panel_state: (self.panel_state % 256 + percent * 256) as u32, ..self }
    }

    pub fn set_brightness(&mut self, percent: u8)
        ensures
            *final(self) == old(self).with_brightness(percent),
    {
        self.panel_state = self.panel_state % 256 + percent as u32 * 256;
    }
}

/// A counter of microseconds with more time on it.
pub fn account(counter: u32, elapsed_us: u64) -> (n: u32)
    ensures
        n == (counter + elapsed_us) % 0x1_0000_0000,
{
    let low: u32 = (elapsed_us % 0x1_0000_0000) as u32;
    counter.wrapping_add(low)
}

/// The state tells both: what was commanded of the one does not change the
/// other.
pub proof fn the_panel_state_tells_both(s: Stats, on: bool, percent: u8)
    requires
        s.panel_state / 256 <= 255,
    ensures
        s.with_enabled(on).panel_state % 2 == if on {
            1int
        } else {
            0
        },
        s.with_enabled(on).panel_state / 256 == s.panel_state / 256,
        s.with_brightness(percent).panel_state / 256 == percent,
        s.with_brightness(percent).panel_state % 2 == s.panel_state % 2,
{
}

} // verus!
