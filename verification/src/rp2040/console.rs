//! The serial port beside the GUD interface. It prints a status line once a
//! second while open, and opening it at 1200 baud reboots the board into the
//! USB bootloader (the Arduino convention) so the firmware can be reflashed
//! without touching the BOOT button.

use vstd::prelude::*;

use crate::line::{self, Line};
use crate::panel::{HEIGHT, WIDTH};
use crate::rp2040::gud::Stats;
use crate::rp2040::panel::PanelStats;

verus! {

/// Keep the vendor-demo rate until faster SPI is visually validated on the
/// panel. USB/LZ4 and DMA overlap remain independent of this clock.
pub const SPI_BAUD_HZ: u32 = 31_250_000;
/// Opening the serial port at this rate and closing it reboots to BOOTSEL.
pub const BOOTSEL_BAUD: u32 = 1200;
pub const STATUS_INTERVAL_MS: u64 = 1000;
/// The longest status line.
pub const LINE_BYTES: usize = 256;

/// Whether the port asks for the bootloader.
pub fn wants_bootsel(data_rate: u32, dtr: bool) -> (b: bool)
    ensures
        b == (data_rate == BOOTSEL_BAUD && !dtr),
{
    data_rate == BOOTSEL_BAUD && !dtr
}

/// The status line.
pub open spec fn status_text(stats: Stats, panel: PanelStats, uptime_s: u64) -> Seq<u8> {
    line::text("gud ") + line::decimal(WIDTH as nat) + line::text("x") + line::decimal(
        HEIGHT as nat,
    ) + line::text(" rx=") + line::decimal(stats.updates as nat) + line::text(" bytes=")
        + line::decimal(stats.bytes as nat) + line::text(" wire=") + line::decimal(
        stats.wire_bytes as nat,
    ) + line::text(" done=") + line::decimal(panel.completed as nat) + line::text(" written=")
        + line::decimal(panel.pixel_bytes as nat) + line::text(" decode_errors=") + line::decimal(
        panel.decode_errors as nat,
    ) + line::text(" rejected=") + line::decimal(stats.rejected as nat) + line::text(" last=0x")
        + line::hexadecimal_pair(stats.last_rejected_request as nat) + line::text(" bl=")
        + line::decimal(stats.brightness as nat) + line::text(" on=") + line::decimal(
        panel.enabled as nat,
    ) + line::text(" spi=") + line::decimal(SPI_BAUD_HZ as nat) + line::text(" up=")
        + line::decimal(uptime_s as nat) + line::text("\r\n")
}

/// Writes the status line.
pub fn status_line(stats: &Stats, panel: &PanelStats, uptime_s: u64) -> (l: Line<LINE_BYTES>)
    ensures
        l.full() == status_text(*stats, *panel, uptime_s),
{
    let mut l = Line::<LINE_BYTES>::new();
    l.write_str("gud ");
    assert(l.full() =~= line::text("gud "));
    l.write_decimal(WIDTH as u64);
    l.field("x", HEIGHT as u32);
    l.field(" rx=", stats.updates);
    l.field(" bytes=", stats.bytes);
    l.field(" wire=", stats.wire_bytes);
    l.field(" done=", panel.completed);
    l.field(" written=", panel.pixel_bytes);
    l.field(" decode_errors=", panel.decode_errors);
    l.field(" rejected=", stats.rejected);
    l.write_str(" last=0x");
    l.write_hex_pair(stats.last_rejected_request);
    l.field(" bl=", stats.brightness as u32);
    l.field(" on=", panel.enabled);
    l.field(" spi=", SPI_BAUD_HZ);
    l.write_str(" up=");
    l.write_decimal(uptime_s);
    l.write_str("\r\n");
    l
}

/// A number of 32 bits has at most ten digits, one of 64 bits at most twenty.
proof fn digits(a: u32, b: u64)
    ensures
        line::decimal(a as nat).len() <= 10,
        line::decimal(b as nat).len() <= 20,
{
    reveal_with_fuel(line::ten_to, 21);
    line::decimals_are_short(a as nat, 10);
    line::decimals_are_short(b as nat, 20);
}

/// A status line always fits, so that its newline is never lost.
pub proof fn status_lines_fit(stats: Stats, panel: PanelStats, uptime_s: u64)
    ensures
        status_text(stats, panel, uptime_s).len() <= LINE_BYTES,
        line::clip(status_text(stats, panel, uptime_s), LINE_BYTES as nat) == status_text(
            stats,
            panel,
            uptime_s,
        ),
{
    reveal_strlit("gud ");
    line::ascii_text("gud ");
    reveal_strlit("x");
    line::ascii_text("x");
    reveal_strlit(" rx=");
    line::ascii_text(" rx=");
    reveal_strlit(" bytes=");
    line::ascii_text(" bytes=");
    reveal_strlit(" wire=");
    line::ascii_text(" wire=");
    reveal_strlit(" done=");
    line::ascii_text(" done=");
    reveal_strlit(" written=");
    line::ascii_text(" written=");
    reveal_strlit(" decode_errors=");
    line::ascii_text(" decode_errors=");
    reveal_strlit(" rejected=");
    line::ascii_text(" rejected=");
    reveal_strlit(" last=0x");
    line::ascii_text(" last=0x");
    reveal_strlit(" bl=");
    line::ascii_text(" bl=");
    reveal_strlit(" on=");
    line::ascii_text(" on=");
    reveal_strlit(" spi=");
    line::ascii_text(" spi=");
    reveal_strlit(" up=");
    line::ascii_text(" up=");
    reveal_strlit("\r\n");
    line::ascii_text("\r\n");
    digits(WIDTH as u32, uptime_s);
    digits(HEIGHT as u32, uptime_s);
    digits(stats.updates, uptime_s);
    digits(stats.bytes, uptime_s);
    digits(stats.wire_bytes, uptime_s);
    digits(panel.completed, uptime_s);
    digits(panel.pixel_bytes, uptime_s);
    digits(panel.decode_errors, uptime_s);
    digits(stats.rejected, uptime_s);
    digits(stats.brightness as u32, uptime_s);
    digits(panel.enabled, uptime_s);
    digits(SPI_BAUD_HZ, uptime_s);
    reveal_with_fuel(line::hexadecimal, 3);
}

/// The port may accept only part of a status line. The tail is kept and sent
/// over later polls; otherwise long lines would lose their newline.
pub struct StatusPort {
    pending: Option<Line<LINE_BYTES>>,
    sent: usize,
    last_status_us: u64,
}

/// The port as its users see it: what is left to send, if anything, and when
/// the last line was begun.
#[verifier::ext_equal]
pub struct Port {
    pub tail: Option<Seq<u8>>,
    pub last_status_us: u64,
}

impl View for StatusPort {
    type V = Port;

    closed spec fn view(&self) -> Port {
        Port {
            tail: match self.pending {
                Some(l) => Some(
                    line::clip(l.full(), LINE_BYTES as nat).skip(self.sent as int),
                ),
                None => None,
            },
            last_status_us: self.last_status_us,
        }
    }
}

impl StatusPort {
    /// What was sent is part of the line.
    pub closed spec fn wf(self) -> bool {
        self.pending matches Some(l) ==> self.sent <= line::clip(
            l.full(),
            LINE_BYTES as nat,
        ).len()
    }

    pub fn new(now_us: u64) -> (p: Self)
        ensures
            p.wf(),
            p@ == (Port { tail: None, last_status_us: now_us }),
    {
        StatusPort { pending: None, sent: 0, last_status_us: now_us }
    }

    /// What is left to send while the port is open. A line that nobody reads
    /// is dropped.
    pub fn tail(&mut self, dtr: bool) -> (tail: Option<&[u8]>)
        requires
            old(self).wf(),
        ensures
            final(self).wf(),
            final(self)@ == (if dtr {
                old(self)@
            } else {
                Port { tail: None, ..old(self)@ }
            }),
            match tail {
                Some(b) => dtr && old(self)@.tail == Some(b@),
                None => !dtr || old(self)@.tail is None,
            },
    {
        if !dtr {
            self.pending = None;
        }
        match &self.pending {
            Some(l) => {
                let all = l.as_bytes();
                Some(vstd::slice::slice_subrange(all, self.sent, all.len()))
            },
            None => None,
        }
    }

    /// The port took this many bytes of the tail.
    pub fn wrote(&mut self, n: usize)
        requires
            old(self).wf(),
            old(self)@.tail matches Some(tail) ==> n <= tail.len(),
        ensures
            final(self).wf(),
            final(self)@ == (Port {
                tail: match old(self)@.tail {
                    Some(tail) => if n == tail.len() {
                        None
                    } else {
                        Some(tail.skip(n as int))
                    },
                    None => None,
                },
                ..old(self)@
            }),
    {
        match &self.pending {
            Some(l) => {
                let len: usize = l.as_bytes().len();
                let ghost all = line::clip(l.full(), LINE_BYTES as nat);
                self.sent = self.sent + n;
                if self.sent == len {
                    self.pending = None;
                } else {
                    assert(all.skip(self.sent as int) =~= all.skip(old(self).sent as int).skip(
                        n as int,
                    ));
                }
            },
            None => {},
        }
    }

    /// Whether it is time for another line.
    pub fn due(&self, now_us: u64, dtr: bool) -> (due: bool)
        requires
            self@.last_status_us <= now_us,
        ensures
            due == (dtr && self@.tail is None && (now_us - self@.last_status_us) / 1000
                >= STATUS_INTERVAL_MS),
    {
        dtr && self.pending.is_none() && (now_us - self.last_status_us) / 1000
            >= STATUS_INTERVAL_MS
    }

    /// Begins another line.
    pub fn begin(&mut self, now_us: u64, l: Line<LINE_BYTES>)
        ensures
            final(self).wf(),
            final(self)@ == (Port {
                tail: Some(line::clip(l.full(), LINE_BYTES as nat)),
                last_status_us: now_us,
            }),
    {
        self.last_status_us = now_us;
        self.pending = Some(l);
        self.sent = 0;
        assert(line::clip(l.full(), LINE_BYTES as nat).skip(0) =~= line::clip(
            l.full(),
            LINE_BYTES as nat,
        ));
    }
}

} // verus!
