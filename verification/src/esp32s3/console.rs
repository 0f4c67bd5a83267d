//! The debug console and the ways into the ROM's download mode.
//!
//! A CDC-ACM serial port sits beside the GUD interface. It prints a status
//! line once a second while open, and writing `gud-reflash` to it reboots
//! the chip into the ROM download mode so espflash can reflash it without
//! touching the BOOT button.

use vstd::prelude::*;
use vstd::string::StringSliceAdditionalSpecFns;

use crate::esp32s3::crash::{CrashRecord, PANIC_BYTES};
use crate::esp32s3::stats::Stats;
use crate::line::{self, Line};
use crate::panel::{HEIGHT, WIDTH};

verus! {

/// The longest line.
pub const LINE_BYTES: usize = 512;
/// A line goes out in packets of at most so many bytes.
pub const PACKET_BYTES: usize = 63;
pub const CONSOLE_WRITE_TIMEOUT_MS: u64 = 250;
/// Writing this to the serial console reboots into download mode.
pub const REFLASH_MAGIC: [u8; 11] = [
    0x67, 0x75, 0x64, 0x2d, 0x72, 0x65, 0x66, 0x6c, 0x61, 0x73, 0x68,
];
/// Holding BOOT for so long while the app runs reboots into download mode.
pub const BOOT_HOLD_MS: u32 = 1000;
/// How often the button is looked at.
pub const BOOT_POLL_MS: u32 = 50;

/// The magic string stands at place `at`.
pub open spec fn magic_at(received: Seq<u8>, at: int) -> bool {
    0 <= at && at + REFLASH_MAGIC@.len() <= received.len() && forall|k: int|
        0 <= k < REFLASH_MAGIC@.len() ==> received[at + k] == #[trigger] REFLASH_MAGIC@[k]
}

/// The magic string stands somewhere.
pub open spec fn has_magic(received: Seq<u8>) -> bool {
    exists|at: int| magic_at(received, at)
}

/// Reflash trigger: whether the host has written the magic string to the
/// console. (A 1200-baud "touch" would not do: macOS caches a tty's line coding
/// per device node and replays it on every open, so one such touch would keep
/// rebooting the board forever after.)
pub fn asks_for_reflash(received: &[u8]) -> (found: bool)
    ensures
        found == has_magic(received@),
{
    let len: usize = received.len();
    let mut at: usize = 0;
    while at < len && len - at >= 11
        invariant
            len == received@.len(),
            at <= len,
            forall|j: int| 0 <= j < at ==> !magic_at(received@, j),
        decreases len - at,
    {
        let mut k: usize = 0;
        while k < 11 && received[at + k] == REFLASH_MAGIC[k]
            invariant
                len == received@.len(),
                at + 11 <= len,
                k <= 11,
                forall|j: int| 0 <= j < k ==> received@[at + j] == #[trigger] REFLASH_MAGIC@[j],
            decreases 11 - k,
        {
            k += 1;
        }
        if k == 11 {
            assert(magic_at(received@, at as int));
            return true;
        }
        assert(REFLASH_MAGIC@[k as int] != received@[at + k]);
        at += 1;
    }
    false
}

/// For how long the button has been seen held after one more level, and
/// whether that asks for the reboot.
pub open spec fn after_level(held: int, low: bool) -> (int, bool) {
    if !low {
        (0, false)
    } else if held + BOOT_POLL_MS >= BOOT_HOLD_MS {
        (held, true)
    } else {
        (held + BOOT_POLL_MS, false)
    }
}

/// The BOOT button. Holding it for a second while the app runs reboots into
/// download mode, the same way the console's reflash string does. The button
/// alone can't: BOOT+RESET lands in the ROM with the USB PHY still pointed at
/// the OTG controller, so the download port never appears.
pub struct BootButton {
    held_ms: u32,
}

impl BootButton {
    /// For how long it has been seen held.
    pub closed spec fn held(self) -> u32 {
        self.held_ms
    }

    #[verifier::type_invariant]
    spec fn not_long_enough(self) -> bool {
        self.held_ms < BOOT_HOLD_MS
    }

    pub fn new() -> (b: Self)
        ensures
            b.held() == 0,
    {
        BootButton { held_ms: 0 }
    }

    /// Takes the button's level, [`BOOT_POLL_MS`] after the last. Returns
    /// whether to reboot.
    pub fn sampled(&mut self, low: bool) -> (reboot: bool)
        ensures
            (final(self).held() as int, reboot) == after_level(old(self).held() as int, low),
    {
        proof {
            use_type_invariant(&*self);
        }
        if !low {
            self.held_ms = 0;
            return false;
        }
        if self.held_ms + BOOT_POLL_MS >= BOOT_HOLD_MS {
            return true;
        }
        self.held_ms = self.held_ms + BOOT_POLL_MS;
        false
    }
}

/// For how long the button has been seen held after so many levels, low being
/// `true`, and whether the last asks for the reboot.
pub open spec fn seen(samples: Seq<bool>) -> (int, bool)
    decreases samples.len(),
{
    if samples.len() == 0 {
        (0, false)
    } else {
        after_level(seen(samples.drop_last()).0, samples.last())
    }
}

/// The button has to be held for a second: after a level that is not low, the
/// reboot is asked for at the twentieth low one in a row, and not before.
pub proof fn the_button_has_to_be_held(before: Seq<bool>, lows: nat)
    requires
        before.len() == 0 || !before.last(),
        lows <= BOOT_HOLD_MS as int / BOOT_POLL_MS as int,
    ensures
        seen(before + Seq::new(lows, |i: int| true)).1 == (lows == BOOT_HOLD_MS as int
            / BOOT_POLL_MS as int),
        lows < BOOT_HOLD_MS as int / BOOT_POLL_MS as int ==> seen(
            before + Seq::new(lows, |i: int| true),
        ).0 == BOOT_POLL_MS * lows,
    decreases lows,
{
    let samples = before + Seq::new(lows, |i: int| true);
    if lows == 0 {
        assert(samples =~= before);
    } else {
        the_button_has_to_be_held(before, (lows - 1) as nat);
        assert(samples.drop_last() =~= before + Seq::new((lows - 1) as nat, |i: int| true));
    }
}

/// What the console prints this second.
#[derive(Clone, Copy, Debug, PartialEq, Eq, Structural)]
pub enum Printing {
    Nothing,
    Status,
    /// The boot line, then the status line.
    BootAndStatus,
}

/// The console task, which wakes once a second.
pub struct Console {
    uptime_s: u32,
}

impl Console {
    pub closed spec fn uptime(self) -> u32 {
        self.uptime_s
    }

    pub fn new() -> (c: Self)
        ensures
            c.uptime() == 0,
    {
        Console { uptime_s: 0 }
    }

    /// Seconds counted.
    pub fn uptime_s(&self) -> (s: u32)
        ensures
            s == self.uptime(),
    {
        self.uptime_s
    }

    /// One more second, and whether the port is open. Every fifth line comes
    /// with the boot line.
    pub fn tick(&mut self, dtr: bool, stats: &mut Stats) -> (p: Printing)
        ensures
            final(self).uptime() == old(self).uptime().wrapping_add(1),
            *final(stats) == (Stats {
                dtr: if dtr {
                    1
                } else {
                    0
                },
                ..*old(stats)
            }),
            p == if !dtr {
                Printing::Nothing
            } else if final(self).uptime() % 5 == 1 {
                Printing::BootAndStatus
            } else {
                Printing::Status
            },
    {
        self.uptime_s = self.uptime_s.wrapping_add(1);
        stats.dtr = if dtr {
            1
        } else {
            0
        };
        if !dtr {
            Printing::Nothing
        } else if self.uptime_s % 5 == 1 {
            Printing::BootAndStatus
        } else {
            Printing::Status
        }
    }
}

/// Takes note of whether a packet of the status line went out. Returns whether
/// to go on with the next: a host that stops draining the port can't wedge the
/// task.
pub fn status_written(sent: bool, stats: &mut Stats) -> (go_on: bool)
    ensures
        go_on == sent,
        *final(stats) == (if sent {
            Stats { console_tx_ok: old(stats).console_tx_ok.wrapping_add(1), ..*old(stats) }
        } else {
            Stats {
                console_tx_timeout: old(stats).console_tx_timeout.wrapping_add(1),
                ..*old(stats)
            }
        }),
{
    if sent {
        stats.console_tx_ok = stats.console_tx_ok.wrapping_add(1);
    } else {
        stats.console_tx_timeout = stats.console_tx_timeout.wrapping_add(1);
    }
    sent
}

/// `std::str::from_utf8`: bytes that are UTF-8 are a text with these bytes, and
/// others are none.
#[verifier::external_body]
fn utf8_text(b: &[u8]) -> (r: Option<&str>)
    ensures
        match r {
            Some(s) => vstd::utf8::valid_utf8(b@) && s.spec_bytes() == b@,
            None => !vstd::utf8::valid_utf8(b@),
        },
{
    std::str::from_utf8(b).ok()
}

/// A text as `Debug` writes it: quoted and escaped.
pub uninterp spec fn debug_of(s: Seq<char>) -> Seq<char>;

/// `<str as std::fmt::Debug>::fmt`, through `format!`: the text, quoted and
/// escaped, depends on the text alone. How it is escaped is not said.
#[verifier::external_body]
fn debug_text(s: &str) -> (t: String)
    ensures
        t@ == debug_of(s@),
{
    format!("{:?}", s)
}

/// The bytes of a panic as the boot line shows them.
pub open spec fn shown_panic(b: Seq<u8>) -> Seq<u8> {
    vstd::utf8::encode_utf8(
        debug_of(
            if vstd::utf8::valid_utf8(b) {
                vstd::utf8::decode_utf8(b)
            } else {
                "?"@
            },
        ),
    )
}

/// The boot line: the boots, how far the one before came, the last stall, and
/// the last panic, if there was one.
pub open spec fn boot_text(
    record: CrashRecord,
    previous_stage: u32,
    panic: Option<Seq<u8>>,
) -> Seq<u8> {
    line::text("boot #") + line::decimal(record.boots as nat) + line::text(" previous_stage=")
        + line::decimal(previous_stage as nat) + line::text(" last_stall=") + line::decimal(
        record.stall_tick as nat,
    ) + line::text("/") + line::decimal(record.stall_now as nat) + line::text(" ") + (match panic {
        Some(shown) => line::text("last_panic=") + shown,
        None => line::text("last_panic=none"),
    }) + line::text("\r\n")
}

/// Writes the boot line with the last panic as it is to be shown.
pub fn boot_line_with(record: &CrashRecord, previous_stage: u32, panic: Option<&str>) -> (l: Line<
    LINE_BYTES,
>)
    ensures
        l.full() == boot_text(
            *record,
            previous_stage,
            match panic {
                Some(shown) => Some(line::text(shown)),
                None => None,
            },
        ),
{
    let mut l = Line::<LINE_BYTES>::new();
    l.write_str("boot #");
    assert(l.full() =~= line::text("boot #"));
    l.write_decimal(record.boots as u64);
    l.field(" previous_stage=", previous_stage);
    l.field(" last_stall=", record.stall_tick);
    l.field("/", record.stall_now);
    l.write_str(" ");
    let ghost before = l.full();
    match panic {
        Some(shown) => {
            l.write_str("last_panic=");
            l.write_str(shown);
            assert(l.full() =~= before + (line::text("last_panic=") + line::text(shown)));
        },
        None => {
            l.write_str("last_panic=none");
        },
    }
    l.write_str("\r\n");
    l
}

/// Writes the boot line.
pub fn boot_line(record: &CrashRecord, previous_stage: u32) -> (l: Line<LINE_BYTES>)
    requires
        record.panic_len <= PANIC_BYTES,
    ensures
        l.full() == boot_text(
            *record,
            previous_stage,
            if record.panic_len > 0 {
                Some(shown_panic(record.panic@.take(record.panic_len as int)))
            } else {
                None
            },
        ),
{
    match record.panic_text() {
        Some(b) => {
            let text = match utf8_text(b) {
                Some(s) => {
                    proof {
                        vstd::utf8::encode_utf8_decode_utf8(s@);
                    }
                    s
                },
                None => "?",
            };
            let shown = debug_text(text);
            boot_line_with(record, previous_stage, Some(shown.as_str()))
        },
        None => boot_line_with(record, previous_stage, None),
    }
}

/// The first half of the status line: the screen, the time, why the chip was
/// reset, and what the host has sent.
pub open spec fn status_text_usb(s: Stats, uptime_s: u32, reset: Seq<u8>) -> Seq<u8> {
    line::text("gud ") + line::decimal(WIDTH as nat)
        + line::text("x") + line::decimal(HEIGHT as nat)
        + line::text(" up=") + line::decimal(uptime_s as nat) + line::text("s reset=") + reset
        + line::text(" updates=") + line::decimal(s.updates as nat)
        + line::text(" bytes=") + line::decimal(s.bytes as nat)
        + line::text(" wire=") + line::decimal(s.wire_bytes as nat)
        + line::text(" rejected=") + line::decimal(s.rejected as nat)
        + line::text(" last_rejected=0x") + line::hexadecimal_pair(s.last_rejected_request as nat)
        + line::text(" abandoned=") + line::decimal(s.abandoned as nat)
        + line::text(" rx_disabled=") + line::decimal(s.rx_disabled as nat)
        + line::text(" rx_overflow=") + line::decimal(s.rx_overflow as nat)
        + line::text(" decode_errors=") + line::decimal(s.decode_errors as nat)
}

/// The status line.
pub open spec fn status_text(s: Stats, uptime_s: u32, reset: Seq<u8>) -> Seq<u8> {
    status_text_usb(s, uptime_s, reset)
        + line::text(" rx_us=") + line::decimal(s.rx_us as nat)
        + line::text(" rx_pkts=") + line::decimal(s.rx_packets as nat)
        + line::text(" decode_us=") + line::decimal(s.decode_us as nat)
        + line::text(" swap_us=") + line::decimal(s.swap_us as nat)
        + line::text(" spi_us=") + line::decimal(s.spi_us as nat)
        + line::text(" idle_us=") + line::decimal(s.idle_us as nat)
        + line::text(" starve_us=") + line::decimal(s.starve_us as nat)
        + line::text(" bands_written=") + line::decimal(s.bands_written as nat)
        + line::text(" pixels_written=") + line::decimal(s.pixels_written as nat)
        + line::text(" panel_state=0x") + line::hexadecimal(s.panel_state as nat)
        + line::text(" console_rx=") + line::decimal(s.console_rx_bytes as nat)
        + line::text(" console_tx_ok=") + line::decimal(s.console_tx_ok as nat)
        + line::text(" console_tx_timeout=") + line::decimal(s.console_tx_timeout as nat)
        + line::text(" touch=") + line::decimal(s.touch_reports as nat)
        + line::text(" touch_dropped=") + line::decimal(s.touch_dropped as nat)
        + line::text(" touch_errors=") + line::decimal(s.touch_errors as nat)
        + line::text("\r\n")
}

/// Writes the status line. `reset` is the reset reason as it is to be shown.
pub fn status_line(s: &Stats, uptime_s: u32, reset: &str) -> (l: Line<LINE_BYTES>)
    ensures
        l.full() == status_text(*s, uptime_s, line::text(reset)),
{
    let mut l = Line::<LINE_BYTES>::new();
    l.write_str("gud ");
    assert(l.full() =~= line::text("gud "));
    l.write_decimal(WIDTH as u64);
    l.field("x", HEIGHT as u32);
    l.field(" up=", uptime_s);
    l.write_str("s reset=");
    l.write_str(reset);
    l.field(" updates=", s.updates);
    l.field(" bytes=", s.bytes);
    l.field(" wire=", s.wire_bytes);
    l.field(" rejected=", s.rejected);
    l.write_str(" last_rejected=0x");
    l.write_hex_pair(s.last_rejected_request);
    l.field(" abandoned=", s.abandoned);
    l.field(" rx_disabled=", s.rx_disabled);
    l.field(" rx_overflow=", s.rx_overflow);
    l.field(" decode_errors=", s.decode_errors);
    assert(l.full() == status_text_usb(*s, uptime_s, line::text(reset)));
    l.field(" rx_us=", s.rx_us);
    l.field(" rx_pkts=", s.rx_packets);
    l.field(" decode_us=", s.decode_us);
    l.field(" swap_us=", s.swap_us);
    l.field(" spi_us=", s.spi_us);
    l.field(" idle_us=", s.idle_us);
    l.field(" starve_us=", s.starve_us);
    l.field(" bands_written=", s.bands_written);
    l.field(" pixels_written=", s.pixels_written);
    l.write_str(" panel_state=0x");
    l.write_hex(s.panel_state);
    l.field(" console_rx=", s.console_rx_bytes);
    l.field(" console_tx_ok=", s.console_tx_ok);
    l.field(" console_tx_timeout=", s.console_tx_timeout);
    l.field(" touch=", s.touch_reports);
    l.field(" touch_dropped=", s.touch_dropped);
    l.field(" touch_errors=", s.touch_errors);
    l.write_str("\r\n");
    l
}

} // verus!
