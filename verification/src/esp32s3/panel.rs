//! Panel worker: runs synchronously on the second core. Takes bands from the
//! receiver, decompresses and byte-swaps them, and pushes them to the panel
//! by DMA in chunks through two DMA buffers, so decoding the next band
//! overlaps the SPI transfer of the current one.
//!
//! The worker keeps the books and says what to do; the firmware's loop moves
//! the pins, the bus and the DMA channel.

use vstd::prelude::*;

use crate::esp32s3::stats::Stats;
use crate::line::{self, Line};
use crate::panel::splash;
use crate::panel::st7789::{self, Op};
use crate::panel::strip;
use crate::panel::{PanelOp, HEIGHT, WIDTH};
use crate::pipeline::{self, PayloadError};
use crate::protocol::Rect;

verus! {

/// Largest single SPI DMA transfer the peripheral accepts.
pub const DMA_CHUNK: usize = 32736;
/// How often the status strip is drawn.
pub const STATUS_INTERVAL_MS: u64 = 1000;
/// Room for the text of a strip.
pub const TEXT_BYTES: usize = 128;

pub struct PanelWorker {
    rect_open: bool,
}

/// What closes the rectangle that is open, if any, before anything else goes
/// to the panel: wait until nothing is clocking out any more, and raise CS.
pub open spec fn closing_ops(open: bool) -> Seq<Op> {
    if open {
        seq![Op::Settle, Op::Cs(true)]
    } else {
        seq![]
    }
}

impl PanelWorker {
    /// A rectangle is open: CS is low, and pixels may still be clocking out.
    pub closed spec fn open(self) -> bool {
        self.rect_open
    }

    pub fn new() -> (w: Self)
        ensures
            !w.open(),
    {
        PanelWorker { rect_open: false }
    }

    /// Closes the rectangle that is open, if any.
    pub fn close_rect(&mut self) -> (script: Vec<PanelOp>)
        ensures
            !final(self).open(),
            st7789::ops(script@) == closing_ops(old(self).open()),
    {
        let mut script: Vec<PanelOp> = Vec::new();
        if self.rect_open {
            st7789::push(&mut script, PanelOp::Settle);
            st7789::push(&mut script, PanelOp::Cs(true));
            self.rect_open = false;
        }
        assert(st7789::ops(script@) =~= closing_ops(old(self).open()));
        script
    }

    /// Called while idle: closes the rectangle if its transfer has finished.
    pub fn tidy(&mut self, transfer_done: bool) -> (script: Vec<PanelOp>)
        ensures
            final(self).open() == (old(self).open() && !transfer_done),
            st7789::ops(script@) == closing_ops(old(self).open() && transfer_done),
    {
        if transfer_done {
            self.close_rect()
        } else {
            let script: Vec<PanelOp> = Vec::new();
            assert(st7789::ops(script@) =~= seq![]);
            script
        }
    }

    /// Writes `len` bytes of big-endian RGB565 pixels to a rectangle: closes
    /// the one before, which must be fully out before CS/DC change, opens its
    /// own, and sends the pixels in pieces of [`DMA_CHUNK`] bytes. The last may
    /// still be in flight when the script is done, so that the next band can
    /// be prepared.
    pub fn write_band(&mut self, x: u16, y: u16, width: u16, height: u16, len: usize) -> (script:
        Vec<PanelOp>)
        requires
            st7789::addressable(x, y, width, height),
        ensures
            final(self).open(),
            st7789::ops(script@) == closing_ops(old(self).open()) + st7789::begin_rect_ops(
                x as int,
                y as int,
                width as int,
                height as int,
            ) + st7789::send_ops(len as nat, DMA_CHUNK as nat),
    {
        let mut script = self.close_rect();
        st7789::open_rect(&mut script, x, y, width, height);
        self.rect_open = true;
        st7789::send(&mut script, len, DMA_CHUNK);
        script
    }

    /// Switches the display on or off, once nothing is on its way.
    pub fn enable(&mut self, on: bool) -> (script: Vec<PanelOp>)
        ensures
            !final(self).open(),
            st7789::ops(script@) == closing_ops(old(self).open()) + st7789::display_ops(on),
    {
        let mut script = self.close_rect();
        st7789::switch_display(&mut script, on);
        script
    }
}

/// Decodes a complete band, whose pixels are still little-endian then. One that
/// cannot be decoded is counted. So is one whose sizes no announced update has:
/// an empty or odd length, a payload that is empty or longer than the pixels, or
/// a raw one that is not as long as they are.
pub fn decode<'a>(
    rect: &Rect,
    payload: &'a mut [u8],
    decoded: &'a mut [u8],
    stats: &mut Stats,
) -> (r: Result<&'a mut [u8], PayloadError>)
    ensures
        match pipeline::band_pixels(*rect, old(payload)@, old(decoded)@.len()) {
            Some(pixels) => {
                &&& r is Ok
                &&& r->Ok_0@ == pixels
                &&& *final(stats) == *old(stats)
            },
            None => {
                &&& r is Err
                &&& *final(stats) == (Stats {
                    decode_errors: old(stats).decode_errors.wrapping_add(1),
                    ..*old(stats)
                })
            },
        },
        r is Ok && !rect.compressed ==> {
            &&& final(payload)@ == final(r->Ok_0)@ + old(payload)@.skip(rect.length as int)
            &&& final(decoded)@ == old(decoded)@
        },
        r is Ok && rect.compressed ==> {
            &&& final(decoded)@ == final(r->Ok_0)@ + old(decoded)@.skip(rect.length as int)
            &&& final(payload)@ == old(payload)@
        },
        r is Err ==> {
            &&& final(payload)@ == old(payload)@
            &&& final(decoded)@.len() == old(decoded)@.len()
        },
{
    match pipeline::decode_pixels(rect, payload, decoded) {
        Ok(pixels) => Ok(pixels),
        Err(e) => {
            stats.decode_errors = stats.decode_errors.wrapping_add(1);
            Err(e)
        },
    }
}

/// A band of so many pixel bytes went to the glass.
pub fn count_band(stats: &mut Stats, pixel_bytes: u32)
    ensures
        *final(stats) == (Stats {
            bands_written: old(stats).bands_written.wrapping_add(1),
            pixels_written: old(stats).pixels_written.wrapping_add(pixel_bytes),
            ..*old(stats)
        }),
{
    stats.bands_written = stats.bands_written.wrapping_add(1);
    stats.pixels_written = stats.pixels_written.wrapping_add(pixel_bytes);
}

/// Rows of the boot logo that go into one band, from row `y` on.
pub open spec fn logo_band_rows(y: int, scratch: int) -> int {
    let rows = scratch / (2 * WIDTH);
    if rows <= HEIGHT - y {
        rows
    } else {
        HEIGHT - y
    }
}

/// Renders the next band of the boot logo, from row `y` on, at the front of
/// `scratch`. Returns how many rows it has.
pub fn logo_band(y: u16, scratch: &mut [u8]) -> (rows: u16)
    requires
        y < HEIGHT,
        old(scratch)@.len() >= 2 * WIDTH,
    ensures
        rows == logo_band_rows(y as int, old(scratch)@.len() as int),
        0 < rows <= HEIGHT - y,
        final(scratch)@ == splash::frame().subrange(
            2 * WIDTH * y,
            2 * WIDTH * (y + rows),
        ) + old(scratch)@.skip(2 * WIDTH * rows),
{
    let row_bytes: usize = 2 * WIDTH as usize;
    let whole: usize = scratch.len() / row_bytes;
    let left: usize = (HEIGHT - y) as usize;
    let rows: u16 = if whole <= left {
        whole as u16
    } else {
        HEIGHT - y
    };
    let ghost wide = 2 * WIDTH as int;
    proof {
        vstd::arithmetic::div_mod::lemma_fundamental_div_mod(scratch@.len() as int, wide);
        assert(wide * whole <= scratch@.len());
        assert(rows * wide <= whole * wide) by (nonlinear_arith)
            requires
                rows <= whole,
                wide > 0,
        ;
        assert(whole * wide == wide * whole) by (nonlinear_arith);
        assert(rows * wide == wide * rows) by (nonlinear_arith);
        vstd::arithmetic::div_mod::lemma_fundamental_div_mod_converse(
            rows * wide,
            wide,
            rows as int,
            0,
        );
        assert(wide * (y + rows) == wide * y + wide * rows) by (nonlinear_arith);
    }
    let len: usize = rows as usize * row_bytes;
    let (band, _) = scratch.split_at_mut(len);
    splash::render_rows(y, band);
    rows
}

/// Shows a message (a panic, typically) as a strip at the front of `scratch`.
pub fn message_strip(message: &[u8], scratch: &mut [u8])
    requires
        old(scratch)@.len() >= strip::STRIP_BYTES,
    ensures
        exists|k: int|
            #[trigger] strip::kept(message@.len(), TEXT_BYTES as nat, k) && strip::shows(
                final(scratch)@,
                Seq::new(
                    strip::wrapped_length(message@.len(), TEXT_BYTES as nat, k) as nat,
                    |p: int| strip::wrapped(message@, p),
                ),
            ),
        final(scratch)@.len() == old(scratch)@.len(),
        final(scratch)@.skip(strip::STRIP_BYTES as int) == old(scratch)@.skip(
            strip::STRIP_BYTES as int,
        ),
{
    let mut text: Vec<u8> = Vec::new();
    let mut i: usize = 0;
    while i < TEXT_BYTES
        invariant
            i <= TEXT_BYTES,
            text@.len() == i,
        decreases TEXT_BYTES - i,
    {
        text.push(' ' as u8);
        i += 1;
    }
    let n: usize = strip::wrap(message, text.as_mut_slice());
    let shown = vstd::slice::slice_subrange(text.as_slice(), 0, n);
    assert(shown@ =~= Seq::new(n as nat, |p: int| strip::wrapped(message@, p)));
    strip::draw_strip(shown, scratch);
}

/// The numbers on the status strip.
#[derive(Clone, Copy, Debug, PartialEq, Eq, Structural)]
pub struct StatusValues {
    pub now_s: u32,
    pub tick_s: u32,
    pub control_requests: u32,
    pub dtr: u32,
    pub console_rx_bytes: u32,
    pub console_tx_ok: u32,
    pub console_tx_timeout: u32,
    pub updates: u32,
    pub bands_written: u32,
}

/// The numbers on the status strip, so many seconds after boot when the
/// console task last ticked at `tick_s`.
pub fn status_values(stats: &Stats, now_s: u32, tick_s: u32) -> (v: StatusValues)
    ensures
        v == (StatusValues {
            now_s,
            tick_s,
            control_requests: stats.control_requests,
            dtr: stats.dtr,
            console_rx_bytes: stats.console_rx_bytes,
            console_tx_ok: stats.console_tx_ok,
            console_tx_timeout: stats.console_tx_timeout,
            updates: stats.updates,
            bands_written: stats.bands_written,
        }),
{
    StatusValues {
        now_s,
        tick_s,
        control_requests: stats.control_requests,
        dtr: stats.dtr,
        console_rx_bytes: stats.console_rx_bytes,
        console_tx_ok: stats.console_tx_ok,
        console_tx_timeout: stats.console_tx_timeout,
        updates: stats.updates,
        bands_written: stats.bands_written,
    }
}

/// The text of the status strip: three fields of "L:xxxxxx " per row, 27 of
/// the columns.
pub open spec fn status_strip_text(v: StatusValues) -> Seq<u8> {
    line::text("T:") + strip::hex_digits(v.now_s) + line::text(" ") + line::text("K:")
        + strip::hex_digits(v.tick_s) + line::text(" ") + line::text("R:") + strip::hex_digits(
        v.control_requests,
    ) + line::text(" ") + line::text("\n") + line::text("D:") + strip::hex_digits(v.dtr)
        + line::text(" ") + line::text("M:") + strip::hex_digits(v.console_rx_bytes) + line::text(
        " ",
    ) + line::text("W:") + strip::hex_digits(v.console_tx_ok) + line::text(" ") + line::text("\n")
        + line::text("E:") + strip::hex_digits(v.console_tx_timeout) + line::text(" ")
        + line::text("U:") + strip::hex_digits(v.updates) + line::text(" ") + line::text("B:")
        + strip::hex_digits(v.bands_written) + line::text(" ")
}

/// Writes one field.
fn status_field(l: &mut Line<TEXT_BYTES>, label: &str, v: u32)
    ensures
        final(l).full() == old(l).full() + line::text(label) + strip::hex_digits(v) + line::text(
            " ",
        ),
{
    l.write_str(label);
    l.write(&strip::hex6(v));
    l.write_str(" ");
}

/// Writes the text of the status strip.
pub fn status_strip_line(v: &StatusValues) -> (l: Line<TEXT_BYTES>)
    ensures
        l.full() == status_strip_text(*v),
{
    let mut l = Line::<TEXT_BYTES>::new();
    l.write_str("T:");
    assert(l.full() =~= line::text("T:"));
    l.write(&strip::hex6(v.now_s));
    l.write_str(" ");
    status_field(&mut l, "K:", v.tick_s);
    status_field(&mut l, "R:", v.control_requests);
    l.write_str("\n");
    status_field(&mut l, "D:", v.dtr);
    status_field(&mut l, "M:", v.console_rx_bytes);
    status_field(&mut l, "W:", v.console_tx_ok);
    l.write_str("\n");
    status_field(&mut l, "E:", v.console_tx_timeout);
    status_field(&mut l, "U:", v.updates);
    status_field(&mut l, "B:", v.bands_written);
    l
}

/// Draws the bring-up status strip at the front of `scratch`.
pub fn status_strip(v: &StatusValues, scratch: &mut [u8])
    requires
        old(scratch)@.len() >= strip::STRIP_BYTES,
    ensures
        strip::shows(final(scratch)@, line::clip(status_strip_text(*v), TEXT_BYTES as nat)),
        final(scratch)@.len() == old(scratch)@.len(),
        final(scratch)@.skip(strip::STRIP_BYTES as int) == old(scratch)@.skip(
            strip::STRIP_BYTES as int,
        ),
{
    let l = status_strip_line(v);
    strip::draw_strip(l.as_bytes(), scratch);
}

/// Whether it is time to draw the status strip again.
pub fn status_due(elapsed_ms: u64) -> (due: bool)
    ensures
        due == (elapsed_ms >= STATUS_INTERVAL_MS),
{
    elapsed_ms >= STATUS_INTERVAL_MS
}

} // verus!
