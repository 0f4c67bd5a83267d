//! Core 1 owns the LCD and SPI. Two bounce buffers let the next copy/decode
//! overlap DMA without retaining the USB input buffer until SPI goes idle.
//!
//! The worker keeps the books and says what to do; the firmware's loop moves
//! the pins, the bus and the DMA channel.

use vstd::prelude::*;

use crate::panel::st7789::{self, Op};
use crate::panel::PanelOp;
use crate::pipeline::{self, PayloadError};
use crate::protocol::Rect;

verus! {

pub const DMA_CHUNK: usize = 8192;

/// What the status line tells of the panel.
#[derive(Clone, Copy, Debug, PartialEq, Eq, Structural)]
pub struct PanelStats {
    pub enabled: u32,
    pub completed: u32,
    pub pixel_bytes: u32,
    pub decode_errors: u32,
}

/// The transfer that was started last.
#[derive(Clone, Copy, Debug, PartialEq, Eq, Structural)]
pub enum Transfer {
    /// There is none that was not waited for.
    Absent,
    Running,
    Done,
}

pub struct PanelWorker {
    /// Bytes of the rectangle that is open.
    pending_bytes: Option<u32>,
    stats: PanelStats,
}

/// The worker's books.
pub struct Books {
    pub pending_bytes: Option<u32>,
    pub stats: PanelStats,
}

impl View for PanelWorker {
    type V = Books;

    closed spec fn view(&self) -> Books {
        Books { pending_bytes: self.pending_bytes, stats: self.stats }
    }
}

impl Books {
    /// After the rectangle that was open, if any, was closed: it counts.
    pub open spec fn closed(self) -> Books {
        match self.pending_bytes {
            Some(bytes) => Books {
                pending_bytes: None,
                stats: PanelStats {
                    completed: self.stats.completed.wrapping_add(1),
                    pixel_bytes: self.stats.pixel_bytes.wrapping_add(bytes),
                    ..self.stats
                },
            },
            None => self,
        }
    }

    /// What closes the rectangle that is open, if any, before anything else
    /// goes to the panel: wait for the transfer, flush the bus, because DMA
    /// completion only means the last byte reached the TX FIFO, and raise CS.
    pub open spec fn closing_ops(self) -> Seq<Op> {
        if self.pending_bytes is Some {
            seq![Op::Settle, Op::MustFlush, Op::Cs(true)]
        } else {
            seq![]
        }
    }
}

impl PanelWorker {
    pub fn new() -> (w: Self)
        ensures
            w@ == (Books {
                pending_bytes: None,
                stats: PanelStats { enabled: 1, completed: 0, pixel_bytes: 0, decode_errors: 0 },
            }),
    {
        PanelWorker {
            pending_bytes: None,
            stats: PanelStats { enabled: 1, completed: 0, pixel_bytes: 0, decode_errors: 0 },
        }
    }

    pub fn stats(&self) -> (s: PanelStats)
        ensures
            s == self@.stats,
    {
        self.stats
    }

    /// Decodes a complete band and brings its bytes into the panel's order.
    /// One that cannot be decoded is counted.
    pub fn decode<'a>(
        &mut self,
        rect: &Rect,
        payload: &'a mut [u8],
        decoded: &'a mut [u8],
    ) -> (r: Result<&'a mut [u8], PayloadError>)
        ensures
            match pipeline::panel_bytes(*rect, old(payload)@, old(decoded)@.len()) {
                Some(pixels) => {
                    &&& r is Ok
                    &&& r->Ok_0@ == pixels
                    &&& final(self)@ == old(self)@
                },
                None => {
                    &&& r is Err
                    &&& final(self)@ == (Books {
                        stats: PanelStats {
                            decode_errors: old(self)@.stats.decode_errors.wrapping_add(1),
                            ..old(self)@.stats
                        },
                        ..old(self)@
                    })
                },
            },
            r is Ok && !rect.compressed ==> {
                &&& final(payload)@ == final(r->Ok_0)@ + old(payload)@.skip(rect.length as int)
                &&& final(decoded)@ == old(decoded)@
            },
            r is Ok && rect.compressed ==> {
                &&& final(decoded)@ == final(r->Ok_0)@ + old(decoded)@.skip(rect.length as int)
                &&& final(payload)@ == old(payload)@
            },
            r is Err ==> final(payload)@ == old(payload)@ && final(decoded)@.len() == old(
                decoded
            )@.len(),
    {
        match pipeline::panel_pixels(rect, payload, decoded) {
            Ok(pixels) => Ok(pixels),
            Err(e) => {
                self.stats.decode_errors = self.stats.decode_errors.wrapping_add(1);
                Err(e)
            },
        }
    }

    /// Appends what closes the rectangle that is open, if any.
    fn close_rect(&mut self, script: &mut Vec<PanelOp>)
        ensures
            final(self)@ == old(self)@.closed(),
            st7789::ops(final(script)@) == st7789::ops(old(script)@) + old(self)@.closing_ops(),
    {
        if let Some(bytes) = self.pending_bytes.take() {
            self.stats.pixel_bytes = self.stats.pixel_bytes.wrapping_add(bytes);
            self.stats.completed = self.stats.completed.wrapping_add(1);
            st7789::push(script, PanelOp::Settle);
            st7789::push(script, PanelOp::MustFlush);
            st7789::push(script, PanelOp::Cs(true));
        }
        assert(st7789::ops(script@) =~= st7789::ops(old(script)@) + old(self)@.closing_ops());
    }

    /// Writes a band, whose pixels are ready: closes the rectangle before it,
    /// opens its own, and sends the pixels in pieces of [`DMA_CHUNK`] bytes.
    /// The last may still be in flight when the script is done.
    pub fn write_band(&mut self, rect: &Rect) -> (script: Vec<PanelOp>)
        requires
            st7789::addressable(rect.x, rect.y, rect.width, rect.height),
        ensures
            st7789::ops(script@) == old(self)@.closing_ops() + st7789::begin_rect_ops(
                rect.x as int,
                rect.y as int,
                rect.width as int,
                rect.height as int,
            ) + st7789::send_ops(rect.length as nat, DMA_CHUNK as nat),
            final(self)@ == (Books {
                pending_bytes: Some(rect.length),
                ..old(self)@.closed()
            }),
    {
        let mut script: Vec<PanelOp> = Vec::new();
        self.close_rect(&mut script);
        assert(st7789::ops(script@) =~= old(self)@.closing_ops());
        st7789::open_rect(&mut script, rect.x, rect.y, rect.width, rect.height);
        self.pending_bytes = Some(rect.length);
        st7789::send(&mut script, rect.length as usize, DMA_CHUNK);
        script
    }

    /// Switches the display on or off, once nothing is on its way.
    pub fn enable(&mut self, on: bool) -> (script: Vec<PanelOp>)
        ensures
            st7789::ops(script@) == old(self)@.closing_ops() + st7789::display_ops(on),
            final(self)@ == (Books {
                stats: PanelStats {
                    enabled: if on {
                        1
                    } else {
                        0
                    },
                    ..old(self)@.closed().stats
                },
                ..old(self)@.closed()
            }),
    {
        let mut script: Vec<PanelOp> = Vec::new();
        self.close_rect(&mut script);
        assert(st7789::ops(script@) =~= old(self)@.closing_ops());
        st7789::switch_display(&mut script, on);
        self.stats.enabled = if on {
            1
        } else {
            0
        };
        script
    }

    /// What to do while there is no job: close the rectangle once it is out,
    /// and then sleep until an event unless something is on its way. An event
    /// after each enqueue makes this race-safe: one that arrives before the
    /// wait remains latched.
    pub fn idle(&mut self, transfer: Transfer) -> (r: (Vec<PanelOp>, bool))
        ensures
            st7789::ops(r.0@) == if transfer == Transfer::Done {
                old(self)@.closing_ops()
            } else {
                seq![]
            },
            r.1 == (transfer == Transfer::Absent || (transfer == Transfer::Done
                && old(self)@.pending_bytes is Some)),
            final(self)@ == (if transfer == Transfer::Done {
                old(self)@.closed()
            } else {
                old(self)@
            }),
    {
        let mut script: Vec<PanelOp> = Vec::new();
        assert(st7789::ops(script@) =~= seq![]);
        match transfer {
            Transfer::Absent => (script, true),
            Transfer::Running => (script, false),
            Transfer::Done => {
                let open = self.pending_bytes.is_some();
                self.close_rect(&mut script);
                assert(st7789::ops(script@) =~= old(self)@.closing_ops());
                (script, open)
            },
        }
    }
}

} // verus!
