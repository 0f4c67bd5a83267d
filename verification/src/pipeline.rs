//! Shared bounded USB-to-panel pipeline. Buffers move between cores by
//! ownership; USB and DMA drivers remain board-specific.

use vstd::prelude::*;

pub mod laws;
pub mod queue;
pub mod spare;

pub use crate::pipeline::queue::CommandChannel;
use crate::protocol::stream;
use crate::protocol::Rect;

verus! {

/// Work for the panel's side. A band owns its buffer.
pub enum PanelJob<const N: usize> {
    Band { payload: &'static mut [u8; N], rect: Rect },
    Enable(bool),
}

/// A panel job as the bytes and numbers that it carries.
pub enum Job {
    Band { payload: Seq<u8>, rect: Rect },
    Enable(bool),
}

impl<const N: usize> View for PanelJob<N> {
    type V = Job;

    open spec fn view(&self) -> Job {
        match *self {
            PanelJob::Band { payload, rect } => Job::Band { payload: payload@, rect },
            PanelJob::Enable(on) => Job::Enable(on),
        }
    }
}

/// Why `lz4_flex` refused a block. Nothing in it is looked at.
#[verifier::external_type_specification]
#[verifier::external_body]
pub struct ExDecompressError(lz4_flex::block::DecompressError);

/// The bytes that an LZ4 block decodes to in an output of `room` bytes, or
/// nothing if it is malformed or does not fit.
pub uninterp spec fn lz4_block(input: Seq<u8>, room: nat) -> Option<Seq<u8>>;

/// `lz4_flex::block::decompress_into` decodes the block `input` into the front
/// of `output` and returns how many bytes it wrote, or fails. Which of the two
/// happens, and what is written, depends on the input and on the size of the
/// output alone. What is left behind the decoded bytes, and in the output of a
/// block that is refused, is not said.
pub assume_specification[ lz4_flex::block::decompress_into ](
    input: &[u8],
    output: &mut [u8],
) -> (r: Result<usize, lz4_flex::block::DecompressError>)
    ensures
        final(output)@.len() == old(output)@.len(),
        match r {
            Ok(n) => n <= old(output)@.len() && lz4_block(input@, old(output)@.len()) == Some(
                final(output)@.take(n as int),
            ),
            Err(_) => lz4_block(input@, old(output)@.len()) is None,
        },
;

/// Tracks the exact payload boundary, including short and odd-sized USB packets.
/// An overrun leaves the cursor unchanged so callers can reset the unframed stream.
pub struct PayloadProgress {
    length: usize,
    filled: usize,
}

/// A payload of `length` bytes of which the first `filled` have come.
pub struct Progress {
    pub length: nat,
    pub filled: nat,
}

impl View for PayloadProgress {
    type V = Progress;

    closed spec fn view(&self) -> Progress {
        Progress { length: self.length as nat, filled: self.filled as nat }
    }
}

#[derive(Debug, PartialEq, Eq, Structural)]
pub struct PayloadError;

impl PayloadProgress {
    #[verifier::type_invariant]
    spec fn within(self) -> bool {
        self.filled <= self.length
    }

    pub fn new(length: usize) -> (p: Self)
        ensures
            p@ == (Progress { length: length as nat, filled: 0 }),
    {
        PayloadProgress { length, filled: 0 }
    }

    pub fn filled(&self) -> (n: usize)
        ensures
            n == self@.filled,
            n <= self@.length,
    {
        proof {
            use_type_invariant(self);
        }
        self.filled
    }

    pub fn remaining(&self) -> (n: usize)
        ensures
            n == self@.length - self@.filled,
            self@.length <= usize::MAX,
    {
        proof {
            use_type_invariant(self);
        }
        self.length - self.filled
    }

    pub fn complete(&self) -> (done: bool)
        ensures
            done == (self@.filled == self@.length),
    {
        self.remaining() == 0
    }

    pub fn advance(&mut self, n: usize) -> (r: Result<(), PayloadError>)
        ensures
            r is Ok <==> old(self)@.filled + n <= old(self)@.length,
            final(self)@ == if r is Ok {
                Progress { filled: old(self)@.filled + n as nat, ..old(self)@ }
            } else {
                old(self)@
            },
    {
        if n > self.remaining() {
            return Err(PayloadError);
        }
        proof {
            use_type_invariant(&*self);
        }
        self.filled = self.filled + n;
        Ok(())
    }
}

/// The pixels of a complete band, still little-endian RGB565: the payload
/// itself, or what it decodes to where there is room for that. Nothing if the
/// sizes are not those of a band or the block does not decode to them.
pub open spec fn band_pixels(rect: Rect, payload: Seq<u8>, room: nat) -> Option<Seq<u8>> {
    let length = rect.length as int;
    let wire = rect.payload as int;
    if length == 0 || length % 2 != 0 || wire == 0 || wire > length || wire > payload.len() {
        None
    } else if rect.compressed {
        if length > room {
            None
        } else {
            match lz4_block(payload.take(wire), length as nat) {
                Some(pixels) => if pixels.len() == length {
                    Some(pixels)
                } else {
                    None
                },
                None => None,
            }
        }
    } else if wire == length {
        Some(payload.take(length))
    } else {
        None
    }
}

/// Validate/decode one complete band. Both outputs are still little-endian RGB565.
/// The caller swaps bytes only after decoding succeeds, before handing pixels to DMA.
pub fn decode_pixels<'a>(rect: &Rect, payload: &'a mut [u8], decoded: &'a mut [u8]) -> (r: Result<
    &'a mut [u8],
    PayloadError,
>)
    ensures
        match band_pixels(*rect, old(payload)@, old(decoded)@.len()) {
            Some(pixels) => r is Ok && r->Ok_0@ == pixels,
            None => r is Err,
        },
        // The pixels are the front of one of the two; the other, and what
        // stands behind them, is left alone.
        r is Ok && !rect.compressed ==> {
            &&& final(payload)@ == final(r->Ok_0)@ + old(payload)@.skip(rect.length as int)
            &&& final(decoded)@ == old(decoded)@
        },
        r is Ok && rect.compressed ==> {
            &&& final(decoded)@ == final(r->Ok_0)@ + old(decoded)@.skip(rect.length as int)
            &&& final(payload)@ == old(payload)@
        },
        r is Err ==> {
            &&& final(payload)@ == old(payload)@
            &&& final(decoded)@.len() == old(decoded)@.len()
            &&& final(decoded)@.skip(rect.length as int) == old(decoded)@.skip(rect.length as int)
            &&& !rect.compressed ==> final(decoded)@ == old(decoded)@
        },
{
    let length: usize = rect.length as usize;
    let wire: usize = rect.payload as usize;
    if length == 0 || length % 2 != 0 || wire == 0 || wire > length || wire > payload.len() {
        return Err(PayloadError);
    }
    if rect.compressed {
        if decoded.len() < length {
            return Err(PayloadError);
        }
        let (out, _) = decoded.split_at_mut(length);
        let block = vstd::slice::slice_subrange(&*payload, 0, wire);
        match lz4_flex::block::decompress_into(block, out) {
            Ok(n) => if n == length {
                assert(out@.take(length as int) =~= out@);
                Ok(out)
            } else {
                Err(PayloadError)
            },
            Err(_) => Err(PayloadError),
        }
    } else if wire == length {
        let (pixels, _) = payload.split_at_mut(length);
        Ok(pixels)
    } else {
        Err(PayloadError)
    }
}

/// The pixels of a complete band in the order in which the panel wants their
/// bytes.
pub open spec fn panel_bytes(rect: Rect, payload: Seq<u8>, room: nat) -> Option<Seq<u8>> {
    match band_pixels(rect, payload, room) {
        Some(pixels) => Some(stream::swapped(pixels)),
        None => None,
    }
}

/// Decodes one complete band and brings its bytes into the panel's order:
/// hosts send little-endian RGB565; the panel wants the high byte first.
pub fn panel_pixels<'a>(rect: &Rect, payload: &'a mut [u8], decoded: &'a mut [u8]) -> (r: Result<
    &'a mut [u8],
    PayloadError,
>)
    ensures
        match panel_bytes(*rect, old(payload)@, old(decoded)@.len()) {
            Some(pixels) => r is Ok && r->Ok_0@ == pixels && pixels.len() == rect.length,
            None => r is Err,
        },
        r is Ok && !rect.compressed ==> {
            &&& final(payload)@ == final(r->Ok_0)@ + old(payload)@.skip(rect.length as int)
            &&& final(decoded)@ == old(decoded)@
        },
        r is Ok && rect.compressed ==> {
            &&& final(decoded)@ == final(r->Ok_0)@ + old(decoded)@.skip(rect.length as int)
            &&& final(payload)@ == old(payload)@
        },
        r is Err ==> {
            &&& final(payload)@ == old(payload)@
            &&& final(decoded)@.len() == old(decoded)@.len()
            &&& final(decoded)@.skip(rect.length as int) == old(decoded)@.skip(rect.length as int)
            &&& !rect.compressed ==> final(decoded)@ == old(decoded)@
        },
{
    match decode_pixels(rect, payload, decoded) {
        Ok(pixels) => {
            let ghost before = pixels@;
            stream::swap_pairs(pixels);
            assert(pixels@ =~= stream::swapped(before));
            Ok(pixels)
        },
        Err(e) => Err(e),
    }
}

} // verus!
