//! What holds of a payload however the host sends it.

use vstd::prelude::*;

use crate::bytes;
use crate::esp32s3::gud::{self, Reading, Received, Window, BAND_BYTES};
use crate::pipeline::{self, Progress};
use crate::protocol::laws as protocol_laws;
use crate::protocol::Rect;

verus! {

/// A read that brought `data` went where the reader said, and made the band
/// `after` out of `before`. A direct read fills its window from the front; what
/// it leaves behind the data, but within the window, is open. A read through the
/// bounce buffer is put into place.
pub open spec fn read_into(before: Seq<u8>, after: Seq<u8>, p: Progress, data: Seq<u8>) -> bool {
    match gud::window_at(p.filled as int, p.length as int) {
        Window::Direct { from, to } => {
            &&& data.len() <= to - from
            &&& after.len() == before.len()
            &&& after.take(from as int) == before.take(from as int)
            &&& after.subrange(from as int, from + data.len()) == data
            &&& after.skip(to as int) == before.skip(to as int)
        },
        Window::Bounce => {
            &&& p.filled + data.len() <= p.length
            &&& after == bytes::replaced(before, p.filled as int, data)
        },
    }
}

/// How much of a payload is in after several reads.
pub open spec fn after_reads(p: Progress, reads: Seq<Seq<u8>>) -> Progress
    decreases reads.len(),
{
    if reads.len() == 0 {
        p
    } else {
        gud::after_read(
            after_reads(p, reads.drop_last()),
            Received::Bytes(reads.last().len() as usize),
        )
    }
}

/// Each read made the next band out of the one before.
pub open spec fn read_one_by_one(p: Progress, reads: Seq<Seq<u8>>, bands: Seq<Seq<u8>>) -> bool {
    &&& bands.len() == reads.len() + 1
    &&& forall|i: int|
        0 <= i < reads.len() ==> read_into(
            #[trigger] bands[i],
            bands[i + 1],
            after_reads(p, reads.take(i)),
            reads[i],
        )
}

/// Window after window, the reads of a payload end up one behind the other in
/// the band. They never overrun it, and what stands behind the payload is left
/// alone.
pub proof fn a_payload_is_its_reads(length: nat, reads: Seq<Seq<u8>>, bands: Seq<Seq<u8>>)
    requires
        length <= BAND_BYTES,
        read_one_by_one(Progress { length, filled: 0 }, reads, bands),
        bands[0].len() == BAND_BYTES,
    ensures
        ({
            let sent = reads.flatten();
            let band = bands.last();
            &&& sent.len() <= length
            &&& after_reads(Progress { length, filled: 0 }, reads) == Progress {
                length,
                filled: sent.len(),
            }
            &&& band.len() == BAND_BYTES
            &&& band.take(sent.len() as int) == sent
            &&& band.skip(length as int) == bands[0].skip(length as int)
        }),
    decreases reads.len(),
{
    let start = Progress { length, filled: 0 };
    if reads.len() == 0 {
        assert(reads.flatten() =~= Seq::<u8>::empty());
        assert(bands[0].take(0) =~= Seq::<u8>::empty());
    } else {
        let earlier = reads.drop_last();
        let last = reads.last();
        let n = reads.len() - 1;
        reads.lemma_flatten_and_flatten_alt_are_equivalent();
        earlier.lemma_flatten_and_flatten_alt_are_equivalent();
        assert(reads.flatten() == earlier.flatten() + last);
        assert forall|i: int| 0 <= i < earlier.len() implies read_into(
            #[trigger] bands.drop_last()[i],
            bands.drop_last()[i + 1],
            after_reads(start, earlier.take(i)),
            earlier[i],
        ) by {
            assert(earlier.take(i) =~= reads.take(i));
            assert(bands[i] == bands.drop_last()[i]);
        }
        a_payload_is_its_reads(length, earlier, bands.drop_last());
        assert(reads.take(n) =~= earlier);
        let before = bands[n];
        let after = bands[n + 1];
        let p = after_reads(start, earlier);
        assert(read_into(before, after, p, last));
        one_more_read(before, after, p, last);
    }
}

/// One more read goes behind what is in.
proof fn one_more_read(before: Seq<u8>, after: Seq<u8>, p: Progress, data: Seq<u8>)
    requires
        p.filled <= p.length <= BAND_BYTES,
        before.len() == BAND_BYTES,
        read_into(before, after, p, data),
    ensures
        after.len() == BAND_BYTES,
        p.filled + data.len() <= p.length,
        after.take((p.filled + data.len()) as int) == before.take(p.filled as int) + data,
        after.skip(p.length as int) == before.skip(p.length as int),
{
    let filled = p.filled as int;
    let length = p.length as int;
    match gud::window_at(filled, length) {
        Window::Direct { from, to } => {
            assert(from == filled && from <= to <= length);
            let part = after.subrange(filled, filled + data.len());
            assert(after.take(filled + data.len()) =~= after.take(filled) + part);
            assert forall|i: int| length <= i < BAND_BYTES implies after[i] == before[i] by {
                assert(after[i] == after.skip(to as int)[i - to]);
                assert(before[i] == before.skip(to as int)[i - to]);
            }
            assert(after.skip(length) =~= before.skip(length));
        },
        Window::Bounce => {
            assert(after.take(filled + data.len()) =~= before.take(filled) + data);
            assert(after.skip(length) =~= before.skip(length));
        },
    }
}

/// A payload is complete exactly when all of its bytes are in, and until then
/// the next read has room for at least one.
pub proof fn a_payload_is_read_to_its_end(p: Progress, n: usize)
    requires
        p.filled < p.length <= BAND_BYTES,
        p.filled + n <= p.length,
    ensures
        gud::reading(p, Received::Bytes(n)) == if p.filled + n == p.length {
            Reading::Complete
        } else {
            Reading::Continue
        },
        gud::window_at(p.filled as int, p.length as int) matches Window::Direct { from, to }
            ==> from == p.filled && from < to <= p.length,
{
}

/// What the host sends reaches the panel: once all reads of an update are in,
/// its band holds the pixels. A raw update is its reads; a compressed one is
/// what they decode to, if that is as long as it should be.
pub proof fn updates_reach_the_panel(rect: Rect, reads: Seq<Seq<u8>>, bands: Seq<Seq<u8>>)
    requires
        protocol_laws::valid_rect(gud::board_display(), rect),
        read_one_by_one(Progress { length: rect.payload as nat, filled: 0 }, reads, bands),
        bands[0].len() == BAND_BYTES,
        reads.flatten().len() == rect.payload,
    ensures
        ({
            let sent = reads.flatten();
            let shown = pipeline::band_pixels(rect, bands.last(), BAND_BYTES as nat);
            &&& !rect.compressed ==> shown == Some(sent)
            &&& rect.compressed ==> shown == match pipeline::lz4_block(sent, rect.length as nat) {
                Some(pixels) => if pixels.len() == rect.length {
                    Some(pixels)
                } else {
                    None
                },
                None => None,
            }
        }),
{
    a_payload_is_its_reads(rect.payload as nat, reads, bands);
    let area = rect.width as int * rect.height as int;
    assert(rect.length % 2 == 0) by {
        assert(rect.length == area * 2);
    }
}

} // verus!
