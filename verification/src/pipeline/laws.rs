//! What becomes of the pixels, and of what waits, on the way to the panel.

use vstd::prelude::*;

use crate::pipeline::spare::Spare;
use crate::pipeline::{self, CommandChannel, PayloadError, PayloadProgress};
use crate::protocol::stream::{self, PixelStream};
use crate::protocol::{Command, Rect};

verus! {

/// Pixel `k` as hosts send it: low byte first.
pub open spec fn from_host(b: Seq<u8>, k: int) -> int {
    b[2 * k] + 256 * b[2 * k + 1]
}

/// Pixel `k` as the panel takes it: high byte first.
pub open spec fn to_panel(b: Seq<u8>, k: int) -> int {
    256 * b[2 * k] + b[2 * k + 1]
}

/// The bytes are the same pixels, one after the other, for the panel.
pub open spec fn same_pixels(host: Seq<u8>, panel: Seq<u8>, n: int) -> bool {
    forall|k: int| 0 <= k < n ==> #[trigger] to_panel(panel, k) == from_host(host, k)
}

proof fn swapping_keeps_the_pixels(s: Seq<u8>)
    ensures
        stream::swapped(s).len() == 2 * (s.len() / 2),
        same_pixels(s, stream::swapped(s), s.len() as int / 2),
{
    assert forall|k: int| 0 <= k < s.len() as int / 2 implies #[trigger] to_panel(
        stream::swapped(s),
        k,
    ) == from_host(s, k) by {
        assert((2 * k) % 2 == 0);
        assert((2 * k + 1) % 2 == 1);
    }
}

/// Swapping keeps every pixel in its place, for the panel, and a byte without a
/// partner as it was.
pub proof fn pixels_keep_their_place(pixels: &mut [u8])
    requires
        call_ensures(stream::swap_pairs, (pixels,), ()),
    ensures
        final(pixels)@.len() == old(pixels)@.len(),
        same_pixels(old(pixels)@, final(pixels)@, old(pixels)@.len() as int / 2),
        old(pixels)@.len() % 2 == 1 ==> final(pixels)@.last() == old(pixels)@.last(),
{
    let (before, after) = (old(pixels)@, final(pixels)@);
    swapping_keeps_the_pixels(before);
    let swapped = stream::swapped(before);
    assert forall|k: int| 0 <= k < before.len() as int / 2 implies #[trigger] to_panel(after, k)
        == from_host(before, k) by {
        assert(to_panel(swapped, k) == from_host(before, k));
        assert(after[2 * k] == swapped[2 * k]);
        assert(after[2 * k + 1] == swapped[2 * k + 1]);
    }
}

/// What a stream has to work on when `data` comes: the byte that it kept, and as
/// much of the data as the update is still long.
pub open spec fn at_hand(s: PixelStream, data: Seq<u8>) -> Seq<u8> {
    let fresh = if data.len() <= s@.remaining {
        data
    } else {
        data.take(s@.remaining as int)
    };
    if s@.carry is Some {
        seq![s@.carry->Some_0] + fresh
    } else {
        fresh
    }
}

/// Feeding a stream writes the whole pixels that it has at hand, in order and for
/// the panel. It keeps a byte without a partner while the update goes on, and says
/// so when the update ends. Nothing behind the update counts, and a stream without
/// an update does nothing.
pub proof fn streams_pass_the_pixels(
    s: &mut PixelStream,
    data: &[u8],
    out: &mut [u8],
    r: (usize, bool),
)
    requires
        call_ensures(PixelStream::feed, (s, data, out), r),
        old(out)@.len() >= data@.len() + 1,
    ensures
        ({
            let b = at_hand(*old(s), data@);
            let came = if data@.len() <= old(s)@.remaining {
                data@.len() as int
            } else {
                old(s)@.remaining as int
            };
            &&& old(s)@.remaining > 0 ==> {
                &&& r.0 == 2 * (b.len() as int / 2)
                &&& same_pixels(b, final(out)@, b.len() as int / 2)
                &&& final(s)@.remaining == old(s)@.remaining - came
                &&& r.1 == (old(s)@.remaining == came)
                &&& final(s)@.carry is Some <==> !r.1 && b.len() % 2 == 1
                &&& final(s)@.carry is Some ==> final(s)@.carry->Some_0 == b.last()
            }
            &&& old(s)@.remaining == 0 ==> r == (0usize, false) && final(s)@ == old(s)@
        }),
        final(out)@.len() == old(out)@.len(),
        final(out)@.skip(r.0 as int) == old(out)@.skip(r.0 as int),
{
    let b = at_hand(*old(s), data@);
    assert(b =~= old(s)@.pending(data@));
    swapping_keeps_the_pixels(b);
    let after = final(out)@;
    if old(s)@.remaining > 0 {
        let swapped = stream::swapped(b);
        assert forall|k: int| 0 <= k < b.len() as int / 2 implies #[trigger] to_panel(after, k)
            == from_host(b, k) by {
            assert(to_panel(swapped, k) == from_host(b, k));
            assert(after[2 * k] == swapped[2 * k]);
            assert(after[2 * k + 1] == swapped[2 * k + 1]);
        }
    }
    assert(after.skip(r.0 as int) =~= old(out)@.skip(r.0 as int));
}

/// A stream starts without an update. Beginning one of so many bytes forgets the
/// one before; aborting it says whether there was one, and leaves none.
pub proof fn streams_begin_and_end(
    fresh: PixelStream,
    default: PixelStream,
    s: &mut PixelStream,
    length: u32,
    t: &mut PixelStream,
    active: bool,
    u: PixelStream,
    is_active: bool,
)
    requires
        call_ensures(PixelStream::new, (), fresh),
        call_ensures(<PixelStream as Default>::default, (), default),
        call_ensures(PixelStream::begin, (s, length), ()),
        call_ensures(PixelStream::abort, (t,), active),
        call_ensures(PixelStream::is_active, (&u,), is_active),
    ensures
        fresh@.remaining == 0 && fresh@.carry is None,
        default@.remaining == 0 && default@.carry is None,
        final(s)@.remaining == length && final(s)@.carry is None,
        active <==> old(t)@.remaining > 0,
        final(t)@.remaining == 0 && final(t)@.carry is None,
        is_active <==> u@.remaining > 0,
{
}

/// A payload is complete after exactly its length. What would go beyond it is
/// refused, and then nothing has moved.
pub proof fn payloads_end_exactly(
    length: usize,
    fresh: PayloadProgress,
    p: &mut PayloadProgress,
    n: usize,
    r: Result<(), PayloadError>,
    left: usize,
    done: bool,
    filled: usize,
)
    requires
        call_ensures(PayloadProgress::new, (length,), fresh),
        call_ensures(PayloadProgress::advance, (p, n), r),
        call_ensures(PayloadProgress::remaining, (&*final(p),), left),
        call_ensures(PayloadProgress::complete, (&*final(p),), done),
        call_ensures(PayloadProgress::filled, (&*final(p),), filled),
    ensures
        fresh@.length == length && fresh@.filled == 0,
        final(p)@.length == old(p)@.length,
        r is Err <==> n > old(p)@.length - old(p)@.filled,
        filled == old(p)@.filled + if r is Ok {
            n as int
        } else {
            0
        },
        filled + left == old(p)@.length,
        done <==> left == 0,
{
}

/// The sizes are those of a band: a whole number of pixels, and a payload that is
/// there and no longer than they are, or as long if it is raw.
pub open spec fn can_be_decoded(rect: Rect, payload: Seq<u8>) -> bool {
    &&& rect.length > 0
    &&& rect.length % 2 == 0
    &&& 0 < rect.payload <= rect.length
    &&& rect.payload <= payload.len()
    &&& !rect.compressed ==> rect.payload == rect.length
}

/// A raw band is its payload. A compressed one is what its payload, and nothing
/// behind it, decodes to, if that has the band's length and there is room for it.
/// Anything else is refused.
pub proof fn bands_are_decoded(
    rect: Rect,
    payload: &mut [u8],
    decoded: &mut [u8],
    r: Result<&mut [u8], PayloadError>,
)
    requires
        call_ensures(pipeline::decode_pixels, (&rect, payload, decoded), r),
    ensures
        !can_be_decoded(rect, old(payload)@) ==> r is Err,
        can_be_decoded(rect, old(payload)@) && !rect.compressed ==> {
            &&& r is Ok
            &&& r->Ok_0@ == old(payload)@.take(rect.length as int)
        },
        can_be_decoded(rect, old(payload)@) && rect.compressed ==> {
            let block = old(payload)@.take(rect.payload as int);
            let pixels = pipeline::lz4_block(block, rect.length as nat);
            &&& r is Ok <==> rect.length <= old(decoded)@.len() && pixels is Some
                && pixels->Some_0.len() == rect.length
            &&& r is Ok ==> r->Ok_0@ == pixels->Some_0
        },
{
}

/// For the panel a band has the pixels that it has for the host.
pub proof fn bands_keep_their_pixels(
    rect: Rect,
    payload: &mut [u8],
    decoded: &mut [u8],
    r: Result<&mut [u8], PayloadError>,
)
    requires
        call_ensures(pipeline::panel_pixels, (&rect, payload, decoded), r),
    ensures
        !can_be_decoded(rect, old(payload)@) ==> r is Err,
        can_be_decoded(rect, old(payload)@) && !rect.compressed ==> {
            &&& r is Ok
            &&& r->Ok_0@.len() == rect.length
            &&& same_pixels(old(payload)@, r->Ok_0@, rect.length as int / 2)
        },
        can_be_decoded(rect, old(payload)@) && rect.compressed ==> {
            let block = old(payload)@.take(rect.payload as int);
            let pixels = pipeline::lz4_block(block, rect.length as nat);
            &&& r is Ok <==> rect.length <= old(decoded)@.len() && pixels is Some
                && pixels->Some_0.len() == rect.length
            &&& r is Ok ==> r->Ok_0@.len() == rect.length && same_pixels(
                pixels->Some_0,
                r->Ok_0@,
                rect.length as int / 2,
            )
        },
{
    let p = old(payload)@;
    if can_be_decoded(rect, p) {
        if rect.compressed {
            let block = p.take(rect.payload as int);
            let pixels = pipeline::lz4_block(block, rect.length as nat);
            if pixels is Some {
                swapping_keeps_the_pixels(pixels->Some_0);
            }
        } else {
            let raw = p.take(rect.length as int);
            swapping_keeps_the_pixels(raw);
            assert forall|k: int| 0 <= k < rect.length as int / 2 implies #[trigger] to_panel(
                r->Ok_0@,
                k,
            ) == from_host(p, k) by {
                assert(to_panel(stream::swapped(raw), k) == from_host(raw, k));
            }
        }
    }
}

/// The queue hands commands out in the order in which they came in, and holds
/// eight.
pub proof fn commands_wait_in_order(
    fresh: CommandChannel,
    q: &mut CommandChannel,
    c: Command,
    sent: Result<(), Command>,
    p: &mut CommandChannel,
    got: Option<Command>,
    s: CommandChannel,
    room: usize,
    cleared: &mut CommandChannel,
)
    requires
        call_ensures(CommandChannel::new, (), fresh),
        call_ensures(CommandChannel::try_send, (q, c), sent),
        call_ensures(CommandChannel::try_receive, (p,), got),
        call_ensures(CommandChannel::free_capacity, (&s,), room),
        call_ensures(CommandChannel::clear, (cleared,), ()),
    ensures
        fresh@.len() == 0,
        final(cleared)@.len() == 0,
        room + s@.len() == 8,
        sent is Ok <==> old(q)@.len() < 8,
        sent is Ok ==> final(q)@.len() == old(q)@.len() + 1 && final(q)@.last() == c && final(
            q
        )@.drop_last() == old(q)@,
        sent is Err ==> sent->Err_0 == c && final(q)@ == old(q)@,
        got is Some <==> old(p)@.len() > 0,
        got is Some ==> old(p)@ == seq![got->Some_0] + final(p)@,
        got is None ==> final(p)@ == old(p)@,
{
    if sent is Ok {
        assert(final(q)@.drop_last() =~= old(q)@);
    }
    if got is Some {
        assert(old(p)@ =~= seq![got->Some_0] + final(p)@);
    }
}

/// The buffer is in one of the two places.
pub open spec fn holds<T>(places: (Option<T>, Option<T>), buf: T) -> bool {
    places.0 == Some(buf) || places.1 == Some(buf)
}

/// Both buffers are there at first. One that is taken was there; one that is put
/// back is there then, and the other stays; and there is no room for a third.
pub proof fn buffers_come_and_go<T>(
    a: T,
    b: T,
    fresh: Spare<T>,
    s: &mut Spare<T>,
    taken: Option<T>,
    t: &mut Spare<T>,
    buf: T,
    r: Result<(), T>,
)
    requires
        call_ensures(Spare::<T>::new, (a, b), fresh),
        call_ensures(Spare::<T>::take_idle, (s,), taken),
        call_ensures(Spare::<T>::put_idle, (t, buf), r),
    ensures
        holds(fresh@, a),
        holds(fresh@, b),
        taken is Some <==> old(s)@.0 is Some || old(s)@.1 is Some,
        taken is Some ==> holds(old(s)@, taken->Some_0) && final(s)@.0 is None && (old(s)@.0 is Some
            ==> final(s)@.1 == old(s)@.1) && (old(s)@.0 is None ==> final(s)@.1 is None),
        r is Err <==> old(t)@.0 is Some && old(t)@.1 is Some,
        r is Err ==> r->Err_0 == buf && final(t)@ == old(t)@,
        r is Ok ==> holds(final(t)@, buf),
        r is Ok && old(t)@.0 is Some ==> final(t)@.0 == old(t)@.0,
        r is Ok && old(t)@.1 is Some ==> final(t)@.1 == old(t)@.1,
{
}

} // verus!
