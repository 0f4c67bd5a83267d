//! Pixel byte order. Hosts send little-endian RGB565; ST7789-class panels
//! want the high byte first.

use vstd::prelude::*;

verus! {

/// The whole pairs at the front of `s`, each the other way round.
pub open spec fn swapped(s: Seq<u8>) -> Seq<u8> {
    Seq::new(
        (s.len() / 2 * 2) as nat,
        |i: int|
            if i % 2 == 0 {
                s[i + 1]
            } else {
                s[i - 1]
            },
    )
}

/// What has no partner at the end of `s`.
pub open spec fn unpaired(s: Seq<u8>) -> Seq<u8> {
    s.skip((s.len() / 2 * 2) as int)
}

/// Swap every pair in place: a whole decoded band, in one go.
pub fn swap_pairs(pixels: &mut [u8])
    ensures
        final(pixels)@ == swapped(old(pixels)@) + unpaired(old(pixels)@),
{
    let len: usize = pixels.len();
    let ghost before = pixels@;
    let mut i: usize = 0;
    while i + 1 < len
        invariant
            len == pixels@.len(),
            len == before.len(),
            i % 2 == 0,
            i <= len,
            forall|k: int| 0 <= k < i ==> pixels@[k] == swapped(before)[k],
            forall|k: int| i <= k < len ==> pixels@[k] == before[k],
        decreases len - i,
    {
        let lo: u8 = pixels[i];
        let hi: u8 = pixels[i + 1];
        pixels[i] = hi;
        pixels[i + 1] = lo;
        i += 2;
    }
    assert(pixels@ =~= swapped(before) + unpaired(before));
}

/// Swapping twice gives back the pixels.
pub proof fn swapping_twice_changes_nothing(s: Seq<u8>)
    ensures
        swapped(swapped(s) + unpaired(s)) + unpaired(swapped(s) + unpaired(s)) == s,
{
    let once = swapped(s) + unpaired(s);
    assert(once.len() == s.len());
    assert(swapped(once) + unpaired(once) =~= s);
}

/// An update in progress: the bytes still to come, and the low byte of a
/// pixel whose high byte is among them.
pub struct Stream {
    pub remaining: nat,
    pub carry: Option<u8>,
}

impl Stream {
    /// The bytes of `data` that belong to the update.
    pub open spec fn taken(self, data: Seq<u8>) -> Seq<u8> {
        if data.len() <= self.remaining {
            data
        } else {
            data.take(self.remaining as int)
        }
    }

    /// The carried byte and the bytes of `data` that belong to the update.
    pub open spec fn pending(self, data: Seq<u8>) -> Seq<u8> {
        match self.carry {
            Some(lo) => seq![lo] + self.taken(data),
            None => self.taken(data),
        }
    }

    /// The pixel bytes that come out when `data` goes in.
    pub open spec fn emitted(self, data: Seq<u8>) -> Seq<u8> {
        if self.remaining == 0 {
            seq![]
        } else {
            swapped(self.pending(data))
        }
    }

    /// The update after `data`.
    pub open spec fn fed(self, data: Seq<u8>) -> Stream {
        let remaining = (self.remaining - self.taken(data).len()) as nat;
        if self.remaining == 0 {
            self
        } else {
            Stream {
                remaining,
                carry: if remaining > 0 && self.pending(data).len() % 2 == 1 {
                    Some(self.pending(data).last())
                } else {
                    None
                },
            }
        }
    }

    /// The update after all of `packets`.
    pub open spec fn fed_all(self, packets: Seq<Seq<u8>>) -> Stream
        decreases packets.len(),
    {
        if packets.len() == 0 {
            self
        } else {
            self.fed_all(packets.drop_last()).fed(packets.last())
        }
    }

    /// The pixel bytes that come out when all of `packets` go in.
    pub open spec fn emitted_all(self, packets: Seq<Seq<u8>>) -> Seq<u8>
        decreases packets.len(),
    {
        if packets.len() == 0 {
            seq![]
        } else {
            self.emitted_all(packets.drop_last()) + self.fed_all(packets.drop_last()).emitted(
                packets.last(),
            )
        }
    }
}

/// The pairs of `first` can be swapped apart from what follows them.
proof fn whole_pairs_swap_apart(first: Seq<u8>, second: Seq<u8>)
    ensures
        swapped(first) + swapped(second) == swapped(
            first.take((first.len() / 2 * 2) as int) + second,
        ),
{
    let both = first.take((first.len() / 2 * 2) as int) + second;
    let left = swapped(first) + swapped(second);
    let right = swapped(both);
    assert(left.len() == right.len());
    assert forall|i: int| 0 <= i < left.len() implies left[i] == right[i] by {
        let n = swapped(first).len() as int;
        assert(n % 2 == 0);
        if i >= n {
            assert((i - n) % 2 == i % 2);
            assert(left[i] == swapped(second)[i - n]);
        }
    }
    assert(left =~= right);
}

/// Pixels come out the same whether the bytes come in one packet or in two,
/// wherever the cut is.
#[verifier::rlimit(40)]
pub proof fn cutting_a_packet_changes_nothing(s: Stream, a: Seq<u8>, b: Seq<u8>)
    ensures
        s.fed(a).fed(b) == s.fed(a + b),
        s.emitted(a) + s.fed(a).emitted(b) == s.emitted(a + b),
{
    if s.remaining == 0 {
        assert(s.emitted(a) + s.fed(a).emitted(b) =~= s.emitted(a + b));
    } else if a.len() >= s.remaining {
        assert(s.taken(a) =~= s.taken(a + b));
        assert(s.emitted(a) + s.fed(a).emitted(b) =~= s.emitted(a + b));
    } else {
        let first = s.pending(a);
        let second = s.fed(a).pending(b);
        assert(s.taken(a + b) =~= a + s.fed(a).taken(b));
        assert(s.pending(a + b) =~= first + s.fed(a).taken(b));
        let whole = first.take((first.len() / 2 * 2) as int);
        let next = s.fed(a);
        assert(next.remaining == s.remaining - a.len());
        assert(second =~= unpaired(first) + next.taken(b));
        assert(s.pending(a + b) =~= whole + second);
        whole_pairs_swap_apart(first, second);
    }
}

/// An empty packet changes nothing: a carried byte stays for the next one.
pub proof fn no_bytes_change_nothing(s: Stream)
    ensures
        s.fed(Seq::empty()) == s,
        s.emitted(Seq::empty()) == Seq::<u8>::empty(),
{
    assert(s.emitted(Seq::empty()) =~= Seq::<u8>::empty());
}

/// Pixels come out the same however the bytes are cut into packets.
pub proof fn packets_do_not_matter(s: Stream, packets: Seq<Seq<u8>>)
    ensures
        s.fed_all(packets) == s.fed(packets.flatten()),
        s.emitted_all(packets) == s.emitted(packets.flatten()),
    decreases packets.len(),
{
    if packets.len() == 0 {
        assert(packets.flatten() =~= Seq::<u8>::empty());
        no_bytes_change_nothing(s);
    } else {
        packets_do_not_matter(s, packets.drop_last());
        packets.lemma_flatten_and_flatten_alt_are_equivalent();
        packets.drop_last().lemma_flatten_and_flatten_alt_are_equivalent();
        cutting_a_packet_changes_nothing(s, packets.drop_last().flatten(), packets.last());
    }
}

/// Once all bytes of an update are in, its pixels are out: each pair swapped,
/// nothing of what came behind, and no update in progress.
pub proof fn whole_updates_come_out_swapped(length: nat, packets: Seq<Seq<u8>>)
    requires
        packets.flatten().len() >= length,
    ensures
        ({
            let begun = Stream { remaining: length, carry: None };
            &&& begun.emitted_all(packets) == swapped(packets.flatten().take(length as int))
            &&& begun.fed_all(packets) == Stream { remaining: 0, carry: None }
        }),
{
    let begun = Stream { remaining: length, carry: None };
    let bytes = packets.flatten();
    packets_do_not_matter(begun, packets);
    assert(begun.taken(bytes) =~= bytes.take(length as int));
    if length == 0 {
        assert(swapped(bytes.take(0)) =~= Seq::<u8>::empty());
    }
}

/// Writes the pairs of `data`, swapped, to `out` from byte `at` on. Returns
/// how many bytes that was.
fn swap_into(data: &[u8], out: &mut [u8], at: usize) -> (n: usize)
    requires
        at + swapped(data@).len() <= old(out)@.len(),
    ensures
        n == swapped(data@).len(),
        final(out)@ == old(out)@.take(at as int) + swapped(data@) + old(out)@.skip(at + n),
{
    let len: usize = data.len() / 2 * 2;
    let size: usize = out.len();
    let mut i: usize = 0;
    while i < len
        invariant
            len == swapped(data@).len(),
            len % 2 == 0,
            len <= data@.len(),
            at + len <= size,
            size == out@.len(),
            size == old(out)@.len(),
            i % 2 == 0,
            i <= len,
            forall|k: int| 0 <= k < at ==> out@[k] == old(out)@[k],
            forall|k: int| 0 <= k < i ==> out@[at + k] == #[trigger] swapped(data@)[k],
            forall|k: int| at + i <= k < out@.len() ==> out@[k] == old(out)@[k],
        decreases len - i,
    {
        let ghost earlier = out@;
        out[at + i] = data[i + 1];
        out[at + i + 1] = data[i];
        assert forall|k: int| 0 <= k < i + 2 implies out@[at + k] == #[trigger] swapped(
            data@,
        )[k] by {
            if k < i {
                assert(out@[at + k] == earlier[at + k]);
            }
        }
        i += 2;
    }
    assert(out@ =~= old(out)@.take(at as int) + swapped(data@) + old(out)@.skip(at + len));
    len
}

/// The last byte, if it has no partner.
fn odd_one(data: &[u8]) -> (last: Option<u8>)
    ensures
        last == if data@.len() % 2 == 1 {
            Some(data@.last())
        } else {
            None
        },
{
    if data.len() % 2 == 1 {
        Some(data[data.len() - 1])
    } else {
        None
    }
}

/// Streams one update packet by packet, for firmware with no room to buffer
/// it: each call to [`feed`](Self::feed) byte-swaps what arrived and keeps
/// a dangling low byte for the next packet, so pixels split across packet
/// boundaries come out whole.
pub struct PixelStream {
    /// Bytes of the current update still expected on the bulk endpoint.
    remaining: u32,
    /// Low byte of a pixel whose high byte is in the next packet.
    carry: Option<u8>,
}

impl View for PixelStream {
    type V = Stream;

    closed spec fn view(&self) -> Stream {
        Stream { remaining: self.remaining as nat, carry: self.carry }
    }
}

impl Default for PixelStream {
    fn default() -> (s: Self)
        ensures
            s@ == (Stream { remaining: 0, carry: None }),
    {
        Self::new()
    }
}

impl PixelStream {
    pub fn new() -> (s: Self)
        ensures
            s@ == (Stream { remaining: 0, carry: None }),
    {
        PixelStream { remaining: 0, carry: None }
    }

    /// Start a new update of `length` raw bytes.
    pub fn begin(&mut self, length: u32)
        ensures
            final(self)@ == (Stream { remaining: length as nat, carry: None }),
    {
        self.remaining = length;
        self.carry = None;
    }

    pub fn is_active(&self) -> (active: bool)
        ensures
            active == (self@.remaining > 0),
    {
        self.remaining != 0
    }

    /// Drop whatever is left of the current update. Returns whether one was
    /// in progress.
    pub fn abort(&mut self) -> (active: bool)
        ensures
            active == (old(self)@.remaining > 0),
            final(self)@ == (Stream { remaining: 0, carry: None }),
    {
        let active = self.is_active();
        self.remaining = 0;
        self.carry = None;
        active
    }

    /// Feed the next bytes off the bulk endpoint. Swapped pixels are written
    /// to `out`, which needs room for them; `data.len() + 1` bytes are always
    /// enough. Returns the number of bytes written and whether the update just
    /// completed. Bytes beyond the update's length are ignored, as is anything
    /// fed while no update is active.
    pub fn feed(&mut self, data: &[u8], out: &mut [u8]) -> (r: (usize, bool))
        requires
            old(out)@.len() >= old(self)@.emitted(data@).len(),
        ensures
            r.0 == old(self)@.emitted(data@).len(),
            r.1 == (old(self)@.remaining > 0 && final(self)@.remaining == 0),
            final(self)@ == old(self)@.fed(data@),
            final(out)@ == old(self)@.emitted(data@) + old(out)@.skip(r.0 as int),
    {
        if self.remaining == 0 {
            assert(out@ =~= old(self)@.emitted(data@) + old(out)@.skip(0));
            return (0, false);
        }
        let take: usize = if data.len() as u64 <= self.remaining as u64 {
            data.len()
        } else {
            self.remaining as usize
        };
        let ghost pending = self@.pending(data@);
        let ghost pixels = self@.emitted(data@);
        assert(self@.taken(data@) =~= data@.take(take as int));
        self.remaining = self.remaining - take as u32;

        let done = self.remaining == 0;
        let n: usize = match self.carry {
            Some(lo) => {
                if take == 0 {
                    assert(pixels =~= Seq::<u8>::empty());
                    0
                } else {
                    let rest = vstd::slice::slice_subrange(data, 1, take);
                    proof {
                        let pair = seq![lo, data@[0]];
                        assert(pending =~= pair.take(2) + rest@);
                        whole_pairs_swap_apart(pair, rest@);
                        assert(swapped(pair) =~= seq![data@[0], lo]);
                    }
                    out[0] = data[0];
                    out[1] = lo;
                    let n: usize = 2 + swap_into(rest, out, 2);
                    assert(out@ =~= pixels + old(out)@.skip(n as int));
                    self.carry = odd_one(rest);
                    n
                }
            },
            None => {
                let all = vstd::slice::slice_subrange(data, 0, take);
                assert(pending =~= all@);
                let n: usize = swap_into(all, out, 0);
                self.carry = odd_one(all);
                n
            },
        };
        assert(out@ =~= pixels + old(out)@.skip(n as int));
        if done {
            self.carry = None;
        }
        (n, done)
    }
}

} // verus!
