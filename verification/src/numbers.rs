//! What the numbers in bytes are, and where pieces end.

use vstd::prelude::*;

use crate::bytes;
use crate::chunks;

verus! {

/// Two bytes are a number with the low byte first: one and 256 of the other.
pub proof fn two_bytes_are_a_number(b: &[u8], at: usize, first: u16, from: u16)
    requires
        call_ensures(bytes::le_u16, (b,), first),
        call_ensures(bytes::u16_from, (b, at), from),
        b@.len() >= 2,
        at + 2 <= b@.len(),
    ensures
        first % 256 == b@[0],
        first / 256 == b@[1],
        from % 256 == b@[at as int],
        from / 256 == b@[at + 1],
{
}

/// Four bytes are a number with the lowest byte first.
pub proof fn four_bytes_are_a_number(b: &[u8], at: usize, first: u32, from: u32)
    requires
        call_ensures(bytes::le_u32, (b,), first),
        call_ensures(bytes::u32_from, (b, at), from),
        b@.len() >= 4,
        at + 4 <= b@.len(),
    ensures
        first % 0x1_0000 == b@[0] + 256 * b@[1],
        first / 0x1_0000 == b@[2] + 256 * b@[3],
        from % 0x1_0000 == b@[at as int] + 256 * b@[at + 1],
        from / 0x1_0000 == b@[at + 2] + 256 * b@[at + 3],
{
}

/// Everything outside of `at..at + n` is as it was.
pub open spec fn kept_outside(before: Seq<u8>, after: Seq<u8>, at: int, n: int) -> bool {
    &&& after.len() == before.len()
    &&& forall|i: int| 0 <= i < after.len() && !(at <= i < at + n) ==> #[trigger] after[i]
        == before[i]
}

/// A number that is written can be read where it was written, and nothing else
/// changes.
pub proof fn numbers_are_written(
    a: &mut [u8],
    b: &mut [u8],
    c: &mut [u8],
    at: usize,
    x: u8,
    y: u16,
    z: u32,
)
    requires
        call_ensures(bytes::put_u8, (a, at, x), ()),
        call_ensures(bytes::put_le16, (b, at, y), ()),
        call_ensures(bytes::put_le32, (c, at, z), ()),
        at < old(a)@.len(),
        at + 2 <= old(b)@.len(),
        at + 4 <= old(c)@.len(),
    ensures
        final(a)@[at as int] == x,
        kept_outside(old(a)@, final(a)@, at as int, 1),
        final(b)@[at as int] + 256 * final(b)@[at + 1] == y,
        kept_outside(old(b)@, final(b)@, at as int, 2),
        final(c)@[at as int] + 256 * final(c)@[at + 1] + 0x1_0000 * (final(c)@[at + 2] + 256
            * final(c)@[at + 3]) == z,
        kept_outside(old(c)@, final(c)@, at as int, 4),
{
    let i = at as int;
    one_written(old(a)@, final(a)@, i, seq![x]);
    one_written(old(b)@, final(b)@, i, bytes::le16(y as int));
    one_written(old(c)@, final(c)@, i, bytes::le32(z as int));
    assert(final(a)@[i + 0] == seq![x][0]);
    let low = bytes::le16(y as int);
    assert(final(b)@[i + 0] == low[0] && final(b)@[i + 1] == low[1]);
    let all = bytes::le32(z as int);
    assert(final(c)@[i + 0] == all[0] && final(c)@[i + 1] == all[1]);
    assert(final(c)@[i + 2] == all[2] && final(c)@[i + 3] == all[3]);
    let n = z as int;
    assert(n / 0x1_0000 == n / 256 / 256);
    assert(n / 0x100_0000 == n / 256 / 256 / 256);
}

proof fn one_written(before: Seq<u8>, after: Seq<u8>, at: int, piece: Seq<u8>)
    requires
        bytes::written(before, after, at, piece),
        0 <= at,
        at + piece.len() <= before.len(),
    ensures
        kept_outside(before, after, at, piece.len() as int),
        forall|k: int| 0 <= k < piece.len() ==> after[at + k] == #[trigger] piece[k],
{
    let front = before.take(at) + piece;
    assert forall|i: int|
        0 <= i < after.len() && !(at <= i < at + piece.len()) implies #[trigger] after[i]
        == before[i] by {
        if i < at {
            assert(after.take(at + piece.len())[i] == front[i]);
        }
    }
    assert forall|k: int| 0 <= k < piece.len() implies after[at + k] == #[trigger] piece[k] by {
        assert(after.take(at + piece.len())[at + k] == front[at + k]);
    }
}

/// A piece is copied to where it goes, and nothing else changes.
pub proof fn pieces_are_copied<const N: usize>(buf: &mut [u8; N], at: usize, piece: &[u8])
    requires
        call_ensures(bytes::put_all::<N>, (buf, at, piece), ()),
        at + piece@.len() <= N,
    ensures
        forall|k: int| 0 <= k < piece@.len() ==> final(buf)@[at + k] == #[trigger] piece@[k],
        kept_outside(old(buf)@, final(buf)@, at as int, piece@.len() as int),
{
}

/// The next piece is as long as a piece may be, or ends with the whole.
pub proof fn pieces_end_with_the_whole(len: usize, at: usize, size: usize, end: usize)
    requires
        call_ensures(chunks::next_piece, (len, at, size), end),
        at <= len,
    ensures
        at <= end <= len,
        end - at <= size,
        end == len || end - at == size,
{
}

} // verus!
