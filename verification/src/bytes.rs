//! Little-endian and big-endian integers in byte sequences.

use vstd::prelude::*;

verus! {

/// The low 16 bits of `x`, low byte first.
pub open spec fn le16(x: int) -> Seq<u8> {
    seq![(x % 256) as u8, (x / 256 % 256) as u8]
}

/// The low 32 bits of `x`, low byte first.
pub open spec fn le32(x: int) -> Seq<u8> {
    seq![
        (x % 256) as u8,
        (x / 256 % 256) as u8,
        (x / 0x1_0000 % 256) as u8,
        (x / 0x100_0000 % 256) as u8,
    ]
}

/// The low 64 bits of `x`, low byte first.
pub open spec fn le64(x: int) -> Seq<u8> {
    le32(x % 0x1_0000_0000) + le32(x / 0x1_0000_0000)
}

/// The low 16 bits of `x`, high byte first.
pub open spec fn be16(x: int) -> Seq<u8> {
    seq![(x / 256 % 256) as u8, (x % 256) as u8]
}

/// The little-endian 16-bit number that starts at byte `i` of `b`.
pub open spec fn u16_at(b: Seq<u8>, i: int) -> int {
    b[i] + 256 * b[i + 1]
}

/// The little-endian 32-bit number that starts at byte `i` of `b`.
pub open spec fn u32_at(b: Seq<u8>, i: int) -> int {
    b[i] + 256 * b[i + 1] + 0x1_0000 * b[i + 2] + 0x100_0000 * b[i + 3]
}

/// A 32-bit number survives being written and read back.
pub proof fn le32_reads_back(x: u32)
    ensures
        le32(x as int).len() == 4,
        u32_at(le32(x as int), 0) == x,
{
    let a = x as int / 256;
    let b = a / 256;
    let c = b / 256;
    assert(x as int / 0x1_0000 == b);
    assert(x as int / 0x100_0000 == c);
    let bytes = le32(x as int);
    assert(bytes[0] == x - 256 * a);
    assert(bytes[1] == a - 256 * b);
    assert(bytes[2] == b - 256 * c);
    assert(bytes[3] == c);
}

/// A number at byte `i` is the number at the start of the bytes from `i` on.
pub proof fn u32_in_subrange(b: Seq<u8>, i: int)
    requires
        0 <= i,
        i + 4 <= b.len(),
    ensures
        u32_at(b, i) == u32_at(b.subrange(i, i + 4), 0),
{
}

/// Only the low 16 bits of a number show in its two bytes.
#[verifier::rlimit(40)]
pub proof fn le16_keeps_low_bits(x: int)
    ensures
        le16(x % 0x1_0000) == le16(x),
{
    assert(le16(x % 0x1_0000) =~= le16(x));
}

/// The little-endian number in the first two bytes of `b`.
pub fn le_u16(b: &[u8]) -> (x: u16)
    requires
        b@.len() >= 2,
    ensures
        x == u16_at(b@, 0),
{
    b[0] as u16 + 256 * (b[1] as u16)
}

/// The little-endian number in the first four bytes of `b`.
pub fn le_u32(b: &[u8]) -> (x: u32)
    requires
        b@.len() >= 4,
    ensures
        x == u32_at(b@, 0),
{
    b[0] as u32 + 256 * (b[1] as u32) + 0x1_0000 * (b[2] as u32) + 0x100_0000 * (b[3] as u32)
}

/// The little-endian 16-bit number that starts at byte `at` of `b`.
pub fn u16_from(b: &[u8], at: usize) -> (x: u16)
    requires
        at + 2 <= b@.len(),
    ensures
        x == u16_at(b@, at as int),
{
    le_u16(vstd::slice::slice_subrange(b, at, b.len()))
}

/// The little-endian 32-bit number that starts at byte `at` of `b`.
pub fn u32_from(b: &[u8], at: usize) -> (x: u32)
    requires
        at + 4 <= b@.len(),
    ensures
        x == u32_at(b@, at as int),
{
    le_u32(vstd::slice::slice_subrange(b, at, b.len()))
}

/// `after` is `before` with the bytes from `at` on replaced by `piece`, where
/// it reaches: what stood in front of `at` and behind the piece is as it was.
pub open spec fn written(before: Seq<u8>, after: Seq<u8>, at: int, piece: Seq<u8>) -> bool {
    &&& after.len() == before.len()
    &&& after.take(at + piece.len()) == before.take(at) + piece
    &&& forall|i: int| at + piece.len() <= i < before.len() ==> #[trigger] after[i] == before[i]
}

/// A piece written at the front is what the result starts with.
pub proof fn written_at_front(before: Seq<u8>, after: Seq<u8>, piece: Seq<u8>)
    ensures
        written(before, after, 0, piece) <==> {
            &&& after.len() == before.len()
            &&& after.take(piece.len() as int) == piece
            &&& forall|i: int| piece.len() <= i < before.len() ==> #[trigger] after[i] == before[i]
        },
        written(before, after, 0, piece) && piece.len() <= before.len() ==> after == piece
            + before.skip(piece.len() as int),
{
    assert(before.take(0) + piece =~= piece);
    if written(before, after, 0, piece) && piece.len() <= before.len() {
        assert(after =~= after.take(piece.len() as int) + before.skip(piece.len() as int));
    }
}

/// Writes one byte.
pub fn put_u8(buf: &mut [u8], at: usize, x: u8)
    requires
        at < old(buf)@.len(),
    ensures
        written(old(buf)@, final(buf)@, at as int, seq![x]),
{
    buf[at] = x;
    assert(buf@.take(at + 1) =~= old(buf)@.take(at as int) + seq![x]);
}

/// Writes a 16-bit number, low byte first.
pub fn put_le16(buf: &mut [u8], at: usize, x: u16)
    requires
        at + 2 <= old(buf)@.len(),
    ensures
        written(old(buf)@, final(buf)@, at as int, le16(x as int)),
{
    buf[at] = (x % 256) as u8;
    buf[at + 1] = (x / 256) as u8;
    assert(buf@.take(at + 2) =~= old(buf)@.take(at as int) + le16(x as int));
}

/// Writes a 32-bit number, low byte first.
pub fn put_le32(buf: &mut [u8], at: usize, x: u32)
    requires
        at + 4 <= old(buf)@.len(),
    ensures
        written(old(buf)@, final(buf)@, at as int, le32(x as int)),
{
    buf[at] = (x % 256) as u8;
    buf[at + 1] = (x / 256 % 256) as u8;
    buf[at + 2] = (x / 0x1_0000 % 256) as u8;
    buf[at + 3] = (x / 0x100_0000) as u8;
    assert(buf@.take(at + 4) =~= old(buf)@.take(at as int) + le32(x as int));
}

/// `before` with the bytes from `at` on replaced by `piece`.
pub open spec fn replaced(before: Seq<u8>, at: int, piece: Seq<u8>) -> Seq<u8> {
    before.take(at) + piece + before.skip(at + piece.len())
}

/// Copies `piece` to `buf` from byte `at` on.
pub fn put_all<const N: usize>(buf: &mut [u8; N], at: usize, piece: &[u8])
    requires
        at + piece@.len() <= N,
    ensures
        final(buf)@ == replaced(old(buf)@, at as int, piece@),
{
    let len: usize = piece.len();
    let mut i: usize = 0;
    while i < len
        invariant
            len == piece@.len(),
            at + len <= N,
            i <= len,
            forall|k: int| 0 <= k < at ==> buf@[k] == old(buf)@[k],
            forall|k: int| at <= k < at + i ==> buf@[k] == piece@[k - at],
            forall|k: int| at + i <= k < N ==> buf@[k] == old(buf)@[k],
        decreases len - i,
    {
        buf[at + i] = piece[i];
        i += 1;
    }
    assert(buf@ =~= replaced(old(buf)@, at as int, piece@));
}

} // verus!
