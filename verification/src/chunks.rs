//! Sending something long in pieces that a transfer can take.

use vstd::prelude::*;

verus! {

/// The pieces of `s`: full ones, and the rest.
pub open spec fn pieces(s: Seq<u8>, size: nat) -> Seq<Seq<u8>>
    decreases s.len(),
{
    if s.len() == 0 || size == 0 {
        seq![]
    } else if s.len() <= size {
        seq![s]
    } else {
        seq![s.take(size as int)] + pieces(s.skip(size as int), size)
    }
}

/// Where the piece that starts at `at` ends.
pub open spec fn piece_end(len: int, at: int, size: int) -> int {
    if len - at <= size {
        len
    } else {
        at + size
    }
}

/// Where the piece that starts at `at` ends, of something `len` bytes long.
pub fn next_piece(len: usize, at: usize, size: usize) -> (end: usize)
    requires
        at <= len,
    ensures
        end == piece_end(len as int, at as int, size as int),
{
    if len - at <= size {
        len
    } else {
        at + size
    }
}

/// The pieces, one after the other, are the whole; none is empty or too long;
/// and all but the last are full.
pub proof fn pieces_make_the_whole(s: Seq<u8>, size: nat)
    requires
        size > 0,
    ensures
        pieces(s, size).flatten() == s,
        forall|i: int| 0 <= i < pieces(s, size).len() ==> 0 < (#[trigger] pieces(s, size)[i]).len()
            <= size,
        forall|i: int|
            0 <= i < pieces(s, size).len() - 1 ==> (#[trigger] pieces(s, size)[i]).len() == size,
    decreases s.len(),
{
    if s.len() == 0 {
        assert(pieces(s, size).flatten() =~= s);
    } else if s.len() <= size {
        let only: Seq<Seq<u8>> = seq![s];
        only.lemma_flatten_one_element();
    } else {
        let rest = s.skip(size as int);
        let all = pieces(s, size);
        pieces_make_the_whole(rest, size);
        assert(all.drop_first() =~= pieces(rest, size));
        assert(all.flatten() =~= all.first() + pieces(rest, size).flatten());
        assert(s.take(size as int) + rest =~= s);
        assert forall|i: int| 0 <= i < all.len() implies 0 < (#[trigger] all[i]).len() <= size by {
            if i > 0 {
                assert(all[i] == pieces(rest, size)[i - 1]);
            }
        }
        assert forall|i: int| 0 <= i < all.len() - 1 implies (#[trigger] all[i]).len() == size by {
            if i > 0 {
                assert(all[i] == pieces(rest, size)[i - 1]);
            }
        }
    }
}

/// Going from piece to piece by their ends gives the pieces.
pub proof fn pieces_by_their_ends(s: Seq<u8>, at: int, size: nat)
    requires
        0 <= at < s.len(),
        size > 0,
    ensures
        ({
            let end = piece_end(s.len() as int, at, size as int);
            pieces(s.skip(at), size) == seq![s.subrange(at, end)] + pieces(s.skip(end), size)
        }),
{
    let rest = s.skip(at);
    let end = piece_end(s.len() as int, at, size as int);
    if rest.len() <= size {
        assert(s.subrange(at, end) =~= rest);
        assert(s.skip(end) =~= Seq::<u8>::empty());
        assert(seq![rest] + pieces(s.skip(end), size) =~= seq![rest]);
    } else {
        assert(rest.take(size as int) =~= s.subrange(at, end));
        assert(rest.skip(size as int) =~= s.skip(end));
    }
}

/// Where the pieces from `at` on start and end.
pub open spec fn spans(len: nat, at: nat, size: nat) -> Seq<(nat, nat)>
    decreases len - at,
{
    if at >= len || size == 0 {
        seq![]
    } else {
        let end = piece_end(len as int, at as int, size as int) as nat;
        seq![(at, end)] + spans(len, end, size)
    }
}

/// What the spans cut out are the pieces.
pub proof fn spans_cut_out_the_pieces(s: Seq<u8>, at: nat, size: nat)
    requires
        at <= s.len(),
        size > 0,
    ensures
        spans(s.len(), at, size).len() == pieces(s.skip(at as int), size).len(),
        forall|i: int|
            0 <= i < spans(s.len(), at, size).len() ==> {
                let (from, to) = #[trigger] spans(s.len(), at, size)[i];
                &&& at <= from < to <= s.len()
                &&& s.subrange(from as int, to as int) == pieces(s.skip(at as int), size)[i]
            },
    decreases s.len() - at,
{
    if at < s.len() {
        let end = piece_end(s.len() as int, at as int, size as int) as nat;
        pieces_by_their_ends(s, at as int, size);
        spans_cut_out_the_pieces(s, end, size);
        let all = spans(s.len(), at, size);
        let rest = spans(s.len(), end, size);
        assert forall|i: int| 0 <= i < all.len() implies {
            let (from, to) = #[trigger] all[i];
            &&& at <= from < to <= s.len()
            &&& s.subrange(from as int, to as int) == pieces(s.skip(at as int), size)[i]
        } by {
            if i > 0 {
                assert(all[i] == rest[i - 1]);
                assert(pieces(s.skip(at as int), size)[i] == pieces(s.skip(end as int), size)[i
                    - 1]);
            }
        }
    } else {
        assert(s.skip(at as int) =~= Seq::<u8>::empty());
    }
}

} // verus!
