//! What can be read in a line: the numbers in it, and the labels before them.

use vstd::prelude::*;

use crate::line::{self, Line};

verus! {

/// A decimal digit.
pub open spec fn is_digit(b: u8) -> bool {
    0x30 <= b <= 0x39
}

/// What decimal digits stand for.
pub open spec fn value(d: Seq<u8>) -> int
    decreases d.len(),
{
    if d.len() == 0 {
        0
    } else {
        10 * value(d.drop_last()) + (d.last() - 0x30)
    }
}

/// The digits from `at` up to `end` are all there are, and are this number's,
/// without zeros in front.
pub open spec fn number_between(s: Seq<u8>, at: int, end: int, n: int) -> bool {
    &&& 0 <= at < end <= s.len()
    &&& forall|k: int| at <= k < end ==> is_digit(#[trigger] s[k])
    &&& end < s.len() ==> !is_digit(s[end])
    &&& s[at] == 0x30 ==> end == at + 1
    &&& value(s.subrange(at, end)) == n
}

/// A number can be read from `at` on.
pub open spec fn reads_at(s: Seq<u8>, at: int, n: int) -> bool {
    exists|end: int| #[trigger] number_between(s, at, end, n)
}

/// The piece stands at `at`.
pub open spec fn has_at(s: Seq<u8>, at: int, piece: Seq<u8>) -> bool {
    &&& 0 <= at <= at + piece.len() <= s.len()
    &&& s.subrange(at, at + piece.len()) == piece
}

/// The label stands in the line, and this number right behind it.
#[verifier::opaque]
pub open spec fn says(s: Seq<u8>, label: Seq<u8>, n: int) -> bool {
    exists|at: int| #[trigger] has_at(s, at, label) && reads_at(s, at + label.len(), n)
}

/// The label stands in the line, and this text right behind it.
#[verifier::opaque]
pub open spec fn says_text(s: Seq<u8>, label: Seq<u8>, t: Seq<u8>) -> bool {
    exists|at: int| #[trigger] has_at(s, at, label) && has_at(s, at + label.len(), t)
}

/// What a hexadecimal digit stands for, in small letters.
pub open spec fn hex_value_of(b: u8) -> int {
    if is_digit(b) {
        b - 0x30
    } else if 0x61 <= b <= 0x66 {
        b - 0x61 + 10
    } else {
        -1
    }
}

/// What hexadecimal digits stand for.
pub open spec fn hex_value(d: Seq<u8>) -> int
    decreases d.len(),
{
    if d.len() == 0 {
        0
    } else {
        16 * hex_value(d.drop_last()) + hex_value_of(d.last())
    }
}

/// These are hexadecimal digits of this number.
pub open spec fn is_hex(d: Seq<u8>, n: int) -> bool {
    &&& d.len() > 0
    &&& forall|k: int| 0 <= k < d.len() ==> 0 <= hex_value_of(#[trigger] d[k]) < 16
    &&& hex_value(d) == n
}

/// The label stands in the line, and hexadecimal digits of this number, at least
/// so many and no zeros in front of more, right behind it.
#[verifier::opaque]
pub open spec fn says_hex(s: Seq<u8>, label: Seq<u8>, n: int, least: nat) -> bool {
    exists|at: int, d: Seq<u8>|
        {
            &&& #[trigger] has_at(s, at, label)
            &&& #[trigger] has_at(s, at + label.len(), d)
            &&& is_hex(d, n)
            &&& d.len() >= least
            &&& d.len() > least ==> d[0] != 0x30
        }
}

/// The digits of a number are digits, stand for it, and start with none to spare.
pub proof fn decimals_are_numbers(n: nat)
    ensures
        line::decimal(n).len() > 0,
        forall|k: int| 0 <= k < line::decimal(n).len() ==> is_digit(#[trigger] line::decimal(n)[k]),
        n > 0 ==> line::decimal(n)[0] != 0x30,
        n == 0 ==> line::decimal(n).len() == 1,
        value(line::decimal(n)) == n,
    decreases n,
{
    let d = line::decimal(n);
    reveal_with_fuel(value, 2);
    if n < 10 {
        assert(d.drop_last() =~= Seq::<u8>::empty());
    } else {
        decimals_are_numbers(n / 10);
        assert(d.drop_last() =~= line::decimal(n / 10));
    }
}

/// Likewise in hexadecimal.
pub proof fn hexadecimals_are_numbers(n: nat)
    ensures
        is_hex(line::hexadecimal(n), n as int),
        n > 0 ==> line::hexadecimal(n)[0] != 0x30,
        n < 16 ==> line::hexadecimal(n).len() == 1,
        n >= 16 ==> line::hexadecimal(n).len() >= 2,
    decreases n,
{
    let d = line::hexadecimal(n);
    reveal_with_fuel(hex_value, 2);
    if n < 16 {
        assert(d.drop_last() =~= Seq::<u8>::empty());
    } else {
        hexadecimals_are_numbers(n / 16);
        assert(d.drop_last() =~= line::hexadecimal(n / 16));
    }
}

pub proof fn hexadecimal_pairs_are_numbers(n: nat)
    ensures
        is_hex(line::hexadecimal_pair(n), n as int),
        line::hexadecimal_pair(n).len() >= 2,
        line::hexadecimal_pair(n).len() > 2 ==> line::hexadecimal_pair(n)[0] != 0x30,
{
    hexadecimals_are_numbers(n);
    reveal_with_fuel(hex_value, 3);
    if n < 16 {
        let d = line::hexadecimal_pair(n);
        assert(d.drop_last().drop_last() =~= Seq::<u8>::empty());
    }
}

/// Some pieces, one behind the other.
pub open spec fn joined(pieces: Seq<Seq<u8>>) -> Seq<u8>
    decreases pieces.len(),
{
    if pieces.len() == 0 {
        seq![]
    } else {
        joined(pieces.drop_last()) + pieces.last()
    }
}

/// One more piece goes behind the others.
pub proof fn joined_with_one_more(pieces: Seq<Seq<u8>>, last: Seq<u8>)
    ensures
        joined(pieces.push(last)) == joined(pieces) + last,
{
    assert(pieces.push(last).drop_last() =~= pieces);
}

/// There is something, and it starts with no digit.
pub open spec fn starts_without_a_digit(s: Seq<u8>) -> bool {
    s.len() > 0 && !is_digit(s[0])
}

proof fn a_piece_stands(pieces: Seq<Seq<u8>>, i: int)
    requires
        0 <= i < pieces.len(),
    ensures
        has_at(joined(pieces), joined(pieces.take(i)).len() as int, pieces[i]),
        joined(pieces.take(i + 1)).len() == joined(pieces.take(i)).len() + pieces[i].len(),
        joined(pieces.take(i + 1)).len() <= joined(pieces).len(),
    decreases pieces.len(),
{
    let s = joined(pieces);
    let at = joined(pieces.take(i)).len() as int;
    assert(pieces.take(i + 1).drop_last() =~= pieces.take(i));
    if i == pieces.len() - 1 {
        assert(pieces.drop_last() =~= pieces.take(i));
        assert(pieces.take(i + 1) =~= pieces);
        assert(s.subrange(at, at + pieces[i].len()) =~= pieces[i]);
    } else {
        let shorter = pieces.drop_last();
        a_piece_stands(shorter, i);
        assert(shorter.take(i) =~= pieces.take(i));
        assert(shorter.take(i + 1) =~= pieces.take(i + 1));
        let t = joined(shorter);
        assert(s.subrange(at, at + pieces[i].len()) =~= t.subrange(at, at + pieces[i].len()));
    }
}

/// A label, a number and something that starts with no digit make a field.
pub proof fn a_field_is_said(pieces: Seq<Seq<u8>>, i: int, n: nat)
    requires
        0 <= i,
        i + 2 < pieces.len(),
        pieces[i + 1] == line::decimal(n),
        pieces[i + 2].len() > 0,
        !is_digit(pieces[i + 2][0]),
    ensures
        says(joined(pieces), pieces[i], n as int),
{
    let s = joined(pieces);
    let at = joined(pieces.take(i)).len() as int;
    let d = line::decimal(n);
    a_piece_stands(pieces, i);
    a_piece_stands(pieces, i + 1);
    a_piece_stands(pieces, i + 2);
    decimals_are_numbers(n);
    let from = at + pieces[i].len();
    let end = from + d.len();
    assert(s.subrange(from, end) == d);
    assert forall|k: int| from <= k < end implies is_digit(#[trigger] s[k]) by {
        assert(s[k] == d[k - from]);
    }
    assert(s[from] == d[0]);
    assert(s.subrange(end, end + pieces[i + 2].len())[0] == s[end]);
    assert(number_between(s, from, end, n as int));
    reveal(says);
}

/// A label and a text make a field.
pub proof fn a_text_is_said(pieces: Seq<Seq<u8>>, i: int)
    requires
        0 <= i,
        i + 1 < pieces.len(),
    ensures
        says_text(joined(pieces), pieces[i], pieces[i + 1]),
{
    reveal(says_text);
    a_piece_stands(pieces, i);
    a_piece_stands(pieces, i + 1);
}

/// Part of a text is a label for the rest of it.
pub proof fn a_text_is_said_behind_its_start(s: Seq<u8>, label: Seq<u8>, a: Seq<u8>, b: Seq<u8>)
    requires
        says_text(s, label, a + b),
    ensures
        says_text(s, a, b),
{
    reveal(says_text);
    let at = choose|at: int| #[trigger] has_at(s, at, label) && has_at(s, at + label.len(), a + b);
    let from = at + label.len();
    let whole = s.subrange(from, from + (a + b).len());
    assert(s.subrange(from, from + a.len()) =~= whole.take(a.len() as int));
    assert(whole.take(a.len() as int) =~= a);
    assert(s.subrange(from + a.len(), from + a.len() + b.len()) =~= whole.skip(a.len() as int));
    assert(whole.skip(a.len() as int) =~= b);
    assert(has_at(s, from, a));
}

/// A label and hexadecimal digits make a field.
pub proof fn a_hex_field_is_said(pieces: Seq<Seq<u8>>, i: int, n: nat, least: nat)
    requires
        0 <= i,
        i + 1 < pieces.len(),
        is_hex(pieces[i + 1], n as int),
        pieces[i + 1].len() >= least,
        pieces[i + 1].len() > least ==> pieces[i + 1][0] != 0x30,
    ensures
        says_hex(joined(pieces), pieces[i], n as int, least),
{
    reveal(says_hex);
    a_piece_stands(pieces, i);
    a_piece_stands(pieces, i + 1);
}

/// The first piece stands at the start and the last at the end.
pub proof fn the_first_and_the_last_stand(pieces: Seq<Seq<u8>>)
    requires
        pieces.len() > 0,
    ensures
        has_at(joined(pieces), 0, pieces[0]),
        has_at(joined(pieces), joined(pieces).len() - pieces.last().len(), pieces.last()),
{
    a_piece_stands(pieces, 0);
    a_piece_stands(pieces, pieces.len() - 1);
    assert(pieces.take(0) =~= Seq::<Seq<u8>>::empty());
    assert(pieces.take(pieces.len() as int) =~= pieces);
}

/// The bytes of a piece of ASCII text are its characters.
pub proof fn text_is_its_characters(s: &str)
    requires
        vstd::string::is_ascii(s),
    ensures
        line::text(s).len() == s@.len(),
        forall|i: int| 0 <= i < s@.len() ==> #[trigger] line::text(s)[i] == s@[i] as u8,
{
    vstd::utf8::is_ascii_chars_encode_utf8(s@);
}

/// A line keeps what was written before and goes on with the digits of the
/// number; nothing of that is lost up to its end, and what is behind its end is.
pub proof fn numbers_are_written<const N: usize>(l: &mut Line<N>, n: u64)
    requires
        call_ensures(Line::<N>::write_decimal, (l, n), ()),
    ensures
        final(l).full().len() > old(l).full().len(),
        final(l).full().take(old(l).full().len() as int) == old(l).full(),
        reads_at(final(l).full(), old(l).full().len() as int, n as int),
{
    let before = old(l).full();
    let s = final(l).full();
    let d = line::decimal(n as nat);
    decimals_are_numbers(n as nat);
    assert(s.take(before.len() as int) =~= before);
    let at = before.len() as int;
    assert(s.subrange(at, s.len() as int) =~= d);
    assert forall|k: int| at <= k < s.len() implies is_digit(#[trigger] s[k]) by {
        assert(s[k] == d[k - at]);
    }
    assert(number_between(s, at, s.len() as int, n as int));
}

/// The same in hexadecimal: as few digits as there can be, or two for a byte.
pub proof fn hexadecimals_are_written<const N: usize>(
    l: &mut Line<N>,
    n: u32,
    m: &mut Line<N>,
    byte: u8,
)
    requires
        call_ensures(Line::<N>::write_hex, (l, n), ()),
        call_ensures(Line::<N>::write_hex_pair, (m, byte), ()),
    ensures
        ({
            let d = final(l).full().skip(old(l).full().len() as int);
            &&& final(l).full().take(old(l).full().len() as int) == old(l).full()
            &&& is_hex(d, n as int)
            &&& d[0] == 0x30 ==> d.len() == 1
        }),
        ({
            let d = final(m).full().skip(old(m).full().len() as int);
            &&& final(m).full().take(old(m).full().len() as int) == old(m).full()
            &&& is_hex(d, byte as int)
            &&& d.len() == 2
        }),
{
    hexadecimals_are_numbers(n as nat);
    hexadecimal_pairs_are_numbers(byte as nat);
    reveal_with_fuel(line::hexadecimal, 3);
    let d = final(l).full().skip(old(l).full().len() as int);
    assert(d =~= line::hexadecimal(n as nat));
    assert(final(l).full().take(old(l).full().len() as int) =~= old(l).full());
    let e = final(m).full().skip(old(m).full().len() as int);
    assert(e =~= line::hexadecimal_pair(byte as nat));
    assert(final(m).full().take(old(m).full().len() as int) =~= old(m).full());
}

/// A line starts empty. What is written to it goes behind what is there, and as
/// much can be had of it as there is room for, from the start.
pub proof fn lines_keep_what_fits<const N: usize>(
    fresh: Line<N>,
    l: &mut Line<N>,
    piece: &[u8],
    m: &mut Line<N>,
    s: &str,
    b: &[u8],
)
    requires
        call_ensures(Line::<N>::new, (), fresh),
        call_ensures(Line::<N>::write, (l, piece), ()),
        call_ensures(Line::<N>::write_str, (m, s), ()),
        call_ensures(Line::<N>::as_bytes, (&*final(l),), b),
        vstd::string::is_ascii(s),
    ensures
        fresh.full().len() == 0,
        final(l).full() == old(l).full() + piece@,
        final(m).full().len() == old(m).full().len() + s@.len(),
        final(m).full().take(old(m).full().len() as int) == old(m).full(),
        forall|i: int|
            0 <= i < s@.len() ==> #[trigger] final(m).full()[old(m).full().len() + i] == s@[i] as u8,
        b@.len() <= N,
        b@.len() == N || b@.len() == final(l).full().len(),
        b@.len() <= final(l).full().len(),
        b@ == final(l).full().take(b@.len() as int),
{
    text_is_its_characters(s);
    assert(final(m).full().take(old(m).full().len() as int) =~= old(m).full());
    assert forall|i: int| 0 <= i < s@.len() implies #[trigger] final(m).full()[old(m).full().len()
        + i] == s@[i] as u8 by {
        assert(line::text(s)[i] == s@[i] as u8);
    }
    assert(b@ =~= final(l).full().take(b@.len() as int));
}

/// A field is its label, and its number behind it.
pub proof fn fields_are_written<const N: usize>(l: &mut Line<N>, label: &str, n: u32)
    requires
        call_ensures(Line::<N>::field, (l, label, n), ()),
        line::text(label).len() > 0,
    ensures
        final(l).full().take(old(l).full().len() as int) == old(l).full(),
        has_at(final(l).full(), old(l).full().len() as int, line::text(label)),
        reads_at(
            final(l).full(),
            old(l).full().len() as int + line::text(label).len(),
            n as int,
        ),
{
    let before = old(l).full();
    let s = final(l).full();
    let d = line::decimal(n as nat);
    decimals_are_numbers(n as nat);
    assert(s.take(before.len() as int) =~= before);
    let at = before.len() as int;
    let from = at + line::text(label).len();
    assert(s.subrange(at, from) =~= line::text(label));
    assert(s.subrange(from, s.len() as int) =~= d);
    assert forall|k: int| from <= k < s.len() implies is_digit(#[trigger] s[k]) by {
        assert(s[k] == d[k - from]);
    }
    assert(number_between(s, from, s.len() as int, n as int));
}

} // verus!
