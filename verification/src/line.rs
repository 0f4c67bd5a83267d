//! Fixed-size line buffer so status lines can be formatted without alloc.

use vstd::prelude::*;
use vstd::string::StringSliceAdditionalSpecFns;

verus! {

/// The first `n` bytes of `text`, or all of it.
pub open spec fn clip(text: Seq<u8>, n: nat) -> Seq<u8> {
    if text.len() <= n {
        text
    } else {
        text.take(n as int)
    }
}

/// Clipping before and after more is written is clipping once: what no longer
/// fits is lost, and nothing else.
pub proof fn clipping_early_changes_nothing(a: Seq<u8>, b: Seq<u8>, n: nat)
    ensures
        clip(clip(a, n) + b, n) == clip(a + b, n),
{
    assert(clip(clip(a, n) + b, n) =~= clip(a + b, n));
}

/// The bytes of a piece of text.
pub open spec fn text(s: &str) -> Seq<u8> {
    s.spec_bytes()
}

/// A piece of ASCII text is as long as it has characters.
pub proof fn ascii_text(s: &str)
    requires
        vstd::string::is_ascii(s),
    ensures
        text(s).len() == s@.len(),
{
    vstd::utf8::is_ascii_chars_encode_utf8(s@);
}

/// A decimal digit.
pub open spec fn decimal_digit(n: nat) -> u8 {
    (n % 10 + '0' as u8) as u8
}

/// A number in decimal, without leading zeros.
pub open spec fn decimal(n: nat) -> Seq<u8>
    decreases n,
{
    if n < 10 {
        seq![decimal_digit(n)]
    } else {
        decimal(n / 10).push(decimal_digit(n))
    }
}

/// The number that decimal digits stand for.
pub open spec fn decimal_value(digits: Seq<u8>) -> int
    decreases digits.len(),
{
    if digits.len() == 0 {
        0
    } else {
        10 * decimal_value(digits.drop_last()) + (digits.last() - '0' as u8)
    }
}

/// Ten to the power of `k`.
pub open spec fn ten_to(k: nat) -> nat
    decreases k,
{
    if k == 0 {
        1
    } else {
        10 * ten_to((k - 1) as nat)
    }
}

/// A number below ten to the power of `k` has at most `k` digits.
pub proof fn decimals_are_short(n: nat, k: nat)
    requires
        k > 0,
        n < ten_to(k),
    ensures
        decimal(n).len() <= k,
    decreases k,
{
    if n >= 10 {
        if k == 1 {
            reveal_with_fuel(ten_to, 2);
        } else {
            decimals_are_short(n / 10, (k - 1) as nat);
        }
    }
}

/// A number can be read back from its digits.
pub proof fn decimals_read_back(n: nat)
    ensures
        decimal_value(decimal(n)) == n,
    decreases n,
{
    if n < 10 {
        assert(decimal(n).drop_last() =~= Seq::<u8>::empty());
        reveal_with_fuel(decimal_value, 2);
    } else {
        decimals_read_back(n / 10);
        assert(decimal(n).drop_last() =~= decimal(n / 10));
    }
}

/// A hexadecimal digit, lowercase.
pub open spec fn hex_digit(n: nat) -> u8 {
    if n % 16 < 10 {
        (n % 16 + '0' as u8) as u8
    } else {
        (n % 16 - 10 + 'a' as u8) as u8
    }
}

/// A number in hexadecimal, without leading zeros.
pub open spec fn hexadecimal(n: nat) -> Seq<u8>
    decreases n,
{
    if n < 16 {
        seq![hex_digit(n)]
    } else {
        hexadecimal(n / 16).push(hex_digit(n))
    }
}

/// A number in hexadecimal with at least two digits.
pub open spec fn hexadecimal_pair(n: nat) -> Seq<u8> {
    if n < 16 {
        seq!['0' as u8, hex_digit(n)]
    } else {
        hexadecimal(n)
    }
}

/// How far a line is filled, and all that was written to it.
struct Mark {
    len: usize,
    written: Ghost<Seq<u8>>,
}

/// A line of at most `N` bytes. What is written behind that is lost.
pub struct Line<const N: usize> {
    buf: [u8; N],
    mark: Mark,
}

impl<const N: usize> Line<N> {
    #[verifier::type_invariant]
    spec fn holds_what_fits(self) -> bool {
        &&& self.mark.len <= N
        &&& self.mark.len == clip(self.mark.written@, N as nat).len()
        &&& forall|i: int|
            0 <= i < self.mark.len ==> #[trigger] self.buf@[i] == self.mark.written@[i]
    }

    /// All that was written, also what did not fit.
    pub closed spec fn full(self) -> Seq<u8> {
        self.mark.written@
    }

    pub fn new() -> (l: Self)
        ensures
            l.full() == Seq::<u8>::empty(),
    {
        Line { buf: [0; N], mark: Mark { len: 0, written: Ghost(Seq::empty()) } }
    }

    pub fn as_bytes(&self) -> (b: &[u8])
        ensures
            b@ == clip(self.full(), N as nat),
    {
        proof {
            use_type_invariant(self);
        }
        let b = vstd::slice::slice_subrange(self.buf.as_slice(), 0, self.mark.len);
        assert(b@ =~= clip(self.full(), N as nat));
        b
    }

    /// Writes one byte.
    fn byte(&mut self, b: u8)
        ensures
            final(self).full() == old(self).full().push(b),
    {
        proof {
            use_type_invariant(&*self);
        }
        let len: usize = self.mark.len;
        let ghost all = self.mark.written@.push(b);
        if len < N {
            self.buf[len] = b;
            self.mark = Mark { len: len + 1, written: Ghost(all) };
        } else {
            self.mark = Mark { len, written: Ghost(all) };
        }
    }

    /// Writes bytes.
    pub fn write(&mut self, piece: &[u8])
        ensures
            final(self).full() == old(self).full() + piece@,
    {
        let mut i: usize = 0;
        while i < piece.len()
            invariant
                i <= piece@.len(),
                self.full() == old(self).full() + piece@.take(i as int),
            decreases piece@.len() - i,
        {
            self.byte(piece[i]);
            i += 1;
            assert(piece@.take(i as int) =~= piece@.take(i - 1).push(piece@[i - 1]));
        }
        assert(piece@.take(i as int) =~= piece@);
    }

    /// Writes a piece of text.
    pub fn write_str(&mut self, s: &str)
        ensures
            final(self).full() == old(self).full() + text(s),
    {
        self.write(s.as_bytes());
    }

    /// Writes a number in decimal.
    pub fn write_decimal(&mut self, n: u64)
        ensures
            final(self).full() == old(self).full() + decimal(n as nat),
        decreases n,
    {
        if n >= 10 {
            self.write_decimal(n / 10);
        }
        self.byte((n % 10) as u8 + '0' as u8);
        assert(self.full() =~= old(self).full() + decimal(n as nat));
    }

    /// Writes a number in hexadecimal.
    pub fn write_hex(&mut self, n: u32)
        ensures
            final(self).full() == old(self).full() + hexadecimal(n as nat),
        decreases n,
    {
        if n >= 16 {
            self.write_hex(n / 16);
        }
        let digit: u8 = (n % 16) as u8;
        self.byte(
            if digit < 10 {
                digit + '0' as u8
            } else {
                digit - 10 + 'a' as u8
            },
        );
        assert(self.full() =~= old(self).full() + hexadecimal(n as nat));
    }

    /// Writes a byte in hexadecimal, always two digits.
    pub fn write_hex_pair(&mut self, n: u8)
        ensures
            final(self).full() == old(self).full() + hexadecimal_pair(n as nat),
    {
        if n < 16 {
            self.byte('0' as u8);
        }
        self.write_hex(n as u32);
        assert(self.full() =~= old(self).full() + hexadecimal_pair(n as nat));
    }

    /// Writes a label and a number in decimal.
    pub fn field(&mut self, label: &str, n: u32)
        ensures
            final(self).full() == old(self).full() + text(label) + decimal(n as nat),
    {
        self.write_str(label);
        self.write_decimal(n as u64);
    }
}

} // verus!
