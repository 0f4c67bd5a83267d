//! What can be read on the strip.

use vstd::prelude::*;

use crate::panel::strip;
use crate::panel::WIDTH;

verus! {

/// How a character is drawn: a digit for each of its five rows, from the top,
/// with 4 for the left, 2 for the middle and 1 for the right dot. Nothing stands
/// for what is not drawn.
#[verifier::opaque]
pub open spec fn drawn(c: int) -> int {
    if c == 0x27 {
        21000int
    } else if c == 0x28 {
        24442
    } else if c == 0x29 {
        21112
    } else if c == 0x2d {
        700
    } else if c == 0x2e {
        2
    } else if c == 0x2f {
        11244
    } else if c == 0x30 {
        75557
    } else if c == 0x31 {
        26227
    } else if c == 0x32 {
        71747
    } else if c == 0x33 {
        71717
    } else if c == 0x34 {
        55711
    } else if c == 0x35 {
        74717
    } else if c == 0x36 {
        74757
    } else if c == 0x37 {
        71111
    } else if c == 0x38 {
        75757
    } else if c == 0x39 {
        75717
    } else if c == 0x3a {
        2020
    } else if c == 0x41 {
        75755
    } else if c == 0x42 {
        65656
    } else if c == 0x43 {
        74447
    } else if c == 0x44 {
        65556
    } else if c == 0x45 {
        74747
    } else if c == 0x46 {
        74744
    } else if c == 0x47 {
        74557
    } else if c == 0x48 {
        55755
    } else if c == 0x49 {
        72227
    } else if c == 0x4a {
        11157
    } else if c == 0x4b {
        55655
    } else if c == 0x4c {
        44447
    } else if c == 0x4d {
        57755
    } else if c == 0x4e {
        65555
    } else if c == 0x4f {
        75557
    } else if c == 0x50 {
        75744
    } else if c == 0x51 {
        75571
    } else if c == 0x52 {
        65655
    } else if c == 0x53 {
        74717
    } else if c == 0x54 {
        72222
    } else if c == 0x55 {
        55557
    } else if c == 0x56 {
        55552
    } else if c == 0x57 {
        55775
    } else if c == 0x58 {
        55255
    } else if c == 0x59 {
        55222
    } else if c == 0x5a {
        71247
    } else if c == 0x5f {
        7
    } else if c == 0x60 {
        21000
    } else {
        0
    }
}

/// Small letters are drawn as capitals.
pub open spec fn drawn_alike(c: int) -> int {
    if 0x61 <= c <= 0x7a {
        drawn(c - 0x20)
    } else {
        drawn(c)
    }
}

/// Row `gy` of a drawing.
pub open spec fn row_of(drawing: int, gy: int) -> int {
    if gy == 0 {
        drawing / 10000
    } else if gy == 1 {
        drawing / 1000 % 10
    } else if gy == 2 {
        drawing / 100 % 10
    } else if gy == 3 {
        drawing / 10 % 10
    } else {
        drawing % 10
    }
}

/// The dot in column `gx` of this row is set: it is part of the sum.
pub open spec fn has_dot(row: int, gx: int) -> bool {
    if gx == 0 {
        row >= 4
    } else if gx == 1 {
        row == 2 || row == 3 || row == 6 || row == 7
    } else {
        row == 1 || row == 3 || row == 5 || row == 7
    }
}

/// Every character has its drawing.
pub proof fn characters_have_their_drawings(c: u8, g: [u8; 5])
    requires
        call_ensures(strip::glyph, (c,), g),
    ensures
        10000 * g@[0] + 1000 * g@[1] + 100 * g@[2] + 10 * g@[3] + g@[4] == drawn_alike(c as int),
        forall|gy: int| 0 <= gy < 5 ==> #[trigger] g@[gy] <= 7,
{
    drawings_are_pictures(c);
}

proof fn drawings_are_pictures(c: u8)
    ensures
        strip::picture(c).len() == 5,
        ({
            let p = strip::picture(c);
            &&& 10000 * p[0] + 1000 * p[1] + 100 * p[2] + 10 * p[3] + p[4] == drawn_alike(c as int)
            &&& forall|gy: int| 0 <= gy < 5 ==> #[trigger] p[gy] <= 7
        }),
{
    reveal(strip::picture);
    reveal(drawn);
}

proof fn digits_of_a_sum(n: int, a: int, b: int, c: int, d: int, e: int)
    requires
        n == 10000 * a + 1000 * b + 100 * c + 10 * d + e,
        0 <= a < 10,
        0 <= b < 10,
        0 <= c < 10,
        0 <= d < 10,
        0 <= e < 10,
    ensures
        row_of(n, 0) == a,
        row_of(n, 1) == b,
        row_of(n, 2) == c,
        row_of(n, 3) == d,
        row_of(n, 4) == e,
{
    let high = 1000 * a + 100 * b + 10 * c + d;
    let higher = 100 * a + 10 * b + c;
    let highest = 10 * a + b;
    vstd::arithmetic::div_mod::lemma_fundamental_div_mod_converse(n, 10, high, e);
    vstd::arithmetic::div_mod::lemma_fundamental_div_mod_converse(n, 100, higher, 10 * d + e);
    vstd::arithmetic::div_mod::lemma_fundamental_div_mod_converse(
        n,
        1000,
        highest,
        100 * c + 10 * d + e,
    );
    vstd::arithmetic::div_mod::lemma_fundamental_div_mod_converse(
        n,
        10000,
        a,
        1000 * b + 100 * c + 10 * d + e,
    );
    vstd::arithmetic::div_mod::lemma_fundamental_div_mod_converse(high, 10, higher, d);
    vstd::arithmetic::div_mod::lemma_fundamental_div_mod_converse(higher, 10, highest, c);
    vstd::arithmetic::div_mod::lemma_fundamental_div_mod_converse(highest, 10, a, b);
}

proof fn rows_are_digits(c: u8, gy: int)
    requires
        0 <= gy < 5,
    ensures
        strip::picture(c).len() == 5,
        strip::picture(c)[gy] == row_of(drawn_alike(c as int), gy),
        strip::picture(c)[gy] <= 7,
{
    drawings_are_pictures(c);
    let p = strip::picture(c);
    digits_of_a_sum(
        drawn_alike(c as int),
        p[0] as int,
        p[1] as int,
        p[2] as int,
        p[3] as int,
        p[4] as int,
    );
}

/// So many lines end before character `i`.
pub open spec fn line_ends(text: Seq<u8>, i: int) -> int
    decreases i,
{
    if i <= 0 {
        0
    } else {
        line_ends(text, i - 1) + if text[i - 1] == 10 {
            1int
        } else {
            0
        }
    }
}

/// Character `i` is on this line, in this column: so many lines end before it,
/// and so many characters stand between it and the last line end.
pub open spec fn stands_at(text: Seq<u8>, i: int, line: int, column: int) -> bool {
    &&& 0 <= column <= i < text.len()
    &&& text[i] != 10
    &&& line_ends(text, i) == line
    &&& i == column || text[i - column - 1] == 10
    &&& forall|k: int| i - column <= k < i ==> #[trigger] text[k] != 10
}

proof fn lines_are_counted(text: Seq<u8>, i: int)
    requires
        0 <= i <= text.len(),
    ensures
        strip::line_of(text, i) == line_ends(text, i),
        0 <= strip::column_of(text, i) <= i,
        ({
            let column = strip::column_of(text, i);
            &&& i == column || text[i - column - 1] == 10
            &&& forall|k: int| i - column <= k < i ==> #[trigger] text[k] != 10
        }),
    decreases i,
{
    if i > 0 {
        lines_are_counted(text, i - 1);
    }
}

proof fn standing_is_unique(text: Seq<u8>, i: int, line: int, column: int)
    requires
        stands_at(text, i, line, column),
    ensures
        strip::line_of(text, i) == line,
        strip::column_of(text, i) == column,
{
    lines_are_counted(text, i);
    let other = strip::column_of(text, i);
    if other < column {
        assert(text[i - other - 1] != 10);
    }
    if column < other {
        assert(text[i - column - 1] != 10);
    }
}

/// A later character is on a later line, or further right.
proof fn cells_are_told_apart(text: Seq<u8>, i: int, j: int)
    requires
        0 <= i < j < text.len(),
    ensures
        strip::line_of(text, i) < strip::line_of(text, j) || (strip::line_of(text, i)
            == strip::line_of(text, j) && (text[i] == 10 || strip::column_of(text, i)
            < strip::column_of(text, j))),
        text[i] == 10 ==> strip::line_of(text, i) < strip::line_of(text, j),
    decreases j - i,
{
    if i + 1 < j {
        cells_are_told_apart(text, i, j - 1);
    }
}

/// A strip has three lines of thirty characters, and 36 rows of 240 pixels.
pub proof fn strips_have_three_lines()
    ensures
        strip::STRIP_BYTES == 17280,
        strip::COLS == 30,
        strip::ROWS == 3,
        strip::ROWS * strip::COLS == 90,
{
    assert(WIDTH == 240);
    assert(strip::CHAR_W == 8);
    let (w, c) = (WIDTH as int, strip::CHAR_W as int);
    assert(w * 72 == 17280) by (nonlinear_arith)
        requires
            w == 240,
    ;
    assert(strip::STRIP_BYTES == w * (3 * 12 * 2));
    assert(w / c == 30) by (nonlinear_arith)
        requires
            w == 240,
            c == 8,
    ;
    assert(strip::COLS == w / c);
    assert(strip::ROWS * strip::COLS == 90) by (nonlinear_arith)
        requires
            strip::ROWS == 3,
            strip::COLS == 30,
    ;
}

/// A pixel of big-endian RGB565.
pub open spec fn color_of(out: Seq<u8>, x: int, y: int) -> int {
    256 * out[2 * (240 * y + x)] + out[2 * (240 * y + x) + 1]
}

/// A pixel is white where a character has a dot and dark blue elsewhere.
pub open spec fn inked(out: Seq<u8>, x: int, y: int, dot: bool) -> bool {
    color_of(out, x, y) == if dot {
        0xFFFFint
    } else {
        0x0008
    }
}

proof fn pixels_are_colors(out: Seq<u8>, text: Seq<u8>, x: int, y: int)
    requires
        strip::shows(out, text),
        0 <= x < 240,
        0 <= y < 36,
    ensures
        inked(out, x, y, strip::lit(text, text.len() as int, x, y)),
{
    let k = 240 * y + x;
    vstd::arithmetic::div_mod::lemma_fundamental_div_mod_converse(k, 240, y, x);
    assert(WIDTH == 240);
    strips_have_three_lines();
    assert(strip::is_pixel(
        out,
        k,
        strip::lit(text, text.len() as int, k % (WIDTH as int), k / (WIDTH as int)),
    ));
}

/// A text on a strip can be read. The character on a line and in a column is
/// drawn in a cell of 8 by 12 pixels, with two by two pixels for each dot of its
/// drawing, white on dark blue.
pub proof fn characters_can_be_read(
    text: &[u8],
    out: &mut [u8],
    i: int,
    line: int,
    column: int,
    px: int,
    py: int,
)
    requires
        call_ensures(strip::draw_strip, (text, out), ()),
        stands_at(text@, i, line, column),
        0 <= line < 3,
        0 <= column < 30,
        0 <= px < 8,
        0 <= py < 12,
    ensures
        inked(
            final(out)@,
            8 * column + px,
            12 * line + py,
            px < 6 && py < 10 && has_dot(
                row_of(drawn_alike(text@[i] as int), py / 2),
                px / 2,
            ),
        ),
{
    let t = text@;
    let (x, y) = (8 * column + px, 12 * line + py);
    standing_is_unique(t, i, line, column);
    pixels_are_colors(final(out)@, t, x, y);
    in_the_cell(line, column, px, py);
    let lit = strip::lit(t, t.len() as int, x, y);
    reveal(strip::lit_by);
    if lit {
        let k = choose|k: int| 0 <= k < t.len() && #[trigger] strip::lit_by(t, k, x, y);
        if k < i {
            cells_are_told_apart(t, k, i);
        } else if i < k {
            cells_are_told_apart(t, i, k);
        }
        assert(k == i);
    }
    assert(lit <==> strip::lit_by(t, i, x, y));
    strips_have_three_lines();
    if py < 10 {
        rows_are_digits(t[i], py / 2);
    }
}

proof fn in_the_cell(line: int, column: int, px: int, py: int)
    requires
        0 <= px < 8,
        0 <= py < 12,
    ensures
        (8 * column + px) / (strip::CHAR_W as int) == column,
        (8 * column + px) % (strip::CHAR_W as int) == px,
        (12 * line + py) / (strip::CHAR_H as int) == line,
        (12 * line + py) % (strip::CHAR_H as int) == py,
{
}

/// Where no character stands, the strip is dark blue.
pub proof fn the_rest_is_dark(text: &[u8], out: &mut [u8], x: int, y: int)
    requires
        call_ensures(strip::draw_strip, (text, out), ()),
        0 <= x < 240,
        0 <= y < 36,
        forall|i: int| !#[trigger] stands_at(text@, i, y / 12, x / 8),
    ensures
        inked(final(out)@, x, y, false),
{
    let t = text@;
    pixels_are_colors(final(out)@, t, x, y);
    reveal(strip::lit_by);
    if strip::lit(t, t.len() as int, x, y) {
        let k = choose|k: int| 0 <= k < t.len() && #[trigger] strip::lit_by(t, k, x, y);
        lines_are_counted(t, k);
        assert(stands_at(t, k, y / 12, x / 8));
    }
}

/// Behind the strip everything stays as it was.
pub proof fn strips_end_after_36_rows(text: &[u8], out: &mut [u8], b: int)
    requires
        call_ensures(strip::draw_strip, (text, out), ()),
        2 * 240 * 36 <= b < old(out)@.len(),
    ensures
        final(out)@.len() == old(out)@.len(),
        final(out)@[b] == old(out)@[b],
{
    strips_have_three_lines();
    assert(final(out)@.skip(17280)[b - 17280] == old(out)@.skip(17280)[b - 17280]);
}

/// Wrapped text has 30 characters to a line and a line end behind each full line
/// that goes on. Its own line ends become spaces. As much of the text is kept as
/// three lines and the room allow.
pub proof fn wrapping_keeps_the_text(text: &[u8], out: &mut [u8], n: usize)
    requires
        call_ensures(strip::wrap, (text, out), n),
    ensures
        n <= old(out)@.len(),
        n <= 93,
        n - n / 31 <= text@.len(),
        n - n / 31 == text@.len() || n - n / 31 == 90 || n + 2 > old(out)@.len(),
        n == 93 <==> text@.len() > 90 && old(out)@.len() >= 94,
        forall|p: int|
            0 <= p < n ==> #[trigger] final(out)@[p] == if p % 31 == 30 {
                10int
            } else if text@[p / 31 * 30 + p % 31] == 10 {
                32
            } else {
                text@[p / 31 * 30 + p % 31] as int
            },
        final(out)@.skip(n as int) == old(out)@.skip(n as int),
{
    let (len, room) = (text@.len(), old(out)@.len());
    strips_have_three_lines();
    let k = choose|k: int| #[trigger] strip::kept(len, room, k) && n == strip::wrapped_length(
        len,
        room,
        k,
    );
    places_are_counted(k);
    assert forall|p: int| 0 <= p < n implies #[trigger] final(out)@[p] == if p % 31 == 30 {
        10int
    } else if text@[p / 31 * 30 + p % 31] == 10 {
        32
    } else {
        text@[p / 31 * 30 + p % 31] as int
    } by {
        assert(final(out)@[p] == strip::wrapped(text@, p));
        assert(p / 31 * strip::COLS == p / 31 * 30);
    }
    if k > 0 {
        assert(strip::place(k - 1) + 2 <= room);
        places_are_counted(k - 1);
    }
}

proof fn places_are_counted(k: int)
    requires
        0 <= k <= 90,
    ensures
        strip::place(k) == if k == 0 {
            0
        } else {
            k + (k - 1) / 30
        },
        k == 0 || strip::place(k) % 31 > 0,
        strip::place(k) - strip::place(k) / 31 == k,
        strip::place(k) <= 92,
{
    strips_have_three_lines();
}

/// What a hexadecimal digit stands for.
pub open spec fn digit_value(c: int) -> int {
    if 0x30 <= c <= 0x39 {
        c - 0x30
    } else if 0x41 <= c <= 0x46 {
        c - 0x41 + 10
    } else {
        -1
    }
}

/// These six characters are digits of this number, the highest first.
pub open spec fn spells(b: Seq<u8>, at: int, v: int) -> bool {
    &&& at + 6 <= b.len()
    &&& forall|k: int| at <= k < at + 6 ==> 0 <= digit_value(#[trigger] b[k] as int) < 16
    &&& 0x10_0000 * digit_value(b[at] as int) + 0x1_0000 * digit_value(b[at + 1] as int) + 0x1000
        * digit_value(b[at + 2] as int) + 0x100 * digit_value(b[at + 3] as int) + 0x10
        * digit_value(b[at + 4] as int) + digit_value(b[at + 5] as int) == v
}

/// Six hexadecimal digits give the low 24 bits again.
pub proof fn hex_digits_read_back(v: u32, digits: [u8; 6], dst: &mut [u8])
    requires
        call_ensures(strip::hex6, (v,), digits),
        call_ensures(strip::hex, (v, dst), ()),
        old(dst)@.len() >= 6,
    ensures
        spells(digits@, 0, v as int % 0x100_0000),
        spells(final(dst)@, 0, v as int % 0x100_0000),
        final(dst)@.skip(6) == old(dst)@.skip(6),
{
    digits_spell(v);
}

pub proof fn digits_spell(v: u32)
    ensures
        spells(strip::hex_digits(v), 0, v as int % 0x100_0000),
{
    let n = v as int;
    let a = n / 16;
    let b = a / 16;
    let c = b / 16;
    let d = c / 16;
    let e = d / 16;
    assert(n / 0x100 == b);
    assert(n / 0x1000 == c);
    assert(n / 0x1_0000 == d);
    assert(n / 0x10_0000 == e);
    assert(n / 1 == n);
    let digits = strip::hex_digits(v);
    assert(digit_value(digits[0] as int) == e % 16);
    assert(digit_value(digits[1] as int) == d % 16);
    assert(digit_value(digits[2] as int) == c % 16);
    assert(digit_value(digits[3] as int) == b % 16);
    assert(digit_value(digits[4] as int) == a % 16);
    assert(digit_value(digits[5] as int) == n % 16);
}

/// Rendered into any room for it, a text looks as on a strip, and what is under the
/// strip is dark blue.
pub proof fn rendering_is_drawing(
    text: &[u8],
    out: &mut [u8],
    strip_out: &mut [u8],
    x: int,
    y: int,
)
    requires
        call_ensures(strip::render, (text, out), ()),
        call_ensures(strip::draw_strip, (text, strip_out), ()),
        0 <= x < 240,
        0 <= y,
        2 * (240 * y + x) + 1 < old(out)@.len(),
    ensures
        final(out)@.len() == old(out)@.len(),
        y < 36 ==> color_of(final(out)@, x, y) == color_of(final(strip_out)@, x, y),
        y >= 36 ==> color_of(final(out)@, x, y) == 0x0008,
{
    let t = text@;
    let k = 240 * y + x;
    vstd::arithmetic::div_mod::lemma_fundamental_div_mod_converse(k, 240, y, x);
    assert(WIDTH == 240);
    assert(strip::is_pixel(
        final(out)@,
        k,
        strip::lit(t, t.len() as int, k % (WIDTH as int), k / (WIDTH as int)),
    ));
    if y < 36 {
        pixels_are_colors(final(strip_out)@, t, x, y);
    } else if strip::lit(t, t.len() as int, x, y) {
        strip::a_strip_holds_any_text(t, x, y);
    }
}

} // verus!
