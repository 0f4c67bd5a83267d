//! What is seen on the panel: the test bars, plain colours and the boot logo.

use vstd::prelude::*;

use crate::panel::controller::{self, Controller};
use crate::panel::splash;
use crate::panel::st7789::{self, PanelOp, St7789};
use crate::panel::{self, FRAME_BYTES, HEIGHT, WIDTH};

verus! {

/// Pixel `k` of big-endian RGB565.
pub open spec fn pixel(b: Seq<u8>, k: int) -> int {
    256 * b[2 * k] + b[2 * k + 1]
}

/// The colour of the bar in column `x`: red, green, blue, yellow, magenta, cyan,
/// white and black, each 30 columns wide.
pub open spec fn bar(x: int) -> int {
    if x < 30 {
        0xF800
    } else if x < 60 {
        0x07E0
    } else if x < 90 {
        0x001F
    } else if x < 120 {
        0xFFE0
    } else if x < 150 {
        0xF81F
    } else if x < 180 {
        0x07FF
    } else if x < 210 {
        0xFFFF
    } else {
        0
    }
}

/// Every row is eight bars of one width; half a pixel at the end stays.
pub proof fn bars_are_side_by_side(out: &mut [u8], k: int)
    requires
        call_ensures(panel::color_bars, (out,), ()),
        0 <= k < old(out)@.len() as int / 2,
    ensures
        final(out)@.len() == old(out)@.len(),
        pixel(final(out)@, k) == bar(k % 240),
        old(out)@.len() % 2 == 1 ==> final(out)@.last() == old(out)@.last(),
{
    let x = k % 240;
    assert(WIDTH == 240);
    assert((2 * k) / 2 == k && (2 * k + 1) / 2 == k);
    assert((2 * k) % 2 == 0 && (2 * k + 1) % 2 == 1);
    let c = panel::bar_color(x);
    assert(x * 8 / (WIDTH as int) == x / 30);
    assert(c == bar(x));
}

/// Each part of a colour keeps its bits in front, and starts over with them behind:
/// black and white stay black and white.
pub proof fn colors_are_widened(color: u16, rgb: [u8; 3])
    requires
        call_ensures(panel::rgb888, (color,), rgb),
    ensures
        rgb@[0] / 8 == color / 2048,
        rgb@[0] % 8 == rgb@[0] / 32,
        rgb@[1] / 4 == color / 32 % 64,
        rgb@[1] % 4 == rgb@[1] / 64,
        rgb@[2] / 8 == color % 32,
        rgb@[2] % 8 == rgb@[2] / 32,
{
}

/// A chunk of one colour has that colour everywhere.
pub proof fn chunks_have_one_color(color: u16, chunk: [u8; st7789::FILL_CHUNK], k: int)
    requires
        call_ensures(st7789::solid_chunk, (color,), chunk),
        0 <= k,
        2 * k + 1 < chunk@.len(),
    ensures
        pixel(chunk@, k) == color,
        chunk@.len() % 2 == 0,
        chunk@.len() > 0,
{
    assert((2 * k) % 2 == 0 && (2 * k + 1) % 2 == 1);
}

/// How far the monitor's outer corners are cut off in this row.
pub open spec fn outer_corner(row: int) -> int {
    if row == 0 {
        7
    } else if row == 1 {
        4
    } else if row == 2 {
        3
    } else if row == 3 {
        2
    } else if row <= 6 {
        1
    } else {
        0
    }
}

/// How far the screen's corners are cut off in this row.
pub open spec fn inner_corner(row: int) -> int {
    if row == 0 {
        4
    } else if row == 1 {
        2
    } else if row <= 3 {
        1
    } else {
        0
    }
}

/// The smaller of a row's distances from the top and from the bottom.
pub open spec fn from_edge(row: int, rows: int) -> int {
    if row <= rows - 1 - row {
        row
    } else {
        rows - 1 - row
    }
}

/// A row of the monitor, from its left edge: a frame of three pixels round the
/// screen, with round corners.
pub open spec fn in_frame(x: int, y: int) -> bool {
    &&& 0 <= y < 44
    &&& outer_corner(from_edge(y, 44)) <= x < 60 - outer_corner(from_edge(y, 44))
    &&& !(3 <= y < 41 && 3 + inner_corner(from_edge(y - 3, 38)) <= x < 57 - inner_corner(
        from_edge(y - 3, 38),
    ))
}

/// Its foot: a post, and a plate that is narrower by one pixel on each side in its
/// outer rows.
pub open spec fn in_foot(x: int, y: int) -> bool {
    ||| 27 <= x < 33 && 44 <= y < 51
    ||| 19 <= x < 41 && (y == 50 || y == 52)
    ||| 18 <= x < 42 && y == 51
}

/// Its face: two eyes, and a mouth whose corners are up.
pub open spec fn in_eyes_or_mouth(x: int, y: int) -> bool {
    ||| (x == 18 || x == 21 || x == 38 || x == 41) && 16 <= y < 20
    ||| (19 <= x < 21 || 39 <= x < 41) && 15 <= y < 21
    ||| 25 <= x < 35 && 28 <= y < 31
    ||| (22 <= x < 25 || 35 <= x < 38) && 25 <= y < 28
}

/// The rows of "gudlet", from the top, six columns to a letter with the highest
/// bit on the left: in octal, two digits to a letter.
pub open spec fn word_row(row: int) -> int {
    if row == 0 {
        0o00_00_02_30_00_10
    } else if row == 1 {
        0o00_00_02_10_00_10
    } else if row == 2 {
        0o36_42_36_10_34_76
    } else if row == 3 {
        0o42_42_42_10_42_10
    } else if row == 4 {
        0o42_42_42_10_76_10
    } else if row == 5 {
        0o36_42_42_10_40_12
    } else if row == 6 {
        0o02_36_36_34_36_04
    } else if row == 7 {
        0o42_00_00_00_00_00
    } else {
        0o34_00_00_00_00_00
    }
}

/// The six columns of a letter in this row: two octal digits of it.
pub open spec fn letter_row(row: int, letter: int) -> int {
    if letter == 0 {
        word_row(row) / 0o1_00_00_00_00_00
    } else if letter == 1 {
        word_row(row) / 0o1_00_00_00_00 % 64
    } else if letter == 2 {
        word_row(row) / 0o1_00_00_00 % 64
    } else if letter == 3 {
        word_row(row) / 0o1_00_00 % 64
    } else if letter == 4 {
        word_row(row) / 0o1_00 % 64
    } else {
        word_row(row) % 64
    }
}

/// Column `c` of six is set.
pub open spec fn has_column(six: int, c: int) -> bool {
    if c == 0 {
        six >= 32
    } else if c == 1 {
        six % 32 >= 16
    } else if c == 2 {
        six % 16 >= 8
    } else if c == 3 {
        six % 8 >= 4
    } else if c == 4 {
        six % 4 >= 2
    } else {
        six % 2 == 1
    }
}

/// The dot in this row and column of the word is set.
pub open spec fn in_word(row: int, column: int) -> bool {
    has_column(letter_row(row, column / 6), column % 6)
}

/// What is where on the logo: the monitor with its foot in mint and its face in
/// white, 60 columns wide in the middle, from row 86 on; under it the word in white,
/// four by four pixels to a dot; and the background.
pub open spec fn logo(x: int, y: int) -> int {
    if in_frame(x - 90, y - 86) || in_foot(x - 90, y - 86) {
        0x5F16
    } else if in_eyes_or_mouth(x - 90, y - 86) {
        0xEF7D
    } else if 50 <= x < 190 && 158 <= y < 194 && in_word((y - 158) / 4, (x - 50) / 4) {
        0xEF7D
    } else {
        0x10C4
    }
}

proof fn squares(d: int)
    requires
        0 <= d <= 7,
    ensures
        d * d == if d == 0 {
            0
        } else if d == 1 {
            1
        } else if d == 2 {
            4
        } else if d == 3 {
            9
        } else if d == 4 {
            16
        } else if d == 5 {
            25
        } else if d == 6 {
            36
        } else {
            49int
        },
{
    if d == 0 {
        assert(d * d == 0) by (nonlinear_arith)
            requires
                d == 0,
        ;
    } else if d == 1 {
        assert(d * d == 1) by (nonlinear_arith)
            requires
                d == 1,
        ;
    } else if d == 2 {
        assert(d * d == 4) by (nonlinear_arith)
            requires
                d == 2,
        ;
    } else if d == 3 {
        assert(d * d == 9) by (nonlinear_arith)
            requires
                d == 3,
        ;
    } else if d == 4 {
        assert(d * d == 16) by (nonlinear_arith)
            requires
                d == 4,
        ;
    } else if d == 5 {
        assert(d * d == 25) by (nonlinear_arith)
            requires
                d == 5,
        ;
    } else if d == 6 {
        assert(d * d == 36) by (nonlinear_arith)
            requires
                d == 6,
        ;
    } else {
        assert(d * d == 49) by (nonlinear_arith)
            requires
                d == 7,
        ;
    }
}

proof fn outer_corners_are_round(x: int, y: int)
    ensures
        splash::in_rounded_rect(x, y, 60, 44, 7) <==> 0 <= y < 44 && outer_corner(
            from_edge(y, 44),
        ) <= x < 60 - outer_corner(from_edge(y, 44)),
{
    if 0 <= x < 60 && 0 <= y < 44 {
        squares(splash::outside(x, 7, 52));
        squares(splash::outside(y, 7, 36));
        squares(7);
    }
}

proof fn inner_corners_are_round(x: int, y: int)
    ensures
        splash::in_rounded_rect(x, y, 54, 38, 4) <==> 0 <= y < 38 && inner_corner(
            from_edge(y, 38),
        ) <= x < 54 - inner_corner(from_edge(y, 38)),
{
    if 0 <= x < 54 && 0 <= y < 38 {
        squares(splash::outside(x, 4, 49));
        squares(splash::outside(y, 4, 33));
        squares(4);
    }
}

proof fn small_corners_are_cut(x: int, y: int, width: int, height: int)
    requires
        width >= 3,
        height >= 3,
    ensures
        splash::in_rounded_rect(x, y, width, height, 1) <==> 0 <= x < width && 0 <= y < height && !(
        (x == 0 || x == width - 1) && (y == 0 || y == height - 1)),
{
    if 0 <= x < width && 0 <= y < height {
        squares(splash::outside(x, 1, width - 2));
        squares(splash::outside(y, 1, height - 2));
        squares(1);
    }
}

proof fn the_monitor_is_drawn(x: int, y: int)
    ensures
        splash::in_monitor(x, y) <==> in_frame(x, y) || in_foot(x, y),
        splash::in_face(x, y) <==> in_eyes_or_mouth(x, y),
{
    outer_corners_are_round(x, y);
    inner_corners_are_round(x - 3, y - 3);
    small_corners_are_cut(x - 18, y - 50, 24, 3);
    small_corners_are_cut(x - 18, y - 15, 4, 6);
    small_corners_are_cut(x - 38, y - 15, 4, 6);
}

/// One of nine numbers.
spec fn one_of(row: int, n: Seq<int>) -> int {
    n[row]
}

proof fn letter_0_in_octal(row: int)
    requires
        0 <= row < 9,
    ensures
        letter_row(row, 0) == one_of(row, seq![0int, 0, 30, 34, 34, 30, 2, 34, 28]),
{
    if row == 0 {
        assert(letter_row(0, 0) == 0);
    } else if row == 1 {
        assert(letter_row(1, 0) == 0);
    } else if row == 2 {
        assert(letter_row(2, 0) == 30);
    } else if row == 3 {
        assert(letter_row(3, 0) == 34);
    } else if row == 4 {
        assert(letter_row(4, 0) == 34);
    } else if row == 5 {
        assert(letter_row(5, 0) == 30);
    } else if row == 6 {
        assert(letter_row(6, 0) == 2);
    } else if row == 7 {
        assert(letter_row(7, 0) == 34);
    } else {
        assert(letter_row(8, 0) == 28);
    }
}

proof fn letter_0(row: int)
    requires
        0 <= row < 9,
    ensures
        letter_row(row, 0) == 2 * splash::WORDMARK@[0]@[row],
        splash::WORDMARK@[0]@[row] < 32,
{
    letter_0_in_octal(row);
    let w = splash::WORDMARK@[0]@;
    assert(w[0] == 0);
    assert(w[1] == 0);
    assert(w[2] == 15);
    assert(w[3] == 17);
    assert(w[4] == 17);
    assert(w[5] == 15);
    assert(w[6] == 1);
    assert(w[7] == 17);
    assert(w[8] == 14);
}

proof fn letter_1_in_octal(row: int)
    requires
        0 <= row < 9,
    ensures
        letter_row(row, 1) == one_of(row, seq![0int, 0, 34, 34, 34, 34, 30, 0, 0]),
{
    if row == 0 {
        assert(letter_row(0, 1) == 0);
    } else if row == 1 {
        assert(letter_row(1, 1) == 0);
    } else if row == 2 {
        assert(letter_row(2, 1) == 34);
    } else if row == 3 {
        assert(letter_row(3, 1) == 34);
    } else if row == 4 {
        assert(letter_row(4, 1) == 34);
    } else if row == 5 {
        assert(letter_row(5, 1) == 34);
    } else if row == 6 {
        assert(letter_row(6, 1) == 30);
    } else if row == 7 {
        assert(letter_row(7, 1) == 0);
    } else {
        assert(letter_row(8, 1) == 0);
    }
}

proof fn letter_1(row: int)
    requires
        0 <= row < 9,
    ensures
        letter_row(row, 1) == 2 * splash::WORDMARK@[1]@[row],
        splash::WORDMARK@[1]@[row] < 32,
{
    letter_1_in_octal(row);
    let w = splash::WORDMARK@[1]@;
    assert(w[0] == 0);
    assert(w[1] == 0);
    assert(w[2] == 17);
    assert(w[3] == 17);
    assert(w[4] == 17);
    assert(w[5] == 17);
    assert(w[6] == 15);
    assert(w[7] == 0);
    assert(w[8] == 0);
}

proof fn letter_2_in_octal(row: int)
    requires
        0 <= row < 9,
    ensures
        letter_row(row, 2) == one_of(row, seq![2int, 2, 30, 34, 34, 34, 30, 0, 0]),
{
    if row == 0 {
        assert(letter_row(0, 2) == 2);
    } else if row == 1 {
        assert(letter_row(1, 2) == 2);
    } else if row == 2 {
        assert(letter_row(2, 2) == 30);
    } else if row == 3 {
        assert(letter_row(3, 2) == 34);
    } else if row == 4 {
        assert(letter_row(4, 2) == 34);
    } else if row == 5 {
        assert(letter_row(5, 2) == 34);
    } else if row == 6 {
        assert(letter_row(6, 2) == 30);
    } else if row == 7 {
        assert(letter_row(7, 2) == 0);
    } else {
        assert(letter_row(8, 2) == 0);
    }
}

proof fn letter_2(row: int)
    requires
        0 <= row < 9,
    ensures
        letter_row(row, 2) == 2 * splash::WORDMARK@[2]@[row],
        splash::WORDMARK@[2]@[row] < 32,
{
    letter_2_in_octal(row);
    let w = splash::WORDMARK@[2]@;
    assert(w[0] == 1);
    assert(w[1] == 1);
    assert(w[2] == 15);
    assert(w[3] == 17);
    assert(w[4] == 17);
    assert(w[5] == 17);
    assert(w[6] == 15);
    assert(w[7] == 0);
    assert(w[8] == 0);
}

proof fn letter_3_in_octal(row: int)
    requires
        0 <= row < 9,
    ensures
        letter_row(row, 3) == one_of(row, seq![24int, 8, 8, 8, 8, 8, 28, 0, 0]),
{
    if row == 0 {
        assert(letter_row(0, 3) == 24);
    } else if row == 1 {
        assert(letter_row(1, 3) == 8);
    } else if row == 2 {
        assert(letter_row(2, 3) == 8);
    } else if row == 3 {
        assert(letter_row(3, 3) == 8);
    } else if row == 4 {
        assert(letter_row(4, 3) == 8);
    } else if row == 5 {
        assert(letter_row(5, 3) == 8);
    } else if row == 6 {
        assert(letter_row(6, 3) == 28);
    } else if row == 7 {
        assert(letter_row(7, 3) == 0);
    } else {
        assert(letter_row(8, 3) == 0);
    }
}

proof fn letter_3(row: int)
    requires
        0 <= row < 9,
    ensures
        letter_row(row, 3) == 2 * splash::WORDMARK@[3]@[row],
        splash::WORDMARK@[3]@[row] < 32,
{
    letter_3_in_octal(row);
    let w = splash::WORDMARK@[3]@;
    assert(w[0] == 12);
    assert(w[1] == 4);
    assert(w[2] == 4);
    assert(w[3] == 4);
    assert(w[4] == 4);
    assert(w[5] == 4);
    assert(w[6] == 14);
    assert(w[7] == 0);
    assert(w[8] == 0);
}

proof fn letter_4_in_octal(row: int)
    requires
        0 <= row < 9,
    ensures
        letter_row(row, 4) == one_of(row, seq![0int, 0, 28, 34, 62, 32, 30, 0, 0]),
{
    if row == 0 {
        assert(letter_row(0, 4) == 0);
    } else if row == 1 {
        assert(letter_row(1, 4) == 0);
    } else if row == 2 {
        assert(letter_row(2, 4) == 28);
    } else if row == 3 {
        assert(letter_row(3, 4) == 34);
    } else if row == 4 {
        assert(letter_row(4, 4) == 62);
    } else if row == 5 {
        assert(letter_row(5, 4) == 32);
    } else if row == 6 {
        assert(letter_row(6, 4) == 30);
    } else if row == 7 {
        assert(letter_row(7, 4) == 0);
    } else {
        assert(letter_row(8, 4) == 0);
    }
}

proof fn letter_4(row: int)
    requires
        0 <= row < 9,
    ensures
        letter_row(row, 4) == 2 * splash::WORDMARK@[4]@[row],
        splash::WORDMARK@[4]@[row] < 32,
{
    letter_4_in_octal(row);
    let w = splash::WORDMARK@[4]@;
    assert(w[0] == 0);
    assert(w[1] == 0);
    assert(w[2] == 14);
    assert(w[3] == 17);
    assert(w[4] == 31);
    assert(w[5] == 16);
    assert(w[6] == 15);
    assert(w[7] == 0);
    assert(w[8] == 0);
}

proof fn letter_5_in_octal(row: int)
    requires
        0 <= row < 9,
    ensures
        letter_row(row, 5) == one_of(row, seq![8int, 8, 62, 8, 8, 10, 4, 0, 0]),
{
    if row == 0 {
        assert(letter_row(0, 5) == 8);
    } else if row == 1 {
        assert(letter_row(1, 5) == 8);
    } else if row == 2 {
        assert(letter_row(2, 5) == 62);
    } else if row == 3 {
        assert(letter_row(3, 5) == 8);
    } else if row == 4 {
        assert(letter_row(4, 5) == 8);
    } else if row == 5 {
        assert(letter_row(5, 5) == 10);
    } else if row == 6 {
        assert(letter_row(6, 5) == 4);
    } else if row == 7 {
        assert(letter_row(7, 5) == 0);
    } else {
        assert(letter_row(8, 5) == 0);
    }
}

proof fn letter_5(row: int)
    requires
        0 <= row < 9,
    ensures
        letter_row(row, 5) == 2 * splash::WORDMARK@[5]@[row],
        splash::WORDMARK@[5]@[row] < 32,
{
    letter_5_in_octal(row);
    let w = splash::WORDMARK@[5]@;
    assert(w[0] == 4);
    assert(w[1] == 4);
    assert(w[2] == 31);
    assert(w[3] == 4);
    assert(w[4] == 4);
    assert(w[5] == 5);
    assert(w[6] == 2);
    assert(w[7] == 0);
    assert(w[8] == 0);
}

proof fn the_word_is_drawn(tx: int, ty: int)
    requires
        0 <= tx < 140,
        0 <= ty < 36,
    ensures
        splash::in_wordmark(tx, ty) <==> in_word(ty / 4, tx / 4),
{
    let (row, column) = (ty / 4, tx / 4);
    let (letter, c) = (column / 6, column % 6);
    assert(0 <= letter < 6 && 0 <= c < 6);
    if letter == 0 {
        letter_0(row);
    } else if letter == 1 {
        letter_1(row);
    } else if letter == 2 {
        letter_2(row);
    } else if letter == 3 {
        letter_3(row);
    } else if letter == 4 {
        letter_4(row);
    } else {
        letter_5(row);
    }
    columns_are_bits(splash::WORDMARK@[letter]@[row], c);
}

proof fn columns_are_bits(bits: u8, c: int)
    requires
        bits < 32,
        0 <= c < 6,
    ensures
        has_column(2 * bits as int, c) <==> c < 5 && splash::grid_dot(bits, c),
{
}

proof fn the_logo_is_drawn(x: int, y: int)
    requires
        0 <= x < 240,
        0 <= y < 280,
    ensures
        splash::logo_pixel(x, y) == logo(x, y),
{
    the_monitor_is_drawn(x - 90, y - 86);
    if 50 <= x < 190 && 158 <= y < 194 {
        the_word_is_drawn(x - 50, y - 158);
    }
}

/// The logo is rendered row by row: the pixel in each column of each row that fits
/// is the logo's.
pub proof fn the_logo_is_rendered(y: u16, out: &mut [u8], rows: int, i: int, j: int)
    requires
        call_ensures(splash::render_rows, (y, out), ()),
        old(out)@.len() == 480 * rows,
        0 <= i < 240,
        0 <= j < rows,
        y + rows <= 280,
    ensures
        final(out)@.len() == old(out)@.len(),
        pixel(final(out)@, 240 * j + i) == logo(i, y + j),
{
    frames_show_the_logo(i, y + j);
    assert(FRAME_BYTES == 134400);
    assert(2 * WIDTH * y == 480 * y) by (nonlinear_arith)
        requires
            WIDTH == 240,
    ;
    let k = 240 * (y + j) + i;
    let first = 480 * y;
    assert(2 * (240 * j + i) + first == 2 * k);
}

/// Pixel `k` of the whole logo.
pub proof fn frames_show_the_logo(x: int, y: int)
    requires
        0 <= x < 240,
        0 <= y < 280,
    ensures
        splash::frame().len() == 134400,
        pixel(splash::frame(), 240 * y + x) == logo(x, y),
{
    let k = 240 * y + x;
    vstd::arithmetic::div_mod::lemma_fundamental_div_mod_converse(k, 240, y, x);
    assert(WIDTH == 240 && HEIGHT == 280 && FRAME_BYTES == 134400);
    assert((2 * k) / 2 == k && (2 * k + 1) / 2 == k);
    assert((2 * k) % 2 == 0 && (2 * k + 1) % 2 == 1);
    the_logo_is_drawn(x, y);
}

/// The logo is what the controller gets for the whole panel.
pub proof fn the_logo_reaches_the_panel(
    lcd: St7789,
    script: Vec<PanelOp>,
    c: Controller,
    x: int,
    y: int,
)
    requires
        call_ensures(St7789::show_boot_logo, (&lcd,), script),
        c.quiet(),
        0 <= x < 240,
        0 <= y < 280,
    ensures
        pixel(c.run(script@, Seq::empty()).registers[0x2C], 240 * y + x) == logo(x, y),
{
    controller::the_logo_covers_the_panel(lcd, script, c);
    frames_show_the_logo(x, y);
}

/// A band of the boot logo at the front of a buffer holds its rows from `y` on.
pub proof fn logo_bands_are_rendered(y: u16, scratch: &mut [u8], rows: u16, i: int, j: int)
    requires
        call_ensures(crate::esp32s3::panel::logo_band, (y, scratch), rows),
        y < 280,
        old(scratch)@.len() >= 480,
        0 <= i < 240,
        0 <= j < rows,
    ensures
        y + rows <= 280,
        pixel(final(scratch)@, 240 * j + i) == logo(i, y + j),
{
    frames_show_the_logo(i, y + j);
    assert(2 * WIDTH * y == 480 * y) by (nonlinear_arith)
        requires
            WIDTH == 240,
    ;
    assert(2 * WIDTH * (y + rows) == 480 * (y + rows)) by (nonlinear_arith)
        requires
            WIDTH == 240,
    ;
    assert(WIDTH == 240 && HEIGHT == 280);
    let k = 240 * (y + j) + i;
    let first = 480 * y;
    assert(2 * (240 * j + i) + first == 2 * k);
}

} // verus!
