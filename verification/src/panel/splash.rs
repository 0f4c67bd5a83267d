//! Boot logo, rendered a row at a time without a framebuffer or font dependency.

use vstd::prelude::*;

use crate::panel::{FRAME_BYTES, HEIGHT, WIDTH};

verus! {

pub const BACKGROUND: u16 = 0x10C4;
pub const MINT: u16 = 0x5F16;
pub const WHITE: u16 = 0xEF7D;

// Lowercase wordmark on a 5x9 grid, including the descender on the g.
pub const WORDMARK: [[u8; 9]; 6] = [
    [0, 0, 0b01111, 0b10001, 0b10001, 0b01111, 0b00001, 0b10001, 0b01110],
    [0, 0, 0b10001, 0b10001, 0b10001, 0b10001, 0b01111, 0, 0],
    [0b00001, 0b00001, 0b01111, 0b10001, 0b10001, 0b10001, 0b01111, 0, 0],
    [0b01100, 0b00100, 0b00100, 0b00100, 0b00100, 0b00100, 0b01110, 0, 0],
    [0, 0, 0b01110, 0b10001, 0b11111, 0b10000, 0b01111, 0, 0],
    [0b00100, 0b00100, 0b11111, 0b00100, 0b00100, 0b00101, 0b00010, 0, 0],
];

/// Pixels of the wordmark for each dot of its grid.
pub const SCALE: i32 = 4;
/// Six letters of five columns, with a column between them.
pub const WORD_WIDTH: i32 = (6 * 6 - 1) * SCALE;

/// How far `x` is outside of `from..=to`.
pub open spec fn outside(x: int, from: int, to: int) -> int {
    if x < from {
        from - x
    } else if x > to {
        x - to
    } else {
        0
    }
}

/// The point lies in the rectangle, and no further than the radius from the
/// smaller rectangle that the corners are rounded around.
pub open spec fn in_rounded_rect(x: int, y: int, width: int, height: int, radius: int) -> bool {
    let dx = outside(x, radius, width - 1 - radius);
    let dy = outside(y, radius, height - 1 - radius);
    &&& 0 <= x < width
    &&& 0 <= y < height
    &&& dx * dx + dy * dy <= radius * radius
}

fn rounded_rect(x: i32, y: i32, width: i32, height: i32, radius: i32) -> (inside: bool)
    requires
        0 <= width <= 1000,
        0 <= height <= 1000,
        0 <= 2 * radius < width,
        2 * radius < height,
    ensures
        inside == in_rounded_rect(x as int, y as int, width as int, height as int, radius as int),
{
    if x < 0 || y < 0 || x >= width || y >= height {
        return false;
    }
    let dx: i32 = if x < radius {
        radius - x
    } else if x > width - 1 - radius {
        x - (width - 1 - radius)
    } else {
        0
    };
    let dy: i32 = if y < radius {
        radius - y
    } else if y > height - 1 - radius {
        y - (height - 1 - radius)
    } else {
        0
    };
    assert(0 <= dx * dx <= 1_000_000) by (nonlinear_arith)
        requires
            0 <= dx <= 1000,
    ;
    assert(0 <= dy * dy <= 1_000_000) by (nonlinear_arith)
        requires
            0 <= dy <= 1000,
    ;
    assert(0 <= radius * radius <= 1_000_000) by (nonlinear_arith)
        requires
            0 <= radius <= 1000,
    ;
    dx * dx + dy * dy <= radius * radius
}

/// Column `gx` of a row of the wordmark's grid is set, the leftmost being the
/// highest of five bits.
pub open spec fn grid_dot(row: u8, gx: int) -> bool {
    if gx == 0 {
        row / 16 % 2 == 1
    } else if gx == 1 {
        row / 8 % 2 == 1
    } else if gx == 2 {
        row / 4 % 2 == 1
    } else if gx == 3 {
        row / 2 % 2 == 1
    } else {
        row % 2 == 1
    }
}

fn is_grid_dot(row: u8, gx: i32) -> (set: bool)
    requires
        0 <= gx < 5,
    ensures
        set == grid_dot(row, gx as int),
{
    match gx {
        0 => row / 16 % 2 == 1,
        1 => row / 8 % 2 == 1,
        2 => row / 4 % 2 == 1,
        3 => row / 2 % 2 == 1,
        _ => row % 2 == 1,
    }
}

/// A small monitor with rounded corners and a short pedestal, from its top
/// left corner.
pub open spec fn in_monitor(sx: int, sy: int) -> bool {
    ||| in_rounded_rect(sx, sy, 60, 44, 7) && !in_rounded_rect(sx - 3, sy - 3, 54, 38, 4)
    ||| 27 <= sx < 33 && 44 <= sy < 51
    ||| in_rounded_rect(sx - 18, sy - 50, 24, 3, 1)
}

/// Two eyes and a quiet smile, from the monitor's top left corner.
pub open spec fn in_face(sx: int, sy: int) -> bool {
    ||| in_rounded_rect(sx - 18, sy - 15, 4, 6, 1)
    ||| in_rounded_rect(sx - 38, sy - 15, 4, 6, 1)
    ||| 25 <= sx < 35 && 28 <= sy < 31
    ||| 22 <= sx < 25 && 25 <= sy < 28
    ||| 35 <= sx < 38 && 25 <= sy < 28
}

/// The letters of the wordmark, from its top left corner: six columns of the
/// grid for each, the last of which is empty.
pub open spec fn in_wordmark(tx: int, ty: int) -> bool {
    let col = tx / (SCALE as int);
    &&& 0 <= tx < WORD_WIDTH
    &&& 0 <= ty < 9 * SCALE
    &&& col % 6 < 5
    &&& grid_dot(WORDMARK@[col / 6]@[ty / (SCALE as int)], col % 6)
}

/// The colour of a pixel of the logo, which stands in the middle.
pub open spec fn logo_pixel(x: int, y: int) -> u16 {
    let cx = WIDTH as int / 2;
    let top = HEIGHT as int / 2 - 54;
    if in_monitor(x - (cx - 30), y - top) {
        MINT
    } else if in_face(x - (cx - 30), y - top) || in_wordmark(
        x - (cx - WORD_WIDTH as int / 2),
        y - (top + 72),
    ) {
        WHITE
    } else {
        BACKGROUND
    }
}

fn within(x: i32, from: i32, to: i32) -> (inside: bool)
    ensures
        inside == (from <= x < to),
{
    from <= x && x < to
}

fn pixel(x: i32, y: i32) -> (color: u16)
    requires
        0 <= x < WIDTH,
        0 <= y < HEIGHT,
    ensures
        color == logo_pixel(x as int, y as int),
{
    let cx: i32 = WIDTH as i32 / 2;
    let top: i32 = HEIGHT as i32 / 2 - 54;
    let sx: i32 = x - (cx - 30);
    let sy: i32 = y - top;

    // A small monitor with rounded corners and a short pedestal.
    let bezel = rounded_rect(sx, sy, 60, 44, 7) && !rounded_rect(sx - 3, sy - 3, 54, 38, 4);
    let stand = within(sx, 27, 33) && within(sy, 44, 51) || rounded_rect(
        sx - 18,
        sy - 50,
        24,
        3,
        1,
    );
    if bezel || stand {
        return MINT;
    }
    // Two eyes and a quiet smile keep the little display recognizable at 1x.

    if rounded_rect(sx - 18, sy - 15, 4, 6, 1) || rounded_rect(sx - 38, sy - 15, 4, 6, 1)
        || within(sx, 25, 35) && within(sy, 28, 31) || within(sx, 22, 25) && within(sy, 25, 28)
        || within(sx, 35, 38) && within(sy, 25, 28) {
        return WHITE;
    }
    let tx: i32 = x - (cx - WORD_WIDTH / 2);
    let ty: i32 = y - (top + 72);
    if within(tx, 0, WORD_WIDTH) && within(ty, 0, 9 * SCALE) {
        let col: i32 = tx / SCALE;
        let gx: i32 = col % 6;
        if gx < 5 && is_grid_dot(WORDMARK[(col / 6) as usize][(ty / SCALE) as usize], gx) {
            return WHITE;
        }
    }
    BACKGROUND
}

/// The whole logo, row by row, big-endian RGB565.
pub open spec fn frame() -> Seq<u8> {
    Seq::new(
        FRAME_BYTES as nat,
        |b: int|
            {
                let color = logo_pixel(b / 2 % (WIDTH as int), b / 2 / (WIDTH as int));
                if b % 2 == 0 {
                    (color / 256) as u8
                } else {
                    (color % 256) as u8
                }
            },
    )
}

/// Render full-width rows starting at `y` into big-endian RGB565 pixels.
/// `out` must contain a whole number of rows within the visible panel.
pub fn render_rows(y: u16, out: &mut [u8])
    requires
        old(out)@.len() % (2 * WIDTH as nat) == 0,
        y + old(out)@.len() / (2 * WIDTH as nat) <= HEIGHT,
    ensures
        final(out)@ == frame().subrange(
            2 * WIDTH * y,
            2 * WIDTH * y + old(out)@.len(),
        ),
{
    let len: usize = out.len();
    let ghost first = 2 * WIDTH * y;
    proof {
        rows_in_frame(y as int, len as int);
    }
    let mut x: i32 = 0;
    let mut row: i32 = y as i32;
    let mut i: usize = 0;
    while i < len
        invariant
            len == out@.len(),
            len == old(out)@.len(),
            first == 2 * WIDTH * y,
            first + len <= FRAME_BYTES,
            len % 2 == 0,
            i % 2 == 0,
            i <= len,
            0 <= x < WIDTH,
            y <= row <= HEIGHT,
            (first + i) / 2 == row * WIDTH + x,
            first % 2 == 0,
            forall|k: int| 0 <= k < i ==> out@[k] == frame()[first + k],
        decreases len - i,
    {
        proof {
            pixel_in_frame(x as int, row as int, first + i);
        }
        let color: u16 = pixel(x, row);
        out[i] = (color / 256) as u8;
        out[i + 1] = (color % 256) as u8;
        i += 2;
        x += 1;
        if x == WIDTH as i32 {
            x = 0;
            row += 1;
            assert(row * WIDTH == (row - 1) * WIDTH + WIDTH) by (nonlinear_arith);
        }
    }
    assert(out@ =~= frame().subrange(first, first + len));
}

/// Whole rows that fit on the panel lie in the frame.
proof fn rows_in_frame(y: int, len: int)
    requires
        0 <= y,
        0 <= len,
        len % (2 * WIDTH) == 0,
        y + len / (2 * WIDTH) <= HEIGHT,
    ensures
        2 * WIDTH * y + len <= FRAME_BYTES,
        len % 2 == 0,
        2 * WIDTH * y / 2 == y * WIDTH,
        2 * WIDTH * y % 2 == 0,
{
    let rows = len / (2 * WIDTH);
    vstd::arithmetic::div_mod::lemma_fundamental_div_mod(len, 2 * WIDTH);
    assert(2 * WIDTH * y + 2 * WIDTH * rows == 2 * WIDTH * (y + rows)) by (nonlinear_arith);
    assert(2 * WIDTH * (y + rows) <= 2 * WIDTH * HEIGHT) by (nonlinear_arith)
        requires
            y + rows <= HEIGHT,
    ;
    assert(2 * WIDTH * y == 2 * (y * WIDTH)) by (nonlinear_arith);
    assert(2 * WIDTH * rows == 2 * (rows * WIDTH)) by (nonlinear_arith);
}

/// The byte of the frame that a pixel's first byte is.
proof fn pixel_in_frame(x: int, row: int, b: int)
    requires
        0 <= x < WIDTH,
        0 <= row,
        b % 2 == 0,
        b / 2 == row * WIDTH + x,
        0 <= b < FRAME_BYTES,
    ensures
        row < HEIGHT,
        frame()[b] == (logo_pixel(x, row) / 256) as u8,
        frame()[b + 1] == (logo_pixel(x, row) % 256) as u8,
{
    vstd::arithmetic::div_mod::lemma_fundamental_div_mod_converse(b / 2, WIDTH as int, row, x);
    assert(row < HEIGHT) by (nonlinear_arith)
        requires
            row * WIDTH + x < HEIGHT * WIDTH,
            x >= 0,
    ;
}

/// Rendering in bands matches a full frame: two bands, one under the other, are
/// the rows rendered in one go.
pub proof fn bands_match_a_full_frame(start: int, upper: int, lower: int)
    requires
        0 <= start,
        0 <= upper,
        0 <= lower,
        start + upper + lower <= FRAME_BYTES,
    ensures
        frame().subrange(start, start + upper) + frame().subrange(
            start + upper,
            start + upper + lower,
        ) == frame().subrange(start, start + upper + lower),
        frame().subrange(0, FRAME_BYTES as int) == frame(),
{
    assert(frame().subrange(start, start + upper) + frame().subrange(
        start + upper,
        start + upper + lower,
    ) =~= frame().subrange(start, start + upper + lower));
    assert(frame().subrange(0, FRAME_BYTES as int) =~= frame());
}

} // verus!
