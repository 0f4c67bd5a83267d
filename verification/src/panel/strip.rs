//! On-panel text strip for bring-up: a 3x5 font scaled 2x, drawn by
//! the panel worker across the top rows once a second. It depends on nothing
//! but the panel, so it keeps working when USB or the console does not.

use vstd::prelude::*;

use crate::panel::WIDTH;

verus! {

pub const ROWS: usize = 3;
pub const CHAR_W: usize = 8;  // 3 columns * 2 + 2 spacing
pub const CHAR_H: usize = 12;  // 5 rows * 2 + 2 spacing
pub const STRIP_H: usize = ROWS * CHAR_H;
pub const COLS: usize = WIDTH as usize / CHAR_W;
/// Bytes of a strip's pixels.
pub const STRIP_BYTES: usize = WIDTH as usize * (3 * 12 * 2);

/// A letter as a capital; anything else as it is.
pub open spec fn capital(c: u8) -> u8 {
    if 'a' as u8 <= c <= 'z' as u8 {
        (c - 32) as u8
    } else {
        c
    }
}

/// The picture of a character, three columns by five rows. Each number is a
/// row, its three bits the columns, the leftmost first. What has no picture is
/// blank.
#[verifier::opaque]
pub open spec fn picture(c: u8) -> Seq<u8> {
    match capital(c) as char {
        '0' => seq![0b111, 0b101, 0b101, 0b101, 0b111],
        '1' => seq![0b010, 0b110, 0b010, 0b010, 0b111],
        '2' => seq![0b111, 0b001, 0b111, 0b100, 0b111],
        '3' => seq![0b111, 0b001, 0b111, 0b001, 0b111],
        '4' => seq![0b101, 0b101, 0b111, 0b001, 0b001],
        '5' => seq![0b111, 0b100, 0b111, 0b001, 0b111],
        '6' => seq![0b111, 0b100, 0b111, 0b101, 0b111],
        '7' => seq![0b111, 0b001, 0b001, 0b001, 0b001],
        '8' => seq![0b111, 0b101, 0b111, 0b101, 0b111],
        '9' => seq![0b111, 0b101, 0b111, 0b001, 0b111],
        'A' => seq![0b111, 0b101, 0b111, 0b101, 0b101],
        'B' => seq![0b110, 0b101, 0b110, 0b101, 0b110],
        'C' => seq![0b111, 0b100, 0b100, 0b100, 0b111],
        'D' => seq![0b110, 0b101, 0b101, 0b101, 0b110],
        'E' => seq![0b111, 0b100, 0b111, 0b100, 0b111],
        'F' => seq![0b111, 0b100, 0b111, 0b100, 0b100],
        'G' => seq![0b111, 0b100, 0b101, 0b101, 0b111],
        'H' => seq![0b101, 0b101, 0b111, 0b101, 0b101],
        'I' => seq![0b111, 0b010, 0b010, 0b010, 0b111],
        'J' => seq![0b001, 0b001, 0b001, 0b101, 0b111],
        'K' => seq![0b101, 0b101, 0b110, 0b101, 0b101],
        'L' => seq![0b100, 0b100, 0b100, 0b100, 0b111],
        'M' => seq![0b101, 0b111, 0b111, 0b101, 0b101],
        'N' => seq![0b110, 0b101, 0b101, 0b101, 0b101],
        'O' => seq![0b111, 0b101, 0b101, 0b101, 0b111],
        'P' => seq![0b111, 0b101, 0b111, 0b100, 0b100],
        'Q' => seq![0b111, 0b101, 0b101, 0b111, 0b001],
        'R' => seq![0b110, 0b101, 0b110, 0b101, 0b101],
        'S' => seq![0b111, 0b100, 0b111, 0b001, 0b111],
        'T' => seq![0b111, 0b010, 0b010, 0b010, 0b010],
        'U' => seq![0b101, 0b101, 0b101, 0b101, 0b111],
        'V' => seq![0b101, 0b101, 0b101, 0b101, 0b010],
        'W' => seq![0b101, 0b101, 0b111, 0b111, 0b101],
        'X' => seq![0b101, 0b101, 0b010, 0b101, 0b101],
        'Y' => seq![0b101, 0b101, 0b010, 0b010, 0b010],
        'Z' => seq![0b111, 0b001, 0b010, 0b100, 0b111],
        ':' => seq![0b000, 0b010, 0b000, 0b010, 0b000],
        '.' => seq![0b000, 0b000, 0b000, 0b000, 0b010],
        '/' => seq![0b001, 0b001, 0b010, 0b100, 0b100],
        '-' => seq![0b000, 0b000, 0b111, 0b000, 0b000],
        '_' => seq![0b000, 0b000, 0b000, 0b000, 0b111],
        '(' => seq![0b010, 0b100, 0b100, 0b100, 0b010],
        ')' => seq![0b010, 0b001, 0b001, 0b001, 0b010],
        '`' => seq![0b010, 0b001, 0b000, 0b000, 0b000],
        '\'' => seq![0b010, 0b001, 0b000, 0b000, 0b000],
        _ => seq![0, 0, 0, 0, 0],
    }
}

/// 3x5 glyphs, one byte per row, low three bits used (MSB = left).
/// Lowercase maps to uppercase.
pub fn glyph(c: u8) -> (g: [u8; 5])
    ensures
        g@ == picture(c),
{
    reveal(picture);
    let c: u8 = if 'a' as u8 <= c && c <= 'z' as u8 {
        c - 32
    } else {
        c
    };
    match c as char {
        '0' => [0b111, 0b101, 0b101, 0b101, 0b111],
        '1' => [0b010, 0b110, 0b010, 0b010, 0b111],
        '2' => [0b111, 0b001, 0b111, 0b100, 0b111],
        '3' => [0b111, 0b001, 0b111, 0b001, 0b111],
        '4' => [0b101, 0b101, 0b111, 0b001, 0b001],
        '5' => [0b111, 0b100, 0b111, 0b001, 0b111],
        '6' => [0b111, 0b100, 0b111, 0b101, 0b111],
        '7' => [0b111, 0b001, 0b001, 0b001, 0b001],
        '8' => [0b111, 0b101, 0b111, 0b101, 0b111],
        '9' => [0b111, 0b101, 0b111, 0b001, 0b111],
        'A' => [0b111, 0b101, 0b111, 0b101, 0b101],
        'B' => [0b110, 0b101, 0b110, 0b101, 0b110],
        'C' => [0b111, 0b100, 0b100, 0b100, 0b111],
        'D' => [0b110, 0b101, 0b101, 0b101, 0b110],
        'E' => [0b111, 0b100, 0b111, 0b100, 0b111],
        'F' => [0b111, 0b100, 0b111, 0b100, 0b100],
        'G' => [0b111, 0b100, 0b101, 0b101, 0b111],
        'H' => [0b101, 0b101, 0b111, 0b101, 0b101],
        'I' => [0b111, 0b010, 0b010, 0b010, 0b111],
        'J' => [0b001, 0b001, 0b001, 0b101, 0b111],
        'K' => [0b101, 0b101, 0b110, 0b101, 0b101],
        'L' => [0b100, 0b100, 0b100, 0b100, 0b111],
        'M' => [0b101, 0b111, 0b111, 0b101, 0b101],
        'N' => [0b110, 0b101, 0b101, 0b101, 0b101],
        'O' => [0b111, 0b101, 0b101, 0b101, 0b111],
        'P' => [0b111, 0b101, 0b111, 0b100, 0b100],
        'Q' => [0b111, 0b101, 0b101, 0b111, 0b001],
        'R' => [0b110, 0b101, 0b110, 0b101, 0b101],
        'S' => [0b111, 0b100, 0b111, 0b001, 0b111],
        'T' => [0b111, 0b010, 0b010, 0b010, 0b010],
        'U' => [0b101, 0b101, 0b101, 0b101, 0b111],
        'V' => [0b101, 0b101, 0b101, 0b101, 0b010],
        'W' => [0b101, 0b101, 0b111, 0b111, 0b101],
        'X' => [0b101, 0b101, 0b010, 0b101, 0b101],
        'Y' => [0b101, 0b101, 0b010, 0b010, 0b010],
        'Z' => [0b111, 0b001, 0b010, 0b100, 0b111],
        ':' => [0b000, 0b010, 0b000, 0b010, 0b000],
        '.' => [0b000, 0b000, 0b000, 0b000, 0b010],
        '/' => [0b001, 0b001, 0b010, 0b100, 0b100],
        '-' => [0b000, 0b000, 0b111, 0b000, 0b000],
        '_' => [0b000, 0b000, 0b000, 0b000, 0b111],
        '(' => [0b010, 0b100, 0b100, 0b100, 0b010],
        ')' => [0b010, 0b001, 0b001, 0b001, 0b010],
        '`' | '\'' => [0b010, 0b001, 0b000, 0b000, 0b000],
        _ => [0, 0, 0, 0, 0],
    }
}

/// The characters that have a picture: letters, digits and a few marks.
pub open spec fn has_picture(c: u8) -> bool {
    ||| 'a' as u8 <= c <= 'z' as u8
    ||| 'A' as u8 <= c <= 'Z' as u8
    ||| '0' as u8 <= c <= '9' as u8
    ||| c == ':' as u8
    ||| c == '.' as u8
    ||| c == '/' as u8
    ||| c == '-' as u8
    ||| c == '_' as u8
    ||| c == '(' as u8
    ||| c == ')' as u8
    ||| c == '`' as u8
    ||| c == '\'' as u8
}

/// A letter has one picture, large or small; a picture has five rows of three
/// bits; and it is blank exactly for what has none.
pub proof fn pictures_are_three_by_five(c: u8)
    ensures
        picture(c) == picture(capital(c)),
        picture(c).len() == 5,
        forall|y: int| 0 <= y < 5 ==> #[trigger] picture(c)[y] < 8,
        picture(c) == seq![0u8, 0, 0, 0, 0] <==> !has_picture(c),
{
    reveal(picture);
    assert(capital(capital(c)) == capital(c));
    let p = picture(c);
    if has_picture(c) {
        assert(p[0] != 0 || p[1] != 0 || p[2] != 0 || p[3] != 0 || p[4] != 0);
    } else {
        assert(p =~= seq![0u8, 0, 0, 0, 0]);
    }
}

/// Where in the wrapped text character `i` goes, or the end of the line that
/// is full before it: one more for each line before the one that `i - 1` is on.
pub open spec fn place(i: int) -> int {
    if i <= 0 {
        0
    } else {
        i + (i - 1) / (COLS as int)
    }
}

/// What stands at place `p` of the wrapped text: line ends behind every
/// `COLS` characters, and the text's own line ends as spaces.
pub open spec fn wrapped(text: Seq<u8>, p: int) -> u8 {
    let line = p / (COLS + 1);
    let col = p % (COLS + 1);
    if col == COLS {
        '\n' as u8
    } else if text[line * COLS + col] == '\n' as u8 {
        ' ' as u8
    } else {
        text[line * COLS + col]
    }
}

/// So many characters are kept of a text: those that fit on the strip and into
/// `room` bytes, with a byte to spare for a line end.
pub open spec fn kept(length: nat, room: nat, k: int) -> bool {
    &&& 0 <= k <= length
    &&& k <= ROWS * COLS
    &&& forall|i: int| 0 <= i < k ==> #[trigger] place(i) + 2 <= room
    &&& k < length && k < ROWS * COLS ==> place(k) + 2 > room
}

/// So long is the wrapped text when `k` characters are kept. A text that goes
/// on behind the last line leaves a line end there.
pub open spec fn wrapped_length(length: nat, room: nat, k: int) -> int {
    if k == ROWS * COLS && k < length && place(k) + 2 <= room {
        place(k) + 1
    } else {
        place(k)
    }
}

/// Where the character at this line and column goes.
proof fn place_at(line: int, col: int)
    requires
        0 <= line,
        0 <= col <= COLS,
        line > 0 ==> col > 0,
    ensures
        place(line * COLS + col) == line * (COLS + 1) + col,
{
    assert(line * (COLS + 1) == line * COLS + line) by (nonlinear_arith);
    if line * COLS + col > 0 {
        if col > 0 {
            vstd::arithmetic::div_mod::lemma_fundamental_div_mod_converse(
                line * COLS + col - 1,
                COLS as int,
                line,
                col - 1,
            );
        }
    } else {
        assert(line * COLS >= 0) by (nonlinear_arith)
            requires
                line >= 0,
        ;
        assert(line == 0);
    }
}

/// What stands in this line and column, or at the end of this line.
proof fn wrapped_at(text: Seq<u8>, line: int, col: int)
    requires
        0 <= line,
        0 <= col <= COLS,
    ensures
        wrapped(text, line * (COLS + 1) + col) == if col == COLS {
            '\n' as u8
        } else if text[line * COLS + col] == '\n' as u8 {
            ' ' as u8
        } else {
            text[line * COLS + col]
        },
{
    vstd::arithmetic::div_mod::lemma_fundamental_div_mod_converse(
        line * (COLS + 1) + col,
        COLS + 1,
        line,
        col,
    );
}

/// Word-wrap plain text into ROWS lines of COLS chars, breaking at any
/// character. Returns the number of bytes written to `out` ('\n' separated).
pub fn wrap(text: &[u8], out: &mut [u8]) -> (n: usize)
    ensures
        exists|k: int|
            #[trigger] kept(text@.len(), old(out)@.len(), k) && n == wrapped_length(
                text@.len(),
                old(out)@.len(),
                k,
            ),
        n <= old(out)@.len(),
        final(out)@ == Seq::new(n as nat, |p: int| wrapped(text@, p)) + old(out)@.skip(n as int),
{
    let room: usize = out.len();
    let mut pos: usize = 0;
    let mut col: usize = 0;
    let mut row: usize = 0;
    let mut i: usize = 0;
    while i < text.len() && row < ROWS && room >= 2 && pos <= room - 2
        invariant_except_break
            room == out@.len(),
            room == old(out)@.len(),
            i <= text@.len(),
            row < ROWS,
            col <= COLS,
            i == row * COLS + col,
            row > 0 ==> col > 0,
            i <= ROWS * COLS,
            pos == row * (COLS + 1) + col,
            pos == place(i as int),
            pos <= room,
            forall|j: int| 0 <= j < i ==> #[trigger] place(j) + 2 <= room,
            forall|p: int| 0 <= p < pos ==> out@[p] == wrapped(text@, p),
            forall|p: int| pos <= p < room ==> out@[p] == old(out)@[p],
        ensures
            kept(text@.len(), room as nat, i as int),
            pos == wrapped_length(text@.len(), room as nat, i as int),
            room == out@.len(),
            room == old(out)@.len(),
            pos <= room,
            forall|p: int| 0 <= p < pos ==> out@[p] == wrapped(text@, p),
            forall|p: int| pos <= p < room ==> out@[p] == old(out)@[p],
        decreases text@.len() - i,
    {
        let c: u8 = if text[i] == '\n' as u8 {
            ' ' as u8
        } else {
            text[i]
        };
        proof {
            wrapped_at(text@, row as int, col as int);
        }
        if col == COLS {
            out[pos] = '\n' as u8;
            proof {
                wrapped_at(text@, row + 1, 0);
                assert((row + 1) * COLS == row * COLS + COLS) by (nonlinear_arith);
                assert((row + 1) * (COLS + 1) == row * (COLS + 1) + COLS + 1) by (nonlinear_arith);
            }
            pos += 1;
            col = 0;
            row += 1;
            if row >= ROWS {
                assert(i == ROWS * COLS) by (nonlinear_arith)
                    requires
                        i == row * COLS,
                        row == ROWS,
                ;
                break ;
            }
        }
        assert(wrapped(text@, pos as int) == c);
        out[pos] = c;
        pos += 1;
        col += 1;
        i += 1;
        proof {
            place_at(row as int, col as int);
            assert(row * COLS + COLS <= ROWS * COLS) by (nonlinear_arith)
                requires
                    row + 1 <= ROWS,
            ;
        }
    }
    assert(out@ =~= Seq::new(pos as nat, |p: int| wrapped(text@, p)) + old(out)@.skip(pos as int));
    pos
}

/// The line on which character `i` of the text stands.
pub open spec fn line_of(text: Seq<u8>, i: int) -> int
    decreases i,
{
    if i <= 0 {
        0
    } else if text[i - 1] == '\n' as u8 {
        line_of(text, i - 1) + 1
    } else {
        line_of(text, i - 1)
    }
}

/// The column in which character `i` of the text stands.
pub open spec fn column_of(text: Seq<u8>, i: int) -> int
    decreases i,
{
    if i <= 0 || text[i - 1] == '\n' as u8 {
        0
    } else {
        column_of(text, i - 1) + 1
    }
}

/// Column `gx` of a row of a picture is set.
pub open spec fn dot(bits: u8, gx: int) -> bool {
    if gx == 0 {
        bits / 4 % 2 == 1
    } else if gx == 1 {
        bits / 2 % 2 == 1
    } else {
        bits % 2 == 1
    }
}

/// A picture in the cell at this line and column lights this pixel: two by two
/// pixels for each dot.
pub open spec fn lights(picture: Seq<u8>, line: int, column: int, x: int, y: int) -> bool {
    &&& y / (CHAR_H as int) == line
    &&& x / (CHAR_W as int) == column
    &&& y % (CHAR_H as int) / 2 < 5
    &&& x % (CHAR_W as int) / 2 < 3
    &&& dot(picture[y % (CHAR_H as int) / 2], x % (CHAR_W as int) / 2)
}

/// Character `i` of the text lights this pixel.
#[verifier::opaque]
pub open spec fn lit_by(text: Seq<u8>, i: int, x: int, y: int) -> bool {
    &&& text[i] != '\n' as u8
    &&& line_of(text, i) < ROWS
    &&& column_of(text, i) < COLS
    &&& lights(picture(text[i]), line_of(text, i), column_of(text, i), x, y)
}

/// One of the first `n` characters of the text lights this pixel.
pub open spec fn lit(text: Seq<u8>, n: int, x: int, y: int) -> bool {
    exists|i: int| 0 <= i < n && #[trigger] lit_by(text, i, x, y)
}

/// The two bytes of pixel `k`: white, or dark blue.
pub open spec fn is_pixel(out: Seq<u8>, k: int, white: bool) -> bool {
    if white {
        out[2 * k] == 0xFF && out[2 * k + 1] == 0xFF
    } else {
        out[2 * k] == 0x00 && out[2 * k + 1] == 0x08
    }
}

/// Byte `b` is as it was.
pub open spec fn same_byte(before: Seq<u8>, after: Seq<u8>, b: int) -> bool {
    after[b] == before[b]
}

/// Whether column `gx` of a row of a picture is set.
fn is_dot(bits: u8, gx: usize) -> (set: bool)
    requires
        gx < 3,
    ensures
        set == dot(bits, gx as int),
{
    if gx == 0 {
        bits / 4 % 2 == 1
    } else if gx == 1 {
        bits / 2 % 2 == 1
    } else {
        bits % 2 == 1
    }
}

/// Draws a picture into the cell at this line and column.
fn draw(out: &mut [u8], g: &[u8; 5], row: usize, col: usize)
    requires
        row < ROWS,
        col < COLS,
        forall|x: int, y: int|
            0 <= x < WIDTH && 0 <= y && #[trigger] lights(g@, row as int, col as int, x, y) ==> 2
                * (y * WIDTH + x) + 1 < old(out)@.len(),
    ensures
        final(out)@.len() == old(out)@.len(),
        forall|x: int, y: int|
            0 <= x < WIDTH && 0 <= y && #[trigger] lights(g@, row as int, col as int, x, y)
                ==> is_pixel(final(out)@, y * WIDTH + x, true),
        forall|b: int|
            0 <= b < old(out)@.len() && !lights(
                g@,
                row as int,
                col as int,
                b / 2 % (WIDTH as int),
                b / 2 / (WIDTH as int),
            ) ==> #[trigger] same_byte(old(out)@, final(out)@, b),
{
    let mut py: usize = 0;
    while py < 10
        invariant
            row < ROWS,
            col < COLS,
            py <= 10,
            out@.len() == old(out)@.len(),
            forall|x: int, y: int|
                0 <= x < WIDTH && 0 <= y && #[trigger] lights(g@, row as int, col as int, x, y)
                    ==> 2 * (y * WIDTH + x) + 1 < old(out)@.len(),
            forall|x: int, y: int|
                0 <= x < WIDTH && 0 <= y && y % (CHAR_H as int) < py && #[trigger] lights(
                    g@,
                    row as int,
                    col as int,
                    x,
                    y,
                ) ==> is_pixel(out@, y * WIDTH + x, true),
            forall|b: int|
                0 <= b < old(out)@.len() && !lights(
                    g@,
                    row as int,
                    col as int,
                    b / 2 % (WIDTH as int),
                    b / 2 / (WIDTH as int),
                ) ==> #[trigger] same_byte(old(out)@, out@, b),
        decreases 10 - py,
    {
        let bits: u8 = g[py / 2];
        let y: usize = row * CHAR_H + py;
        let mut px: usize = 0;
        while px < 6
            invariant
                row < ROWS,
                col < COLS,
                py < 10,
                px <= 6,
                y == row * CHAR_H + py,
                bits == g@[py as int / 2],
                out@.len() == old(out)@.len(),
                forall|x: int, y: int|
                    0 <= x < WIDTH && 0 <= y && #[trigger] lights(g@, row as int, col as int, x, y)
                        ==> 2 * (y * WIDTH + x) + 1 < old(out)@.len(),
                forall|x: int, y: int|
                    0 <= x < WIDTH && 0 <= y && (y % (CHAR_H as int) < py || (y % (CHAR_H as int)
                        == py && x % (CHAR_W as int) < px)) && #[trigger] lights(
                        g@,
                        row as int,
                        col as int,
                        x,
                        y,
                    ) ==> is_pixel(out@, y * WIDTH + x, true),
                forall|b: int|
                    0 <= b < old(out)@.len() && !lights(
                        g@,
                        row as int,
                        col as int,
                        b / 2 % (WIDTH as int),
                        b / 2 / (WIDTH as int),
                    ) ==> #[trigger] same_byte(old(out)@, out@, b),
            decreases 6 - px,
        {
            if is_dot(bits, px / 2) {
                let x: usize = col * CHAR_W + px;
                assert(lights(g@, row as int, col as int, x as int, y as int));
                let i: usize = (y * WIDTH as usize + x) * 2;
                proof {
                    pixel_place(x as int, y as int);
                }
                let ghost before = out@;
                out[i] = 0xFF;
                out[i + 1] = 0xFF;
                assert forall|b: int|
                    0 <= b < old(out)@.len() && !lights(
                        g@,
                        row as int,
                        col as int,
                        b / 2 % (WIDTH as int),
                        b / 2 / (WIDTH as int),
                    ) implies #[trigger] same_byte(old(out)@, out@, b) by {
                    assert(same_byte(old(out)@, before, b));
                }
            }
            px += 1;
        }
        py += 1;
    }
}

/// The pixel that two bytes belong to.
proof fn pixel_place(x: int, y: int)
    requires
        0 <= x < WIDTH,
        0 <= y,
    ensures
        (2 * (y * WIDTH + x)) / 2 % (WIDTH as int) == x,
        (2 * (y * WIDTH + x)) / 2 / (WIDTH as int) == y,
        (2 * (y * WIDTH + x) + 1) / 2 % (WIDTH as int) == x,
        (2 * (y * WIDTH + x) + 1) / 2 / (WIDTH as int) == y,
{
    vstd::arithmetic::div_mod::lemma_fundamental_div_mod_converse(
        y * WIDTH + x,
        WIDTH as int,
        y,
        x,
    );
}

/// What one more character of a text does to the pixels.
proof fn one_more_character(text: Seq<u8>, i: int, before: Seq<u8>, after: Seq<u8>)
    requires
        0 <= i < text.len(),
        after.len() == before.len(),
        forall|x: int, y: int|
            0 <= x < WIDTH && 0 <= y && #[trigger] lit_by(text, i, x, y) ==> 2 * (y * WIDTH + x) + 1
                < after.len() && is_pixel(after, y * WIDTH + x, true),
        forall|b: int|
            0 <= b < after.len() && !lit_by(
                text,
                i,
                b / 2 % (WIDTH as int),
                b / 2 / (WIDTH as int),
            ) ==> #[trigger] same_byte(before, after, b),
        forall|j: int|
            0 <= j < before.len() / 2 ==> #[trigger] is_pixel(
                before,
                j,
                lit(text, i, j % (WIDTH as int), j / (WIDTH as int)),
            ),
    ensures
        forall|j: int|
            0 <= j < after.len() / 2 ==> #[trigger] is_pixel(
                after,
                j,
                lit(text, i + 1, j % (WIDTH as int), j / (WIDTH as int)),
            ),
        forall|b: int| after.len() / 2 * 2 <= b < after.len() ==> after[b] == before[b],
{
    let width = WIDTH as int;
    assert forall|j: int| 0 <= j < after.len() / 2 implies #[trigger] is_pixel(
        after,
        j,
        lit(text, i + 1, j % (WIDTH as int), j / (WIDTH as int)),
    ) by {
        pixel_of(j);
        let (x, y) = (j % width, j / width);
        assert(y * width + x == j);
        assert((2 * j) / 2 == j && (2 * j + 1) / 2 == j);
        assert(is_pixel(before, j, lit(text, i, x, y)));
        if !lit_by(text, i, x, y) {
            assert(same_byte(before, after, 2 * j));
            assert(same_byte(before, after, 2 * j + 1));
        }
        one_more_character_at(text, i, x, y);
    }
    assert forall|b: int| after.len() / 2 * 2 <= b < after.len() implies after[b] == before[b] by {
        pixel_of(b / 2);
        let (x, y) = (b / 2 % width, b / 2 / width);
        assert(y * width + x == b / 2);
        if lit_by(text, i, x, y) {
            assert(2 * (y * width + x) + 1 < after.len());
        } else {
            assert(same_byte(before, after, b));
        }
    }
}

/// One of the first `i + 1` characters lights a pixel if one before does, or
/// character `i`.
proof fn one_more_character_at(text: Seq<u8>, i: int, x: int, y: int)
    requires
        0 <= i,
    ensures
        lit(text, i + 1, x, y) == (lit(text, i, x, y) || lit_by(text, i, x, y)),
{
    if lit(text, i + 1, x, y) && !lit_by(text, i, x, y) {
        let k = choose|k: int| 0 <= k < i + 1 && #[trigger] lit_by(text, k, x, y);
        assert(0 <= k < i && lit_by(text, k, x, y));
    }
    if lit(text, i, x, y) {
        let k = choose|k: int| 0 <= k < i && #[trigger] lit_by(text, k, x, y);
        assert(0 <= k < i + 1 && lit_by(text, k, x, y));
    }
}

/// A pixel is where its column and line say.
proof fn pixel_of(j: int)
    requires
        0 <= j,
    ensures
        0 <= j % (WIDTH as int) < WIDTH,
        0 <= j / (WIDTH as int),
        j / (WIDTH as int) * WIDTH + j % (WIDTH as int) == j,
{
    vstd::arithmetic::div_mod::lemma_fundamental_div_mod(j, WIDTH as int);
    let q = j / (WIDTH as int);
    assert(WIDTH * q == q * WIDTH) by (nonlinear_arith);
}

/// The first `n` pixels of `out` show `text`, white on dark blue.
pub open spec fn shows_up_to(out: Seq<u8>, text: Seq<u8>, n: int) -> bool {
    forall|k: int|
        0 <= k < n ==> #[trigger] is_pixel(
            out,
            k,
            lit(text, text.len() as int, k % (WIDTH as int), k / (WIDTH as int)),
        )
}

/// Render `text` (ASCII, ROWS lines of COLS chars, '\n' separated) into a
/// big-endian RGB565 buffer of WIDTH x STRIP_H pixels: white on dark blue.
pub fn render(text: &[u8], out: &mut [u8])
    requires
        forall|x: int, y: int|
            0 <= x < WIDTH && 0 <= y && #[trigger] lit(text@, text@.len() as int, x, y) ==> 2 * (y
                * WIDTH + x) + 1 < old(out)@.len(),
    ensures
        final(out)@.len() == old(out)@.len(),
        shows_up_to(final(out)@, text@, old(out)@.len() as int / 2),
        old(out)@.len() % 2 == 1 ==> final(out)@.last() == old(out)@.last(),
{
    let len: usize = out.len() / 2 * 2;
    let mut k: usize = 0;
    while k < len
        invariant
            len == out@.len() / 2 * 2,
            out@.len() == old(out)@.len(),
            k % 2 == 0,
            k <= len,
            forall|j: int| 0 <= j < k / 2 ==> #[trigger] is_pixel(out@, j, false),
            forall|b: int| len <= b < out@.len() ==> out@[b] == old(out)@[b],
        decreases len - k,
    {
        let ghost before = out@;
        out[k] = 0x00;
        out[k + 1] = 0x08;
        assert forall|j: int| 0 <= j < (k + 2) / 2 implies #[trigger] is_pixel(out@, j, false) by {
            if j < k / 2 {
                assert(is_pixel(before, j, false));
            }
        }
        k += 2;
    }
    let mut row: usize = 0;
    let mut col: usize = 0;
    let mut i: usize = 0;
    while i < text.len()
        invariant
            out@.len() == old(out)@.len(),
            len == out@.len() / 2 * 2,
            i <= text@.len(),
            forall|x: int, y: int|
                0 <= x < WIDTH && 0 <= y && #[trigger] lit(text@, text@.len() as int, x, y) ==> 2
                    * (y * WIDTH + x) + 1 < old(out)@.len(),
            row == line_of(text@, i as int),
            col == column_of(text@, i as int),
            row <= i,
            col <= i,
            forall|j: int|
                0 <= j < out@.len() / 2 ==> #[trigger] is_pixel(
                    out@,
                    j,
                    lit(text@, i as int, j % (WIDTH as int), j / (WIDTH as int)),
                ),
            forall|b: int| len <= b < out@.len() ==> out@[b] == old(out)@[b],
        decreases text@.len() - i,
    {
        let c: u8 = text[i];
        let ghost before = out@;
        reveal(lit_by);
        if c == '\n' as u8 {
            row += 1;
            col = 0;
        } else {
            if row < ROWS && col < COLS {
                let g = glyph(c);
                proof {
                    assert forall|x: int, y: int|
                        0 <= x < WIDTH && 0 <= y && #[trigger] lights(
                            g@,
                            row as int,
                            col as int,
                            x,
                            y,
                        ) implies 2 * (y * WIDTH + x) + 1 < out@.len() by {
                        assert(lit_by(text@, i as int, x, y));
                        assert(lit(text@, text@.len() as int, x, y));
                    }
                }
                draw(out, &g, row, col);
            }
            col += 1;
        }
        proof {
            one_more_character(text@, i as int, before, out@);
        }
        i += 1;
    }
}

/// Whatever the text, it is drawn within the first STRIP_H rows.
pub proof fn a_strip_holds_any_text(text: Seq<u8>, x: int, y: int)
    requires
        0 <= x < WIDTH,
        0 <= y,
        lit(text, text.len() as int, x, y),
    ensures
        y < STRIP_H,
        2 * (y * WIDTH + x) + 1 < 2 * (STRIP_H * WIDTH),
{
    reveal(lit_by);
    assert(y * WIDTH + WIDTH <= STRIP_H * WIDTH) by (nonlinear_arith)
        requires
            y + 1 <= STRIP_H,
    ;
}

/// The low 24 bits of a u32 as 6 hex digits.
pub fn hex6(v: u32) -> (digits: [u8; 6])
    ensures
        digits@ == hex_digits(v),
{
    let digits: [u8; 6] = [
        hex_digit((v / 0x10_0000 % 16) as u8),
        hex_digit((v / 0x1_0000 % 16) as u8),
        hex_digit((v / 0x1000 % 16) as u8),
        hex_digit((v / 0x100 % 16) as u8),
        hex_digit((v / 0x10 % 16) as u8),
        hex_digit((v % 16) as u8),
    ];
    assert(digits@ =~= hex_digits(v));
    digits
}

/// Write the low 24 bits of a u32 as 6 hex digits into `dst[..6]`.
pub fn hex(v: u32, dst: &mut [u8])
    requires
        old(dst)@.len() >= 6,
    ensures
        final(dst)@ == hex_digits(v) + old(dst)@.skip(6),
{
    let digits = hex6(v);
    let mut i: usize = 0;
    while i < 6
        invariant
            i <= 6,
            dst@.len() == old(dst)@.len(),
            dst@.len() >= 6,
            forall|k: int| 0 <= k < i ==> dst@[k] == digits@[k],
            forall|k: int| i <= k < dst@.len() ==> dst@[k] == old(dst)@[k],
        decreases 6 - i,
    {
        dst[i] = digits[i];
        i += 1;
    }
    assert(dst@ =~= digits@ + old(dst)@.skip(6));
}

/// Sixteen to the power of `n`, up to six.
pub open spec fn sixteen_to(n: int) -> int {
    if n == 0 {
        1
    } else if n == 1 {
        0x10
    } else if n == 2 {
        0x100
    } else if n == 3 {
        0x1000
    } else if n == 4 {
        0x1_0000
    } else if n == 5 {
        0x10_0000
    } else {
        0x100_0000
    }
}

/// A hexadecimal digit.
pub open spec fn digit(n: int) -> u8 {
    if n < 10 {
        (n + '0' as u8) as u8
    } else {
        (n - 10 + 'A' as u8) as u8
    }
}

/// The low 24 bits as six hexadecimal digits.
pub open spec fn hex_digits(v: u32) -> Seq<u8> {
    Seq::new(6, |k: int| digit(v as int / sixteen_to(5 - k) % 16))
}

fn hex_digit(n: u8) -> (d: u8)
    requires
        n < 16,
    ensures
        d == digit(n as int),
{
    if n < 10 {
        n + '0' as u8
    } else {
        n - 10 + 'A' as u8
    }
}

/// The front of `out` is a strip that shows `text`, white on dark blue.
pub open spec fn shows(out: Seq<u8>, text: Seq<u8>) -> bool {
    forall|k: int|
        0 <= k < STRIP_BYTES / 2 ==> #[trigger] is_pixel(
            out,
            k,
            lit(text, text.len() as int, k % (WIDTH as int), k / (WIDTH as int)),
        )
}

/// Renders `text` as a strip at the front of `out`.
pub fn draw_strip(text: &[u8], out: &mut [u8])
    requires
        old(out)@.len() >= STRIP_BYTES,
    ensures
        shows(final(out)@, text@),
        final(out)@.len() == old(out)@.len(),
        final(out)@.skip(STRIP_BYTES as int) == old(out)@.skip(STRIP_BYTES as int),
{
    let (front, rest) = out.split_at_mut(STRIP_BYTES);
    proof {
        assert(STRIP_H * WIDTH * 2 == STRIP_BYTES) by (nonlinear_arith)
            requires
                STRIP_H == 36,
                STRIP_BYTES == WIDTH * 72,
        ;
        assert forall|x: int, y: int|
            0 <= x < WIDTH && 0 <= y && #[trigger] lit(
                text@,
                text@.len() as int,
                x,
                y,
            ) implies 2 * (y * WIDTH + x) + 1 < front@.len() by {
            a_strip_holds_any_text(text@, x, y);
        }
    }
    render(text, front);
    let ghost drawn = front@;
    let ghost behind = rest@;
    proof {
        let whole = drawn + behind;
        assert forall|k: int| 0 <= k < STRIP_BYTES / 2 implies #[trigger] is_pixel(
            whole,
            k,
            lit(text@, text@.len() as int, k % (WIDTH as int), k / (WIDTH as int)),
        ) by {
            assert(is_pixel(
                drawn,
                k,
                lit(text@, text@.len() as int, k % (WIDTH as int), k / (WIDTH as int)),
            ));
        }
        assert(whole.skip(STRIP_BYTES as int) =~= behind);
    }
}

/// Wrapped text reads as lines of COLS characters: what stands at place `p` is
/// drawn in line `p / (COLS + 1)`, column `p % (COLS + 1)`.
pub proof fn wrapped_text_fills_lines(text: Seq<u8>, n: nat, p: int)
    requires
        0 <= p < n,
    ensures
        ({
            let shown = Seq::new(n, |i: int| wrapped(text, i));
            &&& line_of(shown, p) == p / (COLS + 1)
            &&& column_of(shown, p) == p % (COLS + 1)
        }),
    decreases p,
{
    let shown = Seq::new(n, |i: int| wrapped(text, i));
    let wide = COLS + 1;
    if p == 0 {
        vstd::arithmetic::div_mod::lemma_fundamental_div_mod_converse(0, wide, 0, 0);
    } else {
        wrapped_text_fills_lines(text, n, p - 1);
        let (line, col) = ((p - 1) / wide, (p - 1) % wide);
        vstd::arithmetic::div_mod::lemma_fundamental_div_mod(p - 1, wide);
        assert(wide * line == line * wide) by (nonlinear_arith);
        wrapped_at(text, line, col);
        if col == COLS {
            assert(shown[p - 1] == '\n' as u8);
            assert((line + 1) * wide == line * wide + wide) by (nonlinear_arith);
            vstd::arithmetic::div_mod::lemma_fundamental_div_mod_converse(p, wide, line + 1, 0);
        } else {
            assert(shown[p - 1] != '\n' as u8);
            vstd::arithmetic::div_mod::lemma_fundamental_div_mod_converse(p, wide, line, col + 1);
        }
    }
}

} // verus!
