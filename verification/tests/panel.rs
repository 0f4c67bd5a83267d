use gudlet::panel::splash::{render_rows, BACKGROUND, MINT, WHITE};
use gudlet::panel::st7789::{is_addressable, solid_chunk};
use gudlet::panel::strip::{draw_strip, glyph, hex, render, wrap, COLS, STRIP_BYTES, STRIP_H};
use gudlet::panel::{color_bars, rgb888, PanelOp, St7789, FRAME_BYTES, HEIGHT, WIDTH};

#[test]
fn color_bars_are_vertical() {
    let mut out = [0u8; WIDTH as usize * 2 * 2];
    color_bars(&mut out);
    let row = WIDTH as usize * 2;
    assert_eq!(&out[..row], &out[row..]);
    assert_eq!(&out[..2], &[0xF8, 0x00]);
    assert_eq!(&out[row - 2..row], &[0x00, 0x00]);
}

#[test]
fn color_bars_leave_half_a_pixel() {
    let mut out = [7u8; 63];
    color_bars(&mut out);
    assert_eq!(&out[..2], &[0xF8, 0x00]);
    assert_eq!(&out[60..], &[0x07, 0xE0, 7]);
}

#[test]
fn rendering_in_bands_matches_a_full_frame() {
    let mut full = [0; FRAME_BYTES];
    render_rows(0, &mut full);
    let mut row = [0; WIDTH as usize * 2];
    for y in 0..HEIGHT {
        render_rows(y, &mut row);
        let offset = y as usize * row.len();
        assert_eq!(&row[..], &full[offset..offset + row.len()]);
    }
    assert_eq!(&full[..2], &BACKGROUND.to_be_bytes());
    assert!(full.chunks_exact(2).any(|px| px == MINT.to_be_bytes()));
    assert!(full.chunks_exact(2).any(|px| px == WHITE.to_be_bytes()));
}

fn logo_pixel(x: usize, y: usize) -> u16 {
    let mut row = [0; WIDTH as usize * 2];
    render_rows(y as u16, &mut row);
    u16::from_be_bytes([row[2 * x], row[2 * x + 1]])
}

#[test]
fn the_logo_is_a_monitor_with_a_face_and_a_word() {
    let (left, top) = (WIDTH as usize / 2 - 30, HEIGHT as usize / 2 - 54);
    // The corner is rounded off; the middle of the bezel is three pixels wide.
    assert_eq!(logo_pixel(left, top), BACKGROUND);
    assert_eq!(logo_pixel(left + 30, top), MINT);
    assert_eq!(logo_pixel(left + 30, top + 2), MINT);
    assert_eq!(logo_pixel(left + 30, top + 3), BACKGROUND);
    // The pedestal, an eye and the smile.
    assert_eq!(logo_pixel(left + 27, top + 45), MINT);
    assert_eq!(logo_pixel(left + 19, top + 17), WHITE);
    assert_eq!(logo_pixel(left + 30, top + 29), WHITE);
    // The letters start 70 pixels left of the middle: the g's bowl.
    assert_eq!(logo_pixel(WIDTH as usize / 2 - 70, top + 72 + 8), BACKGROUND);
    assert_eq!(logo_pixel(WIDTH as usize / 2 - 66, top + 72 + 8), WHITE);
}

#[test]
fn colors_widen_to_eight_bits() {
    assert_eq!(rgb888(0xFFFF), [255, 255, 255]);
    assert_eq!(rgb888(0x0000), [0, 0, 0]);
    assert_eq!(rgb888(0xF800), [255, 0, 0]);
    assert_eq!(rgb888(MINT), [90, 227, 181]);
}

fn white(out: &[u8], x: usize, y: usize) -> bool {
    let i = 2 * (y * WIDTH as usize + x);
    match &out[i..i + 2] {
        [0xFF, 0xFF] => true,
        [0x00, 0x08] => false,
        other => panic!("{other:?}"),
    }
}

#[test]
fn text_is_drawn_two_pixels_to_a_dot() {
    let mut out = vec![1u8; STRIP_BYTES];
    render(b"1\nx", &mut out);
    // A 1: .#. / ##. / .#. / .#. / ###
    for (y, row) in [".#.", "##.", ".#.", ".#.", "###"].iter().enumerate() {
        for (x, dot) in row.bytes().enumerate() {
            for (dx, dy) in [(0, 0), (1, 0), (0, 1), (1, 1)] {
                assert_eq!(white(&out, 2 * x + dx, 2 * y + dy), dot == b'#');
            }
        }
    }
    assert!(!white(&out, 6, 0) && !white(&out, 0, 10));
    // Lowercase is drawn as a capital, on the second line.
    assert!(white(&out, 0, 12) && !white(&out, 2, 12) && white(&out, 2, 16));
}

#[test]
fn text_outside_of_the_strip_is_not_drawn() {
    let mut out = vec![0u8; STRIP_BYTES];
    let mut text = vec![b' '; COLS];
    text.extend_from_slice(b"8\n\n\n8");
    render(&text, &mut out);
    for y in 0..STRIP_H {
        for x in 0..WIDTH as usize {
            assert!(!white(&out, x, y));
        }
    }
}

#[test]
fn a_strip_leaves_what_is_behind_it() {
    let mut out = vec![3u8; STRIP_BYTES + 4];
    draw_strip(b"E", &mut out);
    assert!(white(&out, 0, 0));
    assert_eq!(&out[STRIP_BYTES..], &[3; 4]);
}

#[test]
fn wrapping_breaks_at_the_last_column() {
    let mut out = [b'#'; 128];
    assert_eq!(wrap(b"ab\nc", &mut out), 4);
    assert_eq!(&out[..5], b"ab c#");
    let text = vec![b'x'; COLS + 2];
    assert_eq!(wrap(&text, &mut out), COLS + 3);
    assert_eq!(out[COLS - 1], b'x');
    assert_eq!(out[COLS], b'\n');
    assert_eq!(&out[COLS + 1..COLS + 3], b"xx");
}

#[test]
fn wrapping_ends_with_the_strip_or_the_buffer() {
    let mut out = [0u8; 256];
    assert_eq!(wrap(&vec![b'x'; 3 * COLS], &mut out), 3 * COLS + 2);
    assert_eq!(wrap(&vec![b'x'; 3 * COLS + 5], &mut out), 3 * COLS + 3);
    assert_eq!(out[3 * COLS + 2], b'\n');
    // A byte is kept in reserve for a line end.
    assert_eq!(wrap(b"abcdef", &mut out[..4]), 3);
    assert_eq!(wrap(b"abcdef", &mut out[..1]), 0);
}

#[test]
fn hex_writes_the_low_six_digits() {
    let mut dst = [b'.'; 8];
    hex(0x12AB_C0DE, &mut dst);
    assert_eq!(&dst, b"ABC0DE..");
}

fn write(bytes: &[u8]) -> PanelOp {
    PanelOp::Write(bytes.to_vec())
}

#[test]
fn init_resets_and_sets_up_the_controller() {
    let script = St7789::new().init();
    assert_eq!(
        &script[..7],
        &[
            PanelOp::Cs(true),
            PanelOp::Rst(true),
            PanelOp::DelayMs(100),
            PanelOp::Rst(false),
            PanelOp::DelayMs(100),
            PanelOp::Rst(true),
            PanelOp::DelayMs(100),
        ]
    );
    assert_eq!(
        &script[7..15],
        &[
            PanelOp::Cs(false),
            PanelOp::Dc(false),
            write(&[0x36]),
            PanelOp::Flush,
            PanelOp::Dc(true),
            write(&[0x00]),
            PanelOp::Flush,
            PanelOp::Cs(true),
        ]
    );
    let commands: Vec<u8> = script
        .windows(2)
        .filter_map(|w| match (&w[0], &w[1]) {
            (PanelOp::Dc(false), PanelOp::Write(b)) => Some(b[0]),
            _ => None,
        })
        .collect();
    assert_eq!(
        commands,
        [
            0x36, 0x3A, 0xB2, 0xB7, 0xBB, 0xC0, 0xC2, 0xC3, 0xC4, 0xC6, 0xD0, 0xD6, 0xE0, 0xE1,
            0xE4, 0x21, 0x11, 0x29
        ]
    );
    assert_eq!(
        &script[script.len() - 6..],
        &[
            PanelOp::DelayMs(120),
            PanelOp::Cs(false),
            PanelOp::Dc(false),
            write(&[0x29]),
            PanelOp::Flush,
            PanelOp::Cs(true),
        ]
    );
}

#[test]
fn a_rectangle_is_offset_and_left_open() {
    let script = St7789::new().begin_rect(10, 250, 230, 30);
    assert_eq!(script[5], write(&[0, 10, 0, 239]));
    assert_eq!(script[13], write(&[1, 14, 1, 43]));
    assert_eq!(
        &script[16..],
        &[
            PanelOp::Cs(false),
            PanelOp::Dc(false),
            PanelOp::TryWrite(vec![0x2C]),
            PanelOp::Flush,
            PanelOp::Dc(true),
        ]
    );
    assert_eq!(St7789::new().end_rect(), [PanelOp::Cs(true)]);
    assert!(is_addressable(0, 0, 240, 280));
    assert!(!is_addressable(1, 0, u16::MAX, 280));
}

#[test]
fn filling_and_the_logo_cover_the_panel() {
    let lcd = St7789::new();
    let fill = lcd.fill(0x1234);
    assert_eq!(fill[21], PanelOp::Fill { color: 0x1234, bytes: FRAME_BYTES });
    assert_eq!(&fill[22..], &[PanelOp::Flush, PanelOp::Cs(true)]);
    let logo = lcd.show_boot_logo();
    assert_eq!(logo[21], PanelOp::Logo { rows: HEIGHT });
    let chunk = solid_chunk(0x1234);
    assert!(chunk.chunks(2).all(|px| px == [0x12, 0x34]));
    assert_eq!(lcd.set_display_on(false)[2], write(&[0x28]));
    assert_eq!(lcd.set_display_on(true)[2], write(&[0x29]));
}

#[test]
fn glyphs_are_three_by_five() {
    for c in 0..=255u8 {
        let g = glyph(c);
        assert_eq!(g, glyph(c.to_ascii_uppercase()));
        assert!(g.iter().all(|row| *row < 8));
        let shown = c.is_ascii_alphanumeric() || b":./-_()`'".contains(&c);
        assert_eq!(g != [0; 5], shown);
    }
    assert_eq!(glyph(b'A'), [0b111, 0b101, 0b111, 0b101, 0b101]);
    assert_eq!(glyph(b'`'), glyph(b'\''));
}
