//! The 1.69" 240x280 ST7789V2 panel on Waveshare's Touch-LCD-1.69 boards:
//! geometry, a minimal command driver, and the on-glass diagnostics the
//! firmware draws with it.
//!
//! The driver only owns the control pins and issues commands over a borrowed
//! SPI bus, so the firmware can push pixel data on the same bus however it
//! likes (blocking writes, DMA). The controller's RAM is 240x320; the
//! visible 280 rows sit 20 rows in.
//!
//! The panel is used upright. To use it as 280x240 instead, let `geometry`
//! name [`landscape`].

use vstd::prelude::*;

pub mod controller;
pub mod landscape;
pub mod lettering;
pub mod picture;
pub mod portrait;
pub mod splash;
pub mod st7789;
pub mod strip;

pub use crate::panel::portrait as geometry;

pub use geometry::{HEIGHT, HEIGHT_TENTH_MM, WIDTH, WIDTH_TENTH_MM};

pub use crate::panel::st7789::{PanelOp, St7789};

verus! {

pub const BYTES_PER_PIXEL: usize = 2;
/// One full frame of RGB565.
pub const FRAME_BYTES: usize = 240 * 280 * BYTES_PER_PIXEL;

pub const BAR_COLORS: [u16; 8] = [
    0xF800, 0x07E0, 0x001F, 0xFFE0, 0xF81F, 0x07FF, 0xFFFF, 0x0000,
];

/// The colour of the bar that column `x` is in.
pub open spec fn bar_color(x: int) -> u16 {
    BAR_COLORS@[x * 8 / (WIDTH as int)]
}

/// Full-width rows of colour bars over `before`, big-endian RGB565. Half a
/// pixel at the end stays as it was.
pub open spec fn with_bars(before: Seq<u8>) -> Seq<u8> {
    Seq::new(
        before.len(),
        |b: int|
            {
                let color = bar_color(b / 2 % (WIDTH as int));
                if b >= before.len() / 2 * 2 {
                    before[b]
                } else if b % 2 == 0 {
                    (color / 256) as u8
                } else {
                    (color % 256) as u8
                }
            },
    )
}

/// Fill `out` with full-width rows of eight vertical color bars, big-endian
/// RGB565, for testing panel initialization and the pixel path.
pub fn color_bars(out: &mut [u8])
    ensures
        final(out)@ == with_bars(old(out)@),
{
    let len: usize = out.len() / 2 * 2;
    let mut i: usize = 0;
    while i < len
        invariant
            out@.len() == old(out)@.len(),
            len == out@.len() / 2 * 2,
            i % 2 == 0,
            i <= len,
            forall|k: int| 0 <= k < i ==> out@[k] == with_bars(old(out)@)[k],
            forall|k: int| i <= k < out@.len() ==> out@[k] == old(out)@[k],
        decreases len - i,
    {
        let x: usize = i / 2 % WIDTH as usize;
        let color: u16 = BAR_COLORS[x * 8 / WIDTH as usize];
        out[i] = (color / 256) as u8;
        out[i + 1] = (color % 256) as u8;
        i += 2;
    }
    assert(out@ =~= with_bars(old(out)@));
}

/// Every row of colour bars is the same.
pub proof fn bars_are_vertical(before: Seq<u8>, b: int)
    requires
        0 <= b,
        b + 2 * WIDTH < before.len() / 2 * 2,
    ensures
        with_bars(before)[b + 2 * WIDTH] == with_bars(before)[b],
{
    vstd::arithmetic::div_mod::lemma_mod_add_multiples_vanish(b / 2, WIDTH as int);
}

/// An RGB565 colour with eight bits for each part: the missing low bits are the
/// high ones again.
pub fn rgb888(color: u16) -> (rgb: [u8; 3])
    ensures
        ({
            let (r, g, b) = (color / 2048, color / 32 % 64, color % 32);
            rgb@ == seq![(r * 8 + r / 4) as u8, (g * 4 + g / 16) as u8, (b * 8 + b / 4) as u8]
        }),
{
    let r: u16 = color / 2048;
    let g: u16 = color / 32 % 64;
    let b: u16 = color % 32;
    let rgb: [u8; 3] = [(r * 8 + r / 4) as u8, (g * 4 + g / 16) as u8, (b * 8 + b / 4) as u8];
    assert(rgb@ =~= seq![(r * 8 + r / 4) as u8, (g * 4 + g / 16) as u8, (b * 8 + b / 4) as u8]);
    rgb
}

} // verus!
