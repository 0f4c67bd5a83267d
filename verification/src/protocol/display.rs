//! What the device advertises about itself, and how it encodes it.

use vstd::prelude::*;

use crate::bytes;

verus! {

pub const BYTES_PER_PIXEL: u32 = 2;
pub const COMPRESSION_LZ4: u8 = 1;

pub const MAGIC: u32 = 0x1d50_614d;
pub const VERSION: u8 = 1;
pub const MODE_FLAG_PREFERRED: u32 = 1024;

/// What the device advertises about itself.
#[derive(Clone, Copy, Debug, PartialEq, Eq, Structural)]
pub struct Display {
    pub width: u16,
    pub height: u16,
    /// Bitmask of accepted compression types (`COMPRESSION_LZ4`).
    pub compression: u8,
    /// Largest uncompressed update the host may send, or 0 for unlimited.
    pub max_buffer_size: u32,
}

/// The bytes that `GET_DESCRIPTOR` returns: magic, version, no flags,
/// compression, buffer limit, then the least and greatest width and height.
pub open spec fn descriptor_bytes(d: Display) -> Seq<u8> {
    bytes::le32(MAGIC as int) + seq![VERSION] + bytes::le32(0) + seq![d.compression]
        + bytes::le32(d.max_buffer_size as int) + bytes::le32(d.width as int) + bytes::le32(
        d.width as int,
    ) + bytes::le32(d.height as int) + bytes::le32(d.height as int)
}

/// The display's one mode can be computed in the fields that carry it: the
/// sync positions fit in 16 bits, and the pixel clock at 60 Hz in 32.
pub open spec fn mode_fits(d: Display) -> bool {
    &&& d.width + 2 <= u16::MAX
    &&& d.height + 2 <= u16::MAX
    &&& (d.width + 10) * (d.height + 10) * 60 <= u32::MAX
}

/// The mode of a small display always can.
pub proof fn small_modes_fit(d: Display)
    requires
        d.width <= 1000,
        d.height <= 1000,
    ensures
        mode_fits(d),
{
    let (a, b) = (d.width + 10, d.height + 10);
    assert(a * b * 60 <= 1010 * 1010 * 60) by (nonlinear_arith)
        requires
            0 <= a <= 1010,
            0 <= b <= 1010,
    ;
}

/// The pixel clock of the mode in kHz: the visible size and ten more in each
/// direction, sixty times a second.
pub open spec fn clock_khz(d: Display) -> int {
    (d.width + 10) * (d.height + 10) * 60 / 1000
}

/// The bytes that `GET_CONNECTOR_MODES` returns: the clock, then size, sync
/// start, sync end and total of a line, the same of a frame, and the flags.
pub open spec fn mode_bytes(d: Display) -> Seq<u8> {
    bytes::le32(clock_khz(d)) + bytes::le16(d.width as int) + bytes::le16(d.width + 1)
        + bytes::le16(d.width + 2) + bytes::le16(d.width + 10) + bytes::le16(d.height as int)
        + bytes::le16(d.height + 1) + bytes::le16(d.height + 2) + bytes::le16(d.height + 10)
        + bytes::le32(MODE_FLAG_PREFERRED as int)
}

/// The bytes of one property: its number and its value.
pub open spec fn property_bytes(prop: u16, value: u64) -> Seq<u8> {
    bytes::le16(prop as int) + bytes::le64(value as int)
}

impl Display {
    /// A fixed-size RGB565 panel taking raw updates of any size.
    pub fn new(width: u16, height: u16) -> (d: Self)
        ensures
            d == (Display { width, height, compression: 0, max_buffer_size: 0 }),
    {
        Display { width, height, compression: 0, max_buffer_size: 0 }
    }

    /// Accept LZ4 block compressed updates of at most `max_buffer_size`
    /// uncompressed bytes.
    pub fn with_lz4(self, max_buffer_size: u32) -> (d: Self)
        ensures
            d == (Display { compression: COMPRESSION_LZ4, max_buffer_size, ..self }),
    {
        Display {
            width: self.width,
            height: self.height,
            compression: COMPRESSION_LZ4,
            max_buffer_size,
        }
    }

    /// Bytes in one whole frame.
    pub fn frame_bytes(&self) -> (n: usize)
        requires
            self.width * self.height * BYTES_PER_PIXEL <= usize::MAX,
        ensures
            n == self.width * self.height * BYTES_PER_PIXEL,
    {
        let area: u64 = self.width as u64 * self.height as u64;
        proof {
            let (w, h) = (self.width as int, self.height as int);
            assert(w * h <= 0xffff * 0xffff) by (nonlinear_arith)
                requires
                    0 <= w <= 0xffff,
                    0 <= h <= 0xffff,
            ;
        }
        (area * BYTES_PER_PIXEL as u64) as usize
    }

    /// Writes the display descriptor.
    pub fn descriptor(&self, buf: &mut [u8]) -> (n: usize)
        requires
            old(buf)@.len() >= 30,
        ensures
            n == 30,
            bytes::written(old(buf)@, final(buf)@, 0, descriptor_bytes(*self)),
    {
        bytes::put_le32(buf, 0, MAGIC);
        bytes::put_u8(buf, 4, VERSION);
        bytes::put_le32(buf, 5, 0);  // flags
        bytes::put_u8(buf, 9, self.compression);
        bytes::put_le32(buf, 10, self.max_buffer_size);
        bytes::put_le32(buf, 14, self.width as u32);
        bytes::put_le32(buf, 18, self.width as u32);
        bytes::put_le32(buf, 22, self.height as u32);
        bytes::put_le32(buf, 26, self.height as u32);
        assert(buf@.take(30) =~= old(buf)@.take(0) + descriptor_bytes(*self));
        30
    }

    /// Writes one preferred mode at about 60 Hz. Blanking is fictional (SPI
    /// panels have no sync signals) but hosts expect a mode that is
    /// electrically plausible and works out to a sane refresh rate.
    pub fn mode(&self, buf: &mut [u8]) -> (n: usize)
        requires
            old(buf)@.len() >= 24,
            mode_fits(*self),
        ensures
            n == 24,
            bytes::written(old(buf)@, final(buf)@, 0, mode_bytes(*self)),
    {
        let (w, h) = (self.width, self.height);
        let htotal: u32 = w as u32 + 10;
        let vtotal: u32 = h as u32 + 10;
        proof {
            let (a, b) = (htotal as int, vtotal as int);
            assert(0 <= a * b <= a * b * 60) by (nonlinear_arith)
                requires
                    a >= 0,
                    b >= 0,
            ;
        }
        let clock_khz: u32 = htotal * vtotal * 60 / 1000;
        proof {
            bytes::le16_keeps_low_bits(htotal as int);
            bytes::le16_keeps_low_bits(vtotal as int);
            assert(clock_khz == self::clock_khz(*self));
        }
        bytes::put_le32(buf, 0, clock_khz);
        proof {
            bytes::written_at_front(old(buf)@, buf@, bytes::le32(clock_khz as int));
        }
        bytes::put_le16(buf, 4, w);
        bytes::put_le16(buf, 6, w + 1);
        bytes::put_le16(buf, 8, w + 2);
        bytes::put_le16(buf, 10, (htotal % 0x1_0000) as u16);
        bytes::put_le16(buf, 12, h);
        bytes::put_le16(buf, 14, h + 1);
        bytes::put_le16(buf, 16, h + 2);
        bytes::put_le16(buf, 18, (vtotal % 0x1_0000) as u16);
        bytes::put_le32(buf, 20, MODE_FLAG_PREFERRED);
        proof {
            bytes::written_at_front(old(buf)@, buf@, mode_bytes(*self));
        }
        24
    }
}

/// Writes one property.
pub fn property(buf: &mut [u8], prop: u16, value: u64) -> (n: usize)
    requires
        old(buf)@.len() >= 10,
    ensures
        n == 10,
        bytes::written(old(buf)@, final(buf)@, 0, property_bytes(prop, value)),
{
    bytes::put_le16(buf, 0, prop);
    bytes::put_le32(buf, 2, (value % 0x1_0000_0000) as u32);
    bytes::put_le32(buf, 6, (value / 0x1_0000_0000) as u32);
    assert(buf@.take(10) =~= old(buf)@.take(0) + property_bytes(prop, value));
    10
}

} // verus!
