//! The panel controller's command sequences, as scripts for whoever owns the
//! control pins and the SPI bus.

use vstd::prelude::*;

use crate::bytes;
use crate::chunks;
use crate::panel::geometry::{MADCTL, RAM_HEIGHT, RAM_WIDTH, X_OFFSET, Y_OFFSET};
use crate::panel::{FRAME_BYTES, HEIGHT, WIDTH};

verus! {

pub const CMD_SLPOUT: u8 = 0x11;
pub const CMD_INVON: u8 = 0x21;
pub const CMD_DISPOFF: u8 = 0x28;
pub const CMD_DISPON: u8 = 0x29;
pub const CMD_CASET: u8 = 0x2A;
pub const CMD_RASET: u8 = 0x2B;
pub const CMD_RAMWR: u8 = 0x2C;
pub const CMD_MADCTL: u8 = 0x36;
pub const CMD_COLMOD: u8 = 0x3A;

/// Bytes of one colour that are written in one go.
pub const FILL_CHUNK: usize = 64;

/// One thing to do with the panel.
#[derive(Debug, PartialEq, Eq)]
pub enum PanelOp {
    /// Chip select, high or low.
    Cs(bool),
    /// Data (high) or command (low).
    Dc(bool),
    /// Reset, high or low.
    Rst(bool),
    DelayMs(u32),
    /// Write to the bus; a failure is fatal.
    Write(Vec<u8>),
    /// Write to the bus; a failure is ignored.
    TryWrite(Vec<u8>),
    /// Write so many bytes of one colour, in chunks of `FILL_CHUNK` bytes (see
    /// [`solid_chunk`]); a failure is ignored.
    Fill { color: u16, bytes: usize },
    /// Write the rows of the boot logo, one after the other (see
    /// [`crate::panel::splash::render_rows`]); a failure is fatal.
    Logo { rows: u16 },
    /// Wait until everything written has clocked out; a failure is ignored.
    Flush,
    /// Wait until everything written has clocked out; a failure is fatal.
    MustFlush,
    /// Wait for the transfer in flight, if there is one.
    Settle,
    /// Start to transfer these bytes of a band's pixels, once the transfer
    /// before has finished.
    Send { from: usize, to: usize },
}

/// One thing to do with the panel, with its bytes as a sequence.
#[verifier::ext_equal]
pub enum Op {
    Cs(bool),
    Dc(bool),
    Rst(bool),
    DelayMs(u32),
    Write(Seq<u8>),
    TryWrite(Seq<u8>),
    Fill { color: u16, bytes: usize },
    Logo { rows: u16 },
    Flush,
    MustFlush,
    Settle,
    Send { from: usize, to: usize },
}

impl View for PanelOp {
    type V = Op;

    open spec fn view(&self) -> Op {
        match *self {
            PanelOp::Cs(high) => Op::Cs(high),
            PanelOp::Dc(high) => Op::Dc(high),
            PanelOp::Rst(high) => Op::Rst(high),
            PanelOp::DelayMs(ms) => Op::DelayMs(ms),
            PanelOp::Write(bytes) => Op::Write(bytes@),
            PanelOp::TryWrite(bytes) => Op::TryWrite(bytes@),
            PanelOp::Fill { color, bytes } => Op::Fill { color, bytes },
            PanelOp::Logo { rows } => Op::Logo { rows },
            PanelOp::Flush => Op::Flush,
            PanelOp::MustFlush => Op::MustFlush,
            PanelOp::Settle => Op::Settle,
            PanelOp::Send { from, to } => Op::Send { from, to },
        }
    }
}

/// What a script does, in order.
pub open spec fn ops(script: Seq<PanelOp>) -> Seq<Op> {
    Seq::new(script.len(), |i: int| script[i]@)
}

/// One command with its data: the command byte with DC low, then the data, if
/// any, with DC high, all with CS low.
pub open spec fn command_ops(cmd: u8, data: Seq<u8>) -> Seq<Op> {
    seq![Op::Cs(false), Op::Dc(false), Op::Write(seq![cmd]), Op::Flush] + (if data.len() > 0 {
        seq![Op::Dc(true), Op::Write(data), Op::Flush]
    } else {
        seq![]
    }) + seq![Op::Cs(true)]
}

/// Selects a rectangle of the controller's RAM, in which the visible part sits
/// at an offset, and leaves a RAM write open.
pub open spec fn begin_rect_ops(x: int, y: int, width: int, height: int) -> Seq<Op> {
    let x0 = x + X_OFFSET;
    let y0 = y + Y_OFFSET;
    command_ops(CMD_CASET, bytes::be16(x0) + bytes::be16(x0 + width - 1)) + command_ops(
        CMD_RASET,
        bytes::be16(y0) + bytes::be16(y0 + height - 1),
    ) + seq![
        Op::Cs(false),
        Op::Dc(false),
        Op::TryWrite(seq![CMD_RAMWR]),
        Op::Flush,
        Op::Dc(true),
    ]
}

/// The corners of the rectangle are numbers that the controller can be told.
pub open spec fn addressable(x: u16, y: u16, width: u16, height: u16) -> bool {
    &&& 1 <= x + X_OFFSET + width <= u16::MAX
    &&& 1 <= y + Y_OFFSET + height <= u16::MAX
}

/// Whether the corners of the rectangle are numbers that the controller can be
/// told.
pub fn is_addressable(x: u16, y: u16, width: u16, height: u16) -> (fits: bool)
    ensures
        fits == addressable(x, y, width, height),
{
    let right: u32 = x as u32 + X_OFFSET as u32 + width as u32;
    let bottom: u32 = y as u32 + Y_OFFSET as u32 + height as u32;
    1 <= right && right <= 0xffff && 1 <= bottom && bottom <= 0xffff
}

/// What is visible lies in the controller's RAM: every rectangle on the panel
/// can be told to the controller, and none reaches beyond its RAM.
pub proof fn windows_lie_in_the_ram(x: u16, y: u16, width: u16, height: u16)
    requires
        width > 0,
        height > 0,
        x + width <= WIDTH,
        y + height <= HEIGHT,
    ensures
        addressable(x, y, width, height),
        x + X_OFFSET + width - 1 < RAM_WIDTH,
        y + Y_OFFSET + height - 1 < RAM_HEIGHT,
{
}

/// The commands of the panel vendor's register sequence, up to the wake-up.
pub open spec fn setup_commands() -> Seq<(u8, Seq<u8>)> {
    seq![
        (CMD_MADCTL, seq![MADCTL]),
        (CMD_COLMOD, seq![0x05u8]),  // 16 bpp
        (0xB2, seq![0x0Bu8, 0x0B, 0x00, 0x33, 0x35]),  // porch control
        (0xB7, seq![0x11u8]),  // gate control
        (0xBB, seq![0x35u8]),  // VCOM
        (0xC0, seq![0x2Cu8]),  // LCM control
        (0xC2, seq![0x01u8]),  // VDV/VRH enable
        (0xC3, seq![0x0Du8]),  // VRH
        (0xC4, seq![0x20u8]),  // VDV
        (0xC6, seq![0x13u8]),  // frame rate
        (0xD0, seq![0xA4u8, 0xA1]),  // power control
        (0xD6, seq![0xA1u8]),
        (
            0xE0,
            seq![
                0xF0u8, 0x06, 0x0B, 0x0A, 0x09, 0x26, 0x29, 0x33, 0x41, 0x18, 0x16, 0x15, 0x29,
                0x2D,
            ],
        ),
        (
            0xE1,
            seq![
                0xF0u8, 0x04, 0x08, 0x08, 0x07, 0x03, 0x28, 0x32, 0x40, 0x3B, 0x19, 0x18, 0x2A,
                0x2E,
            ],
        ),
        (0xE4, seq![0x25u8, 0x00, 0x00]),  // gate scan (320 lines)
        (CMD_INVON, seq![]),
        (CMD_SLPOUT, seq![]),
    ]
}

/// Several commands, one after the other.
pub open spec fn all_command_ops(commands: Seq<(u8, Seq<u8>)>) -> Seq<Op>
    decreases commands.len(),
{
    if commands.len() == 0 {
        seq![]
    } else {
        all_command_ops(commands.drop_last()) + command_ops(commands.last().0, commands.last().1)
    }
}

/// Hardware reset.
pub open spec fn reset_ops() -> Seq<Op> {
    seq![
        Op::Cs(true),
        Op::Rst(true),
        Op::DelayMs(100),
        Op::Rst(false),
        Op::DelayMs(100),
        Op::Rst(true),
        Op::DelayMs(100),
    ]
}

/// Hardware reset followed by the panel vendor's register sequence.
pub open spec fn init_ops() -> Seq<Op> {
    reset_ops() + all_command_ops(setup_commands()) + seq![Op::DelayMs(120)] + command_ops(
        CMD_DISPON,
        seq![],
    )
}

/// Sends a band's pixels in pieces.
pub open spec fn send_ops(len: nat, size: nat) -> Seq<Op> {
    let spans = chunks::spans(len, 0, size);
    Seq::new(
        spans.len(),
        |i: int| Op::Send { from: spans[i].0 as usize, to: spans[i].1 as usize },
    )
}

/// Appends what sends a band's pixels in pieces.
pub(crate) fn send(script: &mut Vec<PanelOp>, len: usize, size: usize)
    requires
        size > 0,
    ensures
        ops(final(script)@) == ops(old(script)@) + send_ops(len as nat, size as nat),
{
    let ghost all = chunks::spans(len as nat, 0, size as nat);
    let ghost mut done: nat = 0;
    let mut at: usize = 0;
    while at < len
        invariant
            at <= len,
            size > 0,
            done <= all.len(),
            all == chunks::spans(len as nat, 0, size as nat),
            all.skip(done as int) == chunks::spans(len as nat, at as nat, size as nat),
            ops(script@) == ops(old(script)@) + send_ops(len as nat, size as nat).take(done as int),
        decreases len - at,
    {
        let end: usize = chunks::next_piece(len, at, size);
        push(script, PanelOp::Send { from: at, to: end });
        proof {
            let left = all.skip(done as int);
            assert(left.len() > 0);
            assert(left.len() == all.len() - done);
            assert(left[0] == (at as nat, end as nat));
            assert(all[done as int] == left[0]);
            assert(left.skip(1) =~= chunks::spans(len as nat, end as nat, size as nat));
            assert(all.skip(done as int + 1) =~= left.skip(1));
            let sends = send_ops(len as nat, size as nat);
            assert(sends.take(done as int + 1) =~= sends.take(done as int).push(sends[done as int]));
            done = done + 1;
        }
        at = end;
    }
    proof {
        assert(all.skip(done as int).len() == 0);
        let sends = send_ops(len as nat, size as nat);
        assert(sends.take(done as int) =~= sends);
    }
}

pub(crate) fn push(script: &mut Vec<PanelOp>, op: PanelOp)
    ensures
        ops(final(script)@) == ops(old(script)@).push(op@),
{
    script.push(op);
    assert(ops(script@) =~= ops(old(script)@).push(op@));
}

/// The bytes of a slice.
fn copy_of(data: &[u8]) -> (v: Vec<u8>)
    ensures
        v@ == data@,
{
    let mut v: Vec<u8> = Vec::new();
    let mut i: usize = 0;
    while i < data.len()
        invariant
            i <= data@.len(),
            v@ == data@.take(i as int),
        decreases data@.len() - i,
    {
        v.push(data[i]);
        i += 1;
        assert(data@.take(i as int) =~= data@.take(i - 1).push(data@[i - 1]));
    }
    assert(data@.take(i as int) =~= data@);
    v
}

pub(crate) fn command(script: &mut Vec<PanelOp>, cmd: u8, data: &[u8])
    ensures
        ops(final(script)@) == ops(old(script)@) + command_ops(cmd, data@),
{
    push(script, PanelOp::Cs(false));
    push(script, PanelOp::Dc(false));
    let byte = copy_of(&[cmd]);
    assert(byte@ =~= seq![cmd]);
    push(script, PanelOp::Write(byte));
    push(script, PanelOp::Flush);
    if data.len() > 0 {
        push(script, PanelOp::Dc(true));
        push(script, PanelOp::Write(copy_of(data)));
        push(script, PanelOp::Flush);
    }
    push(script, PanelOp::Cs(true));
    assert(ops(script@) =~= ops(old(script)@) + command_ops(cmd, data@));
}

/// Appends command `k` of the register sequence.
fn setup_command(script: &mut Vec<PanelOp>, Ghost(k): Ghost<int>, cmd: u8, data: &[u8])
    requires
        0 <= k < setup_commands().len(),
        ops(old(script)@) == reset_ops() + all_command_ops(setup_commands().take(k)),
        setup_commands()[k].0 == cmd,
        setup_commands()[k].1 =~= data@,
    ensures
        ops(final(script)@) == reset_ops() + all_command_ops(setup_commands().take(k + 1)),
{
    command(script, cmd, data);
    let ghost done = setup_commands().take(k + 1);
    assert(done.drop_last() =~= setup_commands().take(k));
    assert(done.last() == setup_commands()[k]);
    assert(ops(script@) =~= reset_ops() + all_command_ops(done));
}

/// Switches the display on or off.
pub open spec fn display_ops(on: bool) -> Seq<Op> {
    command_ops(
        if on {
            CMD_DISPON
        } else {
            CMD_DISPOFF
        },
        seq![],
    )
}

/// Appends what switches the display on or off.
pub(crate) fn switch_display(script: &mut Vec<PanelOp>, on: bool)
    ensures
        ops(final(script)@) == ops(old(script)@) + display_ops(on),
{
    let cmd: u8 = if on {
        CMD_DISPON
    } else {
        CMD_DISPOFF
    };
    let none: [u8; 0] = [];
    command(script, cmd, &none);
    assert(none@ =~= seq![]);
}

/// Appends what selects a rectangle and opens a RAM write.
pub(crate) fn open_rect(script: &mut Vec<PanelOp>, x: u16, y: u16, width: u16, height: u16)
    requires
        addressable(x, y, width, height),
    ensures
        ops(final(script)@) == ops(old(script)@) + begin_rect_ops(
            x as int,
            y as int,
            width as int,
            height as int,
        ),
{
    let x0: u16 = x + X_OFFSET;
    let x1: u16 = x0 + width - 1;
    let y0: u16 = y + Y_OFFSET;
    let y1: u16 = y0 + height - 1;
    let columns: [u8; 4] = be_pair(x0, x1);
    let rows: [u8; 4] = be_pair(y0, y1);
    command(script, CMD_CASET, &columns);
    command(script, CMD_RASET, &rows);

    push(script, PanelOp::Cs(false));
    push(script, PanelOp::Dc(false));
    let byte = copy_of(&[CMD_RAMWR]);
    assert(byte@ =~= seq![CMD_RAMWR]);
    push(script, PanelOp::TryWrite(byte));
    push(script, PanelOp::Flush);
    push(script, PanelOp::Dc(true));
    assert(ops(script@) =~= ops(old(script)@) + begin_rect_ops(
        x as int,
        y as int,
        width as int,
        height as int,
    ));
}

pub struct St7789;

impl St7789 {
    pub fn new() -> Self {
        St7789
    }

    /// Hardware reset followed by the panel vendor's register sequence.
    pub fn init(&self) -> (script: Vec<PanelOp>)
        ensures
            ops(script@) == init_ops(),
    {
        let mut script: Vec<PanelOp> = Vec::new();
        let s = &mut script;
        push(s, PanelOp::Cs(true));
        push(s, PanelOp::Rst(true));
        push(s, PanelOp::DelayMs(100));
        push(s, PanelOp::Rst(false));
        push(s, PanelOp::DelayMs(100));
        push(s, PanelOp::Rst(true));
        push(s, PanelOp::DelayMs(100));

        assert(ops(s@) =~= reset_ops() + all_command_ops(setup_commands().take(0)));
        setup_command(s, Ghost(0), CMD_MADCTL, &[MADCTL]);
        setup_command(s, Ghost(1), CMD_COLMOD, &[0x05]);  // 16 bpp
        setup_command(s, Ghost(2), 0xB2, &[0x0B, 0x0B, 0x00, 0x33, 0x35]);  // porch control
        setup_command(s, Ghost(3), 0xB7, &[0x11]);  // gate control
        setup_command(s, Ghost(4), 0xBB, &[0x35]);  // VCOM
        setup_command(s, Ghost(5), 0xC0, &[0x2C]);  // LCM control
        setup_command(s, Ghost(6), 0xC2, &[0x01]);  // VDV/VRH enable
        setup_command(s, Ghost(7), 0xC3, &[0x0D]);  // VRH
        setup_command(s, Ghost(8), 0xC4, &[0x20]);  // VDV
        setup_command(s, Ghost(9), 0xC6, &[0x13]);  // frame rate
        setup_command(s, Ghost(10), 0xD0, &[0xA4, 0xA1]);  // power control
        setup_command(s, Ghost(11), 0xD6, &[0xA1]);
        setup_command(
            s,
            Ghost(12),
            0xE0,
            &[0xF0, 0x06, 0x0B, 0x0A, 0x09, 0x26, 0x29, 0x33, 0x41, 0x18, 0x16, 0x15, 0x29, 0x2D],
        );
        setup_command(
            s,
            Ghost(13),
            0xE1,
            &[0xF0, 0x04, 0x08, 0x08, 0x07, 0x03, 0x28, 0x32, 0x40, 0x3B, 0x19, 0x18, 0x2A, 0x2E],
        );
        setup_command(s, Ghost(14), 0xE4, &[0x25, 0x00, 0x00]);  // gate scan (320 lines)
        setup_command(s, Ghost(15), CMD_INVON, &[]);
        setup_command(s, Ghost(16), CMD_SLPOUT, &[]);
        assert(setup_commands().take(17) =~= setup_commands());
        let ghost set_up = ops(s@);
        push(s, PanelOp::DelayMs(120));
        command(s, CMD_DISPON, &[]);
        assert(ops(script@) =~= set_up + seq![Op::DelayMs(120)] + command_ops(CMD_DISPON, seq![]));
        script
    }

    /// Select a rectangle and open a RAM write. Big-endian RGB565 pixel
    /// data written on the bus afterwards fills it row by row until
    /// `end_rect`.
    pub fn begin_rect(&self, x: u16, y: u16, width: u16, height: u16) -> (script: Vec<PanelOp>)
        requires
            addressable(x, y, width, height),
        ensures
            ops(script@) == begin_rect_ops(x as int, y as int, width as int, height as int),
    {
        let mut script: Vec<PanelOp> = Vec::new();
        open_rect(&mut script, x, y, width, height);
        assert(ops(script@) =~= begin_rect_ops(x as int, y as int, width as int, height as int));
        script
    }

    /// Raise CS. The caller makes sure the last pixel has clocked out first.
    pub fn end_rect(&self) -> (script: Vec<PanelOp>)
        ensures
            ops(script@) == seq![Op::Cs(true)],
    {
        let mut script: Vec<PanelOp> = Vec::new();
        push(&mut script, PanelOp::Cs(true));
        assert(ops(script@) =~= seq![Op::Cs(true)]);
        script
    }

    /// Fill the panel with one colour.
    pub fn fill(&self, color: u16) -> (script: Vec<PanelOp>)
        ensures
            ops(script@) == begin_rect_ops(0, 0, WIDTH as int, HEIGHT as int) + seq![
                Op::Fill { color, bytes: FRAME_BYTES },
                Op::Flush,
                Op::Cs(true),
            ],
    {
        let mut script = self.begin_rect(0, 0, WIDTH, HEIGHT);
        let ghost opened = ops(script@);
        push(&mut script, PanelOp::Fill { color, bytes: FRAME_BYTES });
        push(&mut script, PanelOp::Flush);
        push(&mut script, PanelOp::Cs(true));
        assert(ops(script@) =~= opened + seq![
            Op::Fill { color, bytes: FRAME_BYTES },
            Op::Flush,
            Op::Cs(true),
        ]);
        script
    }

    pub fn set_display_on(&self, on: bool) -> (script: Vec<PanelOp>)
        ensures
            ops(script@) == display_ops(on),
    {
        let mut script: Vec<PanelOp> = Vec::new();
        switch_display(&mut script, on);
        assert(ops(script@) =~= display_ops(on));
        script
    }

    /// Draw the shared boot logo using only one row of scratch RAM.
    pub fn show_boot_logo(&self) -> (script: Vec<PanelOp>)
        ensures
            ops(script@) == begin_rect_ops(0, 0, WIDTH as int, HEIGHT as int) + seq![
                Op::Logo { rows: HEIGHT },
                Op::Flush,
                Op::Cs(true),
            ],
    {
        let mut script = self.begin_rect(0, 0, WIDTH, HEIGHT);
        let ghost opened = ops(script@);
        push(&mut script, PanelOp::Logo { rows: HEIGHT });
        push(&mut script, PanelOp::Flush);
        push(&mut script, PanelOp::Cs(true));
        assert(ops(script@) =~= opened + seq![
            Op::Logo { rows: HEIGHT },
            Op::Flush,
            Op::Cs(true),
        ]);
        script
    }
}

/// Two 16-bit numbers, high bytes first.
fn be_pair(a: u16, b: u16) -> (r: [u8; 4])
    ensures
        r@ == bytes::be16(a as int) + bytes::be16(b as int),
{
    let r: [u8; 4] = [(a / 256) as u8, (a % 256) as u8, (b / 256) as u8, (b % 256) as u8];
    assert(r@ =~= bytes::be16(a as int) + bytes::be16(b as int));
    r
}

/// A chunk of one colour, high byte first.
pub fn solid_chunk(color: u16) -> (chunk: [u8; FILL_CHUNK])
    ensures
        chunk@ == Seq::new(
            FILL_CHUNK as nat,
            |i: int| bytes::be16(color as int)[i % 2],
        ),
{
    let hi: u8 = (color / 256) as u8;
    let lo: u8 = (color % 256) as u8;
    let mut chunk: [u8; FILL_CHUNK] = [0; FILL_CHUNK];
    let mut i: usize = 0;
    while i < FILL_CHUNK
        invariant
            i <= FILL_CHUNK,
            i % 2 == 0,
            hi == bytes::be16(color as int)[0],
            lo == bytes::be16(color as int)[1],
            forall|k: int| 0 <= k < i ==> chunk@[k] == bytes::be16(color as int)[k % 2],
        decreases FILL_CHUNK - i,
    {
        chunk[i] = hi;
        chunk[i + 1] = lo;
        i += 2;
    }
    assert(chunk@ =~= Seq::new(FILL_CHUNK as nat, |i: int| bytes::be16(color as int)[i % 2]));
    chunk
}

} // verus!
