//! The vendor interface's control handler and the bulk receiver.
//!
//! [`GudHandler`] answers control requests through [`Protocol`] and queues
//! whatever touches the panel as a [`Command`].
//!
//! Updates arrive in bands of at most [`BAND_BYTES`] uncompressed, optionally
//! LZ4 block compressed. The receiver (core 0, async) pulls each band's
//! payload off the bulk endpoint into one of a few band buffers and hands it
//! to the panel worker (core 1, synchronous, see [`crate::esp32s3::panel`]),
//! which decompresses, byte-swaps and clocks it out over SPI by DMA while the
//! next band is already arriving. There is no framebuffer.

use vstd::prelude::*;

use crate::bytes;
use crate::esp32s3::stats::Stats;
use crate::panel::{FRAME_BYTES, HEIGHT, WIDTH};
use crate::pipeline::queue::{CommandChannel, COMMAND_SLOTS};
use crate::pipeline::{self, PayloadProgress, Progress};
use crate::protocol::display::small_modes_fit;
use crate::protocol::{
    laws, status, Command, Commands, Connector, Display, Protocol, Rect, BULK_PACKET_SIZE,
    COMPRESSION_LZ4, MAX_IN_LEN,
};
use crate::usb::{self, Request};

verus! {

/// Bytes requested per bulk read; the patched driver delivers up to this much
/// per wake-up.
pub const BULK_READ_SIZE: usize = 8192;
/// Largest band (uncompressed) the host may send per update; advertised as
/// `max_buffer_size`. A whole frame fits, so each frame is one control
/// request plus one bulk transfer, which matters on full-speed USB where a
/// control round trip costs milliseconds.
pub const BAND_BYTES: usize = FRAME_BYTES;
/// Band buffers (in PSRAM) in flight between USB reception and the panel.
pub const NUM_BANDS: usize = 3;
/// How long one payload read may stall before we treat the host as gone.
/// Bulk backpressure (NAK) paces a busy device without any timeout, so a gap
/// this long means the host stopped mid-transfer: the only way to realign the
/// unframed bulk stream is to re-enumerate, which a reset does cleanly.
pub const PAYLOAD_STALL_TIMEOUT_S: u64 = 2;
/// Without a tick of the console task for so long, the executor has stalled.
pub const STALL_SECONDS: u32 = 10;

pub type Band = [u8; BAND_BYTES];
pub type PanelJob = pipeline::PanelJob<BAND_BYTES>;

/// What the host is told: fixed RGB565 panel, LZ4 accepted, one frame per update.
pub open spec fn board_display() -> Display {
    Display {
        width: WIDTH,
        height: HEIGHT,
        compression: COMPRESSION_LZ4,
        max_buffer_size: BAND_BYTES as u32,
    }
}

/// What the host is told: fixed RGB565 panel, LZ4 accepted, one frame per update.
pub fn display() -> (d: Display)
    ensures
        d == board_display(),
{
    Display::new(WIDTH, HEIGHT).with_lz4(BAND_BYTES as u32)
}

/// Backlight control; stays on the USB core.
pub trait Backlight {
    /// 0..=100
    fn set_brightness(&mut self, percent: u8)
        requires
            percent <= 100,
    ;
}

/// The console task has stopped ticking. The control handler, which the host
/// exercises regularly, notices a stalled executor by it and reboots with
/// diagnostics instead of hanging forever. The first seconds after boot do not
/// count.
pub open spec fn executor_stalled(now_s: u32, tick_s: u32) -> bool {
    now_s > 2 * STALL_SECONDS && now_s - tick_s > STALL_SECONDS
}

/// Whether the console task has stopped ticking.
pub fn check_stall(now_s: u32, tick_s: u32) -> (stalled: bool)
    ensures
        stalled == executor_stalled(now_s, tick_s),
{
    now_s > 2 * STALL_SECONDS && now_s.saturating_sub(tick_s) > STALL_SECONDS
}

/// What to do with a control IN transfer.
#[derive(Clone, Copy, Debug, PartialEq, Eq, Structural)]
pub enum InReply {
    /// Nothing: it is another's.
    Leave,
    /// Reboot: the executor has stalled.
    Stalled,
    Rejected,
    /// Accept with this many bytes of the buffer.
    Accepted(usize),
}

/// What to do with a control OUT transfer.
#[derive(Clone, Copy, Debug, PartialEq, Eq, Structural)]
pub enum OutReply {
    /// Nothing: it is another's.
    Leave,
    Rejected,
    Accepted,
}

/// The updates among the commands, counted.
pub open spec fn with_updates(stats: Stats, commands: Seq<Command>) -> Stats
    decreases commands.len(),
{
    if commands.len() == 0 {
        stats
    } else {
        let earlier = with_updates(stats, commands.drop_last());
        match commands.last() {
            Command::Update(rect) => earlier.with_update(rect),
            _ => earlier,
        }
    }
}

/// Whether the queue has room for two more commands.
pub open spec fn has_room(queue: Seq<Command>) -> bool {
    queue.len() + 2 <= COMMAND_SLOTS
}

/// What a vendor OUT request comes to: it is refused with a status code, or its
/// commands go into the queue, all or none. There are at most two; room for two
/// is made sure of, however many they are.
pub open spec fn outcome(
    connector: Connector,
    queue: Seq<Command>,
    request: u8,
    data: Seq<u8>,
) -> Result<Seq<Command>, u8> {
    match connector.commands(request, data) {
        Ok(commands) => if commands.len() > 0 && !has_room(queue) {
            Err(status::PROTOCOL_ERROR)
        } else {
            Ok(commands)
        },
        Err(code) => Err(code),
    }
}

pub struct GudHandler {
    interface: u8,
    protocol: Protocol,
}

impl GudHandler {
    pub closed spec fn number(self) -> u8 {
        self.interface
    }

    pub closed spec fn connector(self) -> Connector {
        self.protocol@
    }

    /// The display is the board's.
    pub open spec fn wf(self) -> bool {
        self.connector().display == board_display()
    }

    pub fn new(interface: u8) -> (h: Self)
        ensures
            h.wf(),
            h.number() == interface,
            h.connector() == (Connector {
                display: board_display(),
                status: status::OK,
                brightness: 100,
                pending_brightness: 100,
                enabled: true,
            }),
    {
        GudHandler { interface, protocol: Protocol::new(display()) }
    }

    /// USB bus reset. The commands that still wait are thrown away.
    pub fn reset(&mut self, commands: &mut CommandChannel)
        requires
            old(self).wf(),
        ensures
            final(self).wf(),
            final(self).number() == old(self).number(),
            final(self).connector() == old(self).connector().with_status(status::OK),
            final(commands)@ == Seq::<Command>::empty(),
    {
        self.protocol.reset();
        commands.clear();
    }

    /// Answers a control IN request, seen so many seconds after boot when the
    /// console task last ticked at `tick_s`.
    pub fn control_in(
        &mut self,
        req: &Request,
        buf: &mut [u8],
        stats: &mut Stats,
        now_s: u32,
        tick_s: u32,
    ) -> (reply: InReply)
        requires
            old(self).wf(),
            old(buf)@.len() >= MAX_IN_LEN,
        ensures
            final(self).wf(),
            final(self).number() == old(self).number(),
            ({
                let seen = Stats {
                    control_requests: old(stats).control_requests.wrapping_add(1),
                    ..*old(stats)
                };
                let connector = old(self).connector();
                if !usb::for_vendor_interface(old(self).number(), *req) || executor_stalled(
                    now_s,
                    tick_s,
                ) {
                    &&& reply == if usb::for_vendor_interface(old(self).number(), *req) {
                        InReply::Stalled
                    } else {
                        InReply::Leave
                    }
                    &&& final(self).connector() == connector
                    &&& final(buf)@ == old(buf)@
                    &&& *final(stats) == seen
                } else {
                    &&& final(self).connector() == connector.after_reply(req.request, req.value)
                    &&& match connector.reply(req.request, req.value) {
                        Ok(b) => {
                            &&& reply == InReply::Accepted(b.len() as usize)
                            &&& final(buf)@ == b + old(buf)@.skip(b.len() as int)
                            &&& *final(stats) == seen
                        },
                        Err(_) => {
                            &&& reply == InReply::Rejected
                            &&& final(buf)@ == old(buf)@
                            &&& *final(stats) == seen.with_rejected(req.request)
                        },
                    }
                }
            }),
    {
        stats.control_requests = stats.control_requests.wrapping_add(1);
        if !usb::is_ours(self.interface, req) {
            return InReply::Leave;
        }
        if check_stall(now_s, tick_s) {
            return InReply::Stalled;
        }
        proof {
            laws::replies_are_short(self.connector(), req.request, req.value);
            small_modes_fit(board_display());
        }
        match self.protocol.control_in(req.request, req.value, buf) {
            Ok(len) => InReply::Accepted(len),
            Err(_) => {
                stats.count_rejected(req.request);
                InReply::Rejected
            },
        }
    }

    /// Handles a control OUT request with its data stage.
    pub fn control_out(
        &mut self,
        req: &Request,
        data: &[u8],
        commands: &mut CommandChannel,
        stats: &mut Stats,
    ) -> (reply: OutReply)
        requires
            old(self).wf(),
        ensures
            final(self).wf(),
            final(self).number() == old(self).number(),
            ({
                let seen = Stats {
                    control_requests: old(stats).control_requests.wrapping_add(1),
                    ..*old(stats)
                };
                let connector = old(self).connector();
                let after = connector.after(req.request, data@);
                if !usb::for_vendor_interface(old(self).number(), *req) {
                    &&& reply == OutReply::Leave
                    &&& final(self).connector() == connector
                    &&& final(commands)@ == old(commands)@
                    &&& *final(stats) == seen
                } else {
                    match outcome(connector, old(commands)@, req.request, data@) {
                        Ok(new) => {
                            &&& reply == OutReply::Accepted
                            &&& final(self).connector() == after.with_status(status::OK)
                            &&& final(commands)@ == old(commands)@ + new
                            &&& *final(stats) == with_updates(seen, new)
                        },
                        Err(code) => {
                            &&& reply == OutReply::Rejected
                            &&& final(self).connector() == after.with_status(code)
                            &&& final(commands)@ == old(commands)@
                            &&& *final(stats) == seen.with_rejected(req.request)
                        },
                    }
                }
            }),
    {
        stats.control_requests = stats.control_requests.wrapping_add(1);
        if !usb::is_ours(self.interface, req) {
            return OutReply::Leave;
        }
        // One control request emits at most two commands. Make sure of room
        // for both, so that enable/backlight cannot be partially queued.
        let room = commands.free_capacity() >= 2;
        let result = match self.protocol.begin(req.request, data) {
            Ok(new) => if new.first.is_none() {
                assert(commands@ =~= old(commands)@ + new@);
                Ok(())
            } else if room {
                enqueue(new, commands, stats);
                Ok(())
            } else {
                Err(status::PROTOCOL_ERROR)
            },
            Err(code) => Err(code),
        };
        match self.protocol.finish(result) {
            Ok(()) => OutReply::Accepted,
            Err(_) => {
                stats.count_rejected(req.request);
                OutReply::Rejected
            },
        }
    }
}

/// Puts a request's commands into the queue, which has room for them, and
/// counts updates.
fn enqueue(new: Commands, commands: &mut CommandChannel, stats: &mut Stats)
    requires
        has_room(old(commands)@),
    ensures
        final(commands)@ == old(commands)@ + new@,
        *final(stats) == with_updates(*old(stats), new@),
{
    reveal_with_fuel(with_updates, 3);
    let ghost all = new@;
    if let Some(first) = new.first {
        let _ = commands.try_send(first);
        if let Command::Update(rect) = first {
            stats.count_update(&rect);
        }
        if let Some(second) = new.second {
            let _ = commands.try_send(second);
            if let Command::Update(rect) = second {
                stats.count_update(&rect);
            }
            assert(all.drop_last() =~= seq![first]);
            assert(seq![first].drop_last() =~= Seq::<Command>::empty());
        } else {
            assert(all.drop_last() =~= Seq::<Command>::empty());
        }
    }
    assert(commands@ =~= old(commands)@ + all);
}

/// Where the next read of a payload goes.
#[derive(Clone, Copy, Debug, PartialEq, Eq, Structural)]
pub enum Window {
    /// Straight into place, as many whole packets as fit.
    Direct { from: usize, to: usize },
    /// Through a bounce buffer of one packet, since reads need packet room: the
    /// tail of the payload.
    Bounce,
}

/// What came of a read.
#[derive(Clone, Copy, Debug, PartialEq, Eq, Structural)]
pub enum Received {
    /// So many bytes.
    Bytes(usize),
    /// Nothing within [`PAYLOAD_STALL_TIMEOUT_S`].
    TimedOut,
    /// The endpoint was disabled.
    Disabled,
    /// A packet overran the buffer.
    Overflow,
}

/// How the payload goes on.
#[derive(Clone, Copy, Debug, PartialEq, Eq, Structural)]
pub enum Reading {
    /// With another read.
    Continue,
    /// It is complete.
    Complete,
    /// The bus went away; a reset re-arms the endpoint.
    Gone,
    /// The host stopped mid-payload, or overran it: reboot, the one safe way
    /// to realign an unframed stream.
    Stall,
}

/// Reads exactly one update's payload off the bulk endpoint. The host commits
/// to sending this many bytes right after SET_BUFFER, and USB flow control
/// holds them until we are ready, so the whole payload is always read rather
/// than guessing when the host has "given up": abandoning a half-read payload
/// would leave its tail buffered in the OTG, where the next read would consume
/// it and desync the stream for good.
pub struct PayloadReader {
    progress: PayloadProgress,
}

impl View for PayloadReader {
    type V = Progress;

    closed spec fn view(&self) -> Progress {
        self.progress@
    }
}

/// Where the next read goes when so many bytes of so many are in.
pub open spec fn window_at(filled: int, length: int) -> Window {
    let space = length - filled;
    let most = if space <= BULK_READ_SIZE {
        space
    } else {
        BULK_READ_SIZE as int
    };
    if space >= BULK_PACKET_SIZE {
        Window::Direct {
            from: filled as usize,
            to: (filled + most / (BULK_PACKET_SIZE as int) * BULK_PACKET_SIZE) as usize,
        }
    } else {
        Window::Bounce
    }
}

/// The read brought more than is missing.
pub open spec fn overruns(p: Progress, n: usize) -> bool {
    p.filled + n > p.length
}

/// How much of a payload is in after a read. Only bytes that belong to it count.
pub open spec fn after_read(p: Progress, received: Received) -> Progress {
    match received {
        Received::Bytes(n) => if overruns(p, n) {
            p
        } else {
            Progress { filled: p.filled + n as nat, ..p }
        },
        _ => p,
    }
}

/// How a payload goes on after a read.
pub open spec fn reading(p: Progress, received: Received) -> Reading {
    match received {
        Received::Bytes(n) => if overruns(p, n) {
            Reading::Stall
        } else if p.filled + n == p.length {
            Reading::Complete
        } else {
            Reading::Continue
        },
        Received::TimedOut => Reading::Stall,
        Received::Disabled => Reading::Gone,
        Received::Overflow => Reading::Gone,
    }
}

/// The counters after a read.
pub open spec fn with_read(stats: Stats, p: Progress, received: Received) -> Stats {
    match received {
        Received::Bytes(n) => {
            let counted = Stats { rx_packets: stats.rx_packets.wrapping_add(1), ..stats };
            if overruns(p, n) {
                Stats { rx_overflow: stats.rx_overflow.wrapping_add(1), ..counted }
            } else {
                counted
            }
        },
        Received::TimedOut => Stats { abandoned: stats.abandoned.wrapping_add(1), ..stats },
        Received::Disabled => Stats { rx_disabled: stats.rx_disabled.wrapping_add(1), ..stats },
        Received::Overflow => Stats { rx_overflow: stats.rx_overflow.wrapping_add(1), ..stats },
    }
}

impl PayloadReader {
    pub fn new(length: usize) -> (r: Self)
        ensures
            r@ == (Progress { length: length as nat, filled: 0 }),
    {
        PayloadReader { progress: PayloadProgress::new(length) }
    }

    /// Whether there is nothing left to read.
    pub fn complete(&self) -> (done: bool)
        ensures
            done == (self@.filled == self@.length),
    {
        self.progress.complete()
    }

    /// How much is in.
    pub fn filled(&self) -> (n: usize)
        ensures
            n == self@.filled,
            n <= self@.length,
    {
        self.progress.filled()
    }

    /// Where the next read goes. It lies within the payload.
    pub fn window(&self) -> (w: Window)
        ensures
            w == window_at(self@.filled as int, self@.length as int),
            w matches Window::Direct { from, to } ==> {
                &&& from == self@.filled
                &&& from < to <= self@.length
                &&& to - from <= BULK_READ_SIZE
                &&& (to - from) % (BULK_PACKET_SIZE as int) == 0
            },
    {
        let filled: usize = self.progress.filled();
        let space: usize = self.progress.remaining();
        if space >= BULK_PACKET_SIZE as usize {
            let most: usize = if space <= BULK_READ_SIZE {
                space
            } else {
                BULK_READ_SIZE
            };
            let want: usize = most / BULK_PACKET_SIZE as usize * BULK_PACKET_SIZE as usize;
            Window::Direct { from: filled, to: filled + want }
        } else {
            Window::Bounce
        }
    }

    /// Takes what came of a read, and says how to go on.
    pub fn received(&mut self, received: Received, stats: &mut Stats) -> (next: Reading)
        ensures
            final(self)@ == after_read(old(self)@, received),
            next == reading(old(self)@, received),
            *final(stats) == with_read(*old(stats), old(self)@, received),
    {
        let n: usize = match received {
            Received::TimedOut => {
                // Host stopped mid-payload. Any bytes it did send are stuck in
                // the OTG with no safe way to count them.
                stats.abandoned = stats.abandoned.wrapping_add(1);
                return Reading::Stall;
            },
            Received::Disabled => {
                stats.rx_disabled = stats.rx_disabled.wrapping_add(1);
                return Reading::Gone;
            },
            Received::Overflow => {
                stats.rx_overflow = stats.rx_overflow.wrapping_add(1);
                return Reading::Gone;
            },
            Received::Bytes(n) => n,
        };
        stats.rx_packets = stats.rx_packets.wrapping_add(1);
        if self.progress.advance(n).is_err() {
            stats.rx_overflow = stats.rx_overflow.wrapping_add(1);
            return Reading::Stall;
        }
        if self.progress.complete() {
            Reading::Complete
        } else {
            Reading::Continue
        }
    }

    /// Puts a packet that came through the bounce buffer where it belongs: to
    /// be called before [`PayloadReader::received`], and only for a packet
    /// that does not overrun the payload.
    pub fn place(&self, dst: &mut Band, packet: &[u8])
        requires
            self@.length <= BAND_BYTES,
            self@.filled + packet@.len() <= self@.length,
        ensures
            final(dst)@ == bytes::replaced(old(dst)@, self@.filled as int, packet@),
    {
        bytes::put_all(dst, self.progress.filled(), packet);
    }
}

/// What the receiver does for a command.
#[derive(Clone, Copy, Debug, PartialEq, Eq, Structural)]
pub enum Step {
    /// Take a free band, read the update's payload into it, and hand it to the
    /// panel; if the bus went away, the band is free again.
    Receive(Rect),
    /// Set the backlight to this percentage.
    Backlight(u8),
    /// Hand this to the panel.
    Enable(bool),
}

/// Takes note of a command, and says what to do for it.
pub fn carry_out(command: Command, stats: &mut Stats) -> (step: Step)
    ensures
        match command {
            Command::Update(rect) => {
                &&& step == Step::Receive(rect)
                &&& *final(stats) == *old(stats)
            },
            Command::Brightness(percent) => {
                &&& step == Step::Backlight(percent)
                &&& *final(stats) == old(stats).with_brightness(percent)
            },
            Command::Enable(on) => {
                &&& step == Step::Enable(on)
                &&& *final(stats) == old(stats).with_enabled(on)
            },
        },
{
    match command {
        Command::Update(rect) => Step::Receive(rect),
        Command::Brightness(percent) => {
            stats.set_brightness(percent);
            Step::Backlight(percent)
        },
        Command::Enable(on) => {
            stats.set_enabled(on);
            Step::Enable(on)
        },
    }
}

} // verus!
