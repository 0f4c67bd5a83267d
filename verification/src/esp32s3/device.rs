//! What the device does with each thing that comes to it.

use vstd::prelude::*;

use crate::esp32s3::gud::{
    self, Band, GudHandler, InReply, OutReply, PayloadReader, Reading, Received, Step, Window,
};
use crate::esp32s3::stats::Stats;
use crate::pipeline::CommandChannel;
use crate::protocol::{Command, Commands, Display, Protocol};
use crate::rp2040::device::{filled_in, for_the_display};
use crate::usb::Request;

verus! {

/// The host is told of 240 by 280 pixels, of LZ4, and of updates of a whole frame.
pub proof fn the_host_is_told_of_the_board(d: Display)
    requires
        call_ensures(gud::display, (), d),
    ensures
        d.width == 240 && d.height == 280,
        d.compression == 1,
        d.max_buffer_size == 2 * 240 * 280,
{
}

/// The handler starts at full brightness; a bus reset clears the status and what
/// waits.
pub proof fn the_handler_starts_and_resets(
    interface: u8,
    h: GudHandler,
    g: &mut GudHandler,
    queue: &mut CommandChannel,
)
    requires
        call_ensures(GudHandler::new, (interface,), h),
        call_ensures(GudHandler::reset, (g, queue), ()),
    ensures
        h.number() == interface,
        h.connector().display.width == 240 && h.connector().display.height == 280,
        h.connector().brightness == 100 && h.connector().pending_brightness == 100,
        h.connector().enabled && h.connector().status == 0,
        final(g).number() == old(g).number(),
        final(g).connector() == old(g).connector().with_status(0),
        final(queue)@.len() == 0,
{
}

/// The executor counts as stalled if the console has not ticked for more than ten
/// seconds, but not within the first twenty.
pub proof fn silence_of_the_console_is_a_stall(now_s: u32, tick_s: u32, stalled: bool)
    requires
        call_ensures(gud::check_stall, (now_s, tick_s), stalled),
    ensures
        stalled <==> now_s > 20 && now_s > tick_s + 10,
{
}

/// One more request was seen.
pub open spec fn seen_once_more(before: Stats, after: Stats) -> bool {
    after.control_requests == (before.control_requests + 1) % 0x1_0000_0000
}

/// One more request was refused: this one.
pub open spec fn refused_once_more(before: Stats, after: Stats, request: u8) -> bool {
    &&& after.rejected == (before.rejected + 1) % 0x1_0000_0000
    &&& after.last_rejected_request == request
}

/// What is asked of the handler is answered by its connector, unless it is for
/// others or the executor has stalled. Every request counts as seen, and one that
/// is answered by a stall as refused.
pub proof fn queries_go_to_the_connector(
    h: &mut GudHandler,
    r: Request,
    buf: &mut [u8],
    stats: &mut Stats,
    now_s: u32,
    tick_s: u32,
    reply: InReply,
    p: &mut Protocol,
    other: &mut [u8],
    s: Result<usize, u8>,
)
    requires
        call_ensures(GudHandler::control_in, (h, &r, buf, stats, now_s, tick_s), reply),
        call_ensures(Protocol::control_in, (p, r.request, r.value, other), s),
        old(p)@ == old(h).connector(),
        old(other)@ == old(buf)@,
    ensures
        final(h).number() == old(h).number(),
        seen_once_more(*old(stats), *final(stats)),
        ({
            let ours = for_the_display(old(h).number(), r);
            let stalled = now_s > 20 && now_s > tick_s + 10;
            &&& !ours ==> reply == InReply::Leave
            &&& ours && stalled ==> reply == InReply::Stalled
            &&& ours && !stalled && s is Ok ==> reply == InReply::Accepted(s->Ok_0)
            &&& ours && !stalled && s is Err ==> reply == InReply::Rejected && refused_once_more(
                *old(stats),
                *final(stats),
                r.request,
            )
            &&& ours && !stalled ==> final(buf)@ == final(other)@ && final(h).connector()
                == final(p)@
            &&& !ours || stalled ==> final(buf)@ == old(buf)@ && final(h).connector() == old(
                h
            ).connector()
            &&& !ours || stalled || s is Ok ==> final(stats).rejected == old(stats).rejected
                && final(stats).last_rejected_request == old(stats).last_rejected_request
        }),
        *final(stats) == (Stats {
            control_requests: final(stats).control_requests,
            rejected: final(stats).rejected,
            last_rejected_request: final(stats).last_rejected_request,
            ..*old(stats)
        }),
{
}

/// What a request has for the panel goes behind the commands that wait, all of it
/// or nothing: one for which the queue of eight has no room for two is refused as a
/// protocol error. The connector takes the request as it would alone.
pub proof fn requests_join_the_queue(
    h: &mut GudHandler,
    r: Request,
    data: &[u8],
    queue: &mut CommandChannel,
    stats: &mut Stats,
    reply: OutReply,
    p: &mut Protocol,
    s: Result<Commands, u8>,
)
    requires
        call_ensures(GudHandler::control_out, (h, &r, data, queue, stats), reply),
        call_ensures(Protocol::begin, (p, r.request, data), s),
        old(p)@ == old(h).connector(),
    ensures
        final(h).number() == old(h).number(),
        seen_once_more(*old(stats), *final(stats)),
        ({
            let ours = for_the_display(old(h).number(), r);
            let full = s is Ok && s->Ok_0@.len() > 0 && old(queue)@.len() > 6;
            &&& !ours ==> reply == OutReply::Leave && final(queue)@ == old(queue)@ && final(
                h
            ).connector() == old(h).connector()
            &&& ours ==> {
                &&& reply == OutReply::Accepted || reply == OutReply::Rejected
                &&& reply == OutReply::Accepted <==> s is Ok && !full
                &&& final(h).connector().with_status(0) == final(p)@.with_status(0)
                &&& s is Err ==> final(h).connector().status == s->Err_0
                &&& full ==> final(h).connector().status == 3
                &&& s is Ok && !full ==> final(h).connector().status == 0
            }
            &&& reply == OutReply::Accepted ==> final(queue)@ == old(queue)@ + s->Ok_0@
                && final(stats).rejected == old(stats).rejected
            &&& reply == OutReply::Rejected ==> final(queue)@ == old(queue)@ && refused_once_more(
                *old(stats),
                *final(stats),
                r.request,
            ) && final(stats).updates == old(stats).updates
        }),
{
    one_update_at_most(*old(stats), *old(h), r, data);
    reveal_with_fuel(gud::with_updates, 3);
}

/// What is counted besides updates stays as it was.
proof fn updates_leave_the_rest(stats: Stats, commands: Seq<Command>)
    ensures
        gud::with_updates(stats, commands) == (Stats {
            updates: gud::with_updates(stats, commands).updates,
            bytes: gud::with_updates(stats, commands).bytes,
            wire_bytes: gud::with_updates(stats, commands).wire_bytes,
            ..stats
        }),
    decreases commands.len(),
{
    if commands.len() > 0 {
        updates_leave_the_rest(stats, commands.drop_last());
    }
}

proof fn one_update_at_most(stats: Stats, h: GudHandler, r: Request, data: &[u8])
    ensures
        h.connector().commands(r.request, data@) matches Ok(commands) ==> ({
            let seen = Stats { control_requests: stats.control_requests.wrapping_add(1), ..stats };
            gud::with_updates(seen, commands) == (Stats {
                updates: gud::with_updates(seen, commands).updates,
                bytes: gud::with_updates(seen, commands).bytes,
                wire_bytes: gud::with_updates(seen, commands).wire_bytes,
                ..seen
            })
        }),
{
    let seen = Stats { control_requests: stats.control_requests.wrapping_add(1), ..stats };
    if let Ok(commands) = h.connector().commands(r.request, data@) {
        updates_leave_the_rest(seen, commands);
    }
}

/// An announced update that is taken counts once, with its bytes raw and on the
/// wire.
pub proof fn announcements_are_counted(
    h: &mut GudHandler,
    r: Request,
    data: &[u8],
    queue: &mut CommandChannel,
    stats: &mut Stats,
    reply: OutReply,
)
    requires
        call_ensures(GudHandler::control_out, (h, &r, data, queue, stats), reply),
        r.request == 0x60,
        reply == OutReply::Accepted,
    ensures
        final(queue)@.len() == old(queue)@.len() + 1,
        final(queue)@.last() is Update,
        ({
            let rect = final(queue)@.last()->Update_0;
            &&& final(stats).updates == (old(stats).updates + 1) % 0x1_0000_0000
            &&& final(stats).bytes == (old(stats).bytes + rect.length) % 0x1_0000_0000
            &&& final(stats).wire_bytes == (old(stats).wire_bytes + rect.payload) % 0x1_0000_0000
        }),
{
    reveal_with_fuel(gud::with_updates, 2);
    if let Ok(commands) = old(h).connector().commands(r.request, data@) {
        assert(commands.drop_last() =~= Seq::<Command>::empty());
    }
}

/// Other requests count no update, and none counts anything but itself, what it
/// announces and that it was refused.
pub proof fn other_requests_count_no_update(
    h: &mut GudHandler,
    r: Request,
    data: &[u8],
    queue: &mut CommandChannel,
    stats: &mut Stats,
    reply: OutReply,
)
    requires
        call_ensures(GudHandler::control_out, (h, &r, data, queue, stats), reply),
    ensures
        r.request != 0x60 || reply != OutReply::Accepted ==> {
            &&& final(stats).updates == old(stats).updates
            &&& final(stats).bytes == old(stats).bytes
            &&& final(stats).wire_bytes == old(stats).wire_bytes
        },
        *final(stats) == (Stats {
            control_requests: final(stats).control_requests,
            updates: final(stats).updates,
            bytes: final(stats).bytes,
            wire_bytes: final(stats).wire_bytes,
            rejected: final(stats).rejected,
            last_rejected_request: final(stats).last_rejected_request,
            ..*old(stats)
        }),
{
    one_update_at_most(*old(stats), *old(h), r, data);
    reveal_with_fuel(gud::with_updates, 3);
    if let Ok(commands) = old(h).connector().commands(r.request, data@) {
        if commands.len() == 2 {
            assert(commands.drop_last().last() == commands[0]);
            assert(commands.drop_last().drop_last() =~= Seq::<Command>::empty());
        } else if commands.len() == 1 {
            assert(commands.drop_last() =~= Seq::<Command>::empty());
        }
    }
}

/// A payload is read in whole packets of 64 bytes straight into its place, at most
/// 8192 bytes and as many as fit, and the tail through a packet's worth of room.
pub proof fn reads_fit_the_payload(p: PayloadReader, w: Window)
    requires
        call_ensures(PayloadReader::window, (&p,), w),
        p@.length <= usize::MAX,
    ensures
        w == Window::Bounce <==> p@.length - p@.filled < 64,
        w is Direct ==> {
            let (from, to) = (w->Direct_from, w->Direct_to);
            &&& from == p@.filled
            &&& from < to <= p@.length
            &&& (to - from) % 64 == 0
            &&& to - from <= 8192
            &&& to - from + 64 > 8192 || to + 64 > p@.length
        },
{
}

/// A read that fits moves the payload on, and ends it with its last byte. One that
/// brings too much, and silence, are a stall; a bus that went away is not. Each is
/// counted as what it is.
pub proof fn reads_move_the_payload_on(
    p: &mut PayloadReader,
    got: Received,
    stats: &mut Stats,
    next: Reading,
)
    requires
        call_ensures(PayloadReader::received, (p, got, stats), next),
    ensures
        final(p)@.length == old(p)@.length,
        got is Bytes ==> {
            let n = got->Bytes_0;
            let left = old(p)@.length - old(p)@.filled;
            &&& n > left ==> next == Reading::Stall && final(p)@.filled == old(p)@.filled
            &&& n == left ==> next == Reading::Complete && final(p)@.filled == old(p)@.length
            &&& n < left ==> next == Reading::Continue && final(p)@.filled == old(p)@.filled + n
            &&& final(stats).rx_packets == (old(stats).rx_packets + 1) % 0x1_0000_0000
            &&& final(stats).rx_overflow == if n > left {
                (old(stats).rx_overflow + 1) % 0x1_0000_0000
            } else {
                old(stats).rx_overflow as int
            }
        },
        got is TimedOut ==> next == Reading::Stall && final(stats).abandoned == (old(
            stats,
        ).abandoned + 1) % 0x1_0000_0000,
        got is Disabled ==> next == Reading::Gone && final(stats).rx_disabled == (old(
            stats,
        ).rx_disabled + 1) % 0x1_0000_0000,
        got is Overflow ==> next == Reading::Gone && final(stats).rx_overflow == (old(
            stats,
        ).rx_overflow + 1) % 0x1_0000_0000,
        !(got is Bytes) ==> final(p)@ == old(p)@ && final(stats).rx_packets
            == old(stats).rx_packets,
        !(got is TimedOut) ==> final(stats).abandoned == old(stats).abandoned,
        !(got is Disabled) ==> final(stats).rx_disabled == old(stats).rx_disabled,
        *final(stats) == (Stats {
            rx_packets: final(stats).rx_packets,
            rx_overflow: final(stats).rx_overflow,
            rx_disabled: final(stats).rx_disabled,
            abandoned: final(stats).abandoned,
            ..*old(stats)
        }),
{
}

/// A packet that came through the spare room goes where the bytes before it end,
/// and nothing else of the band changes.
pub proof fn packets_fill_the_band(p: PayloadReader, dst: &mut Band, packet: &[u8])
    requires
        call_ensures(PayloadReader::place, (&p, dst, packet), ()),
        p@.filled + packet@.len() <= old(dst)@.len(),
    ensures
        filled_in(old(dst)@, final(dst)@, p@.filled as int, packet@),
{
}

/// A reader starts at the beginning, and is done when all is in.
pub proof fn readers_count(length: usize, fresh: PayloadReader, p: PayloadReader, done: bool, n: usize)
    requires
        call_ensures(PayloadReader::new, (length,), fresh),
        call_ensures(PayloadReader::complete, (&p,), done),
        call_ensures(PayloadReader::filled, (&p,), n),
    ensures
        fresh@.length == length && fresh@.filled == 0,
        n == p@.filled,
        done <==> n == p@.length,
{
}

/// An update is received, a brightness set and a switch handed to the panel, each as
/// it was commanded; the state of the panel tells the last two.
pub proof fn commands_are_carried_out(c: Command, stats: &mut Stats, step: Step)
    requires
        call_ensures(gud::carry_out, (c, stats), step),
    ensures
        c is Update ==> step == Step::Receive(c->Update_0) && *final(stats) == *old(stats),
        c is Brightness ==> step == Step::Backlight(c->Brightness_0) && final(stats).panel_state
            / 256 == c->Brightness_0 && final(stats).panel_state % 256 == old(stats).panel_state
            % 256,
        c is Enable ==> step == Step::Enable(c->Enable_0) && final(stats).panel_state % 2 == (
        if c->Enable_0 {
            1int
        } else {
            0
        }) && final(stats).panel_state / 2 == old(stats).panel_state / 2,
        *final(stats) == (Stats { panel_state: final(stats).panel_state, ..*old(stats) }),
{
}

} // verus!
