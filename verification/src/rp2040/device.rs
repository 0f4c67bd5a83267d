//! What the device does with each thing that comes to it.

use vstd::prelude::*;

use crate::pipeline::{Job, PayloadError};
use crate::protocol::{Commands, Display, Protocol, Rect};
use crate::rp2040::gud::{self, Action, BulkError, Gud, GudDevice, Queues, Reading, Turn};
use crate::rp2040::panel::{PanelStats, PanelWorker};
use crate::rp2040::queue::{Band, FreeChannel, JobChannel, PanelJob};
use crate::rp2040::touch::{Stats as TouchStats, Touch};
use crate::rp2040::usb as adapter;
use crate::usb::{self, Recipient, Request, RequestType};

verus! {

/// The host is told of 240 by 280 pixels, of LZ4, and of updates of at most 48 KiB.
pub proof fn the_host_is_told_of_the_board(d: Display)
    requires
        call_ensures(gud::display, (), d),
    ensures
        d.width == 240 && d.height == 280,
        d.compression == 1,
        d.max_buffer_size == 49152,
{
}

/// The display answers vendor requests to the device, and to its own interface.
pub open spec fn for_the_display(interface: u8, r: Request) -> bool {
    r.request_type == RequestType::Vendor && (r.recipient == Recipient::Device || (r.recipient
        == Recipient::Interface && r.index == interface))
}

pub proof fn requests_find_the_display(interface: u8, r: Request, ours: bool, d: GudDevice, own: bool)
    requires
        call_ensures(usb::is_ours, (interface, &r), ours),
        call_ensures(GudDevice::is_ours, (&d, &r), own),
    ensures
        ours <==> for_the_display(interface, r),
        own <==> for_the_display(d@.interface, r),
{
}

/// Everything but these is the same.
pub open spec fn same_but_for_work(a: Gud, b: Gud) -> bool {
    &&& a.interface == b.interface
    &&& a.connector == b.connector
    &&& a.now == b.now
    &&& a.stats == b.stats
}

/// A turn is over at once while a job waits and the panel has four already. A job
/// that waits and finds room goes behind the others, and the panel has to be woken.
pub proof fn jobs_go_first(
    d: &mut GudDevice,
    jobs: &mut JobChannel,
    free: &mut FreeChannel,
    r: (Turn, bool),
)
    requires
        call_ensures(GudDevice::turn, (d, jobs, free), r),
        old(d)@.pending_job is Some,
    ensures
        old(jobs)@.len() >= 4 ==> {
            &&& r.0 == Turn::Act(Action::Done)
            &&& !r.1
            &&& final(d)@ == old(d)@
            &&& final(jobs)@ == old(jobs)@
            &&& final(free)@ == old(free)@
        },
        old(jobs)@.len() < 4 ==> {
            &&& r.1
            &&& final(jobs)@ == old(jobs)@.push(old(d)@.pending_job->Some_0)
        },
{
    assert(gud::queues(*final(jobs), *final(free)).jobs == final(jobs)@);
    assert(gud::queues(*final(jobs), *final(free)).free == final(free)@);
}

/// With nothing to wait for, a turn asks for a packet while an update is coming in.
/// Otherwise it carries out the command in front. An update takes the band that has
/// been free longest, and stays in front until there is one. Switching the display
/// is a job for the panel, and the backlight one for the loop.
pub proof fn turns_carry_out_commands(
    d: &mut GudDevice,
    jobs: &mut JobChannel,
    free: &mut FreeChannel,
    r: (Turn, bool),
)
    requires
        call_ensures(GudDevice::turn, (d, jobs, free), r),
        old(d)@.pending_job is None || old(jobs)@.len() < 4,
    ensures
        same_but_for_work(final(d)@, old(d)@),
        r.1 == (old(d)@.pending_job is Some),
        old(d)@.receiving is Some ==> {
            &&& r.0 == Turn::Act(Action::Read)
            &&& final(d)@.receiving == old(d)@.receiving
            &&& final(d)@.commands == old(d)@.commands
            &&& final(d)@.pending_job is None
            &&& final(free)@ == old(free)@
        },
        old(d)@.receiving is None && old(d)@.commands.len() == 0 ==> {
            &&& r.0 == Turn::Act(Action::Done)
            &&& final(d)@.receiving is None
            &&& final(d)@.commands.len() == 0
            &&& final(d)@.pending_job is None
            &&& final(free)@ == old(free)@
        },
        old(d)@.receiving is None && old(d)@.commands.len() > 0 ==> {
            let front = old(d)@.commands[0];
            let rest = old(d)@.commands.skip(1);
            &&& front is Update && old(free)@.len() > 0 ==> {
                &&& r.0 == Turn::Again
                &&& final(d)@.commands == rest
                &&& final(d)@.pending_job is None
                &&& old(free)@ == seq![final(d)@.receiving->Some_0.payload] + final(free)@
                &&& final(d)@.receiving is Some
                &&& final(d)@.receiving->Some_0.rect == front->Update_0
                &&& final(d)@.receiving->Some_0.filled == 0
                &&& final(d)@.receiving->Some_0.last_progress == old(d)@.now
            }
            &&& front is Update && old(free)@.len() == 0 ==> {
                &&& r.0 == Turn::Act(Action::Done)
                &&& final(d)@.commands == old(d)@.commands
                &&& final(d)@.pending_job is None
                &&& final(d)@.receiving is None
                &&& final(free)@ == old(free)@
            }
            &&& front is Enable ==> {
                &&& r.0 == Turn::Again
                &&& final(d)@.commands == rest
                &&& final(d)@.pending_job == Some(Job::Enable(front->Enable_0))
                &&& final(d)@.receiving is None
                &&& final(free)@ == old(free)@
            }
            &&& front is Brightness ==> {
                &&& r.0 == Turn::Act(Action::Backlight(front->Brightness_0))
                &&& final(d)@.commands == rest
                &&& final(d)@.pending_job is None
                &&& final(d)@.receiving is None
                &&& final(free)@ == old(free)@
            }
        },
{
    let q = gud::queues(*final(jobs), *final(free));
    assert(q.jobs == final(jobs)@);
    assert(q.free == final(free)@);
    if old(d)@.receiving is None && old(d)@.commands.len() > 0 {
        assert(seq![old(d)@.commands[0]] + old(d)@.commands.skip(1) =~= old(d)@.commands);
        if old(free)@.len() > 0 {
            assert(seq![old(free)@[0]] + old(free)@.skip(1) =~= old(free)@);
        }
    }
}

/// A command that is carried out, or that waits for a band, no longer takes a slot of
/// the queue; the others do.
pub proof fn turns_free_slots(
    d: &mut GudDevice,
    jobs: &mut JobChannel,
    free: &mut FreeChannel,
    r: (Turn, bool),
)
    requires
        call_ensures(GudDevice::turn, (d, jobs, free), r),
        old(d)@.queued <= old(d)@.commands.len() <= old(d)@.queued + 1,
    ensures
        ({
            let waits = old(d)@.pending_job is Some && old(jobs)@.len() >= 4;
            let front = !waits && old(d)@.receiving is None && old(d)@.commands.len() > 0;
            &&& front ==> final(d)@.queued == old(d)@.commands.len() - 1
            &&& !front ==> final(d)@.queued == old(d)@.queued
        }),
{
}

/// A packet goes where the bytes before it end, and nothing else of the band
/// changes. With its last byte the update becomes a job with that band, and counts.
/// One that goes beyond its end, and a broken endpoint, stall; without a packet
/// nothing happens.
pub proof fn packets_fill_the_band(
    d: &mut GudDevice,
    result: Result<&[u8], BulkError>,
    next: Reading,
)
    requires
        call_ensures(GudDevice::bulk_read, (d, result), next),
        old(d)@.receiving is Some,
        old(d)@.receiving->Some_0.payload.len() == 49152,
        old(d)@.receiving->Some_0.rect.payload <= 49152,
        old(d)@.receiving->Some_0.filled <= old(d)@.receiving->Some_0.rect.payload,
    ensures
        result == Err::<&[u8], BulkError>(BulkError::WouldBlock) ==> next == Reading::Wait
            && final(d)@ == old(d)@,
        result == Err::<&[u8], BulkError>(BulkError::Failed) ==> next == Reading::Stall
            && final(d)@ == old(d)@,
        result is Ok ==> {
            let packet = result->Ok_0@;
            let r = old(d)@.receiving->Some_0;
            let after = final(d)@;
            &&& packet.len() > r.rect.payload - r.filled ==> next == Reading::Stall && after
                == old(d)@
            &&& packet.len() <= r.rect.payload - r.filled ==> {
                &&& next == Reading::Continue
                &&& after.commands == old(d)@.commands
                &&& after.connector == old(d)@.connector
            }
            &&& packet.len() < r.rect.payload - r.filled ==> {
                let s = after.receiving->Some_0;
                &&& after.receiving is Some
                &&& after.pending_job == old(d)@.pending_job
                &&& after.stats == old(d)@.stats
                &&& s.rect == r.rect
                &&& s.filled == r.filled + packet.len()
                &&& s.last_progress == if packet.len() > 0 {
                    old(d)@.now
                } else {
                    r.last_progress
                }
                &&& filled_in(r.payload, s.payload, r.filled as int, packet)
            }
            &&& packet.len() == r.rect.payload - r.filled ==> {
                let job = after.pending_job->Some_0;
                &&& after.receiving is None
                &&& after.pending_job is Some
                &&& job is Band
                &&& job->Band_rect == r.rect
                &&& filled_in(r.payload, job->Band_payload, r.filled as int, packet)
                &&& after.stats.updates == (old(d)@.stats.updates + 1) % 0x1_0000_0000
                &&& after.stats.bytes == (old(d)@.stats.bytes + r.rect.length) % 0x1_0000_0000
                &&& after.stats.wire_bytes == (old(d)@.stats.wire_bytes + r.rect.payload)
                    % 0x1_0000_0000
                &&& after.stats.rejected == old(d)@.stats.rejected
                &&& after.stats.last_rejected_request == old(d)@.stats.last_rejected_request
                &&& after.stats.brightness == old(d)@.stats.brightness
            }
        },
{
    if result is Ok {
        let packet = result->Ok_0@;
        let r = old(d)@.receiving->Some_0;
        if packet.len() <= r.rect.payload - r.filled {
            let b = crate::bytes::replaced(r.payload, r.filled as int, packet);
            assert(filled_in(r.payload, b, r.filled as int, packet));
        }
    }
}

/// `after` is `before` with these bytes from `at` on.
pub open spec fn filled_in(before: Seq<u8>, after: Seq<u8>, at: int, piece: Seq<u8>) -> bool {
    &&& after.len() == before.len()
    &&& forall|i: int|
        0 <= i < after.len() ==> #[trigger] after[i] == if at <= i < at + piece.len() {
            piece[i - at]
        } else {
            before[i]
        }
}

/// The host has stalled if it sent nothing for two seconds in the middle of a
/// payload, and only then.
pub proof fn silence_is_a_stall(d: GudDevice, s: bool)
    requires
        call_ensures(GudDevice::stalled, (&d,), s),
    ensures
        s <==> d@.receiving is Some && d@.now - d@.receiving->Some_0.last_progress >= 2 * 1000
            * 1000,
{
}

/// A pass of the loop takes the time, and a backlight that was set is told.
pub proof fn passes_and_backlights(
    d: &mut GudDevice,
    now_us: u64,
    e: &mut GudDevice,
    percent: u8,
    set: bool,
)
    requires
        call_ensures(GudDevice::service, (d, now_us), ()),
        call_ensures(GudDevice::backlight_set, (e, percent, set), ()),
    ensures
        final(d)@ == (Gud { now: now_us, ..old(d)@ }),
        !set ==> final(e)@ == old(e)@,
        set ==> final(e)@.stats.brightness == percent,
        final(e)@ == (Gud { stats: final(e)@.stats, ..old(e)@ }),
        final(e)@.stats == (gud::Stats {
            brightness: final(e)@.stats.brightness,
            ..old(e)@.stats
        }),
{
}

/// The device starts with nothing to do, at full brightness.
pub proof fn the_device_starts_idle(interface: u8, d: GudDevice, none: gud::Stats)
    requires
        call_ensures(GudDevice::new, (interface,), d),
        call_ensures(<gud::Stats as Default>::default, (), none),
    ensures
        none.updates == 0 && none.bytes == 0 && none.wire_bytes == 0 && none.rejected == 0,
        none.last_rejected_request == 0 && none.brightness == 0,
        d@.interface == interface,
        d@.connector.display.width == 240 && d@.connector.display.height == 280,
        d@.connector.brightness == 100 && d@.connector.enabled && d@.connector.status == 0,
        d@.commands.len() == 0 && d@.queued == 0,
        d@.pending_job is None && d@.receiving is None,
        d@.now == 0,
        d@.stats.updates == 0 && d@.stats.bytes == 0 && d@.stats.wire_bytes == 0,
        d@.stats.rejected == 0 && d@.stats.last_rejected_request == 0,
        d@.stats.brightness == 100,
{
}

/// What is asked of the device is answered by its connector, and one answer that is
/// a stall counts as refused. Requests to others are left alone.
pub proof fn queries_go_to_the_connector(
    d: &mut GudDevice,
    request: Request,
    buf: &mut [u8],
    r: Option<Result<usize, u8>>,
    p: &mut Protocol,
    other: &mut [u8],
    s: Result<usize, u8>,
)
    requires
        call_ensures(GudDevice::control_in, (d, &request, buf), r),
        call_ensures(Protocol::control_in, (p, request.request, request.value, other), s),
        old(p)@ == old(d)@.connector,
        old(other)@ == old(buf)@,
    ensures
        !for_the_display(old(d)@.interface, request) ==> r is None && final(d)@ == old(d)@
            && final(buf)@ == old(buf)@,
        for_the_display(old(d)@.interface, request) ==> {
            &&& r == Some(s)
            &&& final(buf)@ == final(other)@
            &&& final(d)@.connector == final(p)@
            &&& final(d)@ == (Gud {
                connector: final(p)@,
                stats: final(d)@.stats,
                ..old(d)@
            })
            &&& s is Ok ==> final(d)@.stats == old(d)@.stats
            &&& s is Err ==> refused_once_more(old(d)@.stats, final(d)@.stats, request.request)
        },
{
}

/// One more request was refused: this one.
pub open spec fn refused_once_more(before: gud::Stats, after: gud::Stats, request: u8) -> bool {
    &&& after.rejected == (before.rejected + 1) % 0x1_0000_0000
    &&& after.last_rejected_request == request
    &&& after.updates == before.updates
    &&& after.bytes == before.bytes
    &&& after.wire_bytes == before.wire_bytes
    &&& after.brightness == before.brightness
}

/// What a request has for the panel goes behind the commands that wait, all of it
/// or nothing: one for which the queue of eight has no room for two is refused as a
/// protocol error. The connector takes the request as it would alone.
pub proof fn requests_join_the_queue(
    d: &mut GudDevice,
    request: Request,
    data: &[u8],
    r: Option<Result<(), u8>>,
    p: &mut Protocol,
    s: Result<Commands, u8>,
)
    requires
        call_ensures(GudDevice::control_out, (d, &request, data), r),
        call_ensures(Protocol::begin, (p, request.request, data), s),
        old(p)@ == old(d)@.connector,
    ensures
        !for_the_display(old(d)@.interface, request) ==> r is None && final(d)@ == old(d)@,
        for_the_display(old(d)@.interface, request) ==> {
            let full = s is Ok && s->Ok_0@.len() > 0 && old(d)@.queued > 6;
            &&& r is Some
            &&& r->Some_0 is Ok <==> s is Ok && !full
            &&& s is Err ==> r->Some_0->Err_0 == s->Err_0
            &&& full ==> r->Some_0->Err_0 == 3
            &&& final(d)@.connector.status == if r->Some_0 is Ok {
                0
            } else {
                r->Some_0->Err_0
            }
            &&& final(d)@.connector.with_status(0) == final(p)@.with_status(0)
            &&& r->Some_0 is Ok ==> {
                &&& final(d)@.commands == old(d)@.commands + s->Ok_0@
                &&& final(d)@.queued == old(d)@.queued + s->Ok_0@.len()
                &&& final(d)@.stats == old(d)@.stats
            }
            &&& r->Some_0 is Err ==> {
                &&& final(d)@.commands == old(d)@.commands
                &&& final(d)@.queued == old(d)@.queued
                &&& refused_once_more(old(d)@.stats, final(d)@.stats, request.request)
            }
            &&& final(d)@.receiving == old(d)@.receiving
            &&& final(d)@.pending_job == old(d)@.pending_job
            &&& final(d)@.now == old(d)@.now
        },
{
}

/// How many bands the device has taken.
pub open spec fn bands_taken(s: Gud) -> int {
    (if s.receiving is Some {
        1int
    } else {
        0
    }) + (if s.pending_job is Some && s.pending_job->Some_0 is Band {
        1int
    } else {
        0
    })
}

/// A bus reset leaves no work, and gives back the bands that were taken: first the
/// one that was coming in, then the one that waited for the panel.
pub proof fn resets_leave_no_work(d: &mut GudDevice, free: &mut FreeChannel, r: bool)
    requires
        call_ensures(GudDevice::reset, (d, free), r),
        old(free)@.len() <= 3,
    ensures
        final(d)@.commands.len() == 0,
        final(d)@.queued == 0,
        final(d)@.receiving is None,
        final(d)@.pending_job is None,
        final(d)@.connector == old(d)@.connector.with_status(0),
        final(d)@.stats == old(d)@.stats,
        final(d)@.now == old(d)@.now,
        r <==> old(free)@.len() + bands_taken(old(d)@) <= 3,
        r ==> ({
            let coming = old(d)@.receiving;
            let waiting = old(d)@.pending_job;
            let a = if coming is Some {
                old(free)@.push(coming->Some_0.payload)
            } else {
                old(free)@
            };
            final(free)@ == if waiting is Some && waiting->Some_0 is Band {
                a.push(waiting->Some_0->Band_payload)
            } else {
                a
            }
        }),
{
    reveal_with_fuel(gud::given_back, 3);
    let held = old(d)@.held_bands();
    if held.len() == 2 {
        assert(held.drop_last() =~= seq![held[0]]);
        assert(seq![held[0]].drop_last() =~= Seq::<Seq<u8>>::empty());
    } else if held.len() == 1 {
        assert(held.drop_last() =~= Seq::<Seq<u8>>::empty());
    }
}

/// Several turns from the first on are that turn and the others.
proof fn turns_from_the_first_on(s: Gud, q: Queues, n: nat)
    ensures
        ({
            let (s1, q1, turn) = s.turn(q);
            s.turns(q, n + 1) == if turn == Turn::Again {
                s1.turns(q1, n)
            } else {
                (s1, q1, turn)
            }
        }),
    decreases n,
{
    reveal_with_fuel(Gud::turns, 2);
    if n > 0 {
        turns_from_the_first_on(s, q, (n - 1) as nat);
    }
}

/// Turns take no job away from the panel.
proof fn turns_keep_the_jobs(s: Gud, q: Queues, n: nat)
    ensures
        s.turns(q, n).1.jobs.len() >= q.jobs.len(),
    decreases n,
{
    if n > 0 {
        turns_keep_the_jobs(s, q, (n - 1) as nat);
    }
}

/// Draining takes turn after turn until one has something for the loop to do or the
/// batch is used up: with none left it does nothing, and else it goes as the first
/// turn does and, if that calls for more, on with the rest of the batch.
pub proof fn batches_are_turns(
    d: &mut GudDevice,
    turns: &mut u32,
    jobs: &mut JobChannel,
    free: &mut FreeChannel,
    r: (Action, bool),
    e: &mut GudDevice,
    jobs1: &mut JobChannel,
    free1: &mut FreeChannel,
    first: (Turn, bool),
)
    requires
        call_ensures(GudDevice::drain_bulk, (d, turns, jobs, free), r),
        call_ensures(GudDevice::turn, (e, jobs1, free1), first),
        old(e)@ == old(d)@,
        old(jobs1)@ == old(jobs)@,
        old(free1)@ == old(free)@,
    ensures
        *old(turns) == 0 ==> {
            &&& r == (Action::Done, false)
            &&& *final(turns) == 0
            &&& final(d)@ == old(d)@
            &&& final(jobs)@ == old(jobs)@
            &&& final(free)@ == old(free)@
        },
        *old(turns) > 0 && first.0 is Act ==> {
            &&& r.0 == first.0->Act_0
            &&& r.1 == first.1
            &&& *final(turns) == *old(turns) - 1
            &&& final(d)@ == final(e)@
            &&& final(jobs)@ == final(jobs1)@
            &&& final(free)@ == final(free1)@
        },
        *old(turns) > 0 && first.0 == Turn::Again ==> *final(turns) < *old(turns),
{
    let q = gud::queues(*old(jobs), *old(free));
    let left = gud::queues(*final(jobs), *final(free));
    let q1 = gud::queues(*final(jobs1), *final(free1));
    assert(left.jobs == final(jobs)@ && left.free == final(free)@);
    assert(q1.jobs == final(jobs1)@ && q1.free == final(free1)@);
    assert(q.jobs == old(jobs)@ && q.free == old(free)@);
    let s = old(d)@;
    let taken = (*old(turns) - *final(turns)) as nat;
    reveal_with_fuel(Gud::turns, 2);
    if *old(turns) > 0 {
        assert(s.turns(q, 1) == s.turn(q));
        if taken > 1 {
            assert(s.turns(q, 1).2 == Turn::Again);
        }
        if taken == 0 {
            assert(s.turns(q, 0).2 == Turn::Again);
        }
    }
}

/// The rest of a batch goes on where the first turn left off.
pub proof fn batches_go_on(
    d: &mut GudDevice,
    turns: &mut u32,
    jobs: &mut JobChannel,
    free: &mut FreeChannel,
    r: (Action, bool),
    e: &mut GudDevice,
    jobs1: &mut JobChannel,
    free1: &mut FreeChannel,
    first: (Turn, bool),
    f: &mut GudDevice,
    turns2: &mut u32,
    jobs2: &mut JobChannel,
    free2: &mut FreeChannel,
    rest: (Action, bool),
)
    requires
        call_ensures(GudDevice::drain_bulk, (d, turns, jobs, free), r),
        call_ensures(GudDevice::turn, (e, jobs1, free1), first),
        call_ensures(GudDevice::drain_bulk, (f, turns2, jobs2, free2), rest),
        old(e)@ == old(d)@,
        old(jobs1)@ == old(jobs)@,
        old(free1)@ == old(free)@,
        old(f)@ == final(e)@,
        old(jobs2)@ == final(jobs1)@,
        old(free2)@ == final(free1)@,
        *old(turns) > 0,
        *old(turns2) == *old(turns) - 1,
        first.0 == Turn::Again,
    ensures
        *final(turns) == *final(turns2),
        r.0 == rest.0,
        first.1 || rest.1 ==> r.1,
        !first.1 && !rest.1 ==> !r.1,
        final(d)@ == final(f)@,
        final(jobs)@ == final(jobs2)@,
        final(free)@ == final(free2)@,
{
    let q = gud::queues(*old(jobs), *old(free));
    let q1 = gud::queues(*old(jobs2), *old(free2));
    let left = gud::queues(*final(jobs), *final(free));
    let left2 = gud::queues(*final(jobs2), *final(free2));
    assert(left.jobs == final(jobs)@ && left.free == final(free)@);
    assert(left2.jobs == final(jobs2)@ && left2.free == final(free2)@);
    let s = old(d)@;
    let s1 = old(f)@;
    assert(q1 =~= gud::queues(*final(jobs1), *final(free1)));
    assert(q =~= gud::queues(*old(jobs1), *old(free1)));
    assert(s.turn(q) == (s1, q1, Turn::Again));
    let taken = (*old(turns) - *final(turns)) as nat;
    let taken2 = (*old(turns2) - *final(turns2)) as nat;
    reveal_with_fuel(Gud::turns, 2);
    assert(s.turns(q, 1) == s.turn(q));
    assert(s.turns(q, 0).2 == Turn::Again);
    assert(taken > 0);
    turns_from_the_first_on(s, q, (taken - 1) as nat);
    turns_from_the_first_on(s, q, taken2);
    turns_keep_the_jobs(s, q, 1);
    turns_keep_the_jobs(s1, q1, taken2);
    if taken - 1 < taken2 {
        assert(s1.turns(q1, (taken - 1) as nat).2 == Turn::Again);
    } else if taken2 < taken - 1 {
        assert(s.turns(q, taken2 + 1).2 == Turn::Again);
    }
}

/// A band that does not decode is counted, and one that does is not.
pub proof fn broken_bands_are_counted(
    w: &mut PanelWorker,
    rect: Rect,
    payload: &mut [u8],
    decoded: &mut [u8],
    r: Result<&mut [u8], PayloadError>,
    other: &mut [u8],
    room: &mut [u8],
    s: Result<&mut [u8], PayloadError>,
)
    requires
        call_ensures(PanelWorker::decode, (w, &rect, payload, decoded), r),
        call_ensures(crate::pipeline::panel_pixels, (&rect, other, room), s),
        old(other)@ == old(payload)@,
        old(room)@.len() == old(decoded)@.len(),
    ensures
        r is Ok <==> s is Ok,
        r is Ok ==> r->Ok_0@ == s->Ok_0@ && final(w)@ == old(w)@,
        r is Err ==> {
            &&& final(w)@.pending_bytes == old(w)@.pending_bytes
            &&& final(w)@.stats.decode_errors == (old(w)@.stats.decode_errors + 1) % 0x1_0000_0000
            &&& final(w)@.stats.completed == old(w)@.stats.completed
            &&& final(w)@.stats.pixel_bytes == old(w)@.stats.pixel_bytes
            &&& final(w)@.stats.enabled == old(w)@.stats.enabled
        },
{
}

/// Everything about stalls is passed on but one thing: taking away a stall of EP0
/// that is not there.
pub proof fn stalls_are_passed_on(endpoint: usize, stalled: bool, is_stalled: bool, pass: bool)
    requires
        call_ensures(adapter::passes_stall, (endpoint, stalled, is_stalled), pass),
    ensures
        endpoint > 0 || stalled || is_stalled ==> pass,
        endpoint == 0 && !stalled && !is_stalled ==> !pass,
{
}

/// The panel's queue hands jobs out in the order in which they came in, and holds
/// four.
pub proof fn jobs_wait_in_order(
    fresh: JobChannel,
    q: &mut JobChannel,
    job: PanelJob,
    sent: Result<(), PanelJob>,
    p: &mut JobChannel,
    got: Option<PanelJob>,
)
    requires
        call_ensures(JobChannel::new, (), fresh),
        call_ensures(JobChannel::try_send, (q, job), sent),
        call_ensures(JobChannel::try_receive, (p,), got),
    ensures
        fresh@.len() == 0,
        sent is Ok <==> old(q)@.len() < 4,
        sent is Ok ==> final(q)@.len() == old(q)@.len() + 1 && final(q)@.last() == job@ && final(
            q
        )@.drop_last() == old(q)@,
        sent is Err ==> sent->Err_0 == job && final(q)@ == old(q)@,
        got is Some <==> old(p)@.len() > 0,
        got is Some ==> old(p)@ == seq![got->Some_0@] + final(p)@,
        got is None ==> final(p)@ == old(p)@,
{
    if sent is Ok {
        assert(final(q)@.drop_last() =~= old(q)@);
    }
    if got is Some {
        assert(old(p)@ =~= seq![got->Some_0@] + final(p)@);
    }
}

/// Free bands are handed out in the order in which they became free, and there are
/// three at most.
pub proof fn bands_wait_in_order(
    fresh: FreeChannel,
    q: &mut FreeChannel,
    band: &'static mut Band,
    sent: Result<(), &'static mut Band>,
    p: &mut FreeChannel,
    got: Option<&'static mut Band>,
)
    requires
        call_ensures(FreeChannel::new, (), fresh),
        call_ensures(FreeChannel::try_send, (q, band), sent),
        call_ensures(FreeChannel::try_receive, (p,), got),
    ensures
        fresh@.len() == 0,
        sent is Ok <==> old(q)@.len() < 3,
        sent is Ok ==> final(q)@ == old(q)@.push(old(band)@),
        sent is Err ==> final(q)@ == old(q)@ && sent->Err_0@ == old(band)@,
        got is Some <==> old(p)@.len() > 0,
        got is Some ==> old(p)@ == seq![got->Some_0@] + final(p)@,
        got is None ==> final(p)@ == old(p)@,
{
    if got is Some {
        assert(old(p)@ =~= seq![got->Some_0@] + final(p)@);
    }
}

/// What the loop is told of the device.
pub proof fn the_loop_is_told(
    d: GudDevice,
    stats: gud::Stats,
    receiving: bool,
    waiting: bool,
    n: usize,
    w: PanelWorker,
    panel: PanelStats,
    t: Touch,
    touch: TouchStats,
)
    requires
        call_ensures(GudDevice::stats, (&d,), stats),
        call_ensures(GudDevice::is_receiving, (&d,), receiving),
        call_ensures(GudDevice::has_pending_job, (&d,), waiting),
        call_ensures(GudDevice::queued_commands, (&d,), n),
        call_ensures(PanelWorker::stats, (&w,), panel),
        call_ensures(Touch::stats, (&t,), touch),
    ensures
        stats == d@.stats,
        receiving <==> d@.receiving is Some,
        waiting <==> d@.pending_job is Some,
        n == d@.queued,
        panel == w@.stats,
        touch == t@.stats,
{
}

} // verus!
