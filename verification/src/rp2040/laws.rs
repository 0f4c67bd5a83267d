//! What holds of the device whatever the host and the panel do.

use vstd::prelude::*;

use crate::panel::geometry::{RAM_HEIGHT, RAM_WIDTH, X_OFFSET, Y_OFFSET};
use crate::panel::st7789;
use crate::pipeline::{self, Job};
use crate::protocol::laws as protocol_laws;
use crate::protocol::stream;
use crate::protocol::{Command, Rect};
use crate::rp2040::gud::{
    self, Action, Gud, Queues, Reception, Turn, BAND_BYTES, JOB_SLOTS, NUM_BANDS,
};

verus! {

/// One thing for the panel to do, without its pixels.
pub enum Task {
    Band(Rect),
    Enable(bool),
}

/// What the panel will have to do for a command.
pub open spec fn task_of_command(c: Command) -> Seq<Task> {
    match c {
        Command::Update(rect) => seq![Task::Band(rect)],
        Command::Enable(on) => seq![Task::Enable(on)],
        Command::Brightness(_) => seq![],
    }
}

/// What the panel has to do for a job.
pub open spec fn task_of_job(job: Job) -> Seq<Task> {
    match job {
        Job::Band { rect, .. } => seq![Task::Band(rect)],
        Job::Enable(on) => seq![Task::Enable(on)],
    }
}

/// What the panel will have to do for the commands, in order.
pub open spec fn tasks_of_commands(commands: Seq<Command>) -> Seq<Task>
    decreases commands.len(),
{
    if commands.len() == 0 {
        seq![]
    } else {
        task_of_command(commands[0]) + tasks_of_commands(commands.skip(1))
    }
}

/// What the panel has to do for the jobs, in order.
pub open spec fn tasks_of_jobs(jobs: Seq<Job>) -> Seq<Task>
    decreases jobs.len(),
{
    if jobs.len() == 0 {
        seq![]
    } else {
        tasks_of_jobs(jobs.drop_last()) + task_of_job(jobs.last())
    }
}

/// What the device still has for the panel, in the order in which the host
/// asked for it.
pub open spec fn outstanding(s: Gud) -> Seq<Task> {
    (match s.pending_job {
        Some(job) => task_of_job(job),
        None => seq![],
    }) + (match s.receiving {
        Some(r) => seq![Task::Band(r.rect)],
        None => seq![],
    }) + tasks_of_commands(s.commands)
}

/// The tasks of two runs of commands are the tasks of the one and then of the
/// other.
pub proof fn tasks_follow_each_other(a: Seq<Command>, b: Seq<Command>)
    ensures
        tasks_of_commands(a + b) == tasks_of_commands(a) + tasks_of_commands(b),
    decreases a.len(),
{
    if a.len() == 0 {
        assert(a + b =~= b);
        assert(tasks_of_commands(a) + tasks_of_commands(b) =~= tasks_of_commands(b));
    } else {
        tasks_follow_each_other(a.skip(1), b);
        assert((a + b).skip(1) =~= a.skip(1) + b);
        assert(tasks_of_commands(a + b) =~= tasks_of_commands(a) + tasks_of_commands(b));
    }
}

/// What the device and the panel's queue have for the panel, in the order in
/// which the host asked for it.
pub open spec fn all_work(s: Gud, q: Queues) -> Seq<Task> {
    tasks_of_jobs(q.jobs) + outstanding(s)
}

/// One more job is one more task.
proof fn one_more_job(jobs: Seq<Job>, job: Job)
    ensures
        tasks_of_jobs(jobs.push(job)) == tasks_of_jobs(jobs) + task_of_job(job),
{
    assert(jobs.push(job).drop_last() =~= jobs);
}

/// A turn moves work towards the panel and keeps its order: none is lost, made
/// up or overtaken.
pub proof fn turns_keep_the_order(s: Gud, q: Queues)
    ensures
        all_work(s.turn(q).0, s.turn(q).1) == all_work(s, q),
{
    let (after, left, _) = s.turn(q);
    if s.pending_job is Some {
        one_more_job(q.jobs, s.pending_job->Some_0);
    }
    if s.commands.len() > 0 {
        let rest = s.commands.skip(1);
        assert((seq![s.commands[0]] + rest).skip(1) =~= rest);
    }
    assert(all_work(after, left) =~= all_work(s, q));
}

/// A batch of turns keeps the order, too.
pub proof fn batches_keep_the_order(s: Gud, q: Queues, n: nat)
    ensures
        all_work(s.turns(q, n).0, s.turns(q, n).1) == all_work(s, q),
    decreases n,
{
    if n > 0 {
        batches_keep_the_order(s, q, (n - 1) as nat);
        let (before, left, _) = s.turns(q, (n - 1) as nat);
        turns_keep_the_order(before, left);
    }
}

/// A packet changes nothing about what is outstanding.
pub proof fn packets_keep_the_order(s: Gud, packet: Seq<u8>)
    requires
        s.receiving is Some,
        s.pending_job is None,
    ensures
        outstanding(s.received(packet)) == outstanding(s),
{
    assert(outstanding(s.received(packet)) =~= outstanding(s));
}

/// A request's work goes behind what is outstanding, all of it or none. An
/// update that is coming in and a job that waits for the panel are not touched.
pub proof fn requests_queue_all_or_nothing(s: Gud, request: u8, data: Seq<u8>)
    ensures
        ({
            let (after, result) = s.asked(request, data);
            &&& after.receiving == s.receiving
            &&& after.pending_job == s.pending_job
            &&& result is Err ==> after.commands == s.commands
            &&& result is Ok ==> {
                &&& s.connector.commands(request, data) is Ok
                &&& after.commands == s.commands + s.connector.commands(request, data)->Ok_0
                &&& outstanding(after) == outstanding(s) + tasks_of_commands(
                    s.connector.commands(request, data)->Ok_0,
                )
            }
        }),
{
    let (after, result) = s.asked(request, data);
    if result is Ok {
        let new = s.connector.commands(request, data)->Ok_0;
        tasks_follow_each_other(s.commands, new);
        assert(outstanding(after) =~= outstanding(s) + tasks_of_commands(new));
    }
}

/// Turns, packets, requests and a reset leave the device and the queues valid.
pub proof fn the_device_stays_valid(s: Gud, q: Queues, packet: Seq<u8>, request: u8, data: Seq<u8>)
    requires
        s.valid(),
        q.valid(),
    ensures
        s.turn(q).0.valid(),
        s.turn(q).1.valid(),
        s.receiving matches Some(r) ==> r.filled + packet.len() <= r.rect.payload ==> s.received(
            packet,
        ).valid(),
        s.asked(request, data).0.valid(),
        s.after_reset().valid(),
{
    protocol_laws::requests_keep_the_connector_valid(s.connector, request, data);
    let turned = s.turn(q).0;
    assert forall|i: int| 0 <= i < turned.commands.len() implies gud::valid_command(
        #[trigger] turned.commands[i],
    ) by {
        assert(turned.commands[i] == s.commands[i + s.commands.len() - turned.commands.len()]);
    }
}

/// How many of the jobs own a band.
pub open spec fn bands_of_jobs(jobs: Seq<Job>) -> nat
    decreases jobs.len(),
{
    if jobs.len() == 0 {
        0
    } else {
        bands_of_jobs(jobs.drop_last()) + if jobs.last() is Band {
            1nat
        } else {
            0
        }
    }
}

/// The bands that are free, belong to the device, or wait for the panel.
pub open spec fn all_bands(s: Gud, q: Queues) -> nat {
    q.free.len() + s.held_bands().len() + bands_of_jobs(q.jobs)
}

/// A turn loses no band and makes none up.
pub proof fn turns_conserve_the_bands(s: Gud, q: Queues)
    ensures
        all_bands(s.turn(q).0, s.turn(q).1) == all_bands(s, q),
{
    if s.pending_job is Some {
        assert(q.jobs.push(s.pending_job->Some_0).drop_last() =~= q.jobs);
    }
}

/// Neither does a batch of turns, a packet or a request.
pub proof fn the_bands_are_conserved(
    s: Gud,
    q: Queues,
    n: nat,
    packet: Seq<u8>,
    request: u8,
    data: Seq<u8>,
)
    ensures
        all_bands(s.turns(q, n).0, s.turns(q, n).1) == all_bands(s, q),
        s.receiving is Some && s.pending_job is None ==> all_bands(s.received(packet), q)
            == all_bands(s, q),
        all_bands(s.asked(request, data).0, q) == all_bands(s, q),
    decreases n,
{
    if n > 0 {
        the_bands_are_conserved(s, q, (n - 1) as nat, packet, request, data);
        let (before, left, _) = s.turns(q, (n - 1) as nat);
        turns_conserve_the_bands(before, left);
    }
}

/// As long as there are no more bands than the queue of free ones holds, a reset
/// finds room for those that become free; none is lost, and the jobs that wait
/// for the panel keep theirs.
pub proof fn a_reset_returns_the_bands(s: Gud, q: Queues)
    requires
        all_bands(s, q) <= NUM_BANDS,
    ensures
        gud::given_back(q.free, s.held_bands()) == q.free + s.held_bands(),
        all_bands(
            s.after_reset(),
            Queues { free: gud::given_back(q.free, s.held_bands()), ..q },
        ) == all_bands(s, q),
        outstanding(s.after_reset()) == Seq::<Task>::empty(),
{
    assert(outstanding(s.after_reset()) =~= Seq::<Task>::empty());
    all_fit(q.free, s.held_bands());
}

/// With room for all, all are put back.
proof fn all_fit(free: Seq<Seq<u8>>, held: Seq<Seq<u8>>)
    requires
        free.len() + held.len() <= NUM_BANDS,
    ensures
        gud::given_back(free, held) == free + held,
    decreases held.len(),
{
    if held.len() == 0 {
        assert(free + held =~= free);
    } else {
        all_fit(free, held.drop_last());
        assert((free + held.drop_last()).push(held.last()) =~= free + held);
    }
}

/// While the panel's queue is full the device waits, and forgets nothing.
pub proof fn a_full_panel_queue_holds_the_device(s: Gud, q: Queues)
    requires
        s.pending_job is Some,
        q.jobs.len() >= JOB_SLOTS,
    ensures
        s.turn(q) == (s, q, Turn::Act(Action::Done)),
{
}

/// While no band is free an update stays in front, nothing is read off the
/// endpoint for it, and it starts as soon as there is a band.
pub proof fn an_update_waits_for_a_free_band(s: Gud, none: Queues, some: Queues)
    requires
        s.valid(),
        s.pending_job is None,
        s.receiving is None,
        s.commands.len() > 0,
        s.commands[0] is Update,
        none.free.len() == 0,
        some.free.len() > 0,
    ensures
        ({
            let (after, left, turn) = s.turn(none);
            let started = after.turn(some).0;
            &&& turn == Turn::Act(Action::Done)
            &&& left == none
            &&& after.commands == s.commands
            &&& after.receiving is None
            &&& after.turn(none).0 == after
            &&& started.commands == s.commands.skip(1)
            &&& started.receiving == Some(
                Reception {
                    payload: some.free[0],
                    rect: s.commands[0]->Update_0,
                    filled: 0,
                    last_progress: s.now,
                },
            )
        }),
{
    let after = s.turn(none).0;
    assert(seq![s.commands[0]] + s.commands.skip(1) =~= s.commands);
    assert(seq![after.commands[0]] + after.commands.skip(1) =~= after.commands);
}

/// An update after several packets, the first of which came at `times[0]`, and
/// so on.
pub open spec fn after_packets(r: Reception, packets: Seq<Seq<u8>>, times: Seq<u64>) -> Reception
    decreases packets.len(),
{
    if packets.len() == 0 {
        r
    } else {
        after_packets(r, packets.drop_last(), times).received(
            packets.last(),
            times[packets.len() - 1],
        )
    }
}

/// What has come in of an update is its packets, one behind the other, however
/// short or odd they are, and whenever they come.
pub proof fn a_payload_is_its_packets(r: Reception, packets: Seq<Seq<u8>>, times: Seq<u64>)
    requires
        times.len() >= packets.len(),
        r.filled == 0,
        r.payload.len() == BAND_BYTES,
        packets.flatten().len() <= BAND_BYTES,
    ensures
        ({
            let after = after_packets(r, packets, times);
            &&& after.filled == packets.flatten().len()
            &&& after.payload.len() == BAND_BYTES
            &&& after.payload.take(after.filled as int) == packets.flatten()
            &&& after.rect == r.rect
        }),
    decreases packets.len(),
{
    if packets.len() == 0 {
        assert(packets.flatten() =~= Seq::<u8>::empty());
        assert(r.payload.take(0) =~= Seq::<u8>::empty());
    } else {
        let earlier = packets.drop_last();
        packets.lemma_flatten_and_flatten_alt_are_equivalent();
        earlier.lemma_flatten_and_flatten_alt_are_equivalent();
        assert(packets.flatten() == earlier.flatten() + packets.last());
        a_payload_is_its_packets(r, earlier, times);
        let before = after_packets(r, earlier, times);
        let after = after_packets(r, packets, times);
        assert(after.payload.take(after.filled as int) =~= before.payload.take(
            before.filled as int,
        ) + packets.last());
    }
}

/// The device after several packets, each read in a pass at its time.
pub open spec fn device_after_packets(s: Gud, packets: Seq<Seq<u8>>, times: Seq<u64>) -> Gud
    decreases packets.len(),
{
    if packets.len() == 0 {
        s
    } else {
        let before = device_after_packets(s, packets.drop_last(), times);
        Gud { now: times[packets.len() - 1], ..before }.received(packets.last())
    }
}

/// While packets are missing, the update is coming in.
proof fn partial_updates_keep_coming(s: Gud, packets: Seq<Seq<u8>>, times: Seq<u64>)
    requires
        times.len() >= packets.len(),
        s.pending_job is None,
        s.receiving matches Some(r) && r.filled == 0 && r.payload.len() == BAND_BYTES,
        packets.flatten().len() < s.receiving->Some_0.rect.payload <= BAND_BYTES,
    ensures
        ({
            let after = device_after_packets(s, packets, times);
            &&& after.receiving == Some(after_packets(s.receiving->Some_0, packets, times))
            &&& after.pending_job is None
            &&& after.commands == s.commands
        }),
    decreases packets.len(),
{
    if packets.len() > 0 {
        let earlier = packets.drop_last();
        packets.lemma_flatten_and_flatten_alt_are_equivalent();
        earlier.lemma_flatten_and_flatten_alt_are_equivalent();
        assert(packets.flatten() == earlier.flatten() + packets.last());
        partial_updates_keep_coming(s, earlier, times);
        a_payload_is_its_packets(s.receiving->Some_0, packets, times);
    }
}

/// Once the last packet of an update is in, it is a job for the panel, with its
/// packets in its band. The commands that wait are not touched.
pub proof fn complete_updates_become_jobs(s: Gud, packets: Seq<Seq<u8>>, times: Seq<u64>)
    requires
        times.len() >= packets.len(),
        s.pending_job is None,
        s.receiving matches Some(r) && r.filled == 0 && r.payload.len() == BAND_BYTES,
        packets.len() > 0,
        packets.last().len() > 0,
        packets.flatten().len() == s.receiving->Some_0.rect.payload <= BAND_BYTES,
    ensures
        ({
            let r = s.receiving->Some_0;
            let after = device_after_packets(s, packets, times);
            &&& after.receiving is None
            &&& after.pending_job == Some(
                Job::Band { payload: after_packets(r, packets, times).payload, rect: r.rect },
            )
            &&& after.commands == s.commands
        }),
{
    let earlier = packets.drop_last();
    packets.lemma_flatten_and_flatten_alt_are_equivalent();
    earlier.lemma_flatten_and_flatten_alt_are_equivalent();
    assert(packets.flatten() == earlier.flatten() + packets.last());
    partial_updates_keep_coming(s, earlier, times);
    a_payload_is_its_packets(s.receiving->Some_0, packets, times);
}

/// What the host sends reaches the panel: once all packets of an update are in,
/// over however many passes, its band holds the pixels, and they come out in the panel's byte order. A raw
/// update is its packets; a compressed one is what they decode to, if that is as
/// long as it should be.
pub proof fn updates_reach_the_panel(r: Reception, packets: Seq<Seq<u8>>, times: Seq<u64>)
    requires
        times.len() >= packets.len(),
        r.filled == 0,
        r.payload.len() == BAND_BYTES,
        protocol_laws::valid_rect(gud::board_display(), r.rect),
        packets.flatten().len() == r.rect.payload,
    ensures
        ({
            let sent = packets.flatten();
            let payload = after_packets(r, packets, times).payload;
            let shown = pipeline::panel_bytes(r.rect, payload, BAND_BYTES as nat);
            let length = r.rect.length as nat;
            &&& !r.rect.compressed ==> shown == Some(stream::swapped(sent))
            &&& r.rect.compressed ==> shown == match pipeline::lz4_block(sent, length) {
                Some(pixels) => if pixels.len() == length {
                    Some(stream::swapped(pixels))
                } else {
                    None
                },
                None => None,
            }
        }),
{
    a_payload_is_its_packets(r, packets, times);
    let payload = after_packets(r, packets, times).payload;
    assert(payload.take(r.rect.payload as int) == packets.flatten());
    let area = r.rect.width as int * r.rect.height as int;
    assert(r.rect.length % 2 == 0) by {
        assert(r.rect.length == area * 2);
    }
}

/// Every update that the display takes has a window in the controller's RAM,
/// and is as long as the window has room for.
pub proof fn bands_fill_their_windows(r: Rect)
    requires
        protocol_laws::valid_rect(gud::board_display(), r),
    ensures
        st7789::addressable(r.x, r.y, r.width, r.height),
        r.x + X_OFFSET + r.width <= RAM_WIDTH,
        r.y + Y_OFFSET + r.height <= RAM_HEIGHT,
        r.length == r.width * r.height * 2,
        r.length <= BAND_BYTES,
{
    st7789::windows_lie_in_the_ram(r.x, r.y, r.width, r.height);
}

} // verus!
