//! Polling USB adapter. Core 0 only receives bytes and queues work; it never
//! waits for SPI. The endpoint NAKs while all input buffers belong to core 1.
//!
//! The device decides, the firmware's loop acts: [`GudDevice::drain_bulk`]
//! works through what is queued until it needs the bulk endpoint or the
//! backlight, and says which; the loop hands back what came of it.

use vstd::prelude::*;

use crate::bytes;
use crate::panel::{HEIGHT, WIDTH};
use crate::pipeline::queue::{CommandChannel, COMMAND_SLOTS};
use crate::pipeline::{Job, PayloadProgress};
use crate::protocol::display::small_modes_fit;
use crate::protocol::{
    laws, status, Command, Commands, Connector, Display, Protocol, Rect, COMPRESSION_LZ4,
    MAX_IN_LEN,
};
pub use crate::rp2040::queue::{
    Band, FreeChannel, JobChannel, PanelJob, BAND_BYTES, JOB_SLOTS, NUM_BANDS,
};
use crate::usb::{self, Request};

verus! {

/// Turns of one batch, so that CDC, EP0 and the stall timer remain responsive.
pub const BATCH: u32 = 64;
/// Silence in the middle of a payload after which the host has stalled.
pub const PAYLOAD_STALL_US: u64 = 2_000_000;

/// What the host is told: the panel, LZ4 accepted, a band at a time.
pub open spec fn board_display() -> Display {
    Display {
        width: WIDTH,
        height: HEIGHT,
        compression: COMPRESSION_LZ4,
        max_buffer_size: BAND_BYTES as u32,
    }
}

/// What the host is told: the panel, LZ4 accepted, a band at a time.
pub fn display() -> (d: Display)
    ensures
        d == board_display(),
{
    Display::new(WIDTH, HEIGHT).with_lz4(BAND_BYTES as u32)
}

#[derive(Clone, Copy, Debug, PartialEq, Eq, Structural)]
pub struct Stats {
    pub updates: u32,
    pub bytes: u32,
    pub wire_bytes: u32,
    pub rejected: u32,
    pub last_rejected_request: u8,
    pub brightness: u8,
}

impl Default for Stats {
    fn default() -> (s: Self)
        ensures
            s == no_stats(),
    {
        Stats {
            updates: 0,
            bytes: 0,
            wire_bytes: 0,
            rejected: 0,
            last_rejected_request: 0,
            brightness: 0,
        }
    }
}

/// Nothing counted yet.
pub open spec fn no_stats() -> Stats {
    Stats {
        updates: 0,
        bytes: 0,
        wire_bytes: 0,
        rejected: 0,
        last_rejected_request: 0,
        brightness: 0,
    }
}

impl Stats {
    /// One more update received.
    pub open spec fn with_update(self, rect: Rect) -> Stats {
        Stats {
            updates: self.updates.wrapping_add(1),
            bytes: self.bytes.wrapping_add(rect.length),
            wire_bytes: self.wire_bytes.wrapping_add(rect.payload),
            ..self
        }
    }

    /// One more request refused.
    pub open spec fn with_rejected(self, request: u8) -> Stats {
        Stats {
            rejected: self.rejected.wrapping_add(1),
            last_rejected_request: request,
            ..self
        }
    }
}

/// An update whose payload is coming in.
struct Receiving {
    payload: &'static mut Band,
    rect: Rect,
    progress: PayloadProgress,
    last_progress: u64,
}

/// An update whose payload is coming in: the band, of which the first `filled`
/// bytes are in, and when the last of them came.
#[verifier::ext_equal]
pub struct Reception {
    pub payload: Seq<u8>,
    pub rect: Rect,
    pub filled: nat,
    pub last_progress: u64,
}

/// The device as its users see it.
#[verifier::ext_equal]
pub struct Gud {
    pub interface: u8,
    pub connector: Connector,
    /// Commands that wait, in order. The first may have been looked at already
    /// and found no free band.
    pub commands: Seq<Command>,
    /// Commands that take a slot of the queue.
    pub queued: nat,
    pub pending_job: Option<Job>,
    pub receiving: Option<Reception>,
    pub now: u64,
    pub stats: Stats,
}

/// What the firmware's loop has to do next.
#[derive(Clone, Copy, Debug, PartialEq, Eq, Structural)]
pub enum Action {
    /// Nothing, until the host or the panel has moved on or another batch is
    /// due.
    Done,
    /// Read a packet off the bulk endpoint and hand it to
    /// [`GudDevice::bulk_read`].
    Read,
    /// Set the backlight and tell [`GudDevice::backlight_set`].
    Backlight(u8),
}

/// Why there was no packet.
#[derive(Clone, Copy, Debug, PartialEq, Eq, Structural)]
pub enum BulkError {
    /// The host has not sent one yet.
    WouldBlock,
    /// The packet is longer than the endpoint's, or the endpoint failed.
    Failed,
}

/// How to go on after a packet, or none.
#[derive(Clone, Copy, Debug, PartialEq, Eq, Structural)]
pub enum Reading {
    /// With the next turn.
    Continue,
    /// When the host has sent more.
    Wait,
    /// Not at all: the stream has no framing to recover a payload that does
    /// not end where it should. Re-enumerate.
    Stall,
}

/// What one turn of a batch comes to.
#[derive(Clone, Copy, Debug, PartialEq, Eq, Structural)]
pub enum Turn {
    /// Go on with the next turn.
    Again,
    /// Go on when this is done.
    Act(Action),
}

/// The queues between the cores: the jobs that wait for the panel, and what is
/// in the free bands.
#[verifier::ext_equal]
pub struct Queues {
    pub jobs: Seq<Job>,
    pub free: Seq<Seq<u8>>,
}

impl Queues {
    /// Free bands are whole bands.
    pub open spec fn valid(self) -> bool {
        forall|i: int| 0 <= i < self.free.len() ==> (#[trigger] self.free[i]).len() == BAND_BYTES
    }
}

impl Gud {
    /// Every update that waits or comes in is one that the display takes, so
    /// that it fits into a band.
    pub open spec fn valid(self) -> bool {
        &&& self.connector.valid()
        &&& self.connector.display == board_display()
        &&& self.queued <= COMMAND_SLOTS
        &&& self.queued <= self.commands.len() <= self.queued + 1
        &&& forall|i: int|
            0 <= i < self.commands.len() ==> valid_command(#[trigger] self.commands[i])
        &&& self.receiving matches Some(r) ==> r.valid() && r.last_progress <= self.now
    }

    /// One turn. A pending job goes to the panel, or the turn is over. Then an
    /// update that is coming in gets its next packet, or else the next command
    /// is carried out.
    pub open spec fn turn(self, q: Queues) -> (Gud, Queues, Turn) {
        if self.pending_job is Some && q.jobs.len() >= JOB_SLOTS {
            (self, q, Turn::Act(Action::Done))
        } else {
            let s = Gud { pending_job: None, ..self };
            let sent = Queues {
                jobs: match self.pending_job {
                    Some(job) => q.jobs.push(job),
                    None => q.jobs,
                },
                ..q
            };
            if s.receiving is Some {
                (s, sent, Turn::Act(Action::Read))
            } else if s.commands.len() == 0 {
                (s, sent, Turn::Act(Action::Done))
            } else {
                s.without_first().carried_out(s.commands[0], sent)
            }
        }
    }

    /// Without the command in front.
    pub open spec fn without_first(self) -> Gud {
        Gud {
            commands: self.commands.skip(1),
            queued: if self.commands.len() > self.queued {
                self.queued
            } else {
                (self.queued - 1) as nat
            },
            ..self
        }
    }

    /// After a command that was taken from the front. An update starts to come
    /// in if there is a free band for it, and else goes back to the front.
    pub open spec fn carried_out(self, command: Command, q: Queues) -> (Gud, Queues, Turn) {
        match command {
            Command::Update(rect) => if q.free.len() > 0 {
                (
                    Gud {
                        receiving: Some(
                            Reception {
                                payload: q.free[0],
                                rect,
                                filled: 0,
                                last_progress: self.now,
                            },
                        ),
                        ..self
                    },
                    Queues { free: q.free.skip(1), ..q },
                    Turn::Again,
                )
            } else {
                (
                    Gud { commands: seq![command] + self.commands, ..self },
                    q,
                    Turn::Act(Action::Done),
                )
            },
            Command::Enable(on) => (
                Gud { pending_job: Some(Job::Enable(on)), ..self },
                q,
                Turn::Again,
            ),
            Command::Brightness(percent) => (self, q, Turn::Act(Action::Backlight(percent))),
        }
    }

    /// After the next packet of the update that is coming in. With the last
    /// one the update is complete and becomes a job for the panel.
    pub open spec fn received(self, packet: Seq<u8>) -> Gud {
        let r = self.receiving->Some_0.received(packet, self.now);
        if r.filled == r.rect.payload {
            Gud {
                receiving: None,
                pending_job: Some(Job::Band { payload: r.payload, rect: r.rect }),
                stats: self.stats.with_update(r.rect),
                ..self
            }
        } else {
            Gud { receiving: Some(r), ..self }
        }
    }

    /// After a vendor OUT request to the display, and what came of it. The
    /// request's commands join the queue if there is room for two, however
    /// many they are.
    pub open spec fn asked(self, request: u8, data: Seq<u8>) -> (Gud, Result<(), u8>) {
        let after = self.connector.after(request, data);
        match self.connector.commands(request, data) {
            Err(code) => (self.refused(after, request, code), Err(code)),
            Ok(commands) => if commands.len() > 0 && self.queued + 2 > COMMAND_SLOTS {
                (self.refused(after, request, status::PROTOCOL_ERROR), Err(status::PROTOCOL_ERROR))
            } else {
                (
                    Gud {
                        connector: after.with_status(status::OK),
                        commands: self.commands + commands,
                        queued: self.queued + commands.len(),
                        ..self
                    },
                    Ok(()),
                )
            },
        }
    }

    /// After a request was refused.
    pub open spec fn refused(self, connector: Connector, request: u8, code: u8) -> Gud {
        Gud {
            connector: connector.with_status(code),
            stats: self.stats.with_rejected(request),
            ..self
        }
    }

    /// What is in the bands that belong to the device.
    pub open spec fn held_bands(self) -> Seq<Seq<u8>> {
        (match self.receiving {
            Some(r) => seq![r.payload],
            None => seq![],
        }) + (match self.pending_job {
            Some(Job::Band { payload, .. }) => seq![payload],
            _ => seq![],
        })
    }

    /// After a USB bus reset: nothing waits and nothing is coming in.
    pub open spec fn after_reset(self) -> Gud {
        Gud {
            connector: self.connector.with_status(status::OK),
            commands: seq![],
            queued: 0,
            pending_job: None,
            receiving: None,
            ..self
        }
    }

    /// A batch of so many turns, unless one of them ends it.
    pub open spec fn turns(self, q: Queues, n: nat) -> (Gud, Queues, Turn)
        decreases n,
    {
        if n == 0 {
            (self, q, Turn::Again)
        } else {
            let (s, left, turn) = self.turns(q, (n - 1) as nat);
            if turn == Turn::Again {
                s.turn(left)
            } else {
                (s, left, turn)
            }
        }
    }
}

/// A packet is asked for only while an update is coming in and nothing waits
/// for the panel, and the backlight is only ever set to a percentage.
pub open spec fn acts_in_time(turn: Turn, s: Gud) -> bool {
    match turn {
        Turn::Act(Action::Read) => s.receiving is Some && s.pending_job is None,
        Turn::Act(Action::Backlight(percent)) => percent <= 100,
        _ => true,
    }
}

impl Reception {
    /// After a packet, which came at `now`. An empty packet is no progress.
    pub open spec fn received(self, packet: Seq<u8>, now: u64) -> Reception {
        Reception {
            payload: bytes::replaced(self.payload, self.filled as int, packet),
            filled: self.filled + packet.len(),
            last_progress: if packet.len() > 0 {
                now
            } else {
                self.last_progress
            },
            ..self
        }
    }

    /// The update is one that the display takes, and some of it is to come.
    pub open spec fn valid(self) -> bool {
        &&& self.payload.len() == BAND_BYTES
        &&& laws::valid_rect(board_display(), self.rect)
        &&& self.filled < self.rect.payload
    }
}

/// What is in the queues.
pub open spec fn queues(jobs: JobChannel, free: FreeChannel) -> Queues {
    Queues { jobs: jobs@, free: free@ }
}

/// The free bands when those of `held` are put back one after the other, as far
/// as there is room.
pub open spec fn given_back(free: Seq<Seq<u8>>, held: Seq<Seq<u8>>) -> Seq<Seq<u8>>
    decreases held.len(),
{
    if held.len() == 0 {
        free
    } else {
        let earlier = given_back(free, held.drop_last());
        if earlier.len() < NUM_BANDS {
            earlier.push(held.last())
        } else {
            earlier
        }
    }
}

/// What is in the band, if there is one.
pub open spec fn contents(band: Option<&'static mut Band>) -> Option<Seq<u8>> {
    match band {
        Some(payload) => Some(payload@),
        None => None,
    }
}

/// The display takes the update, or the brightness is a percentage.
pub open spec fn valid_command(c: Command) -> bool {
    match c {
        Command::Update(rect) => laws::valid_rect(board_display(), rect),
        Command::Brightness(percent) => percent <= 100,
        Command::Enable(_) => true,
    }
}

pub struct GudDevice {
    interface: u8,
    protocol: Protocol,
    commands: CommandChannel,
    pending_command: Option<Command>,
    pending_job: Option<PanelJob>,
    receiving: Option<Receiving>,
    now: u64,
    stats: Stats,
}

impl View for Receiving {
    type V = Reception;

    closed spec fn view(&self) -> Reception {
        Reception {
            payload: self.payload@,
            rect: self.rect,
            filled: self.progress@.filled,
            last_progress: self.last_progress,
        }
    }
}

impl View for GudDevice {
    type V = Gud;

    closed spec fn view(&self) -> Gud {
        Gud {
            interface: self.interface,
            connector: self.protocol@,
            commands: match self.pending_command {
                Some(c) => seq![c] + self.commands@,
                None => self.commands@,
            },
            queued: self.commands@.len(),
            pending_job: match self.pending_job {
                Some(job) => Some(job@),
                None => None,
            },
            receiving: match self.receiving {
                Some(rx) => Some(rx@),
                None => None,
            },
            now: self.now,
            stats: self.stats,
        }
    }
}

impl GudDevice {
    /// The device is as its methods leave it.
    pub closed spec fn wf(self) -> bool {
        &&& self@.valid()
        &&& self.receiving matches Some(rx) ==> rx.progress@.length == rx.rect.payload
    }

    pub fn new(interface: u8) -> (d: Self)
        ensures
            d.wf(),
            d@ == (Gud {
                interface,
                connector: Connector {
                    display: board_display(),
                    status: status::OK,
                    brightness: 100,
                    pending_brightness: 100,
                    enabled: true,
                },
                commands: seq![],
                queued: 0,
                pending_job: None,
                receiving: None,
                now: 0,
                stats: Stats { brightness: 100, ..no_stats() },
            }),
    {
        let mut stats = Stats::default();
        stats.brightness = 100;
        GudDevice {
            interface,
            protocol: Protocol::new(display()),
            commands: CommandChannel::new(),
            pending_command: None,
            pending_job: None,
            receiving: None,
            now: 0,
            stats,
        }
    }

    pub fn stats(&self) -> (s: Stats)
        ensures
            s == self@.stats,
    {
        self.stats
    }

    /// Whether an update is coming in.
    pub fn is_receiving(&self) -> (b: bool)
        ensures
            b == (self@.receiving is Some),
    {
        self.receiving.is_some()
    }

    /// Whether a job waits for room in the panel's queue.
    pub fn has_pending_job(&self) -> (b: bool)
        ensures
            b == (self@.pending_job is Some),
    {
        self.pending_job.is_some()
    }

    /// How many commands are in the queue.
    pub fn queued_commands(&self) -> (n: usize)
        requires
            self.wf(),
        ensures
            n == self@.queued,
    {
        COMMAND_SLOTS - self.commands.free_capacity()
    }

    /// Takes the next command, if there is one: one that found no free band
    /// before those in the queue.
    fn next_command(&mut self) -> (c: Option<Command>)
        requires
            old(self).wf(),
        ensures
            final(self).wf(),
            old(self)@.commands.len() == 0 ==> c is None && final(self)@ == old(self)@,
            old(self)@.commands.len() > 0 ==> {
                &&& c == Some(old(self)@.commands[0])
                &&& final(self)@ == old(self)@.without_first()
            },
            final(self).pending_command is None,
    {
        let next = match self.pending_command.take() {
            Some(c) => {
                assert(self@.commands =~= old(self)@.commands.skip(1));
                Some(c)
            },
            None => self.commands.try_receive(),
        };
        assert(forall|i: int|
            0 <= i < self@.commands.len() ==> #[trigger] self@.commands[i]
                == old(self)@.commands[i + old(self)@.commands.len() - self@.commands.len()]);
        next
    }

    /// Carries out a command, as far as the device can. An update needs a free
    /// band, and is put back if there is none.
    fn carry_out(&mut self, command: Command, free: &mut FreeChannel) -> (turn: Turn)
        requires
            old(self).wf(),
            old(self).pending_command is None,
            old(self)@.pending_job is None,
            old(self)@.receiving is None,
            valid_command(command),
        ensures
            final(self).wf(),
            ({
                let q = Queues { jobs: seq![], free: old(free)@ };
                (final(self)@, Queues { free: final(free)@, ..q }, turn) == old(self)@.carried_out(
                    command,
                    q,
                )
            }),
            acts_in_time(turn, final(self)@),
    {
        match command {
            Command::Update(rect) => match free.try_receive() {
                Some(payload) => {
                    self.receiving = Some(
                        Receiving {
                            payload,
                            rect,
                            progress: PayloadProgress::new(rect.payload as usize),
                            last_progress: self.now,
                        },
                    );
                    Turn::Again
                },
                None => {
                    self.pending_command = Some(command);
                    assert(self@.commands =~= seq![command] + old(self)@.commands);
                    Turn::Act(Action::Done)
                },
            },
            Command::Enable(on) => {
                self.pending_job = Some(PanelJob::Enable(on));
                Turn::Again
            },
            Command::Brightness(percent) => Turn::Act(Action::Backlight(percent)),
        }
    }

    /// One turn of a batch. Returns also whether a job went to the panel.
    pub fn turn(&mut self, jobs: &mut JobChannel, free: &mut FreeChannel) -> (r: (Turn, bool))
        requires
            old(self).wf(),
        ensures
            final(self).wf(),
            (final(self)@, queues(*final(jobs), *final(free)), r.0) == old(self)@.turn(
                queues(*old(jobs), *old(free)),
            ),
            r.1 == (final(jobs)@.len() > old(jobs)@.len()),
            acts_in_time(r.0, final(self)@),
    {
        let mut sent = false;
        if let Some(job) = self.pending_job.take() {
            if let Err(job) = jobs.try_send(job) {
                self.pending_job = Some(job);
                assert(self@ =~= old(self)@);
                return (Turn::Act(Action::Done), false);
            }
            sent = true;
        }
        assert(self@ =~= (Gud { pending_job: None, ..old(self)@ }));
        if self.receiving.is_some() {
            return (Turn::Act(Action::Read), sent);
        }
        match self.next_command() {
            Some(command) => (self.carry_out(command, free), sent),
            None => (Turn::Act(Action::Done), sent),
        }
    }

    /// Takes turns, as many as `turns` still allows, until the firmware's loop
    /// has something to do. If a job went to the panel, that has to be woken:
    /// this returns whether one did.
    pub fn drain_bulk(
        &mut self,
        turns: &mut u32,
        jobs: &mut JobChannel,
        free: &mut FreeChannel,
    ) -> (r: (Action, bool))
        requires
            old(self).wf(),
        ensures
            final(self).wf(),
            *final(turns) <= *old(turns),
            ({
                let q = queues(*old(jobs), *old(free));
                let taken = (*old(turns) - *final(turns)) as nat;
                let (after, left, turn) = old(self)@.turns(q, taken);
                &&& after == final(self)@
                &&& left == queues(*final(jobs), *final(free))
                &&& match turn {
                    Turn::Again => *final(turns) == 0 && r.0 == Action::Done,
                    Turn::Act(action) => r.0 == action,
                }
                &&& forall|k: nat| k < taken ==> (#[trigger] old(self)@.turns(q, k)).2
                    == Turn::Again
                &&& r.1 == (final(jobs)@.len() > old(jobs)@.len())
            }),
            acts_in_time(Turn::Act(r.0), final(self)@),
    {
        let ghost q = queues(*jobs, *free);
        let ghost mut taken: nat = 0;
        let mut wake = false;
        while *turns > 0
            invariant
                self.wf(),
                *turns <= *old(turns),
                taken == *old(turns) - *turns,
                old(self)@.turns(q, taken) == (self@, queues(*jobs, *free), Turn::Again),
                forall|k: nat| k < taken ==> (#[trigger] old(self)@.turns(q, k)).2 == Turn::Again,
                q == queues(*old(jobs), *old(free)),
                jobs@.len() >= old(jobs)@.len(),
                wake == (jobs@.len() > old(jobs)@.len()),
            decreases *turns,
        {
            *turns = *turns - 1;
            let (turn, sent) = self.turn(jobs, free);
            proof {
                taken = taken + 1;
                assert(old(self)@.turns(q, taken) == (self@, queues(*jobs, *free), turn));
            }
            wake = wake || sent;
            if let Turn::Act(action) = turn {
                return (action, wake);
            }
        }
        (Action::Done, wake)
    }

    /// Takes the packet that was read off the bulk endpoint, or the reason why
    /// there was none, and says how to go on.
    pub fn bulk_read(&mut self, result: Result<&[u8], BulkError>) -> (next: Reading)
        requires
            old(self).wf(),
            old(self)@.receiving is Some,
            old(self)@.pending_job is None,
        ensures
            final(self).wf(),
            match result {
                Err(BulkError::WouldBlock) => next == Reading::Wait && final(self)@ == old(self)@,
                Err(BulkError::Failed) => next == Reading::Stall && final(self)@ == old(self)@,
                Ok(packet) => {
                    let r = old(self)@.receiving->Some_0;
                    if r.filled + packet@.len() > r.rect.payload {
                        next == Reading::Stall && final(self)@ == old(self)@
                    } else {
                        next == Reading::Continue && final(self)@ == old(self)@.received(packet@)
                    }
                },
            },
    {
        let packet = match result {
            Ok(packet) => packet,
            Err(BulkError::WouldBlock) => return Reading::Wait,
            // An overlong packet cannot safely be attributed to another band.
            Err(BulkError::Failed) => return Reading::Stall,
        };
        match self.receiving.take() {
            Some(mut rx) => {
                let filled: usize = rx.progress.filled();
                if rx.progress.advance(packet.len()).is_err() {
                    self.receiving = Some(rx);
                    return Reading::Stall;
                }
                bytes::put_all(rx.payload, filled, packet);
                if packet.len() > 0 {
                    rx.last_progress = self.now;
                }
                if rx.progress.complete() {
                    self.stats.updates = self.stats.updates.wrapping_add(1);
                    self.stats.bytes = self.stats.bytes.wrapping_add(rx.rect.length);
                    self.stats.wire_bytes = self.stats.wire_bytes.wrapping_add(rx.rect.payload);
                    self.pending_job = Some(PanelJob::Band { payload: rx.payload, rect: rx.rect });
                } else {
                    self.receiving = Some(rx);
                }
                Reading::Continue
            },
            None => Reading::Wait,
        }
    }

    /// Takes note of whether the backlight could be set.
    pub fn backlight_set(&mut self, percent: u8, set: bool)
        requires
            old(self).wf(),
        ensures
            final(self).wf(),
            final(self)@ == (if set {
                Gud { stats: Stats { brightness: percent, ..old(self)@.stats }, ..old(self)@ }
            } else {
                old(self)@
            }),
    {
        if set {
            self.stats.brightness = percent;
        }
    }

    /// Starts a pass of the firmware's loop at this time.
    pub fn service(&mut self, now_us: u64)
        requires
            old(self).wf(),
            old(self)@.receiving matches Some(r) ==> r.last_progress <= now_us,
        ensures
            final(self).wf(),
            final(self)@ == (Gud { now: now_us, ..old(self)@ }),
    {
        self.now = now_us;
    }

    /// Whether the host has stopped in the middle of a payload. The stream has
    /// no framing to recover a partially sent update, so the device has to
    /// re-enumerate then. Waiting for a free band is no such stall.
    pub fn stalled(&self) -> (s: bool)
        requires
            self.wf(),
        ensures
            s == (self@.receiving matches Some(r) && self@.now - r.last_progress
                >= PAYLOAD_STALL_US),
    {
        match &self.receiving {
            Some(rx) => self.now - rx.last_progress >= PAYLOAD_STALL_US,
            None => false,
        }
    }

    /// Whether a control request is for the display.
    pub fn is_ours(&self, request: &Request) -> (ours: bool)
        ensures
            ours == usb::for_vendor_interface(self@.interface, *request),
    {
        usb::is_ours(self.interface, request)
    }

    fn rejected(&mut self, request: u8)
        requires
            old(self).wf(),
        ensures
            final(self).wf(),
            final(self)@ == (Gud { stats: old(self)@.stats.with_rejected(request), ..old(self)@ }),
    {
        self.stats.rejected = self.stats.rejected.wrapping_add(1);
        self.stats.last_rejected_request = request;
    }

    /// Answers a control IN request. `None` means that it is another's;
    /// `Some(Ok(n))` means reply with `buf[..n]`; `Some(Err(_))` means stall.
    pub fn control_in(&mut self, request: &Request, buf: &mut [u8]) -> (r: Option<
        Result<usize, u8>,
    >)
        requires
            old(self).wf(),
            old(buf)@.len() >= MAX_IN_LEN,
        ensures
            final(self).wf(),
            !usb::for_vendor_interface(old(self)@.interface, *request) ==> {
                &&& r is None
                &&& final(self)@ == old(self)@
                &&& final(buf)@ == old(buf)@
            },
            usb::for_vendor_interface(old(self)@.interface, *request) ==> {
                let connector = old(self)@.connector;
                let after = connector.after_reply(request.request, request.value);
                match connector.reply(request.request, request.value) {
                    Ok(reply) => {
                        &&& r == Some(Ok::<usize, u8>(reply.len() as usize))
                        &&& final(buf)@ == reply + old(buf)@.skip(reply.len() as int)
                        &&& final(self)@ == (Gud { connector: after, ..old(self)@ })
                    },
                    Err(code) => {
                        &&& r == Some(Err::<usize, u8>(code))
                        &&& final(buf)@ == old(buf)@
                        &&& final(self)@ == old(self)@.refused(connector, request.request, code)
                    },
                }
            },
    {
        if !self.is_ours(request) {
            return None;
        }
        proof {
            laws::replies_are_short(self@.connector, request.request, request.value);
            small_modes_fit(board_display());
        }
        let r = self.protocol.control_in(request.request, request.value, buf);
        if r.is_err() {
            self.rejected(request.request);
        }
        Some(r)
    }

    /// Handles a control OUT request with its data stage. `None` means that it
    /// is another's; `Some(Err(_))` means stall. Bulk packets that wait are to
    /// be read first: EP0 can be serviced before the previous update's final
    /// ACKed packet, whose receiver stays intact.
    pub fn control_out(&mut self, request: &Request, data: &[u8]) -> (r: Option<Result<(), u8>>)
        requires
            old(self).wf(),
        ensures
            final(self).wf(),
            !usb::for_vendor_interface(old(self)@.interface, *request) ==> {
                &&& r is None
                &&& final(self)@ == old(self)@
            },
            usb::for_vendor_interface(old(self)@.interface, *request) ==> {
                let (after, result) = old(self)@.asked(request.request, data@);
                &&& final(self)@ == after
                &&& r is Some
                &&& match result {
                    Ok(_) => r->Some_0 is Ok,
                    Err(code) => r->Some_0 == Err::<(), u8>(code),
                }
            },
    {
        if !self.is_ours(request) {
            return None;
        }
        proof {
            laws::requests_keep_the_connector_valid(self@.connector, request.request, data@);
        }
        // A request emits at most two commands; reserve room for both before
        // any of them is queued. Core 0 is the only command producer.
        let room = self.commands.free_capacity() >= 2;
        let result = match self.protocol.begin(request.request, data) {
            Ok(commands) => if commands.first.is_none() {
                Ok(())
            } else if room {
                self.enqueue(commands);
                Ok(())
            } else {
                Err(status::PROTOCOL_ERROR)
            },
            Err(code) => Err(code),
        };
        let result = self.protocol.finish(result);
        if result.is_err() {
            self.rejected(request.request);
        }
        Some(result)
    }

    /// Puts a request's commands into the queue, which has room for them.
    fn enqueue(&mut self, commands: Commands)
        requires
            old(self).wf(),
            old(self)@.queued + 2 <= COMMAND_SLOTS,
            forall|i: int| 0 <= i < commands@.len() ==> valid_command(#[trigger] commands@[i]),
        ensures
            final(self).wf(),
            final(self)@ == (Gud {
                commands: old(self)@.commands + commands@,
                queued: old(self)@.queued + commands@.len(),
                ..old(self)@
            }),
    {
        let ghost all = commands@;
        if let Some(first) = commands.first {
            assert(all[0] == first);
            let _ = self.commands.try_send(first);
            if let Some(second) = commands.second {
                assert(all[1] == second);
                let _ = self.commands.try_send(second);
            }
        }
        assert(self@.commands =~= old(self)@.commands + all);
    }

    /// Lets go of all work that is not with the panel yet. Returns the bands
    /// that belonged to it.
    fn let_go(&mut self) -> (r: (Option<&'static mut Band>, Option<&'static mut Band>))
        requires
            old(self).wf(),
        ensures
            final(self).wf(),
            final(self)@ == old(self)@.after_reset(),
            match old(self)@.receiving {
                Some(rx) => contents(r.0) == Some(rx.payload),
                None => r.0 is None,
            },
            match old(self)@.pending_job {
                Some(Job::Band { payload, .. }) => contents(r.1) == Some(payload),
                _ => r.1 is None,
            },
    {
        let partial = match self.receiving.take() {
            Some(rx) => Some(rx.payload),
            None => None,
        };
        let complete = match self.pending_job.take() {
            Some(PanelJob::Band { payload, .. }) => Some(payload),
            _ => None,
        };
        self.pending_command = None;
        self.commands.clear();
        self.protocol.reset();
        assert(self@.commands =~= Seq::<Command>::empty());
        (partial, complete)
    }

    /// USB bus reset: the bands of unfinished work become free again. Already
    /// queued complete bands may finish before the next session's work; their
    /// buffers still belong exclusively to the panel worker. Returns whether
    /// there was room for what became free.
    pub fn reset(&mut self, free: &mut FreeChannel) -> (r: bool)
        requires
            old(self).wf(),
        ensures
            final(self).wf(),
            final(self)@ == old(self)@.after_reset(),
            final(free)@ == given_back(old(free)@, old(self)@.held_bands()),
            r == (final(free)@.len() == old(free)@.len() + old(self)@.held_bands().len()),
    {
        reveal_with_fuel(given_back, 3);
        let (partial, complete) = self.let_go();
        let first = match partial {
            Some(band) => free.try_send(band).is_ok(),
            None => true,
        };
        let second = match complete {
            Some(band) => free.try_send(band).is_ok(),
            None => true,
        };
        proof {
            let held = old(self)@.held_bands();
            if held.len() == 2 {
                assert(held.drop_last() =~= seq![held[0]]);
                assert(seq![held[0]].drop_last() =~= Seq::<Seq<u8>>::empty());
            } else if held.len() == 1 {
                assert(held.drop_last() =~= Seq::<Seq<u8>>::empty());
            }
        }
        first && second
    }
}

} // verus!
