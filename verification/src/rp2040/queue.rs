//! The queues between the two cores. Each core uses them under a lock, so
//! that nobody else does meanwhile.

use vstd::prelude::*;

use embassy_sync::blocking_mutex::raw::CriticalSectionRawMutex;
use embassy_sync::channel::{Channel, TrySendError};

use crate::pipeline::{self, Job};

verus! {

pub const BAND_BYTES: usize = 48 * 1024;
pub const NUM_BANDS: usize = 3;
/// Jobs that the panel's queue holds.
pub const JOB_SLOTS: usize = 4;

pub type Band = [u8; BAND_BYTES];
pub type PanelJob = pipeline::PanelJob<BAND_BYTES>;

/// The jobs for the panel.
#[verifier::external_body]
pub struct JobChannel {
    channel: Channel<CriticalSectionRawMutex, PanelJob, JOB_SLOTS>,
}

/// The jobs in the queue, the one that has waited longest first.
pub uninterp spec fn jobs_in(queue: JobChannel) -> Seq<Job>;

impl View for JobChannel {
    type V = Seq<Job>;

    open spec fn view(&self) -> Seq<Job> {
        jobs_in(*self)
    }
}

/// `embassy_sync::channel::Channel::new`: a channel with nothing in it.
#[verifier::external_body]
fn jobs_new() -> (queue: JobChannel)
    ensures
        jobs_in(queue) == Seq::<Job>::empty(),
{
    JobChannel { channel: Channel::new() }
}

/// `embassy_sync::channel::Channel::try_send`: puts the job behind the others,
/// or gives it back as it was if the channel is full. Nobody else uses the
/// channel meanwhile.
#[verifier::external_body]
fn jobs_try_send(queue: &mut JobChannel, job: PanelJob) -> (r: Result<(), PanelJob>)
    ensures
        jobs_in(*old(queue)).len() < JOB_SLOTS ==> {
            &&& r is Ok
            &&& jobs_in(*final(queue)) == jobs_in(*old(queue)).push(job@)
        },
        jobs_in(*old(queue)).len() >= JOB_SLOTS ==> {
            &&& r == Err::<(), PanelJob>(job)
            &&& jobs_in(*final(queue)) == jobs_in(*old(queue))
        },
{
    match queue.channel.try_send(job) {
        Ok(()) => Ok(()),
        Err(TrySendError::Full(job)) => Err(job),
    }
}

/// `embassy_sync::channel::Channel::try_receive`: takes the job in front, if
/// there is one. Nobody else uses the channel meanwhile.
#[verifier::external_body]
fn jobs_try_receive(queue: &mut JobChannel) -> (job: Option<PanelJob>)
    ensures
        match job {
            Some(j) => {
                &&& jobs_in(*old(queue)).len() > 0
                &&& j@ == jobs_in(*old(queue))[0]
                &&& jobs_in(*final(queue)) == jobs_in(*old(queue)).skip(1)
            },
            None => {
                &&& jobs_in(*old(queue)).len() == 0
                &&& jobs_in(*final(queue)) == jobs_in(*old(queue))
            },
        },
{
    queue.channel.try_receive().ok()
}

impl JobChannel {
    pub fn new() -> (queue: Self)
        ensures
            queue@ == Seq::<Job>::empty(),
    {
        jobs_new()
    }

    /// Puts a job in, or gives it back if there is no room.
    pub fn try_send(&mut self, job: PanelJob) -> (r: Result<(), PanelJob>)
        ensures
            old(self)@.len() < JOB_SLOTS ==> r is Ok && final(self)@ == old(self)@.push(job@),
            old(self)@.len() >= JOB_SLOTS ==> {
                &&& r == Err::<(), PanelJob>(job)
                &&& final(self)@ == old(self)@
            },
    {
        jobs_try_send(self, job)
    }

    /// Takes the job that has waited longest, if there is one.
    pub fn try_receive(&mut self) -> (job: Option<PanelJob>)
        ensures
            match job {
                Some(j) => {
                    &&& old(self)@.len() > 0
                    &&& j@ == old(self)@[0]
                    &&& final(self)@ == old(self)@.skip(1)
                },
                None => old(self)@.len() == 0 && final(self)@ == old(self)@,
            },
    {
        jobs_try_receive(self)
    }
}

/// The bands that are free.
#[verifier::external_body]
pub struct FreeChannel {
    channel: Channel<CriticalSectionRawMutex, &'static mut Band, NUM_BANDS>,
}

/// What is in the free bands, the one that has been free longest first.
pub uninterp spec fn bands_in(queue: FreeChannel) -> Seq<Seq<u8>>;

impl View for FreeChannel {
    type V = Seq<Seq<u8>>;

    open spec fn view(&self) -> Seq<Seq<u8>> {
        bands_in(*self)
    }
}

/// `embassy_sync::channel::Channel::new`: a channel with nothing in it.
#[verifier::external_body]
fn free_new() -> (queue: FreeChannel)
    ensures
        bands_in(queue) == Seq::<Seq<u8>>::empty(),
{
    FreeChannel { channel: Channel::new() }
}

/// `embassy_sync::channel::Channel::try_send`: puts the band behind the others,
/// or gives it back as it was if the channel is full. Nobody else uses the
/// channel meanwhile.
#[verifier::external_body]
fn free_try_send(queue: &mut FreeChannel, band: &'static mut Band) -> (r: Result<
    (),
    &'static mut Band,
>)
    ensures
        bands_in(*old(queue)).len() < NUM_BANDS ==> {
            &&& r is Ok
            &&& bands_in(*final(queue)) == bands_in(*old(queue)).push(old(band)@)
        },
        bands_in(*old(queue)).len() >= NUM_BANDS ==> {
            &&& r matches Err(back) && back@ == old(band)@
            &&& bands_in(*final(queue)) == bands_in(*old(queue))
        },
{
    match queue.channel.try_send(band) {
        Ok(()) => Ok(()),
        Err(TrySendError::Full(band)) => Err(band),
    }
}

/// `embassy_sync::channel::Channel::try_receive`: takes the band in front, if
/// there is one. Nobody else uses the channel meanwhile.
#[verifier::external_body]
fn free_try_receive(queue: &mut FreeChannel) -> (band: Option<&'static mut Band>)
    ensures
        match band {
            Some(b) => {
                &&& bands_in(*old(queue)).len() > 0
                &&& b@ == bands_in(*old(queue))[0]
                &&& bands_in(*final(queue)) == bands_in(*old(queue)).skip(1)
            },
            None => {
                &&& bands_in(*old(queue)).len() == 0
                &&& bands_in(*final(queue)) == bands_in(*old(queue))
            },
        },
{
    queue.channel.try_receive().ok()
}

impl FreeChannel {
    pub fn new() -> (queue: Self)
        ensures
            queue@ == Seq::<Seq<u8>>::empty(),
    {
        free_new()
    }

    /// Puts a band in, or gives it back if there is no room.
    pub fn try_send(&mut self, band: &'static mut Band) -> (r: Result<(), &'static mut Band>)
        ensures
            old(self)@.len() < NUM_BANDS ==> r is Ok && final(self)@ == old(self)@.push(old(band)@),
            old(self)@.len() >= NUM_BANDS ==> {
                &&& r matches Err(back) && back@ == old(band)@
                &&& final(self)@ == old(self)@
            },
    {
        free_try_send(self, band)
    }

    /// Takes the band that has been free longest, if there is one.
    pub fn try_receive(&mut self) -> (band: Option<&'static mut Band>)
        ensures
            match band {
                Some(b) => {
                    &&& old(self)@.len() > 0
                    &&& b@ == old(self)@[0]
                    &&& final(self)@ == old(self)@.skip(1)
                },
                None => old(self)@.len() == 0 && final(self)@ == old(self)@,
            },
    {
        free_try_receive(self)
    }
}

} // verus!
