//! Touch input: the CST816 on I2C1, reported to the host as a USB HID touch
//! screen (see [`crate::touch`] for the descriptor and the driver).
//!
//! Polled from the main loop like everything else on this board: the
//! controller is read when its INT line is low, every 10 ms while a finger
//! is down in case a pulse was missed, and every 250 ms while idle.
//!
//! A turn of the main loop is a conversation: [`Touch::service`] says what to
//! do, and is told what came of it until there is nothing left to do.

use vstd::prelude::*;

use crate::touch::hid;
use crate::touch::poll;
use crate::touch::{Point, TouchReport, TouchTracker};

verus! {

#[derive(Clone, Copy, Debug, PartialEq, Eq, Structural)]
pub struct Stats {
    pub reports: u32,
    pub errors: u32,
}

impl Default for Stats {
    fn default() -> (s: Self)
        ensures
            s == (Stats { reports: 0, errors: 0 }),
    {
        Stats { reports: 0, errors: 0 }
    }
}

/// What the main loop has to do next.
#[derive(Clone, Copy, Debug, PartialEq, Eq, Structural)]
pub enum Action {
    /// Nothing more this turn.
    Done,
    /// Queue the report on the interrupt endpoint and tell [`Touch::pushed`].
    Push(TouchReport),
    /// Look at the INT line and tell [`Touch::int_level`].
    CheckInt,
    /// Read the controller and tell [`Touch::sampled`].
    Read,
}

/// What came of queueing a report.
#[derive(Clone, Copy, Debug, PartialEq, Eq, Structural)]
pub enum Pushed {
    Sent,
    /// The previous report has not been picked up yet.
    WouldBlock,
    Failed,
}

pub struct Touch {
    tracker: TouchTracker,
    now_us: u64,
    last_read_us: u64,
    /// Report the endpoint could not take yet.
    pending: Option<TouchReport>,
    /// The pending report is one of an earlier turn.
    flushing: bool,
    stats: Stats,
}

/// The touch input as its users see it.
pub struct TouchInput {
    /// Where the finger was last reported.
    pub finger: Option<(u16, u16)>,
    pub now_us: u64,
    pub last_read_us: u64,
    pub pending: Option<TouchReport>,
    pub flushing: bool,
    pub stats: Stats,
}

impl View for Touch {
    type V = TouchInput;

    closed spec fn view(&self) -> TouchInput {
        TouchInput {
            finger: self.tracker@,
            now_us: self.now_us,
            last_read_us: self.last_read_us,
            pending: self.pending,
            flushing: self.flushing,
            stats: self.stats,
        }
    }
}

impl TouchInput {
    /// The controller is due: INT is low, or it has gone unread for too long.
    /// The clock wraps.
    pub open spec fn due(self, int_low: bool) -> bool {
        int_low || self.now_us.wrapping_sub(self.last_read_us) >= poll::poll_interval(
            self.finger is Some,
        )
    }

    /// After the endpoint's answer for the pending report. One that it could
    /// not take stays; one that it never will is dropped.
    pub open spec fn after_push(self, result: Pushed) -> TouchInput {
        match result {
            Pushed::Sent => TouchInput {
                pending: None,
                stats: Stats { reports: self.stats.reports.wrapping_add(1), ..self.stats },
                ..self
            },
            Pushed::WouldBlock => self,
            Pushed::Failed => TouchInput { pending: None, ..self },
        }
    }

    /// After the controller was read, or could not be: that counts as no
    /// finger.
    pub open spec fn after_read(self, point: Result<Option<Point>, ()>) -> TouchInput {
        let pixel = match point {
            Ok(p) => poll::pixel_under(p),
            Err(_) => None,
        };
        let report = hid::worth_sending(self.finger, pixel, poll::scan_time_at(self.now_us));
        TouchInput {
            finger: pixel,
            pending: match report {
                Some(r) => Some(r),
                None => self.pending,
            },
            flushing: false,
            stats: if point is Ok {
                self.stats
            } else {
                Stats { errors: self.stats.errors.wrapping_add(1), ..self.stats }
            },
            ..self
        }
    }
}

impl Touch {
    pub fn new() -> (t: Self)
        ensures
            t@ == (TouchInput {
                finger: None,
                now_us: 0,
                last_read_us: 0,
                pending: None,
                flushing: false,
                stats: Stats { reports: 0, errors: 0 },
            }),
    {
        Touch {
            tracker: TouchTracker::new(),
            now_us: 0,
            last_read_us: 0,
            pending: None,
            flushing: false,
            stats: Stats::default(),
        }
    }

    pub fn stats(&self) -> (s: Stats)
        ensures
            s == self@.stats,
    {
        self.stats
    }

    /// One turn of the main loop: flush a held report, then read the
    /// controller if it is due.
    pub fn service(&mut self, now_us: u64) -> (next: Action)
        ensures
            final(self)@ == (TouchInput {
                now_us,
                flushing: old(self)@.pending is Some,
                ..old(self)@
            }),
            next == match old(self)@.pending {
                Some(report) => Action::Push(report),
                None => Action::CheckInt,
            },
    {
        self.now_us = now_us;
        match self.pending {
            Some(report) => {
                self.flushing = true;
                Action::Push(report)
            },
            None => {
                self.flushing = false;
                Action::CheckInt
            },
        }
    }

    /// Takes the endpoint's answer. A held report that it still cannot take
    /// ends the turn; otherwise the turn goes on behind a held report, and ends
    /// behind a new one.
    pub fn pushed(&mut self, result: Pushed) -> (next: Action)
        ensures
            final(self)@ == old(self)@.after_push(result),
            next == if old(self)@.flushing && result != Pushed::WouldBlock {
                Action::CheckInt
            } else {
                Action::Done
            },
    {
        match result {
            Pushed::Sent => {
                self.pending = None;
                self.stats.reports = self.stats.reports.wrapping_add(1);
            },
            Pushed::WouldBlock => return Action::Done,
            Pushed::Failed => {
                self.pending = None;
            },
        }
        if self.flushing {
            Action::CheckInt
        } else {
            Action::Done
        }
    }

    /// Takes the level of the INT line, and says whether to read the
    /// controller.
    pub fn int_level(&mut self, int_low: bool) -> (next: Action)
        ensures
            next == if old(self)@.due(int_low) {
                Action::Read
            } else {
                Action::Done
            },
            final(self)@ == (if old(self)@.due(int_low) {
                TouchInput { last_read_us: old(self)@.now_us, ..old(self)@ }
            } else {
                old(self)@
            }),
    {
        let interval: u64 = poll::poll_interval_us(self.tracker.touching());
        if !int_low && self.now_us.wrapping_sub(self.last_read_us) < interval {
            return Action::Done;
        }
        self.last_read_us = self.now_us;
        Action::Read
    }

    /// Takes what the controller said, and says what to report.
    pub fn sampled(&mut self, point: Result<Option<Point>, ()>) -> (next: Action)
        ensures
            final(self)@ == old(self)@.after_read(point),
            next == match hid::worth_sending(
                old(self)@.finger,
                final(self)@.finger,
                poll::scan_time_at(old(self)@.now_us),
            ) {
                Some(report) => Action::Push(report),
                None => Action::Done,
            },
    {
        self.flushing = false;
        let point = match point {
            Ok(point) => point,
            Err(_) => {
                self.stats.errors = self.stats.errors.wrapping_add(1);
                None
            },
        };
        let pixel = poll::on_glass(point);
        let scan_time: u16 = poll::scan_time(self.now_us);
        match self.tracker.update(pixel, scan_time) {
            Some(report) => {
                self.pending = Some(report);
                Action::Push(report)
            },
            None => Action::Done,
        }
    }
}

/// A held report is neither replaced nor lost: the controller is read only once
/// the endpoint has taken it or failed for good, and until then it stays.
pub proof fn a_held_report_is_kept_until_it_is_taken(t: TouchInput, result: Pushed)
    requires
        t.pending is Some,
    ensures
        result == Pushed::WouldBlock ==> t.after_push(result) == t,
        result != Pushed::WouldBlock ==> t.after_push(result).pending is None,
        result == Pushed::Sent ==> t.after_push(result).stats.reports
            == t.stats.reports.wrapping_add(1),
{
}

} // verus!
