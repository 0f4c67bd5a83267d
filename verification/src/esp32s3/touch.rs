//! Touch input: the CST816 on I2C, reported to the host as a USB HID touch
//! screen (see [`crate::touch`] for the descriptor and the driver).
//!
//! The controller pulses INT on every change and every scan while a finger
//! is down. The task waits for that edge, with a short timeout while
//! touching so a missed pulse never sticks a finger, and a long one while
//! idle so a wedged INT line still gets noticed.

use vstd::prelude::*;

use crate::esp32s3::stats::Stats;
use crate::touch::hid;
use crate::touch::poll;
use crate::touch::{Point, TouchReport, TouchTracker};

verus! {

/// A host that stopped polling the endpoint (suspend, no driver) must not hold
/// the reader; after so long the report is dropped.
pub const WRITE_TIMEOUT_MS: u64 = 100;

pub struct TouchReader {
    tracker: TouchTracker,
}

impl View for TouchReader {
    type V = Option<(u16, u16)>;

    closed spec fn view(&self) -> Option<(u16, u16)> {
        self.tracker@
    }
}

impl TouchReader {
    pub fn new() -> (t: Self)
        ensures
            t@ is None,
    {
        TouchReader { tracker: TouchTracker::new() }
    }

    /// How long to wait for an edge of INT.
    pub fn wait_us(&self) -> (us: u64)
        ensures
            us == poll::poll_interval(self@ is Some),
    {
        poll::poll_interval_us(self.tracker.touching())
    }

    /// Takes what the controller said, and says what to report. A controller
    /// that cannot be read counts as no finger.
    pub fn sampled(
        &mut self,
        point: Result<Option<Point>, ()>,
        now_us: u64,
        stats: &mut Stats,
    ) -> (report: Option<TouchReport>)
        ensures
            final(self)@ == match point {
                Ok(p) => poll::pixel_under(p),
                Err(_) => None,
            },
            report == hid::worth_sending(
                old(self)@,
                final(self)@,
                poll::scan_time_at(now_us),
            ),
            *final(stats) == (if point is Ok {
                *old(stats)
            } else {
                Stats { touch_errors: old(stats).touch_errors.wrapping_add(1), ..*old(stats) }
            }),
    {
        let point = match point {
            Ok(point) => point,
            Err(_) => {
                stats.touch_errors = stats.touch_errors.wrapping_add(1);
                None
            },
        };
        self.tracker.update(poll::on_glass(point), poll::scan_time(now_us))
    }
}

/// Takes note of whether the host took a report. If so, GET_REPORT returns it
/// from now on.
pub fn written(sent: bool, stats: &mut Stats)
    ensures
        *final(stats) == (if sent {
            Stats { touch_reports: old(stats).touch_reports.wrapping_add(1), ..*old(stats) }
        } else {
            Stats { touch_dropped: old(stats).touch_dropped.wrapping_add(1), ..*old(stats) }
        }),
{
    if sent {
        stats.touch_reports = stats.touch_reports.wrapping_add(1);
    } else {
        stats.touch_dropped = stats.touch_dropped.wrapping_add(1);
    }
}

} // verus!
