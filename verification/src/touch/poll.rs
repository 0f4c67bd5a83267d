//! Reading the controller: when, and what becomes of what it says.

use vstd::prelude::*;

use crate::panel::{HEIGHT, HEIGHT_TENTH_MM, WIDTH, WIDTH_TENTH_MM};
use crate::touch::{Panel, Point};

verus! {

/// The glass of the boards, which the report descriptor is built for.
pub fn glass() -> (p: Panel)
    ensures
        p == (Panel {
            width: WIDTH,
            height: HEIGHT,
            width_tenth_mm: WIDTH_TENTH_MM,
            height_tenth_mm: HEIGHT_TENTH_MM,
        }),
{
    Panel {
        width: WIDTH,
        height: HEIGHT,
        width_tenth_mm: WIDTH_TENTH_MM,
        height_tenth_mm: HEIGHT_TENTH_MM,
    }
}

/// While a finger is down, in case a pulse was missed.
pub const TOUCHING_POLL_US: u64 = 10_000;
/// While idle, so that a wedged INT line still gets noticed.
pub const IDLE_POLL_US: u64 = 250_000;

/// How long the controller may go unread.
pub open spec fn poll_interval(touching: bool) -> u64 {
    if touching {
        TOUCHING_POLL_US
    } else {
        IDLE_POLL_US
    }
}

/// How long the controller may go unread.
pub fn poll_interval_us(touching: bool) -> (us: u64)
    ensures
        us == poll_interval(touching),
{
    if touching {
        TOUCHING_POLL_US
    } else {
        IDLE_POLL_US
    }
}

/// `x`, but within a line or column of `size` pixels.
pub open spec fn clamped(x: u16, size: u16) -> u16 {
    if x < size {
        x
    } else {
        (size - 1) as u16
    }
}

/// The pixel that a finger is on: touch is always reported in the glass's own
/// portrait frame.
pub open spec fn pixel_under(point: Option<Point>) -> Option<(u16, u16)> {
    match point {
        Some(p) => Some((clamped(p.x, WIDTH), clamped(p.y, HEIGHT))),
        None => None,
    }
}

/// The pixel that a finger is on.
pub fn on_glass(point: Option<Point>) -> (p: Option<(u16, u16)>)
    ensures
        p == pixel_under(point),
{
    match point {
        Some(p) => {
            let x: u16 = if p.x < WIDTH {
                p.x
            } else {
                WIDTH - 1
            };
            let y: u16 = if p.y < HEIGHT {
                p.y
            } else {
                HEIGHT - 1
            };
            Some((x, y))
        },
        None => None,
    }
}

/// The time of a report: 100 us units, which wrap.
pub open spec fn scan_time_at(now_us: u64) -> u16 {
    (now_us / 100 % 0x1_0000) as u16
}

/// The time of a report.
pub fn scan_time(now_us: u64) -> (t: u16)
    ensures
        t == scan_time_at(now_us),
{
    (now_us / 100 % 0x1_0000) as u16
}

} // verus!
