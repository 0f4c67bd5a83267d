//! What becomes of a finger on the glass: from the controller's registers to
//! the report that the host gets.

use vstd::prelude::*;

use crate::esp32s3;
use crate::esp32s3::touch::TouchReader;
use crate::panel::{HEIGHT, WIDTH};
use crate::rp2040::touch::{Action, Pushed, Stats, Touch, TouchInput};
use crate::touch::cst816::{self, Answer, BusStep, Cst816, Error, Init, Point};
use crate::touch::hid::{self, Panel, TouchReport, TouchTracker};
use crate::touch::poll;

verus! {

/// How far apart two columns or rows are.
pub open spec fn distance(a: int, b: int) -> int {
    if a < b {
        b - a
    } else {
        a - b
    }
}

/// A finger on the glass is reported where it is. One that is seen beyond the
/// glass is reported at the pixel that is nearest to it, in each direction. No
/// finger is no finger.
pub proof fn fingers_are_reported_where_they_are(
    p: Point,
    r: Option<(u16, u16)>,
    none: Option<(u16, u16)>,
)
    requires
        call_ensures(poll::on_glass, (Some(p),), r),
        call_ensures(poll::on_glass, (None::<Point>,), none),
    ensures
        none is None,
        r is Some,
        r->Some_0.0 < WIDTH,
        r->Some_0.1 < HEIGHT,
        p.x < WIDTH ==> r->Some_0.0 == p.x,
        p.y < HEIGHT ==> r->Some_0.1 == p.y,
        forall|x: int|
            0 <= x < WIDTH ==> distance(p.x as int, r->Some_0.0 as int) <= #[trigger] distance(
                p.x as int,
                x,
            ),
        forall|y: int|
            0 <= y < HEIGHT ==> distance(p.y as int, r->Some_0.1 as int) <= #[trigger] distance(
                p.y as int,
                y,
            ),
{
}

/// The boards' glass is the panel's, upright: 240 by 280 pixels on 28.0 by 32.6
/// millimetres.
pub proof fn the_glass_is_the_panel(p: Panel)
    requires
        call_ensures(poll::glass, (), p),
    ensures
        p.width == WIDTH && p.height == HEIGHT,
        p.width == 240 && p.height == 280,
        p.width_tenth_mm == 280 && p.height_tenth_mm == 326,
{
}

/// The registers hold a finger at this column and row, 12 bits each with the low
/// byte last, whatever the controller says beside them.
pub open spec fn hold(
    regs: Seq<u8>,
    fingers: int,
    event: int,
    x: int,
    identifier: int,
    y: int,
) -> bool {
    regs == seq![
        fingers as u8,
        (16 * event + x / 256) as u8,
        (x % 256) as u8,
        (16 * identifier + y / 256) as u8,
        (y % 256) as u8,
    ]
}

/// A finger is read where the registers have it, and only if they have one.
pub proof fn fingers_are_read(
    regs: [u8; 5],
    fingers: int,
    event: int,
    x: int,
    identifier: int,
    y: int,
    p: Option<Point>,
)
    requires
        call_ensures(cst816::parse_point, (&regs,), p),
        hold(regs@, fingers, event, x, identifier, y),
        0 <= fingers < 256,
        0 <= event < 16,
        0 <= identifier < 16,
        0 <= x < 4096,
        0 <= y < 4096,
    ensures
        fingers == 0 ==> p is None,
        fingers > 0 ==> p is Some && p->Some_0.x == x && p->Some_0.y == y,
{
}

/// Reading comes to what the registers hold, or to what was wrong with the bus.
pub proof fn readings_are_passed_on<E>(
    regs: Result<[u8; 5], E>,
    read: Result<Option<Point>, E>,
    p: Option<Point>,
)
    requires
        call_ensures(Cst816::read::<E>, (regs,), read),
        regs is Ok ==> call_ensures(cst816::parse_point, (&regs->Ok_0,), p),
    ensures
        regs is Ok ==> read is Ok && read->Ok_0 == p,
        regs is Err ==> read is Err && read->Err_0 == regs->Err_0,
{
}

/// The controller is held in reset for 10 ms and left alone for 100 ms. It is
/// then asked for its ID. One that is known is kept from sleeping and told to
/// pulse on touches and changes, and nothing else is written to it; another is
/// refused before anything is written. A bus that fails ends it at any point.
pub proof fn the_controller_is_set_up<E>(
    c: &mut Cst816,
    first: Init<E>,
    d: &mut Cst816,
    answer: Answer<E>,
    next: Init<E>,
)
    requires
        call_ensures(Cst816::init::<E>, (c,), first),
        call_ensures(Cst816::answer::<E>, (d, answer), next),
    ensures
        first == Init::<E>::Step(BusStep::Reset(false)),
        final(c)@.started == 1,
        answer is Failed ==> next == Init::Finished(Err(Error::I2c(answer->Failed_0))),
        answer is Done || (answer is Value && old(d)@.started != 5) ==> {
            let n = old(d)@.started;
            &&& n == 1 ==> next == Init::<E>::Step(BusStep::DelayMs(10))
            &&& n == 2 ==> next == Init::<E>::Step(BusStep::Reset(true))
            &&& n == 3 ==> next == Init::<E>::Step(BusStep::DelayMs(100))
            &&& n == 4 ==> next == Init::<E>::Step(BusStep::Read(0xA7))
            &&& n == 6 ==> next == Init::<E>::Step(BusStep::Write(0xFA, 0x60))
            &&& n >= 7 ==> next == Init::<E>::Finished(Ok(old(d)@.id))
            &&& 1 <= n <= 6 ==> final(d)@.started == n + 1
            &&& final(d)@.id == old(d)@.id
        },
        old(d)@.started == 5 && answer is Value ==> {
            let id = answer->Value_0;
            &&& 0xB4 <= id <= 0xB6 ==> {
                &&& next == Init::<E>::Step(BusStep::Write(0xFE, 0x01))
                &&& final(d)@.started == 6
                &&& final(d)@.id == id
            }
            &&& id < 0xB4 || 0xB6 < id ==> next == Init::<E>::Finished(
                Err(Error::UnknownChip(id)),
            )
        },
{
}

/// The version of the chip's firmware is asked for by its register.
pub proof fn the_firmware_is_asked_for(step: BusStep)
    requires
        call_ensures(Cst816::firmware_version, (), step),
    ensures
        step == BusStep::Read(0xA9),
{
}

/// The readers start without a finger and with nothing counted or held.
pub proof fn readers_start_without_a_finger(t: Touch, r: TouchReader)
    requires
        call_ensures(Touch::new, (), t),
        call_ensures(TouchReader::new, (), r),
    ensures
        t@.finger is None && t@.pending is None && !t@.flushing,
        t@.now_us == 0 && t@.last_read_us == 0,
        t@.stats.reports == 0 && t@.stats.errors == 0,
        r@ is None,
{
}

/// The numbers that the controller and the bus go by.
pub proof fn the_controller_goes_by_these_numbers()
    ensures
        cst816::ADDRESS == 0x15,
        cst816::reg::FINGER_NUM == 0x02,
        cst816::reg::YPOS_L == cst816::reg::FINGER_NUM + 4,
        cst816::irq::EN_TOUCH == 0x40,
        cst816::irq::EN_CHANGE == 0x20,
        cst816::irq::EN_MOTION == 0x10,
        hid::POLL_MS == 10,
        esp32s3::touch::WRITE_TIMEOUT_MS == 100,
{
}

/// The time of a report counts whole steps of 100 us, and starts over after
/// 65536 of them.
pub proof fn times_count_steps(now_us: u64, t: u16)
    requires
        call_ensures(poll::scan_time, (now_us,), t),
    ensures
        100 * t <= now_us % 6_553_600 < 100 * (t + 1),
{
    let n = now_us as int;
    let (q, r) = (n / 100, n % 100);
    let (k, s) = (q / 65536, q % 65536);
    assert(n == 100 * q + r);
    assert(q == 65536 * k + s);
    assert(n == 6_553_600 * k + (100 * s + r));
    vstd::arithmetic::div_mod::lemma_fundamental_div_mod_converse(n, 6_553_600, k, 100 * s + r);
}

/// The controller is read at least every 10 ms while a finger is down, and
/// otherwise at least four times a second.
pub proof fn polls_come_often_enough(down: u64, up: u64)
    requires
        call_ensures(poll::poll_interval_us, (true,), down),
        call_ensures(poll::poll_interval_us, (false,), up),
    ensures
        down == 10 * 1000,
        4 * up == 1000 * 1000,
{
}

/// A report is worth sending exactly if the finger came, went or moved. It says
/// whether there is a finger, and where it is or last was.
pub open spec fn tells(
    last: Option<(u16, u16)>,
    point: Option<(u16, u16)>,
    time: u16,
    r: Option<TouchReport>,
) -> bool {
    &&& r is None <==> last == point
    &&& r is Some ==> {
        let report = r->Some_0;
        &&& report.tip == (point is Some)
        &&& report.scan_time == time
        &&& point is Some ==> report.x == point->Some_0.0 && report.y == point->Some_0.1
        &&& point is None ==> report.x == last->Some_0.0 && report.y == last->Some_0.1
    }
}

/// The tracker sends what is worth sending, and remembers the finger.
pub proof fn trackers_tell_of_changes(
    t: &mut TouchTracker,
    point: Option<(u16, u16)>,
    time: u16,
    r: Option<TouchReport>,
    touching: bool,
)
    requires
        call_ensures(TouchTracker::update, (t, point, time), r),
        call_ensures(TouchTracker::touching, (&*final(t),), touching),
    ensures
        tells(old(t)@, point, time, r),
        final(t)@ == point,
        touching == (point is Some),
{
}

/// Everything starts without a finger: trackers, reports and what is counted; and
/// the controller with its first step to come.
pub proof fn trackers_start_without_a_finger(
    t: TouchTracker,
    u: TouchTracker,
    r: TouchReport,
    s: Stats,
    c: Cst816,
)
    requires
        call_ensures(TouchTracker::new, (), t),
        call_ensures(<TouchTracker as Default>::default, (), u),
        call_ensures(<TouchReport as Default>::default, (), r),
        call_ensures(<Stats as Default>::default, (), s),
        call_ensures(Cst816::new, (), c),
    ensures
        t@ is None,
        u@ is None,
        !r.tip && r.x == 0 && r.y == 0 && r.scan_time == 0,
        s.reports == 0 && s.errors == 0,
        c@.started == 0 && c@.id == 0,
{
}

/// Where a reading has the finger: on the glass, and nowhere if there was no
/// finger or no reading.
pub open spec fn seen(point: Result<Option<Point>, ()>, pixel: Option<(u16, u16)>) -> bool {
    &&& pixel is Some <==> point is Ok && point->Ok_0 is Some
    &&& pixel is Some ==> {
        let p = point->Ok_0->Some_0;
        &&& pixel->Some_0.0 == if p.x < 240 {
            p.x as int
        } else {
            239
        }
        &&& pixel->Some_0.1 == if p.y < 280 {
            p.y as int
        } else {
            279
        }
    }
}

/// How long the controller may go unread, in microseconds.
pub open spec fn longest_wait(finger: Option<(u16, u16)>) -> int {
    if finger is Some {
        10_000
    } else {
        250_000
    }
}

/// The controller of the RP2040 board is read if its line says so, and otherwise
/// once it has gone unread for 10 ms with a finger down or 250 ms without. The
/// time that counts is that of the turn, and wraps.
pub proof fn readings_are_due(t: &mut Touch, int_low: bool, next: Action)
    requires
        call_ensures(Touch::int_level, (t, int_low), next),
    ensures
        next == Action::Read || next == Action::Done,
        next == Action::Read <==> {
            ||| int_low
            ||| (old(t)@.now_us - old(t)@.last_read_us) % 0x1_0000_0000_0000_0000
                >= longest_wait(old(t)@.finger)
        },
        final(t)@ == (TouchInput {
            last_read_us: if next == Action::Read {
                old(t)@.now_us
            } else {
                old(t)@.last_read_us
            },
            ..old(t)@
        }),
{
}

/// What the controller of the RP2040 board said is reported if it is worth
/// sending, and held until the endpoint has taken it. A reading that failed is
/// counted, and counts as no finger.
pub proof fn readings_are_reported(
    t: &mut Touch,
    point: Result<Option<Point>, ()>,
    next: Action,
    time: u16,
)
    requires
        call_ensures(Touch::sampled, (t, point), next),
        call_ensures(poll::scan_time, (old(t)@.now_us,), time),
    ensures
        seen(point, final(t)@.finger),
        next == Action::Done || next is Push,
        tells(
            old(t)@.finger,
            final(t)@.finger,
            time,
            if next is Push {
                Some(next->Push_0)
            } else {
                None
            },
        ),
        next is Push ==> final(t)@.pending == Some(next->Push_0),
        next == Action::Done ==> final(t)@.pending == old(t)@.pending,
        final(t)@.now_us == old(t)@.now_us,
        final(t)@.last_read_us == old(t)@.last_read_us,
        final(t)@.stats.reports == old(t)@.stats.reports,
        final(t)@.stats.errors == if point is Ok {
            old(t)@.stats.errors as int
        } else {
            (old(t)@.stats.errors + 1) % 0x1_0000_0000
        },
{
}

/// A turn starts with the report that is held, if any. It is counted once the
/// endpoint has it, kept while the endpoint is full, and dropped if that failed.
/// The turn then goes on with the controller, unless the endpoint is full or the
/// report was the turn's own.
pub proof fn held_reports_go_first(
    t: &mut Touch,
    now_us: u64,
    next: Action,
    u: &mut Touch,
    result: Pushed,
    then: Action,
)
    requires
        call_ensures(Touch::service, (t, now_us), next),
        call_ensures(Touch::pushed, (u, result), then),
    ensures
        old(t)@.pending is Some ==> next == Action::Push(old(t)@.pending->Some_0),
        old(t)@.pending is None ==> next == Action::CheckInt,
        final(t)@.flushing == (old(t)@.pending is Some),
        final(t)@.now_us == now_us,
        final(t)@.pending == old(t)@.pending,
        final(t)@.finger == old(t)@.finger,
        final(t)@.last_read_us == old(t)@.last_read_us,
        final(t)@.stats == old(t)@.stats,
        result == Pushed::WouldBlock ==> then == Action::Done && final(u)@ == old(u)@,
        result != Pushed::WouldBlock ==> {
            &&& then == if old(u)@.flushing {
                Action::CheckInt
            } else {
                Action::Done
            }
            &&& final(u)@.pending is None
            &&& final(u)@.finger == old(u)@.finger
            &&& final(u)@.stats.errors == old(u)@.stats.errors
            &&& final(u)@.stats.reports == if result == Pushed::Sent {
                (old(u)@.stats.reports + 1) % 0x1_0000_0000
            } else {
                old(u)@.stats.reports as int
            }
        },
{
}

/// The ESP32-S3 board reports a reading in the same way, and waits as long for
/// the next. Reports that the host took and that it did not are counted apart.
pub proof fn the_reader_reports_alike(
    t: &mut TouchReader,
    point: Result<Option<Point>, ()>,
    now_us: u64,
    stats: &mut esp32s3::stats::Stats,
    report: Option<TouchReport>,
    time: u16,
    wait: u64,
)
    requires
        call_ensures(TouchReader::sampled, (t, point, now_us, stats), report),
        call_ensures(poll::scan_time, (now_us,), time),
        call_ensures(TouchReader::wait_us, (&*final(t),), wait),
    ensures
        seen(point, final(t)@),
        tells(old(t)@, final(t)@, time, report),
        wait == if final(t)@ is Some {
            10_000int
        } else {
            250_000
        },
        *final(stats) == (esp32s3::stats::Stats {
            touch_errors: final(stats).touch_errors,
            ..*old(stats)
        }),
        final(stats).touch_errors == if point is Ok {
            old(stats).touch_errors as int
        } else {
            (old(stats).touch_errors + 1) % 0x1_0000_0000
        },
{
}

pub proof fn reports_taken_and_dropped_are_counted(sent: bool, stats: &mut esp32s3::stats::Stats)
    requires
        call_ensures(esp32s3::touch::written, (sent, stats), ()),
    ensures
        *final(stats) == (esp32s3::stats::Stats {
            touch_reports: final(stats).touch_reports,
            touch_dropped: final(stats).touch_dropped,
            ..*old(stats)
        }),
        sent ==> final(stats).touch_reports == (old(stats).touch_reports + 1) % 0x1_0000_0000
            && final(stats).touch_dropped == old(stats).touch_dropped,
        !sent ==> final(stats).touch_dropped == (old(stats).touch_dropped + 1) % 0x1_0000_0000
            && final(stats).touch_reports == old(stats).touch_reports,
{
}

} // verus!
