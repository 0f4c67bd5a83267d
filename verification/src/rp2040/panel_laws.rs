//! What the panel worker's scripts make of the controller.

use vstd::prelude::*;

use crate::panel::controller::{self, Controller};
use crate::panel::geometry::{X_OFFSET, Y_OFFSET};
use crate::panel::st7789::{self, PanelOp};
use crate::protocol::Rect;
use crate::rp2040::panel::{Books, PanelWorker, Transfer};

verus! {

/// The controller is as the books say: nothing is on its way unless a rectangle
/// is open, and nothing went wrong. The bus has a queue of its own.
pub open spec fn in_step(books: Books, c: Controller) -> bool {
    &&& c.lags
    &&& !c.fault
    &&& books.pending_bytes is None ==> c.quiet()
}

proof fn closing_settles(books: Books, c: Controller, pixels: Seq<u8>)
    requires
        in_step(books, c),
    ensures
        ({
            let after = c.after_ops(books.closing_ops(), pixels);
            &&& after.quiet()
            &&& after == Controller {
                selected: after.selected,
                in_flight: false,
                pending: false,
                ..c
            }
            &&& books.pending_bytes is Some ==> !after.selected
            &&& books.pending_bytes is None ==> after == c
        }),
{
    reveal_with_fuel(Controller::after_ops, 4);
}

/// Writing a band waits until the one before is through, tells the controller the
/// band's own window, and sends all of its pixels into it, in order and in pieces
/// that a transfer takes.
pub proof fn bands_are_written(
    w: &mut PanelWorker,
    rect: Rect,
    script: Vec<PanelOp>,
    c: Controller,
    pixels: Seq<u8>,
)
    requires
        call_ensures(PanelWorker::write_band, (w, &rect), script),
        in_step(old(w)@, c),
        1 <= rect.x + X_OFFSET + rect.width <= 0xffff,
        1 <= rect.y + Y_OFFSET + rect.height <= 0xffff,
        pixels.len() >= rect.length,
    ensures
        ({
            let after = c.run(script@, pixels);
            &&& controller::opened(
                c,
                after,
                rect.x as int,
                rect.y as int,
                rect.width as int,
                rect.height as int,
                pixels.take(rect.length as int),
            )
            &&& in_step(final(w)@, after)
            &&& final(w)@.pending_bytes == Some(rect.length)
        }),
        closed_counts(old(w)@, final(w)@),
        final(w)@.stats.enabled == old(w)@.stats.enabled,
        forall|i: int|
            0 <= i < script@.len() ==> (#[trigger] script@[i] matches PanelOp::Send { from, to }
                ==> from < to <= rect.length && to - from <= 8192),
{
    controller::runs_what_it_says(c, script@, pixels);
    closing_settles(old(w)@, c, pixels);
    controller::a_band_is_written(
        c,
        old(w)@.closing_ops(),
        rect.x as int,
        rect.y as int,
        rect.width as int,
        rect.height as int,
        rect.length as nat,
        8192,
        pixels,
    );
    controller::sends_are_short(rect.length as nat, 0, 8192);
    assert(st7789::send_ops(rect.length as nat, 8192) =~= controller::sends(
        crate::chunks::spans(rect.length as nat, 0, 8192),
    ));
    let closing = old(w)@.closing_ops();
    let opening = st7789::begin_rect_ops(
        rect.x as int,
        rect.y as int,
        rect.width as int,
        rect.height as int,
    );
    let sends = st7789::send_ops(rect.length as nat, 8192);
    assert forall|i: int| 0 <= i < script@.len() implies (
    #[trigger] script@[i] matches PanelOp::Send { from, to } ==> from < to <= rect.length && to
        - from <= 8192) by {
        let n = closing.len() + opening.len();
        assert(st7789::ops(script@)[i] == script@[i]@);
        if i >= n {
            assert(script@[i]@ == sends[i - n]);
        } else if i >= closing.len() {
            assert(script@[i]@ == opening[i - closing.len()]);
        } else {
            assert(script@[i]@ == closing[i]);
        }
    }
}

/// Switching the display waits until what went before is through, and then
/// switches it.
pub proof fn the_display_is_switched_in_turn(
    w: &mut PanelWorker,
    on: bool,
    script: Vec<PanelOp>,
    c: Controller,
)
    requires
        call_ensures(PanelWorker::enable, (w, on), script),
        in_step(old(w)@, c),
    ensures
        ({
            let after = c.run(script@, Seq::empty());
            &&& after.on == on
            &&& after.quiet()
            &&& !after.selected
            &&& in_step(final(w)@, after)
            &&& final(w)@.pending_bytes is None
            &&& final(w)@.stats.enabled == if on {
                1int
            } else {
                0
            }
        }),
        closed_counts(old(w)@, final(w)@),
{
    let none = Seq::<u8>::empty();
    controller::runs_what_it_says(c, script@, none);
    closing_settles(old(w)@, c, none);
    controller::runs_in_parts(c, old(w)@.closing_ops(), st7789::display_ops(on), none);
    controller::a_switch_is_told(c.after_ops(old(w)@.closing_ops(), none), on, none);
}

/// While idle, a rectangle whose transfer is done is closed, and the core sleeps
/// only if nothing is on its way then; a transfer that runs is left alone.
pub proof fn idling_closes_what_is_done(
    w: &mut PanelWorker,
    transfer: Transfer,
    r: (Vec<PanelOp>, bool),
    c: Controller,
)
    requires
        call_ensures(PanelWorker::idle, (w, transfer), r),
        in_step(old(w)@, c),
        c.in_flight == (transfer != Transfer::Absent),
    ensures
        ({
            let after = c.run(r.0@, Seq::empty());
            &&& in_step(final(w)@, after)
            &&& r.1 == !after.in_flight
            &&& transfer != Transfer::Done ==> after == c && final(w)@ == old(w)@
            &&& transfer == Transfer::Done ==> after.quiet() && !after.selected
            &&& transfer == Transfer::Done ==> closed_counts(old(w)@, final(w)@)
            &&& transfer == Transfer::Done ==> final(w)@.pending_bytes is None
            &&& final(w)@.stats.enabled == old(w)@.stats.enabled
        }),
{
    let none = Seq::<u8>::empty();
    controller::runs_what_it_says(c, r.0@, none);
    closing_settles(old(w)@, c, none);
}

/// The core sleeps while there is no transfer, or once the rectangle of one that is
/// done was closed, and never while one runs.
pub proof fn the_core_sleeps_when_it_can(
    w: &mut PanelWorker,
    transfer: Transfer,
    r: (Vec<PanelOp>, bool),
)
    requires
        call_ensures(PanelWorker::idle, (w, transfer), r),
    ensures
        transfer == Transfer::Absent ==> r.1,
        transfer == Transfer::Running ==> !r.1,
        transfer == Transfer::Done ==> (r.1 <==> old(w)@.pending_bytes is Some),
        transfer != Transfer::Done ==> st7789::ops(r.0@).len() == 0,
{
}

/// The rectangle that was open, if any, has been counted with its bytes, and nothing
/// else.
pub open spec fn closed_counts(before: Books, after: Books) -> bool {
    let (s, t) = (before.stats, after.stats);
    &&& before.pending_bytes is Some ==> {
        &&& t.completed == (s.completed + 1) % 0x1_0000_0000
        &&& t.pixel_bytes == (s.pixel_bytes + before.pending_bytes->Some_0) % 0x1_0000_0000
    }
    &&& before.pending_bytes is None ==> t.completed == s.completed && t.pixel_bytes
        == s.pixel_bytes
    &&& t.decode_errors == s.decode_errors
}

/// A worker starts with nothing open, nothing counted, and the display on.
pub proof fn workers_start_with_nothing_open(w: PanelWorker)
    requires
        call_ensures(PanelWorker::new, (), w),
    ensures
        w@.pending_bytes is None,
        w@.stats.enabled == 1,
        w@.stats.completed == 0 && w@.stats.pixel_bytes == 0 && w@.stats.decode_errors == 0,
{
}

/// A rectangle counts once, when it is closed, with all of its bytes.
pub proof fn closed_rectangles_count(b: Books)
    ensures
        b.closed().pending_bytes is None,
        b.pending_bytes matches Some(n) ==> {
            &&& b.closed().stats.completed == (b.stats.completed + 1) % 0x1_0000_0000
            &&& b.closed().stats.pixel_bytes == (b.stats.pixel_bytes + n) % 0x1_0000_0000
        },
        b.pending_bytes is None ==> b.closed() == b,
        b.closed().stats.enabled == b.stats.enabled,
        b.closed().stats.decode_errors == b.stats.decode_errors,
        b.closed().closed() == b.closed(),
{
}

} // verus!
