//! What the panel worker's scripts make of the controller.

use vstd::prelude::*;

use crate::chunks;
use crate::esp32s3::panel::{self, PanelWorker, StatusValues};
use crate::esp32s3::stats::Stats;
use crate::line::{self, Line};
use crate::panel::controller::{self, Controller};
use crate::panel::geometry::{X_OFFSET, Y_OFFSET};
use crate::panel::lettering;
use crate::panel::st7789::{self, PanelOp};
use crate::panel::strip;
use crate::panel::{HEIGHT, WIDTH};
use crate::pipeline::{self, laws, PayloadError};
use crate::protocol::Rect;
use crate::readout;

verus! {

/// The controller is as the worker has it: nothing is on its way unless a
/// rectangle is open, and nothing went wrong. A transfer that has finished is
/// through.
pub open spec fn in_step(open: bool, c: Controller) -> bool {
    &&& !c.lags
    &&& !c.pending
    &&& !c.fault
    &&& !open ==> c.quiet()
}

proof fn closing_settles(open: bool, c: Controller, pixels: Seq<u8>)
    requires
        in_step(open, c),
    ensures
        ({
            let after = c.after_ops(panel::closing_ops(open), pixels);
            &&& after.quiet()
            &&& after == Controller { selected: after.selected, in_flight: false, ..c }
            &&& open ==> !after.selected
            &&& !open ==> after == c
        }),
{
    reveal_with_fuel(Controller::after_ops, 3);
}

/// Closing waits for what is on its way and deselects the controller; a worker
/// that has nothing open leaves it alone. A new worker has nothing open.
pub proof fn closing_deselects(
    fresh: PanelWorker,
    w: &mut PanelWorker,
    script: Vec<PanelOp>,
    c: Controller,
)
    requires
        call_ensures(PanelWorker::new, (), fresh),
        call_ensures(PanelWorker::close_rect, (w,), script),
        in_step(old(w).open(), c),
    ensures
        !fresh.open(),
        ({
            let after = c.run(script@, Seq::empty());
            &&& after.quiet()
            &&& in_step(final(w).open(), after)
            &&& !final(w).open()
            &&& old(w).open() ==> !after.selected
            &&& !old(w).open() ==> after == c
        }),
{
    controller::runs_what_it_says(c, script@, Seq::empty());
    closing_settles(old(w).open(), c, Seq::empty());
}

/// While idle, a rectangle whose transfer is done is closed, and one whose
/// transfer runs is left alone.
pub proof fn tidying_closes_what_is_done(
    w: &mut PanelWorker,
    done: bool,
    script: Vec<PanelOp>,
    c: Controller,
)
    requires
        call_ensures(PanelWorker::tidy, (w, done), script),
        in_step(old(w).open(), c),
    ensures
        ({
            let after = c.run(script@, Seq::empty());
            &&& in_step(final(w).open(), after)
            &&& done ==> !final(w).open() && after.quiet()
            &&& done && old(w).open() ==> !after.selected
            &&& !done ==> final(w).open() == old(w).open() && after == c
        }),
{
    controller::runs_what_it_says(c, script@, Seq::empty());
    closing_settles(old(w).open(), c, Seq::empty());
}

/// Writing a band waits until the one before is through, tells the controller the
/// band's own window, and sends all of its pixels into it, in order and in pieces
/// that a transfer takes.
pub proof fn bands_are_written(
    w: &mut PanelWorker,
    x: u16,
    y: u16,
    width: u16,
    height: u16,
    len: usize,
    script: Vec<PanelOp>,
    c: Controller,
    pixels: Seq<u8>,
)
    requires
        call_ensures(PanelWorker::write_band, (w, x, y, width, height, len), script),
        in_step(old(w).open(), c),
        1 <= x + X_OFFSET + width <= 0xffff,
        1 <= y + Y_OFFSET + height <= 0xffff,
        pixels.len() >= len,
    ensures
        ({
            let after = c.run(script@, pixels);
            &&& controller::opened(
                c,
                after,
                x as int,
                y as int,
                width as int,
                height as int,
                pixels.take(len as int),
            )
            &&& in_step(final(w).open(), after)
            &&& final(w).open()
        }),
        forall|i: int|
            0 <= i < script@.len() ==> (#[trigger] script@[i] matches PanelOp::Send { from, to }
                ==> from < to <= len && to - from <= 32736),
{
    controller::runs_what_it_says(c, script@, pixels);
    closing_settles(old(w).open(), c, pixels);
    controller::a_band_is_written(
        c,
        panel::closing_ops(old(w).open()),
        x as int,
        y as int,
        width as int,
        height as int,
        len as nat,
        32736,
        pixels,
    );
    controller::sends_are_short(len as nat, 0, 32736);
    let closing = panel::closing_ops(old(w).open());
    let opening = st7789::begin_rect_ops(x as int, y as int, width as int, height as int);
    let sends = st7789::send_ops(len as nat, 32736);
    assert(sends =~= controller::sends(chunks::spans(len as nat, 0, 32736)));
    assert forall|i: int| 0 <= i < script@.len() implies (
    #[trigger] script@[i] matches PanelOp::Send { from, to } ==> from < to <= len && to - from
        <= 32736) by {
        let n = closing.len() + opening.len();
        assert(st7789::ops(script@)[i] == script@[i]@);
        if i >= n {
            assert(script@[i]@ == sends[i - n]);
        } else if i >= closing.len() {
            assert(script@[i]@ == opening[i - closing.len()]);
        } else {
            assert(script@[i]@ == closing[i]);
        }
    }
}

/// Switching the display waits until what went before is through, and then
/// switches it.
pub proof fn the_display_is_switched_in_turn(
    w: &mut PanelWorker,
    on: bool,
    script: Vec<PanelOp>,
    c: Controller,
)
    requires
        call_ensures(PanelWorker::enable, (w, on), script),
        in_step(old(w).open(), c),
    ensures
        ({
            let after = c.run(script@, Seq::empty());
            &&& after.on == on
            &&& after.quiet()
            &&& !after.selected
            &&& in_step(final(w).open(), after)
            &&& !final(w).open()
        }),
{
    let none = Seq::<u8>::empty();
    let closing = panel::closing_ops(old(w).open());
    controller::runs_what_it_says(c, script@, none);
    closing_settles(old(w).open(), c, none);
    controller::runs_in_parts(c, closing, st7789::display_ops(on), none);
    controller::a_switch_is_told(c.after_ops(closing, none), on, none);
}

/// A band on the glass counts once, with its bytes.
pub proof fn bands_are_counted(stats: &mut Stats, bytes: u32)
    requires
        call_ensures(panel::count_band, (stats, bytes), ()),
    ensures
        final(stats).bands_written == (old(stats).bands_written + 1) % 0x1_0000_0000,
        final(stats).pixels_written == (old(stats).pixels_written + bytes) % 0x1_0000_0000,
        *final(stats) == (Stats {
            bands_written: final(stats).bands_written,
            pixels_written: final(stats).pixels_written,
            ..*old(stats)
        }),
{
}

/// The status strip is drawn once a second.
pub proof fn the_strip_is_drawn_once_a_second(elapsed_ms: u64, due: bool)
    requires
        call_ensures(panel::status_due, (elapsed_ms,), due),
    ensures
        due <==> elapsed_ms >= 1000,
{
}

/// The boot logo is rendered in bands of whole rows that end with the panel's
/// last: each has at least one row, no more than there is room for and no more
/// than are left, and as many as it can.
pub proof fn logo_bands_end_with_the_panel(y: u16, scratch: &mut [u8], rows: u16)
    requires
        call_ensures(panel::logo_band, (y, scratch), rows),
        y < HEIGHT,
        old(scratch)@.len() >= 480,
    ensures
        1 <= rows <= HEIGHT - y,
        480 * rows <= old(scratch)@.len(),
        rows < HEIGHT - y ==> old(scratch)@.len() < 480 * (rows + 1),
        final(scratch)@.len() == old(scratch)@.len(),
        final(scratch)@.skip(480 * rows) == old(scratch)@.skip(480 * rows),
{
    let len = old(scratch)@.len() as int;
    let wide = 2 * WIDTH as int;
    assert(wide == 480);
    vstd::arithmetic::div_mod::lemma_fundamental_div_mod(len, 480);
    assert(2 * WIDTH * rows == 480 * rows) by (nonlinear_arith)
        requires
            WIDTH == 240,
    ;
    assert(2 * WIDTH * y == 480 * y) by (nonlinear_arith)
        requires
            WIDTH == 240,
    ;
    assert(2 * WIDTH * (y + rows) == 480 * (y + rows)) by (nonlinear_arith)
        requires
            WIDTH == 240,
    ;
}

/// From `at` on, nine characters: a letter, a colon, six digits of the number and
/// a space.
#[verifier::opaque]
pub open spec fn field_at(s: Seq<u8>, at: int, letter: int, v: int) -> bool {
    &&& 0 <= at <= at + 9 <= s.len()
    &&& s[at] == letter
    &&& s[at + 1] == 0x3a
    &&& lettering::spells(s, at + 2, v % 0x100_0000)
    &&& s[at + 8] == 0x20
}

/// `t` starts with all of `s`.
#[verifier::opaque]
spec fn extends(s: Seq<u8>, t: Seq<u8>) -> bool {
    s.len() <= t.len() && forall|i: int| 0 <= i < s.len() ==> #[trigger] t[i] == s[i]
}

proof fn fields_stay(s: Seq<u8>, t: Seq<u8>, at: int, letter: int, v: int)
    requires
        field_at(s, at, letter, v),
        extends(s, t),
    ensures
        field_at(t, at, letter, v),
{
    reveal(field_at);
    reveal(extends);
}

proof fn extends_on(s: Seq<u8>, t: Seq<u8>, u: Seq<u8>)
    requires
        extends(s, t),
        extends(t, u),
    ensures
        extends(s, u),
{
    reveal(extends);
}

/// A line end behind what is there.
proof fn one_more_line(before: Seq<u8>)
    ensures
        ({
            let after = before + line::text("\n");
            &&& after.len() == before.len() + 1
            &&& extends(before, after)
            &&& after[before.len() as int] == 0x0a
        }),
{
    reveal(extends);
    labels();
}

proof fn bytes_stay(s: Seq<u8>, t: Seq<u8>, at: int)
    requires
        extends(s, t),
        0 <= at < s.len(),
    ensures
        t[at] == s[at],
{
    reveal(extends);
}

proof fn one_more_field(before: Seq<u8>, label: Seq<u8>, letter: u8, v: u32)
    requires
        label == seq![letter, 0x3au8],
    ensures
        ({
            let after = before + label + strip::hex_digits(v) + line::text(" ");
            &&& after.len() == before.len() + 9
            &&& extends(before, after)
            &&& field_at(after, before.len() as int, letter as int, v as int)
        }),
{
    reveal(field_at);
    reveal(extends);
    let after = before + label + strip::hex_digits(v) + line::text(" ");
    let d = strip::hex_digits(v);
    reveal_strlit(" ");
    readout::text_is_its_characters(" ");
    lettering::digits_spell(v);
    let at = before.len() as int;
    assert forall|k: int| at + 2 <= k < at + 8 implies after[k] == #[trigger] d[k - at - 2] by {}
    assert(after[at + 2] == d[0]);
    assert(after[at + 3] == d[1]);
    assert(after[at + 4] == d[2]);
    assert(after[at + 5] == d[3]);
    assert(after[at + 6] == d[4]);
    assert(after[at + 7] == d[5]);
    assert forall|k: int| at + 2 <= k < at + 8 implies 0 <= lettering::digit_value(
        #[trigger] after[k] as int,
    ) < 16 by {
        assert(after[k] == d[k - at - 2]);
    }
}

proof fn labels()
    ensures
        line::text("T:") == seq![0x54u8, 0x3au8],
        line::text("K:") == seq![0x4bu8, 0x3au8],
        line::text("R:") == seq![0x52u8, 0x3au8],
        line::text("D:") == seq![0x44u8, 0x3au8],
        line::text("M:") == seq![0x4du8, 0x3au8],
        line::text("W:") == seq![0x57u8, 0x3au8],
        line::text("E:") == seq![0x45u8, 0x3au8],
        line::text("U:") == seq![0x55u8, 0x3au8],
        line::text("B:") == seq![0x42u8, 0x3au8],
        line::text("\n") == seq![0x0au8],
{
    reveal_strlit("T:");
    readout::text_is_its_characters("T:");
    assert(line::text("T:") =~= seq![0x54u8, 0x3au8]);
    reveal_strlit("K:");
    readout::text_is_its_characters("K:");
    assert(line::text("K:") =~= seq![0x4bu8, 0x3au8]);
    reveal_strlit("R:");
    readout::text_is_its_characters("R:");
    assert(line::text("R:") =~= seq![0x52u8, 0x3au8]);
    reveal_strlit("D:");
    readout::text_is_its_characters("D:");
    assert(line::text("D:") =~= seq![0x44u8, 0x3au8]);
    reveal_strlit("M:");
    readout::text_is_its_characters("M:");
    assert(line::text("M:") =~= seq![0x4du8, 0x3au8]);
    reveal_strlit("W:");
    readout::text_is_its_characters("W:");
    assert(line::text("W:") =~= seq![0x57u8, 0x3au8]);
    reveal_strlit("E:");
    readout::text_is_its_characters("E:");
    assert(line::text("E:") =~= seq![0x45u8, 0x3au8]);
    reveal_strlit("U:");
    readout::text_is_its_characters("U:");
    assert(line::text("U:") =~= seq![0x55u8, 0x3au8]);
    reveal_strlit("B:");
    readout::text_is_its_characters("B:");
    assert(line::text("B:") =~= seq![0x42u8, 0x3au8]);
    reveal_strlit("\n");
    readout::text_is_its_characters("\n");
    assert(line::text("\n") =~= seq![0x0au8]);
}

/// The status strip says nine numbers, three to a line, each behind its letter: the
/// time, when the console last ticked, the control requests; whether the port is
/// open, what the console received and wrote; what it could not write, the updates,
/// and the bands on the glass.
pub proof fn the_status_strip_tells(v: StatusValues, l: Line<128>, b: &[u8])
    requires
        call_ensures(panel::status_strip_line, (&v,), l),
        call_ensures(Line::<128>::as_bytes, (&l,), b),
    ensures
        b@.len() == 83,
        b@[27] == 0x0a,
        b@[55] == 0x0a,
        field_at(b@, 0, 0x54, v.now_s as int),
        field_at(b@, 9, 0x4b, v.tick_s as int),
        field_at(b@, 18, 0x52, v.control_requests as int),
        field_at(b@, 28, 0x44, v.dtr as int),
        field_at(b@, 37, 0x4d, v.console_rx_bytes as int),
        field_at(b@, 46, 0x57, v.console_tx_ok as int),
        field_at(b@, 56, 0x45, v.console_tx_timeout as int),
        field_at(b@, 65, 0x55, v.updates as int),
        field_at(b@, 74, 0x42, v.bands_written as int),
{
    labels();
    let s0 = Seq::<u8>::empty();
    one_more_field(s0, line::text("T:"), 0x54, v.now_s);
    let s1 = s0 + line::text("T:") + strip::hex_digits(v.now_s) + line::text(" ");
    one_more_field(s1, line::text("K:"), 0x4b, v.tick_s);
    let s2 = s1 + line::text("K:") + strip::hex_digits(v.tick_s) + line::text(" ");
    one_more_field(s2, line::text("R:"), 0x52, v.control_requests);
    let s3 = s2 + line::text("R:") + strip::hex_digits(v.control_requests) + line::text(" ");
    one_more_line(s3);
    let s4 = s3 + line::text("\n");
    one_more_field(s4, line::text("D:"), 0x44, v.dtr);
    let s5 = s4 + line::text("D:") + strip::hex_digits(v.dtr) + line::text(" ");
    one_more_field(s5, line::text("M:"), 0x4d, v.console_rx_bytes);
    let s6 = s5 + line::text("M:") + strip::hex_digits(v.console_rx_bytes) + line::text(" ");
    one_more_field(s6, line::text("W:"), 0x57, v.console_tx_ok);
    let s7 = s6 + line::text("W:") + strip::hex_digits(v.console_tx_ok) + line::text(" ");
    one_more_line(s7);
    let s8 = s7 + line::text("\n");
    one_more_field(s8, line::text("E:"), 0x45, v.console_tx_timeout);
    let s9 = s8 + line::text("E:") + strip::hex_digits(v.console_tx_timeout) + line::text(" ");
    one_more_field(s9, line::text("U:"), 0x55, v.updates);
    let s10 = s9 + line::text("U:") + strip::hex_digits(v.updates) + line::text(" ");
    one_more_field(s10, line::text("B:"), 0x42, v.bands_written);
    let s11 = s10 + line::text("B:") + strip::hex_digits(v.bands_written) + line::text(" ");
    assert(s0 + line::text("T:") =~= line::text("T:"));
    extends_on(s9, s10, s11);
    extends_on(s8, s9, s11);
    extends_on(s7, s8, s11);
    extends_on(s6, s7, s11);
    extends_on(s5, s6, s11);
    extends_on(s4, s5, s11);
    extends_on(s3, s4, s11);
    extends_on(s2, s3, s11);
    extends_on(s1, s2, s11);
    fields_stay(s1, s11, 0, 0x54, v.now_s as int);
    fields_stay(s2, s11, 9, 0x4b, v.tick_s as int);
    fields_stay(s3, s11, 18, 0x52, v.control_requests as int);
    fields_stay(s5, s11, 28, 0x44, v.dtr as int);
    fields_stay(s6, s11, 37, 0x4d, v.console_rx_bytes as int);
    fields_stay(s7, s11, 46, 0x57, v.console_tx_ok as int);
    fields_stay(s9, s11, 56, 0x45, v.console_tx_timeout as int);
    fields_stay(s10, s11, 65, 0x55, v.updates as int);
    bytes_stay(s4, s11, 27);
    bytes_stay(s8, s11, 55);
    assert(l.full() == s11);
}

/// The numbers are those that were counted, with the two times as they were given.
pub proof fn the_strip_has_the_counters(stats: Stats, now_s: u32, tick_s: u32, v: StatusValues)
    requires
        call_ensures(panel::status_values, (&stats, now_s, tick_s), v),
    ensures
        v.now_s == now_s,
        v.tick_s == tick_s,
        v.control_requests == stats.control_requests,
        v.dtr == stats.dtr,
        v.console_rx_bytes == stats.console_rx_bytes,
        v.console_tx_ok == stats.console_tx_ok,
        v.console_tx_timeout == stats.console_tx_timeout,
        v.updates == stats.updates,
        v.bands_written == stats.bands_written,
{
}

proof fn strips_show_the_same(a: Seq<u8>, b: Seq<u8>, text: Seq<u8>, k: int)
    requires
        strip::shows(a, text),
        strip::shows(b, text),
        0 <= k < 240 * 36,
    ensures
        a[2 * k] == b[2 * k],
        a[2 * k + 1] == b[2 * k + 1],
{
    lettering::strips_have_three_lines();
    assert(strip::is_pixel(
        a,
        k,
        strip::lit(text, text.len() as int, k % (WIDTH as int), k / (WIDTH as int)),
    ));
    assert(strip::is_pixel(
        b,
        k,
        strip::lit(text, text.len() as int, k % (WIDTH as int), k / (WIDTH as int)),
    ));
}

/// The strip that is drawn is the one with that text.
pub proof fn the_status_strip_is_drawn(
    v: StatusValues,
    l: Line<128>,
    text: &[u8],
    scratch: &mut [u8],
    direct: &mut [u8],
    k: int,
)
    requires
        call_ensures(panel::status_strip_line, (&v,), l),
        call_ensures(Line::<128>::as_bytes, (&l,), text),
        call_ensures(panel::status_strip, (&v, scratch), ()),
        call_ensures(strip::draw_strip, (text, direct), ()),
        0 <= k < 240 * 36,
    ensures
        final(scratch)@[2 * k] == final(direct)@[2 * k],
        final(scratch)@[2 * k + 1] == final(direct)@[2 * k + 1],
        final(scratch)@.len() == old(scratch)@.len(),
{
    strips_show_the_same(final(scratch)@, final(direct)@, text@, k);
}

/// A message is shown as it is wrapped into three lines.
pub proof fn messages_are_shown(
    message: &[u8],
    scratch: &mut [u8],
    room: &mut [u8],
    n: usize,
    text: &[u8],
    direct: &mut [u8],
    k: int,
)
    requires
        call_ensures(panel::message_strip, (message, scratch), ()),
        call_ensures(strip::wrap, (message, room), n),
        old(room)@.len() == 128,
        text@ == final(room)@.take(n as int),
        call_ensures(strip::draw_strip, (text, direct), ()),
        0 <= k < 240 * 36,
    ensures
        final(scratch)@[2 * k] == final(direct)@[2 * k],
        final(scratch)@[2 * k + 1] == final(direct)@[2 * k + 1],
        final(scratch)@.len() == old(scratch)@.len(),
{
    let len = message@.len();
    let a = choose|a: int| #[trigger] strip::kept(len, 128, a) && n == strip::wrapped_length(
        len,
        128,
        a,
    );
    let c = choose|c: int|
        #[trigger] strip::kept(len, 128, c) && strip::shows(
            final(scratch)@,
            Seq::new(
                strip::wrapped_length(len, 128, c) as nat,
                |p: int| strip::wrapped(message@, p),
            ),
        );
    lettering::strips_have_three_lines();
    if a < c {
        assert(strip::place(a) + 2 <= 128);
    }
    if c < a {
        assert(strip::place(c) + 2 <= 128);
    }
    assert(a == c);
    let shown = Seq::new(n as nat, |p: int| strip::wrapped(message@, p));
    assert(text@ =~= shown);
    strips_show_the_same(final(scratch)@, final(direct)@, shown, k);
}

/// A band that does not decode is counted, and one that does is not.
pub proof fn broken_bands_are_counted(
    rect: Rect,
    payload: &mut [u8],
    decoded: &mut [u8],
    stats: &mut Stats,
    r: Result<&mut [u8], PayloadError>,
)
    requires
        call_ensures(panel::decode, (&rect, payload, decoded, stats), r),
    ensures
        *final(stats) == (Stats { decode_errors: final(stats).decode_errors, ..*old(stats) }),
        r is Ok ==> final(stats).decode_errors == old(stats).decode_errors,
        r is Err ==> final(stats).decode_errors == (old(stats).decode_errors + 1) % 0x1_0000_0000,
        !laws::can_be_decoded(rect, old(payload)@) ==> r is Err,
        laws::can_be_decoded(rect, old(payload)@) && !rect.compressed ==> {
            &&& r is Ok
            &&& r->Ok_0@ == old(payload)@.take(rect.length as int)
        },
        laws::can_be_decoded(rect, old(payload)@) && rect.compressed ==> {
            let block = old(payload)@.take(rect.payload as int);
            let pixels = pipeline::lz4_block(block, rect.length as nat);
            &&& r is Ok <==> rect.length <= old(decoded)@.len() && pixels is Some
                && pixels->Some_0.len() == rect.length
            &&& r is Ok ==> r->Ok_0@ == pixels->Some_0
        },
{
}

} // verus!
