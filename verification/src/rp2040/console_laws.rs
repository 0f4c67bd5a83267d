//! What can be read on the serial port, and when.

use vstd::prelude::*;

use crate::line::{self, Line};
use crate::readout::{
    self, joined, joined_with_one_more, says, says_hex, starts_without_a_digit,
};
use crate::rp2040::console::{self, StatusPort};
use crate::rp2040::gud::Stats;
use crate::rp2040::panel::PanelStats;

verus! {

/// The pieces of the status line.
#[verifier::opaque]
spec fn status_pieces(stats: Stats, panel: PanelStats, uptime_s: u64) -> Seq<Seq<u8>> {
    Seq::<Seq<u8>>::empty()
        .push(line::text("gud "))
        .push(line::decimal(240 as nat))
        .push(line::text("x"))
        .push(line::decimal(280 as nat))
        .push(line::text(" rx="))
        .push(line::decimal(stats.updates as nat))
        .push(line::text(" bytes="))
        .push(line::decimal(stats.bytes as nat))
        .push(line::text(" wire="))
        .push(line::decimal(stats.wire_bytes as nat))
        .push(line::text(" done="))
        .push(line::decimal(panel.completed as nat))
        .push(line::text(" written="))
        .push(line::decimal(panel.pixel_bytes as nat))
        .push(line::text(" decode_errors="))
        .push(line::decimal(panel.decode_errors as nat))
        .push(line::text(" rejected="))
        .push(line::decimal(stats.rejected as nat))
        .push(line::text(" last=0x"))
        .push(line::hexadecimal_pair(stats.last_rejected_request as nat))
        .push(line::text(" bl="))
        .push(line::decimal(stats.brightness as nat))
        .push(line::text(" on="))
        .push(line::decimal(panel.enabled as nat))
        .push(line::text(" spi="))
        .push(line::decimal(31_250_000 as nat))
        .push(line::text(" up="))
        .push(line::decimal(uptime_s as nat))
        .push(line::text("\r\n"))
}

proof fn status_is_joined(stats: Stats, panel: PanelStats, uptime_s: u64)
    ensures
        joined(status_pieces(stats, panel, uptime_s)) == console::status_text(stats, panel, uptime_s),
{
    reveal(status_pieces);
    let p0 = Seq::<Seq<u8>>::empty();
    let x0 = line::text("gud ");
    joined_with_one_more(p0, x0);
    let p1 = p0.push(x0);
    let x1 = line::decimal(240 as nat);
    joined_with_one_more(p1, x1);
    let p2 = p1.push(x1);
    let x2 = line::text("x");
    joined_with_one_more(p2, x2);
    let p3 = p2.push(x2);
    let x3 = line::decimal(280 as nat);
    joined_with_one_more(p3, x3);
    let p4 = p3.push(x3);
    let x4 = line::text(" rx=");
    joined_with_one_more(p4, x4);
    let p5 = p4.push(x4);
    let x5 = line::decimal(stats.updates as nat);
    joined_with_one_more(p5, x5);
    let p6 = p5.push(x5);
    let x6 = line::text(" bytes=");
    joined_with_one_more(p6, x6);
    let p7 = p6.push(x6);
    let x7 = line::decimal(stats.bytes as nat);
    joined_with_one_more(p7, x7);
    let p8 = p7.push(x7);
    let x8 = line::text(" wire=");
    joined_with_one_more(p8, x8);
    let p9 = p8.push(x8);
    let x9 = line::decimal(stats.wire_bytes as nat);
    joined_with_one_more(p9, x9);
    let p10 = p9.push(x9);
    let x10 = line::text(" done=");
    joined_with_one_more(p10, x10);
    let p11 = p10.push(x10);
    let x11 = line::decimal(panel.completed as nat);
    joined_with_one_more(p11, x11);
    let p12 = p11.push(x11);
    let x12 = line::text(" written=");
    joined_with_one_more(p12, x12);
    let p13 = p12.push(x12);
    let x13 = line::decimal(panel.pixel_bytes as nat);
    joined_with_one_more(p13, x13);
    let p14 = p13.push(x13);
    let x14 = line::text(" decode_errors=");
    joined_with_one_more(p14, x14);
    let p15 = p14.push(x14);
    let x15 = line::decimal(panel.decode_errors as nat);
    joined_with_one_more(p15, x15);
    let p16 = p15.push(x15);
    let x16 = line::text(" rejected=");
    joined_with_one_more(p16, x16);
    let p17 = p16.push(x16);
    let x17 = line::decimal(stats.rejected as nat);
    joined_with_one_more(p17, x17);
    let p18 = p17.push(x17);
    let x18 = line::text(" last=0x");
    joined_with_one_more(p18, x18);
    let p19 = p18.push(x18);
    let x19 = line::hexadecimal_pair(stats.last_rejected_request as nat);
    joined_with_one_more(p19, x19);
    let p20 = p19.push(x19);
    let x20 = line::text(" bl=");
    joined_with_one_more(p20, x20);
    let p21 = p20.push(x20);
    let x21 = line::decimal(stats.brightness as nat);
    joined_with_one_more(p21, x21);
    let p22 = p21.push(x21);
    let x22 = line::text(" on=");
    joined_with_one_more(p22, x22);
    let p23 = p22.push(x22);
    let x23 = line::decimal(panel.enabled as nat);
    joined_with_one_more(p23, x23);
    let p24 = p23.push(x23);
    let x24 = line::text(" spi=");
    joined_with_one_more(p24, x24);
    let p25 = p24.push(x24);
    let x25 = line::decimal(31_250_000 as nat);
    joined_with_one_more(p25, x25);
    let p26 = p25.push(x25);
    let x26 = line::text(" up=");
    joined_with_one_more(p26, x26);
    let p27 = p26.push(x26);
    let x27 = line::decimal(uptime_s as nat);
    joined_with_one_more(p27, x27);
    let p28 = p27.push(x27);
    let x28 = line::text("\r\n");
    joined_with_one_more(p28, x28);
    let p29 = p28.push(x28);
    assert(Seq::<u8>::empty() + x0 =~= x0);
}

proof fn status_labels()
    ensures
        starts_without_a_digit(line::text("gud ")),
        starts_without_a_digit(line::text("x")),
        starts_without_a_digit(line::text(" rx=")),
        starts_without_a_digit(line::text(" bytes=")),
        starts_without_a_digit(line::text(" wire=")),
        starts_without_a_digit(line::text(" done=")),
        starts_without_a_digit(line::text(" written=")),
        starts_without_a_digit(line::text(" decode_errors=")),
        starts_without_a_digit(line::text(" rejected=")),
        starts_without_a_digit(line::text(" last=0x")),
        starts_without_a_digit(line::text(" bl=")),
        starts_without_a_digit(line::text(" on=")),
        starts_without_a_digit(line::text(" spi=")),
        starts_without_a_digit(line::text(" up=")),
        starts_without_a_digit(line::text("\r\n")),
{
    reveal_strlit("gud ");
    readout::text_is_its_characters("gud ");
    reveal_strlit("x");
    readout::text_is_its_characters("x");
    reveal_strlit(" rx=");
    readout::text_is_its_characters(" rx=");
    reveal_strlit(" bytes=");
    readout::text_is_its_characters(" bytes=");
    reveal_strlit(" wire=");
    readout::text_is_its_characters(" wire=");
    reveal_strlit(" done=");
    readout::text_is_its_characters(" done=");
    reveal_strlit(" written=");
    readout::text_is_its_characters(" written=");
    reveal_strlit(" decode_errors=");
    readout::text_is_its_characters(" decode_errors=");
    reveal_strlit(" rejected=");
    readout::text_is_its_characters(" rejected=");
    reveal_strlit(" last=0x");
    readout::text_is_its_characters(" last=0x");
    reveal_strlit(" bl=");
    readout::text_is_its_characters(" bl=");
    reveal_strlit(" on=");
    readout::text_is_its_characters(" on=");
    reveal_strlit(" spi=");
    readout::text_is_its_characters(" spi=");
    reveal_strlit(" up=");
    readout::text_is_its_characters(" up=");
    reveal_strlit("\r\n");
    readout::text_is_its_characters("\r\n");
}

proof fn status_fields_0(stats: Stats, panel: PanelStats, uptime_s: u64)
    ensures
        ({
            let s = console::status_text(stats, panel, uptime_s);
            &&& says(s, line::text("gud "), 240 as int)
            &&& says(s, line::text("x"), 280 as int)
            &&& says(s, line::text(" rx="), stats.updates as int)
            &&& says(s, line::text(" bytes="), stats.bytes as int)
            &&& says(s, line::text(" wire="), stats.wire_bytes as int)
            &&& says(s, line::text(" done="), panel.completed as int)
            &&& says(s, line::text(" written="), panel.pixel_bytes as int)
            &&& says(s, line::text(" decode_errors="), panel.decode_errors as int)
        }),
{
    status_is_joined(stats, panel, uptime_s);
    status_labels();
    status_pieces_0(stats, panel, uptime_s);
    let p = status_pieces(stats, panel, uptime_s);
    readout::a_field_is_said(p, 0, 240 as nat);
    readout::a_field_is_said(p, 2, 280 as nat);
    readout::a_field_is_said(p, 4, stats.updates as nat);
    readout::a_field_is_said(p, 6, stats.bytes as nat);
    readout::a_field_is_said(p, 8, stats.wire_bytes as nat);
    readout::a_field_is_said(p, 10, panel.completed as nat);
    readout::a_field_is_said(p, 12, panel.pixel_bytes as nat);
    readout::a_field_is_said(p, 14, panel.decode_errors as nat);
}

proof fn status_fields_1(stats: Stats, panel: PanelStats, uptime_s: u64)
    ensures
        ({
            let s = console::status_text(stats, panel, uptime_s);
            &&& says(s, line::text(" rejected="), stats.rejected as int)
            &&& says_hex(s, line::text(" last=0x"), stats.last_rejected_request as int, 2)
            &&& says(s, line::text(" bl="), stats.brightness as int)
            &&& says(s, line::text(" on="), panel.enabled as int)
            &&& says(s, line::text(" spi="), 31_250_000 as int)
            &&& says(s, line::text(" up="), uptime_s as int)
        }),
{
    status_is_joined(stats, panel, uptime_s);
    status_labels();
    status_pieces_1(stats, panel, uptime_s);
    let p = status_pieces(stats, panel, uptime_s);
    readout::a_field_is_said(p, 16, stats.rejected as nat);
    readout::hexadecimal_pairs_are_numbers(stats.last_rejected_request as nat);
    readout::a_hex_field_is_said(p, 18, stats.last_rejected_request as nat, 2);
    readout::a_field_is_said(p, 20, stats.brightness as nat);
    readout::a_field_is_said(p, 22, panel.enabled as nat);
    readout::a_field_is_said(p, 24, 31_250_000 as nat);
    readout::a_field_is_said(p, 26, uptime_s as nat);
}

proof fn status_pieces_0(stats: Stats, panel: PanelStats, uptime_s: u64)
    ensures
        ({
            let p = status_pieces(stats, panel, uptime_s);
            &&& p.len() == 29
            &&& p[0] == line::text("gud ")
            &&& p[1] == line::decimal(240 as nat)
            &&& p[2] == line::text("x")
            &&& p[3] == line::decimal(280 as nat)
            &&& p[4] == line::text(" rx=")
            &&& p[5] == line::decimal(stats.updates as nat)
            &&& p[6] == line::text(" bytes=")
            &&& p[7] == line::decimal(stats.bytes as nat)
            &&& p[8] == line::text(" wire=")
            &&& p[9] == line::decimal(stats.wire_bytes as nat)
            &&& p[10] == line::text(" done=")
            &&& p[11] == line::decimal(panel.completed as nat)
            &&& p[12] == line::text(" written=")
            &&& p[13] == line::decimal(panel.pixel_bytes as nat)
            &&& p[14] == line::text(" decode_errors=")
            &&& p[15] == line::decimal(panel.decode_errors as nat)
            &&& p[16] == line::text(" rejected=")
        }),
{
    reveal(status_pieces);
}

proof fn status_pieces_1(stats: Stats, panel: PanelStats, uptime_s: u64)
    ensures
        ({
            let p = status_pieces(stats, panel, uptime_s);
            &&& p.len() == 29
            &&& p[16] == line::text(" rejected=")
            &&& p[17] == line::decimal(stats.rejected as nat)
            &&& p[18] == line::text(" last=0x")
            &&& p[19] == line::hexadecimal_pair(stats.last_rejected_request as nat)
            &&& p[20] == line::text(" bl=")
            &&& p[21] == line::decimal(stats.brightness as nat)
            &&& p[22] == line::text(" on=")
            &&& p[23] == line::decimal(panel.enabled as nat)
            &&& p[24] == line::text(" spi=")
            &&& p[25] == line::decimal(31_250_000 as nat)
            &&& p[26] == line::text(" up=")
            &&& p[27] == line::decimal(uptime_s as nat)
            &&& p[28] == line::text("\r\n")
        }),
{
    reveal(status_pieces);
}

proof fn status_ends(stats: Stats, panel: PanelStats, uptime_s: u64)
    ensures
        ({
            let p = status_pieces(stats, panel, uptime_s);
            &&& p.len() == 29
            &&& p[0] == line::text("gud ")
            &&& p.last() == line::text("\r\n")
        }),
{
    reveal(status_pieces);
}

/// The status line tells the size of the screen and every counter behind its label,
/// in decimal, and the last refused request in hexadecimal. It is whole, and ends
/// with a line end.
pub proof fn status_lines_tell_all(
    stats: Stats,
    panel: PanelStats,
    uptime_s: u64,
    l: Line<256>,
    b: &[u8],
)
    requires
        call_ensures(console::status_line, (&stats, &panel, uptime_s), l),
        call_ensures(Line::<256>::as_bytes, (&l,), b),
    ensures
        ({
            let s = l.full();
            &&& says(s, line::text("gud "), 240 as int)
            &&& says(s, line::text("x"), 280 as int)
            &&& says(s, line::text(" rx="), stats.updates as int)
            &&& says(s, line::text(" bytes="), stats.bytes as int)
            &&& says(s, line::text(" wire="), stats.wire_bytes as int)
            &&& says(s, line::text(" done="), panel.completed as int)
            &&& says(s, line::text(" written="), panel.pixel_bytes as int)
            &&& says(s, line::text(" decode_errors="), panel.decode_errors as int)
            &&& says(s, line::text(" rejected="), stats.rejected as int)
            &&& says_hex(s, line::text(" last=0x"), stats.last_rejected_request as int, 2)
            &&& says(s, line::text(" bl="), stats.brightness as int)
            &&& says(s, line::text(" on="), panel.enabled as int)
            &&& says(s, line::text(" spi="), 31_250_000 as int)
            &&& says(s, line::text(" up="), uptime_s as int)
        }),
        b@ == l.full(),
        readout::has_at(l.full(), 0, line::text("gud ")),
        readout::has_at(l.full(), l.full().len() - 2, line::text("\r\n")),
{
    status_fields_0(stats, panel, uptime_s);
    status_fields_1(stats, panel, uptime_s);
    console::status_lines_fit(stats, panel, uptime_s);
    status_is_joined(stats, panel, uptime_s);
    status_labels();
    status_ends(stats, panel, uptime_s);
    let p = status_pieces(stats, panel, uptime_s);
    readout::the_first_and_the_last_stand(p);
    reveal_strlit("\r\n");
    readout::text_is_its_characters("\r\n");
}

/// Only a port that was opened at 1200 baud and closed again asks for the
/// bootloader.
pub proof fn the_bootloader_is_asked_for(rate: u32, dtr: bool, asks: bool)
    requires
        call_ensures(console::wants_bootsel, (rate, dtr), asks),
    ensures
        asks <==> rate == 1200 && !dtr,
{
}

/// A port starts with nothing to send.
pub proof fn ports_start_with_nothing_to_send(now_us: u64, p: StatusPort)
    requires
        call_ensures(StatusPort::new, (now_us,), p),
    ensures
        p@.tail is None,
        p@.last_status_us == now_us,
{
}

/// A line is begun once a second while the port is open and nothing is left of
/// the one before.
pub proof fn lines_are_due_once_a_second(p: StatusPort, now_us: u64, dtr: bool, due: bool)
    requires
        call_ensures(StatusPort::due, (&p, now_us, dtr), due),
        p@.last_status_us <= now_us,
    ensures
        due <==> dtr && p@.tail is None && now_us - p@.last_status_us >= 1_000_000,
{
}

/// A line that was begun goes out from its first byte to its last: what the port
/// took is gone from what is left, and the rest is what is left next time. A port
/// that is closed drops it.
pub proof fn lines_go_out_whole(
    p: &mut StatusPort,
    now_us: u64,
    l: Line<256>,
    whole: &[u8],
    q: &mut StatusPort,
    n: usize,
    t: &mut StatusPort,
    dtr: bool,
    tail: Option<&[u8]>,
)
    requires
        call_ensures(StatusPort::begin, (p, now_us, l), ()),
        call_ensures(Line::<256>::as_bytes, (&l,), whole),
        call_ensures(StatusPort::wrote, (q, n), ()),
        call_ensures(StatusPort::tail, (t, dtr), tail),
        old(q)@.tail is Some,
        n <= old(q)@.tail->Some_0.len(),
    ensures
        final(p)@.tail == Some(whole@),
        final(p)@.last_status_us == now_us,
        final(q)@.last_status_us == old(q)@.last_status_us,
        ({
            let left = old(q)@.tail->Some_0;
            &&& n == left.len() ==> final(q)@.tail is None
            &&& n < left.len() ==> final(q)@.tail is Some && left == left.take(n as int) + final(
                q
            )@.tail->Some_0
        }),
        !dtr ==> tail is None && final(t)@.tail is None,
        dtr ==> final(t)@ == old(t)@,
        dtr && old(t)@.tail is None ==> tail is None,
        dtr && old(t)@.tail is Some ==> tail is Some && tail->Some_0@ == old(t)@.tail->Some_0,
{
    let left = old(q)@.tail->Some_0;
    assert(left =~= left.take(n as int) + left.skip(n as int));
}

} // verus!
