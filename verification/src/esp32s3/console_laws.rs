//! What can be read on the console.

use vstd::prelude::*;

use crate::esp32s3::console::{self, BootButton, Console, Printing};
use crate::esp32s3::crash::CrashRecord;
use crate::esp32s3::stats::{self, Stats};
use crate::line::{self, Line};
use crate::readout::{
    self, joined, joined_with_one_more, says, says_hex, says_text, starts_without_a_digit,
};

verus! {

/// The pieces of the status line.
#[verifier::opaque]
spec fn status_pieces(stats: Stats, uptime_s: u32, reset: Seq<u8>) -> Seq<Seq<u8>> {
    Seq::<Seq<u8>>::empty()
        .push(line::text("gud "))
        .push(line::decimal(240 as nat))
        .push(line::text("x"))
        .push(line::decimal(280 as nat))
        .push(line::text(" up="))
        .push(line::decimal(uptime_s as nat))
        .push(line::text("s reset="))
        .push(reset)
        .push(line::text(" updates="))
        .push(line::decimal(stats.updates as nat))
        .push(line::text(" bytes="))
        .push(line::decimal(stats.bytes as nat))
        .push(line::text(" wire="))
        .push(line::decimal(stats.wire_bytes as nat))
        .push(line::text(" rejected="))
        .push(line::decimal(stats.rejected as nat))
        .push(line::text(" last_rejected=0x"))
        .push(line::hexadecimal_pair(stats.last_rejected_request as nat))
        .push(line::text(" abandoned="))
        .push(line::decimal(stats.abandoned as nat))
        .push(line::text(" rx_disabled="))
        .push(line::decimal(stats.rx_disabled as nat))
        .push(line::text(" rx_overflow="))
        .push(line::decimal(stats.rx_overflow as nat))
        .push(line::text(" decode_errors="))
        .push(line::decimal(stats.decode_errors as nat))
        .push(line::text(" rx_us="))
        .push(line::decimal(stats.rx_us as nat))
        .push(line::text(" rx_pkts="))
        .push(line::decimal(stats.rx_packets as nat))
        .push(line::text(" decode_us="))
        .push(line::decimal(stats.decode_us as nat))
        .push(line::text(" swap_us="))
        .push(line::decimal(stats.swap_us as nat))
        .push(line::text(" spi_us="))
        .push(line::decimal(stats.spi_us as nat))
        .push(line::text(" idle_us="))
        .push(line::decimal(stats.idle_us as nat))
        .push(line::text(" starve_us="))
        .push(line::decimal(stats.starve_us as nat))
        .push(line::text(" bands_written="))
        .push(line::decimal(stats.bands_written as nat))
        .push(line::text(" pixels_written="))
        .push(line::decimal(stats.pixels_written as nat))
        .push(line::text(" panel_state=0x"))
        .push(line::hexadecimal(stats.panel_state as nat))
        .push(line::text(" console_rx="))
        .push(line::decimal(stats.console_rx_bytes as nat))
        .push(line::text(" console_tx_ok="))
        .push(line::decimal(stats.console_tx_ok as nat))
        .push(line::text(" console_tx_timeout="))
        .push(line::decimal(stats.console_tx_timeout as nat))
        .push(line::text(" touch="))
        .push(line::decimal(stats.touch_reports as nat))
        .push(line::text(" touch_dropped="))
        .push(line::decimal(stats.touch_dropped as nat))
        .push(line::text(" touch_errors="))
        .push(line::decimal(stats.touch_errors as nat))
        .push(line::text("\r\n"))
}

#[verifier::rlimit(40)]
proof fn status_is_joined(stats: Stats, uptime_s: u32, reset: Seq<u8>)
    ensures
        joined(status_pieces(stats, uptime_s, reset)) == console::status_text(stats, uptime_s, reset),
{
    reveal(status_pieces);
    let p0 = Seq::<Seq<u8>>::empty();
    let x0 = line::text("gud ");
    joined_with_one_more(p0, x0);
    let p1 = p0.push(x0);
    let x1 = line::decimal(240 as nat);
    joined_with_one_more(p1, x1);
    let p2 = p1.push(x1);
    let x2 = line::text("x");
    joined_with_one_more(p2, x2);
    let p3 = p2.push(x2);
    let x3 = line::decimal(280 as nat);
    joined_with_one_more(p3, x3);
    let p4 = p3.push(x3);
    let x4 = line::text(" up=");
    joined_with_one_more(p4, x4);
    let p5 = p4.push(x4);
    let x5 = line::decimal(uptime_s as nat);
    joined_with_one_more(p5, x5);
    let p6 = p5.push(x5);
    let x6 = line::text("s reset=");
    joined_with_one_more(p6, x6);
    let p7 = p6.push(x6);
    let x7 = reset;
    joined_with_one_more(p7, x7);
    let p8 = p7.push(x7);
    let x8 = line::text(" updates=");
    joined_with_one_more(p8, x8);
    let p9 = p8.push(x8);
    let x9 = line::decimal(stats.updates as nat);
    joined_with_one_more(p9, x9);
    let p10 = p9.push(x9);
    let x10 = line::text(" bytes=");
    joined_with_one_more(p10, x10);
    let p11 = p10.push(x10);
    let x11 = line::decimal(stats.bytes as nat);
    joined_with_one_more(p11, x11);
    let p12 = p11.push(x11);
    let x12 = line::text(" wire=");
    joined_with_one_more(p12, x12);
    let p13 = p12.push(x12);
    let x13 = line::decimal(stats.wire_bytes as nat);
    joined_with_one_more(p13, x13);
    let p14 = p13.push(x13);
    let x14 = line::text(" rejected=");
    joined_with_one_more(p14, x14);
    let p15 = p14.push(x14);
    let x15 = line::decimal(stats.rejected as nat);
    joined_with_one_more(p15, x15);
    let p16 = p15.push(x15);
    let x16 = line::text(" last_rejected=0x");
    joined_with_one_more(p16, x16);
    let p17 = p16.push(x16);
    let x17 = line::hexadecimal_pair(stats.last_rejected_request as nat);
    joined_with_one_more(p17, x17);
    let p18 = p17.push(x17);
    let x18 = line::text(" abandoned=");
    joined_with_one_more(p18, x18);
    let p19 = p18.push(x18);
    let x19 = line::decimal(stats.abandoned as nat);
    joined_with_one_more(p19, x19);
    let p20 = p19.push(x19);
    let x20 = line::text(" rx_disabled=");
    joined_with_one_more(p20, x20);
    let p21 = p20.push(x20);
    let x21 = line::decimal(stats.rx_disabled as nat);
    joined_with_one_more(p21, x21);
    let p22 = p21.push(x21);
    let x22 = line::text(" rx_overflow=");
    joined_with_one_more(p22, x22);
    let p23 = p22.push(x22);
    let x23 = line::decimal(stats.rx_overflow as nat);
    joined_with_one_more(p23, x23);
    let p24 = p23.push(x23);
    let x24 = line::text(" decode_errors=");
    joined_with_one_more(p24, x24);
    let p25 = p24.push(x24);
    let x25 = line::decimal(stats.decode_errors as nat);
    joined_with_one_more(p25, x25);
    let p26 = p25.push(x25);
    let x26 = line::text(" rx_us=");
    joined_with_one_more(p26, x26);
    let p27 = p26.push(x26);
    let x27 = line::decimal(stats.rx_us as nat);
    joined_with_one_more(p27, x27);
    let p28 = p27.push(x27);
    let x28 = line::text(" rx_pkts=");
    joined_with_one_more(p28, x28);
    let p29 = p28.push(x28);
    let x29 = line::decimal(stats.rx_packets as nat);
    joined_with_one_more(p29, x29);
    let p30 = p29.push(x29);
    let x30 = line::text(" decode_us=");
    joined_with_one_more(p30, x30);
    let p31 = p30.push(x30);
    let x31 = line::decimal(stats.decode_us as nat);
    joined_with_one_more(p31, x31);
    let p32 = p31.push(x31);
    let x32 = line::text(" swap_us=");
    joined_with_one_more(p32, x32);
    let p33 = p32.push(x32);
    let x33 = line::decimal(stats.swap_us as nat);
    joined_with_one_more(p33, x33);
    let p34 = p33.push(x33);
    let x34 = line::text(" spi_us=");
    joined_with_one_more(p34, x34);
    let p35 = p34.push(x34);
    let x35 = line::decimal(stats.spi_us as nat);
    joined_with_one_more(p35, x35);
    let p36 = p35.push(x35);
    let x36 = line::text(" idle_us=");
    joined_with_one_more(p36, x36);
    let p37 = p36.push(x36);
    let x37 = line::decimal(stats.idle_us as nat);
    joined_with_one_more(p37, x37);
    let p38 = p37.push(x37);
    let x38 = line::text(" starve_us=");
    joined_with_one_more(p38, x38);
    let p39 = p38.push(x38);
    let x39 = line::decimal(stats.starve_us as nat);
    joined_with_one_more(p39, x39);
    let p40 = p39.push(x39);
    let x40 = line::text(" bands_written=");
    joined_with_one_more(p40, x40);
    let p41 = p40.push(x40);
    let x41 = line::decimal(stats.bands_written as nat);
    joined_with_one_more(p41, x41);
    let p42 = p41.push(x41);
    let x42 = line::text(" pixels_written=");
    joined_with_one_more(p42, x42);
    let p43 = p42.push(x42);
    let x43 = line::decimal(stats.pixels_written as nat);
    joined_with_one_more(p43, x43);
    let p44 = p43.push(x43);
    let x44 = line::text(" panel_state=0x");
    joined_with_one_more(p44, x44);
    let p45 = p44.push(x44);
    let x45 = line::hexadecimal(stats.panel_state as nat);
    joined_with_one_more(p45, x45);
    let p46 = p45.push(x45);
    let x46 = line::text(" console_rx=");
    joined_with_one_more(p46, x46);
    let p47 = p46.push(x46);
    let x47 = line::decimal(stats.console_rx_bytes as nat);
    joined_with_one_more(p47, x47);
    let p48 = p47.push(x47);
    let x48 = line::text(" console_tx_ok=");
    joined_with_one_more(p48, x48);
    let p49 = p48.push(x48);
    let x49 = line::decimal(stats.console_tx_ok as nat);
    joined_with_one_more(p49, x49);
    let p50 = p49.push(x49);
    let x50 = line::text(" console_tx_timeout=");
    joined_with_one_more(p50, x50);
    let p51 = p50.push(x50);
    let x51 = line::decimal(stats.console_tx_timeout as nat);
    joined_with_one_more(p51, x51);
    let p52 = p51.push(x51);
    let x52 = line::text(" touch=");
    joined_with_one_more(p52, x52);
    let p53 = p52.push(x52);
    let x53 = line::decimal(stats.touch_reports as nat);
    joined_with_one_more(p53, x53);
    let p54 = p53.push(x53);
    let x54 = line::text(" touch_dropped=");
    joined_with_one_more(p54, x54);
    let p55 = p54.push(x54);
    let x55 = line::decimal(stats.touch_dropped as nat);
    joined_with_one_more(p55, x55);
    let p56 = p55.push(x55);
    let x56 = line::text(" touch_errors=");
    joined_with_one_more(p56, x56);
    let p57 = p56.push(x56);
    let x57 = line::decimal(stats.touch_errors as nat);
    joined_with_one_more(p57, x57);
    let p58 = p57.push(x57);
    let x58 = line::text("\r\n");
    joined_with_one_more(p58, x58);
    let p59 = p58.push(x58);
    assert(Seq::<u8>::empty() + x0 =~= x0);
}

proof fn status_labels()
    ensures
        starts_without_a_digit(line::text("gud ")),
        starts_without_a_digit(line::text("x")),
        starts_without_a_digit(line::text(" up=")),
        starts_without_a_digit(line::text("s reset=")),
        starts_without_a_digit(line::text(" updates=")),
        starts_without_a_digit(line::text(" bytes=")),
        starts_without_a_digit(line::text(" wire=")),
        starts_without_a_digit(line::text(" rejected=")),
        starts_without_a_digit(line::text(" last_rejected=0x")),
        starts_without_a_digit(line::text(" abandoned=")),
        starts_without_a_digit(line::text(" rx_disabled=")),
        starts_without_a_digit(line::text(" rx_overflow=")),
        starts_without_a_digit(line::text(" decode_errors=")),
        starts_without_a_digit(line::text(" rx_us=")),
        starts_without_a_digit(line::text(" rx_pkts=")),
        starts_without_a_digit(line::text(" decode_us=")),
        starts_without_a_digit(line::text(" swap_us=")),
        starts_without_a_digit(line::text(" spi_us=")),
        starts_without_a_digit(line::text(" idle_us=")),
        starts_without_a_digit(line::text(" starve_us=")),
        starts_without_a_digit(line::text(" bands_written=")),
        starts_without_a_digit(line::text(" pixels_written=")),
        starts_without_a_digit(line::text(" panel_state=0x")),
        starts_without_a_digit(line::text(" console_rx=")),
        starts_without_a_digit(line::text(" console_tx_ok=")),
        starts_without_a_digit(line::text(" console_tx_timeout=")),
        starts_without_a_digit(line::text(" touch=")),
        starts_without_a_digit(line::text(" touch_dropped=")),
        starts_without_a_digit(line::text(" touch_errors=")),
        starts_without_a_digit(line::text("\r\n")),
{
    reveal_strlit("gud ");
    readout::text_is_its_characters("gud ");
    reveal_strlit("x");
    readout::text_is_its_characters("x");
    reveal_strlit(" up=");
    readout::text_is_its_characters(" up=");
    reveal_strlit("s reset=");
    readout::text_is_its_characters("s reset=");
    reveal_strlit(" updates=");
    readout::text_is_its_characters(" updates=");
    reveal_strlit(" bytes=");
    readout::text_is_its_characters(" bytes=");
    reveal_strlit(" wire=");
    readout::text_is_its_characters(" wire=");
    reveal_strlit(" rejected=");
    readout::text_is_its_characters(" rejected=");
    reveal_strlit(" last_rejected=0x");
    readout::text_is_its_characters(" last_rejected=0x");
    reveal_strlit(" abandoned=");
    readout::text_is_its_characters(" abandoned=");
    reveal_strlit(" rx_disabled=");
    readout::text_is_its_characters(" rx_disabled=");
    reveal_strlit(" rx_overflow=");
    readout::text_is_its_characters(" rx_overflow=");
    reveal_strlit(" decode_errors=");
    readout::text_is_its_characters(" decode_errors=");
    reveal_strlit(" rx_us=");
    readout::text_is_its_characters(" rx_us=");
    reveal_strlit(" rx_pkts=");
    readout::text_is_its_characters(" rx_pkts=");
    reveal_strlit(" decode_us=");
    readout::text_is_its_characters(" decode_us=");
    reveal_strlit(" swap_us=");
    readout::text_is_its_characters(" swap_us=");
    reveal_strlit(" spi_us=");
    readout::text_is_its_characters(" spi_us=");
    reveal_strlit(" idle_us=");
    readout::text_is_its_characters(" idle_us=");
    reveal_strlit(" starve_us=");
    readout::text_is_its_characters(" starve_us=");
    reveal_strlit(" bands_written=");
    readout::text_is_its_characters(" bands_written=");
    reveal_strlit(" pixels_written=");
    readout::text_is_its_characters(" pixels_written=");
    reveal_strlit(" panel_state=0x");
    readout::text_is_its_characters(" panel_state=0x");
    reveal_strlit(" console_rx=");
    readout::text_is_its_characters(" console_rx=");
    reveal_strlit(" console_tx_ok=");
    readout::text_is_its_characters(" console_tx_ok=");
    reveal_strlit(" console_tx_timeout=");
    readout::text_is_its_characters(" console_tx_timeout=");
    reveal_strlit(" touch=");
    readout::text_is_its_characters(" touch=");
    reveal_strlit(" touch_dropped=");
    readout::text_is_its_characters(" touch_dropped=");
    reveal_strlit(" touch_errors=");
    readout::text_is_its_characters(" touch_errors=");
    reveal_strlit("\r\n");
    readout::text_is_its_characters("\r\n");
}

proof fn status_fields_0(stats: Stats, uptime_s: u32, reset: Seq<u8>)
    ensures
        ({
            let s = console::status_text(stats, uptime_s, reset);
            &&& says(s, line::text("gud "), 240 as int)
            &&& says(s, line::text("x"), 280 as int)
            &&& says(s, line::text(" up="), uptime_s as int)
            &&& says_text(s, line::text("s reset="), reset)
            &&& says(s, line::text(" updates="), stats.updates as int)
            &&& says(s, line::text(" bytes="), stats.bytes as int)
            &&& says(s, line::text(" wire="), stats.wire_bytes as int)
            &&& says(s, line::text(" rejected="), stats.rejected as int)
        }),
{
    status_is_joined(stats, uptime_s, reset);
    status_labels();
    status_pieces_0(stats, uptime_s, reset);
    let p = status_pieces(stats, uptime_s, reset);
    readout::a_field_is_said(p, 0, 240 as nat);
    readout::a_field_is_said(p, 2, 280 as nat);
    readout::a_field_is_said(p, 4, uptime_s as nat);
    readout::a_text_is_said(p, 6);
    readout::a_field_is_said(p, 8, stats.updates as nat);
    readout::a_field_is_said(p, 10, stats.bytes as nat);
    readout::a_field_is_said(p, 12, stats.wire_bytes as nat);
    readout::a_field_is_said(p, 14, stats.rejected as nat);
}

proof fn status_fields_1(stats: Stats, uptime_s: u32, reset: Seq<u8>)
    ensures
        ({
            let s = console::status_text(stats, uptime_s, reset);
            &&& says_hex(s, line::text(" last_rejected=0x"), stats.last_rejected_request as int, 2)
            &&& says(s, line::text(" abandoned="), stats.abandoned as int)
            &&& says(s, line::text(" rx_disabled="), stats.rx_disabled as int)
            &&& says(s, line::text(" rx_overflow="), stats.rx_overflow as int)
            &&& says(s, line::text(" decode_errors="), stats.decode_errors as int)
            &&& says(s, line::text(" rx_us="), stats.rx_us as int)
            &&& says(s, line::text(" rx_pkts="), stats.rx_packets as int)
            &&& says(s, line::text(" decode_us="), stats.decode_us as int)
        }),
{
    status_is_joined(stats, uptime_s, reset);
    status_labels();
    status_pieces_1(stats, uptime_s, reset);
    let p = status_pieces(stats, uptime_s, reset);
    readout::hexadecimal_pairs_are_numbers(stats.last_rejected_request as nat);
    readout::a_hex_field_is_said(p, 16, stats.last_rejected_request as nat, 2);
    readout::a_field_is_said(p, 18, stats.abandoned as nat);
    readout::a_field_is_said(p, 20, stats.rx_disabled as nat);
    readout::a_field_is_said(p, 22, stats.rx_overflow as nat);
    readout::a_field_is_said(p, 24, stats.decode_errors as nat);
    readout::a_field_is_said(p, 26, stats.rx_us as nat);
    readout::a_field_is_said(p, 28, stats.rx_packets as nat);
    readout::a_field_is_said(p, 30, stats.decode_us as nat);
}

proof fn status_fields_2(stats: Stats, uptime_s: u32, reset: Seq<u8>)
    ensures
        ({
            let s = console::status_text(stats, uptime_s, reset);
            &&& says(s, line::text(" swap_us="), stats.swap_us as int)
            &&& says(s, line::text(" spi_us="), stats.spi_us as int)
            &&& says(s, line::text(" idle_us="), stats.idle_us as int)
            &&& says(s, line::text(" starve_us="), stats.starve_us as int)
            &&& says(s, line::text(" bands_written="), stats.bands_written as int)
            &&& says(s, line::text(" pixels_written="), stats.pixels_written as int)
            &&& says_hex(s, line::text(" panel_state=0x"), stats.panel_state as int, 1)
            &&& says(s, line::text(" console_rx="), stats.console_rx_bytes as int)
        }),
{
    status_is_joined(stats, uptime_s, reset);
    status_labels();
    status_pieces_2(stats, uptime_s, reset);
    let p = status_pieces(stats, uptime_s, reset);
    readout::a_field_is_said(p, 32, stats.swap_us as nat);
    readout::a_field_is_said(p, 34, stats.spi_us as nat);
    readout::a_field_is_said(p, 36, stats.idle_us as nat);
    readout::a_field_is_said(p, 38, stats.starve_us as nat);
    readout::a_field_is_said(p, 40, stats.bands_written as nat);
    readout::a_field_is_said(p, 42, stats.pixels_written as nat);
    readout::hexadecimals_are_numbers(stats.panel_state as nat);
    readout::a_hex_field_is_said(p, 44, stats.panel_state as nat, 1);
    readout::a_field_is_said(p, 46, stats.console_rx_bytes as nat);
}

proof fn status_fields_3(stats: Stats, uptime_s: u32, reset: Seq<u8>)
    ensures
        ({
            let s = console::status_text(stats, uptime_s, reset);
            &&& says(s, line::text(" console_tx_ok="), stats.console_tx_ok as int)
            &&& says(s, line::text(" console_tx_timeout="), stats.console_tx_timeout as int)
            &&& says(s, line::text(" touch="), stats.touch_reports as int)
            &&& says(s, line::text(" touch_dropped="), stats.touch_dropped as int)
            &&& says(s, line::text(" touch_errors="), stats.touch_errors as int)
        }),
{
    status_is_joined(stats, uptime_s, reset);
    status_labels();
    status_pieces_3(stats, uptime_s, reset);
    let p = status_pieces(stats, uptime_s, reset);
    readout::a_field_is_said(p, 48, stats.console_tx_ok as nat);
    readout::a_field_is_said(p, 50, stats.console_tx_timeout as nat);
    readout::a_field_is_said(p, 52, stats.touch_reports as nat);
    readout::a_field_is_said(p, 54, stats.touch_dropped as nat);
    readout::a_field_is_said(p, 56, stats.touch_errors as nat);
}

#[verifier::rlimit(80)]
proof fn status_pieces_0(stats: Stats, uptime_s: u32, reset: Seq<u8>)
    ensures
        ({
            let p = status_pieces(stats, uptime_s, reset);
            &&& p.len() == 59
            &&& p[0] == line::text("gud ")
            &&& p[1] == line::decimal(240 as nat)
            &&& p[2] == line::text("x")
            &&& p[3] == line::decimal(280 as nat)
            &&& p[4] == line::text(" up=")
            &&& p[5] == line::decimal(uptime_s as nat)
            &&& p[6] == line::text("s reset=")
            &&& p[7] == reset
            &&& p[8] == line::text(" updates=")
            &&& p[9] == line::decimal(stats.updates as nat)
            &&& p[10] == line::text(" bytes=")
            &&& p[11] == line::decimal(stats.bytes as nat)
            &&& p[12] == line::text(" wire=")
            &&& p[13] == line::decimal(stats.wire_bytes as nat)
            &&& p[14] == line::text(" rejected=")
            &&& p[15] == line::decimal(stats.rejected as nat)
            &&& p[16] == line::text(" last_rejected=0x")
        }),
{
    reveal(status_pieces);
}

#[verifier::rlimit(80)]
proof fn status_pieces_1(stats: Stats, uptime_s: u32, reset: Seq<u8>)
    ensures
        ({
            let p = status_pieces(stats, uptime_s, reset);
            &&& p.len() == 59
            &&& p[16] == line::text(" last_rejected=0x")
            &&& p[17] == line::hexadecimal_pair(stats.last_rejected_request as nat)
            &&& p[18] == line::text(" abandoned=")
            &&& p[19] == line::decimal(stats.abandoned as nat)
            &&& p[20] == line::text(" rx_disabled=")
            &&& p[21] == line::decimal(stats.rx_disabled as nat)
            &&& p[22] == line::text(" rx_overflow=")
            &&& p[23] == line::decimal(stats.rx_overflow as nat)
            &&& p[24] == line::text(" decode_errors=")
            &&& p[25] == line::decimal(stats.decode_errors as nat)
            &&& p[26] == line::text(" rx_us=")
            &&& p[27] == line::decimal(stats.rx_us as nat)
            &&& p[28] == line::text(" rx_pkts=")
            &&& p[29] == line::decimal(stats.rx_packets as nat)
            &&& p[30] == line::text(" decode_us=")
            &&& p[31] == line::decimal(stats.decode_us as nat)
            &&& p[32] == line::text(" swap_us=")
        }),
{
    reveal(status_pieces);
}

#[verifier::rlimit(80)]
proof fn status_pieces_2(stats: Stats, uptime_s: u32, reset: Seq<u8>)
    ensures
        ({
            let p = status_pieces(stats, uptime_s, reset);
            &&& p.len() == 59
            &&& p[32] == line::text(" swap_us=")
            &&& p[33] == line::decimal(stats.swap_us as nat)
            &&& p[34] == line::text(" spi_us=")
            &&& p[35] == line::decimal(stats.spi_us as nat)
            &&& p[36] == line::text(" idle_us=")
            &&& p[37] == line::decimal(stats.idle_us as nat)
            &&& p[38] == line::text(" starve_us=")
            &&& p[39] == line::decimal(stats.starve_us as nat)
            &&& p[40] == line::text(" bands_written=")
            &&& p[41] == line::decimal(stats.bands_written as nat)
            &&& p[42] == line::text(" pixels_written=")
            &&& p[43] == line::decimal(stats.pixels_written as nat)
            &&& p[44] == line::text(" panel_state=0x")
            &&& p[45] == line::hexadecimal(stats.panel_state as nat)
            &&& p[46] == line::text(" console_rx=")
            &&& p[47] == line::decimal(stats.console_rx_bytes as nat)
            &&& p[48] == line::text(" console_tx_ok=")
        }),
{
    reveal(status_pieces);
}

#[verifier::rlimit(80)]
proof fn status_pieces_3(stats: Stats, uptime_s: u32, reset: Seq<u8>)
    ensures
        ({
            let p = status_pieces(stats, uptime_s, reset);
            &&& p.len() == 59
            &&& p[48] == line::text(" console_tx_ok=")
            &&& p[49] == line::decimal(stats.console_tx_ok as nat)
            &&& p[50] == line::text(" console_tx_timeout=")
            &&& p[51] == line::decimal(stats.console_tx_timeout as nat)
            &&& p[52] == line::text(" touch=")
            &&& p[53] == line::decimal(stats.touch_reports as nat)
            &&& p[54] == line::text(" touch_dropped=")
            &&& p[55] == line::decimal(stats.touch_dropped as nat)
            &&& p[56] == line::text(" touch_errors=")
            &&& p[57] == line::decimal(stats.touch_errors as nat)
            &&& p[58] == line::text("\r\n")
        }),
{
    reveal(status_pieces);
}

proof fn status_ends(stats: Stats, uptime_s: u32, reset: Seq<u8>)
    ensures
        ({
            let p = status_pieces(stats, uptime_s, reset);
            &&& p.len() == 59
            &&& p[0] == line::text("gud ")
            &&& p.last() == line::text("\r\n")
        }),
{
    reveal(status_pieces);
}

/// The status line tells the size of the screen, the time, why the chip was reset,
/// and every counter behind its label, in decimal; the last refused request and the
/// state of the panel in hexadecimal.
pub proof fn status_lines_tell_all(
    stats: Stats,
    uptime_s: u32,
    why: &str,
    reset: Seq<u8>,
    l: Line<512>,
)
    requires
        call_ensures(console::status_line, (&stats, uptime_s, why), l),
        reset == line::text(why),
    ensures
        ({
            let s = l.full();
            &&& says(s, line::text("gud "), 240 as int)
            &&& says(s, line::text("x"), 280 as int)
            &&& says(s, line::text(" up="), uptime_s as int)
            &&& says_text(s, line::text("s reset="), reset)
            &&& says(s, line::text(" updates="), stats.updates as int)
            &&& says(s, line::text(" bytes="), stats.bytes as int)
            &&& says(s, line::text(" wire="), stats.wire_bytes as int)
            &&& says(s, line::text(" rejected="), stats.rejected as int)
            &&& says_hex(s, line::text(" last_rejected=0x"), stats.last_rejected_request as int, 2)
            &&& says(s, line::text(" abandoned="), stats.abandoned as int)
            &&& says(s, line::text(" rx_disabled="), stats.rx_disabled as int)
            &&& says(s, line::text(" rx_overflow="), stats.rx_overflow as int)
            &&& says(s, line::text(" decode_errors="), stats.decode_errors as int)
            &&& says(s, line::text(" rx_us="), stats.rx_us as int)
            &&& says(s, line::text(" rx_pkts="), stats.rx_packets as int)
            &&& says(s, line::text(" decode_us="), stats.decode_us as int)
            &&& says(s, line::text(" swap_us="), stats.swap_us as int)
            &&& says(s, line::text(" spi_us="), stats.spi_us as int)
            &&& says(s, line::text(" idle_us="), stats.idle_us as int)
            &&& says(s, line::text(" starve_us="), stats.starve_us as int)
            &&& says(s, line::text(" bands_written="), stats.bands_written as int)
            &&& says(s, line::text(" pixels_written="), stats.pixels_written as int)
            &&& says_hex(s, line::text(" panel_state=0x"), stats.panel_state as int, 1)
            &&& says(s, line::text(" console_rx="), stats.console_rx_bytes as int)
            &&& says(s, line::text(" console_tx_ok="), stats.console_tx_ok as int)
            &&& says(s, line::text(" console_tx_timeout="), stats.console_tx_timeout as int)
            &&& says(s, line::text(" touch="), stats.touch_reports as int)
            &&& says(s, line::text(" touch_dropped="), stats.touch_dropped as int)
            &&& says(s, line::text(" touch_errors="), stats.touch_errors as int)
        }),
        readout::has_at(l.full(), 0, line::text("gud ")),
        readout::has_at(l.full(), l.full().len() - 2, line::text("\r\n")),
{
    status_fields_0(stats, uptime_s, reset);
    status_fields_1(stats, uptime_s, reset);
    status_fields_2(stats, uptime_s, reset);
    status_fields_3(stats, uptime_s, reset);
    status_is_joined(stats, uptime_s, reset);
    status_ends(stats, uptime_s, reset);
    let p = status_pieces(stats, uptime_s, reset);
    readout::the_first_and_the_last_stand(p);
    reveal_strlit("\r\n");
    readout::text_is_its_characters("\r\n");
}

/// What the boot line says of the last panic.
pub open spec fn panic_part(shown: Option<&str>) -> Seq<u8> {
    match shown {
        Some(s) => line::text("last_panic=") + line::text(s),
        None => line::text("last_panic=none"),
    }
}

/// The boot line with that part.
spec fn boot_line_of(record: CrashRecord, stage: u32, panic: Seq<u8>) -> Seq<u8> {
    line::text("boot #") + line::decimal(record.boots as nat) + line::text(" previous_stage=")
        + line::decimal(stage as nat) + line::text(" last_stall=") + line::decimal(
        record.stall_tick as nat,
    ) + line::text("/") + line::decimal(record.stall_now as nat) + line::text(" ") + panic
        + line::text("\r\n")
}

/// The pieces of the boot line.
#[verifier::opaque]
spec fn boot_pieces(record: CrashRecord, stage: u32, panic: Seq<u8>) -> Seq<Seq<u8>> {
    Seq::<Seq<u8>>::empty()
        .push(line::text("boot #"))
        .push(line::decimal(record.boots as nat))
        .push(line::text(" previous_stage="))
        .push(line::decimal(stage as nat))
        .push(line::text(" last_stall="))
        .push(line::decimal(record.stall_tick as nat))
        .push(line::text("/"))
        .push(line::decimal(record.stall_now as nat))
        .push(line::text(" "))
        .push(panic)
        .push(line::text("\r\n"))
}

proof fn boot_is_joined(record: CrashRecord, stage: u32, panic: Seq<u8>)
    ensures
        joined(boot_pieces(record, stage, panic)) == boot_line_of(record, stage, panic),
{
    reveal(boot_pieces);
    let p0 = Seq::<Seq<u8>>::empty();
    let x0 = line::text("boot #");
    joined_with_one_more(p0, x0);
    let p1 = p0.push(x0);
    let x1 = line::decimal(record.boots as nat);
    joined_with_one_more(p1, x1);
    let p2 = p1.push(x1);
    let x2 = line::text(" previous_stage=");
    joined_with_one_more(p2, x2);
    let p3 = p2.push(x2);
    let x3 = line::decimal(stage as nat);
    joined_with_one_more(p3, x3);
    let p4 = p3.push(x3);
    let x4 = line::text(" last_stall=");
    joined_with_one_more(p4, x4);
    let p5 = p4.push(x4);
    let x5 = line::decimal(record.stall_tick as nat);
    joined_with_one_more(p5, x5);
    let p6 = p5.push(x5);
    let x6 = line::text("/");
    joined_with_one_more(p6, x6);
    let p7 = p6.push(x6);
    let x7 = line::decimal(record.stall_now as nat);
    joined_with_one_more(p7, x7);
    let p8 = p7.push(x7);
    let x8 = line::text(" ");
    joined_with_one_more(p8, x8);
    let p9 = p8.push(x8);
    let x9 = panic;
    joined_with_one_more(p9, x9);
    let p10 = p9.push(x9);
    let x10 = line::text("\r\n");
    joined_with_one_more(p10, x10);
    let p11 = p10.push(x10);
    assert(Seq::<u8>::empty() + x0 =~= x0);
}

proof fn boot_labels()
    ensures
        starts_without_a_digit(line::text("boot #")),
        starts_without_a_digit(line::text(" previous_stage=")),
        starts_without_a_digit(line::text(" last_stall=")),
        starts_without_a_digit(line::text("/")),
        starts_without_a_digit(line::text(" ")),
        starts_without_a_digit(line::text("\r\n")),
{
    reveal_strlit("boot #");
    readout::text_is_its_characters("boot #");
    reveal_strlit(" previous_stage=");
    readout::text_is_its_characters(" previous_stage=");
    reveal_strlit(" last_stall=");
    readout::text_is_its_characters(" last_stall=");
    reveal_strlit("/");
    readout::text_is_its_characters("/");
    reveal_strlit(" ");
    readout::text_is_its_characters(" ");
    reveal_strlit("\r\n");
    readout::text_is_its_characters("\r\n");
}

proof fn boot_fields_0(record: CrashRecord, stage: u32, panic: Seq<u8>)
    ensures
        ({
            let s = boot_line_of(record, stage, panic);
            &&& says(s, line::text("boot #"), record.boots as int)
            &&& says(s, line::text(" previous_stage="), stage as int)
            &&& says(s, line::text(" last_stall="), record.stall_tick as int)
            &&& says(s, line::text("/"), record.stall_now as int)
            &&& says_text(s, line::text(" "), panic)
        }),
{
    boot_is_joined(record, stage, panic);
    boot_labels();
    boot_pieces_0(record, stage, panic);
    let p = boot_pieces(record, stage, panic);
    readout::a_field_is_said(p, 0, record.boots as nat);
    readout::a_field_is_said(p, 2, stage as nat);
    readout::a_field_is_said(p, 4, record.stall_tick as nat);
    readout::a_field_is_said(p, 6, record.stall_now as nat);
    readout::a_text_is_said(p, 8);
}

proof fn boot_pieces_0(record: CrashRecord, stage: u32, panic: Seq<u8>)
    ensures
        ({
            let p = boot_pieces(record, stage, panic);
            &&& p.len() == 11
            &&& p[0] == line::text("boot #")
            &&& p[1] == line::decimal(record.boots as nat)
            &&& p[2] == line::text(" previous_stage=")
            &&& p[3] == line::decimal(stage as nat)
            &&& p[4] == line::text(" last_stall=")
            &&& p[5] == line::decimal(record.stall_tick as nat)
            &&& p[6] == line::text("/")
            &&& p[7] == line::decimal(record.stall_now as nat)
            &&& p[8] == line::text(" ")
            &&& p[9] == panic
            &&& p[10] == line::text("\r\n")
        }),
{
    reveal(boot_pieces);
}

proof fn boot_ends(record: CrashRecord, stage: u32, panic: Seq<u8>)
    ensures
        ({
            let p = boot_pieces(record, stage, panic);
            &&& p.len() == 11
            &&& p[0] == line::text("boot #")
            &&& p.last() == line::text("\r\n")
        }),
{
    reveal(boot_pieces);
}

/// The boot line tells the boots, how far the one before came, the last stall with
/// both of its times, and the last panic as it is shown, or that there was none.
pub proof fn boot_lines_tell_all(
    record: CrashRecord,
    stage: u32,
    shown: Option<&str>,
    panic: Seq<u8>,
    l: Line<512>,
)
    requires
        call_ensures(console::boot_line_with, (&record, stage, shown), l),
        panic == panic_part(shown),
    ensures
        ({
            let s = l.full();
            &&& says(s, line::text("boot #"), record.boots as int)
            &&& says(s, line::text(" previous_stage="), stage as int)
            &&& says(s, line::text(" last_stall="), record.stall_tick as int)
            &&& says(s, line::text("/"), record.stall_now as int)
            &&& says_text(s, line::text(" "), panic)
        }),
        readout::has_at(l.full(), 0, line::text("boot #")),
        readout::has_at(l.full(), l.full().len() - 2, line::text("\r\n")),
{
    boot_fields_0(record, stage, panic);
    boot_is_joined(record, stage, panic);
    boot_ends(record, stage, panic);
    let p = boot_pieces(record, stage, panic);
    readout::the_first_and_the_last_stand(p);
    reveal_strlit("\r\n");
    readout::text_is_its_characters("\r\n");
}

/// The boot line says that there was no panic if none is on record. Otherwise it
/// shows the text on record as `Debug` writes it, or a question mark if that is no
/// text.
pub proof fn boot_lines_show_the_last_panic(record: CrashRecord, stage: u32, l: Line<512>)
    requires
        call_ensures(console::boot_line, (&record, stage), l),
        record.panic_len <= 200,
    ensures
        record.panic_len == 0 ==> says_text(
            l.full(),
            line::text(" "),
            line::text("last_panic=none"),
        ),
        record.panic_len > 0 ==> {
            let b = record.panic@.take(record.panic_len as int);
            &&& vstd::utf8::valid_utf8(b) ==> says_text(
                l.full(),
                line::text("last_panic="),
                vstd::utf8::encode_utf8(console::debug_of(vstd::utf8::decode_utf8(b))),
            )
            &&& !vstd::utf8::valid_utf8(b) ==> says_text(
                l.full(),
                line::text("last_panic="),
                vstd::utf8::encode_utf8(console::debug_of("?"@)),
            )
        },
{
    let b = record.panic@.take(record.panic_len as int);
    if record.panic_len == 0 {
        boot_fields_0(record, stage, line::text("last_panic=none"));
    } else {
        let shown = console::shown_panic(b);
        let part = line::text("last_panic=") + shown;
        boot_fields_0(record, stage, part);
        readout::a_text_is_said_behind_its_start(
            l.full(),
            line::text(" "),
            line::text("last_panic="),
            shown,
        );
    }
}

/// The host asks for a reflash exactly if "gud-reflash" stands somewhere in what it
/// has written.
pub proof fn the_magic_word_is_found(received: &[u8], found: bool)
    requires
        call_ensures(console::asks_for_reflash, (received,), found),
    ensures
        found <==> exists|at: int|
            #[trigger] readout::has_at(received@, at, line::text("gud-reflash")),
{
    let word = line::text("gud-reflash");
    reveal_strlit("gud-reflash");
    readout::text_is_its_characters("gud-reflash");
    assert(word =~= console::REFLASH_MAGIC@);
    let r = received@;
    assert forall|at: int| #[trigger] console::magic_at(r, at) implies readout::has_at(
        r,
        at,
        word,
    ) by {
        assert forall|k: int| 0 <= k < 11 implies r[at + k] == #[trigger] word[k] by {
            assert(r[at + k] == console::REFLASH_MAGIC@[k]);
        }
        assert(r.subrange(at, at + 11) =~= word);
    }
    assert forall|at: int| #[trigger] readout::has_at(r, at, word) implies console::magic_at(
        r,
        at,
    ) by {
        assert forall|k: int| 0 <= k < 11 implies r[at + k] == #[trigger] console::REFLASH_MAGIC@[k] by {
            assert(r.subrange(at, at + 11)[k] == word[k]);
        }
    }
    if found {
        let at = choose|at: int| console::magic_at(r, at);
        assert(readout::has_at(r, at, word));
    }
}

/// The button is looked at every 50 ms. A level that is not low starts it over, and
/// the one that makes a second of low ones asks for the reboot.
pub proof fn the_button_counts(fresh: BootButton, b: &mut BootButton, low: bool, reboot: bool)
    requires
        call_ensures(BootButton::new, (), fresh),
        call_ensures(BootButton::sampled, (b, low), reboot),
    ensures
        fresh.held() == 0,
        !low ==> !reboot && final(b).held() == 0,
        low && old(b).held() < 950 ==> !reboot && final(b).held() == old(b).held() + 50,
        low && old(b).held() >= 950 ==> reboot && final(b).held() == old(b).held(),
{
}

/// The console counts seconds, tells whether the port is open, and prints only
/// while it is: the status line each second, and the boot line with the first and
/// then with every fifth.
pub proof fn the_console_ticks(
    fresh: Console,
    c: &mut Console,
    dtr: bool,
    stats: &mut Stats,
    p: Printing,
    up: u32,
)
    requires
        call_ensures(Console::new, (), fresh),
        call_ensures(Console::tick, (c, dtr, stats), p),
        call_ensures(Console::uptime_s, (&*final(c),), up),
    ensures
        fresh.uptime() == 0,
        up == (old(c).uptime() + 1) % 0x1_0000_0000,
        final(c).uptime() == up,
        final(stats).dtr == if dtr {
            1int
        } else {
            0
        },
        *final(stats) == (Stats { dtr: final(stats).dtr, ..*old(stats) }),
        p == Printing::Nothing <==> !dtr,
        p == Printing::BootAndStatus <==> dtr && up % 5 == 1,
        p == Printing::Status <==> dtr && up % 5 != 1,
{
}

/// Packets that went out and that did not are counted apart, and one that did not
/// ends the line.
pub proof fn packets_are_counted(sent: bool, stats: &mut Stats, go_on: bool)
    requires
        call_ensures(console::status_written, (sent, stats), go_on),
    ensures
        go_on == sent,
        *final(stats) == (Stats {
            console_tx_ok: final(stats).console_tx_ok,
            console_tx_timeout: final(stats).console_tx_timeout,
            ..*old(stats)
        }),
        sent ==> final(stats).console_tx_ok == (old(stats).console_tx_ok + 1) % 0x1_0000_0000
            && final(stats).console_tx_timeout == old(stats).console_tx_timeout,
        !sent ==> final(stats).console_tx_timeout == (old(stats).console_tx_timeout + 1)
            % 0x1_0000_0000 && final(stats).console_tx_ok == old(stats).console_tx_ok,
{
}

/// A record that was written before goes on with one boot more; any other is begun
/// anew, with this as its first boot. The stage is the one that was reached.
pub proof fn boots_are_counted(r: &mut CrashRecord, stage: u32)
    requires
        call_ensures(CrashRecord::boot, (r,), stage),
    ensures
        final(r).magic == 0x6775_6421,
        stage == final(r).stage,
        old(r).magic == 0x6775_6421 ==> {
            &&& final(r).boots == (old(r).boots + 1) % 0x1_0000_0000
            &&& *final(r) == (CrashRecord { boots: final(r).boots, ..*old(r) })
        },
        old(r).magic != 0x6775_6421 ==> {
            &&& final(r).boots == 1
            &&& stage == 0
            &&& final(r).panic_len == 0
            &&& final(r).stall_tick == 0
            &&& final(r).stall_now == 0
            &&& forall|i: int| 0 <= i < 200 ==> #[trigger] final(r).panic@[i] == 0
        },
{
}

/// An empty record holds nothing.
pub proof fn empty_records_hold_nothing(r: CrashRecord)
    requires
        call_ensures(CrashRecord::empty, (), r),
    ensures
        r.magic == 0 && r.boots == 0 && r.stage == 0 && r.panic_len == 0,
        r.stall_tick == 0 && r.stall_now == 0,
        forall|i: int| 0 <= i < 200 ==> #[trigger] r.panic@[i] == 0,
{
}

/// What was put on record of a panic is its text, up to 200 bytes, and it comes
/// back; an empty one is none.
pub proof fn panics_come_back(r: &mut CrashRecord, text: &[u8], back: Option<&[u8]>)
    requires
        call_ensures(CrashRecord::record_panic, (r, text), ()),
        call_ensures(CrashRecord::panic_text, (&*final(r),), back),
    ensures
        back is Some <==> text@.len() > 0,
        back is Some && text@.len() <= 200 ==> back->Some_0@ == text@,
        back is Some && text@.len() > 200 ==> back->Some_0@ == text@.take(200),
        *final(r) == (CrashRecord {
            panic_len: final(r).panic_len,
            panic: final(r).panic,
            ..*old(r)
        }),
{
    if text@.len() > 0 {
        let n = final(r).panic_len as int;
        assert(final(r).panic@.take(n) =~= text@.take(n));
        assert(text@.take(text@.len() as int) =~= text@);
    }
}

/// A stall is put on record with both of its times, and a stage as it is reached.
pub proof fn stalls_and_stages_are_kept(
    r: &mut CrashRecord,
    tick_s: u32,
    now_s: u32,
    q: &mut CrashRecord,
    n: u32,
)
    requires
        call_ensures(CrashRecord::record_stall, (r, tick_s, now_s), ()),
        call_ensures(CrashRecord::set_stage, (q, n), ()),
    ensures
        final(r).stall_tick == tick_s,
        final(r).stall_now == now_s,
        *final(r) == (CrashRecord { stall_tick: tick_s, stall_now: now_s, ..*old(r) }),
        final(q).stage == n,
        *final(q) == (CrashRecord { stage: n, ..*old(q) }),
{
}

/// Updates are counted with their bytes, raw and on the wire; refused requests with
/// the last of them.
pub proof fn updates_and_refusals_are_counted(
    s: &mut Stats,
    rect: crate::protocol::Rect,
    t: &mut Stats,
    request: u8,
)
    requires
        call_ensures(Stats::count_update, (s, &rect), ()),
        call_ensures(Stats::count_rejected, (t, request), ()),
    ensures
        final(s).updates == (old(s).updates + 1) % 0x1_0000_0000,
        final(s).bytes == (old(s).bytes + rect.length) % 0x1_0000_0000,
        final(s).wire_bytes == (old(s).wire_bytes + rect.payload) % 0x1_0000_0000,
        *final(s) == (Stats {
            updates: final(s).updates,
            bytes: final(s).bytes,
            wire_bytes: final(s).wire_bytes,
            ..*old(s)
        }),
        final(t).rejected == (old(t).rejected + 1) % 0x1_0000_0000,
        final(t).last_rejected_request == request,
        *final(t) == (Stats {
            rejected: final(t).rejected,
            last_rejected_request: request,
            ..*old(t)
        }),
{
}

/// The state of the panel tells in bit 0 whether the display is on, and from bit 8
/// on how bright it is. Commanding the one leaves the other. It starts on, at 100
/// percent, with nothing counted.
pub proof fn the_panel_state_tells_what_was_commanded(
    fresh: Stats,
    s: &mut Stats,
    on: bool,
    t: &mut Stats,
    percent: u8,
)
    requires
        call_ensures(Stats::new, (), fresh),
        call_ensures(Stats::set_enabled, (s, on), ()),
        call_ensures(Stats::set_brightness, (t, percent), ()),
    ensures
        fresh.panel_state % 256 == 1,
        fresh.panel_state / 256 == 100,
        fresh.updates == 0 && fresh.bytes == 0 && fresh.wire_bytes == 0 && fresh.rejected == 0,
        fresh.last_rejected_request == 0 && fresh.abandoned == 0 && fresh.rx_disabled == 0,
        fresh.rx_overflow == 0 && fresh.decode_errors == 0 && fresh.rx_us == 0,
        fresh.rx_packets == 0 && fresh.decode_us == 0 && fresh.swap_us == 0 && fresh.spi_us == 0,
        fresh.idle_us == 0 && fresh.starve_us == 0 && fresh.bands_written == 0,
        fresh.pixels_written == 0 && fresh.control_requests == 0 && fresh.dtr == 0,
        fresh.console_rx_bytes == 0 && fresh.console_tx_ok == 0 && fresh.console_tx_timeout == 0,
        fresh.touch_reports == 0 && fresh.touch_dropped == 0 && fresh.touch_errors == 0,
        final(s).panel_state % 2 == if on {
            1int
        } else {
            0
        },
        final(s).panel_state / 2 == old(s).panel_state / 2,
        *final(s) == (Stats { panel_state: final(s).panel_state, ..*old(s) }),
        final(t).panel_state / 256 == percent,
        final(t).panel_state % 256 == old(t).panel_state % 256,
        *final(t) == (Stats { panel_state: final(t).panel_state, ..*old(t) }),
{
}

/// A counter of microseconds goes on by what has passed, and wraps.
pub proof fn time_is_added_up(counter: u32, elapsed_us: u64, n: u32)
    requires
        call_ensures(stats::account, (counter, elapsed_us), n),
    ensures
        (n - counter - elapsed_us) % 0x1_0000_0000 == 0,
{
}

} // verus!
