use gudlet::chunks::next_piece;
use gudlet::esp32s3::console::{
    asks_for_reflash, boot_line, boot_line_with, status_line, status_written, BootButton, Console,
    Printing,
};
use gudlet::esp32s3::crash::CrashRecord;
use gudlet::esp32s3::gud::{
    carry_out, check_stall, Backlight, GudHandler, InReply, OutReply, PayloadReader, Reading,
    Received, Step, Window, BAND_BYTES,
};
use gudlet::esp32s3::panel::{
    count_band, decode, logo_band, message_strip, status_due, status_strip, status_strip_line,
    status_values, PanelWorker,
};
use gudlet::esp32s3::stats::{account, Stats};
use gudlet::esp32s3::touch::{written, TouchReader};
use gudlet::line::Line;
use gudlet::panel::splash::render_rows;
use gudlet::panel::strip::{draw_strip, STRIP_BYTES};
use gudlet::panel::{PanelOp, St7789, FRAME_BYTES, HEIGHT, WIDTH};
use gudlet::pipeline::CommandChannel;
use gudlet::protocol::{req, status, Command, Rect};
use gudlet::touch::{Point, TouchReport};
use gudlet::usb::{Recipient, Request, RequestType};

fn handler() -> (GudHandler, CommandChannel) {
    (GudHandler::new(3), CommandChannel::new())
}

fn vendor(request: u8) -> Request {
    Request {
        request_type: RequestType::Vendor,
        recipient: Recipient::Interface,
        request,
        value: 0,
        index: 3,
        length: 0,
    }
}

fn announcement(width: u32, length: u32) -> Vec<u8> {
    let mut data = Vec::new();
    for field in [0, 0, width, 1, length] {
        data.extend_from_slice(&field.to_le_bytes());
    }
    data.extend_from_slice(&[0; 5]);
    data
}

#[test]
fn requests_are_counted_and_queued() {
    let (mut handler, mut commands) = handler();
    let mut stats = Stats::new();
    let mut buf = [0u8; 32];
    assert_eq!(stats.panel_state, 1 | 100 << 8);
    assert_eq!(
        handler.control_in(&vendor(req::GET_DESCRIPTOR), &mut buf, &mut stats, 5, 0),
        InReply::Accepted(30)
    );
    assert_eq!(&buf[10..14], &(FRAME_BYTES as u32).to_le_bytes());
    assert_eq!(
        handler.control_out(&vendor(req::SET_BUFFER), &announcement(8, 16), &mut commands, &mut stats),
        OutReply::Accepted
    );
    assert!(matches!(commands.try_receive(), Some(Command::Update(r)) if r.length == 16));
    assert_eq!((stats.updates, stats.bytes, stats.wire_bytes), (1, 16, 16));
    assert_eq!(
        handler.control_out(&vendor(req::SET_BUFFER), &announcement(8, 17), &mut commands, &mut stats),
        OutReply::Rejected
    );
    assert_eq!((stats.rejected, stats.last_rejected_request), (1, req::SET_BUFFER));
    assert_eq!(
        handler.control_in(&vendor(req::GET_STATUS), &mut buf, &mut stats, 5, 0),
        InReply::Accepted(1)
    );
    assert_eq!(buf[0], status::INVALID_PARAMETER);
    let mut other = vendor(req::GET_STATUS);
    other.index = 0;
    assert_eq!(handler.control_in(&other, &mut buf, &mut stats, 5, 0), InReply::Leave);
    assert_eq!(handler.control_out(&other, &[], &mut commands, &mut stats), OutReply::Leave);
    assert_eq!(stats.control_requests, 6);
}

#[test]
fn a_full_queue_rejects_a_request() {
    let (mut handler, mut commands) = handler();
    let mut stats = Stats::new();
    for _ in 0..7 {
        assert!(commands.try_send(Command::Enable(true)).is_ok());
    }
    assert_eq!(
        handler.control_out(&vendor(req::SET_DISPLAY_ENABLE), &[0], &mut commands, &mut stats),
        OutReply::Rejected
    );
    assert_eq!(commands.free_capacity(), 1);
    handler.reset(&mut commands);
    assert_eq!(commands.free_capacity(), 8);
    assert_eq!(
        handler.control_out(&vendor(req::SET_DISPLAY_ENABLE), &[1], &mut commands, &mut stats),
        OutReply::Accepted
    );
    assert_eq!(commands.try_receive(), Some(Command::Enable(true)));
    assert_eq!(commands.try_receive(), Some(Command::Brightness(100)));
}

#[test]
fn a_stalled_executor_is_noticed() {
    assert!(!check_stall(20, 0));
    assert!(check_stall(21, 10));
    assert!(!check_stall(21, 11));
    assert!(!check_stall(21, 30));
    let (mut handler, _) = handler();
    let mut stats = Stats::new();
    let mut buf = [0u8; 32];
    assert_eq!(
        handler.control_in(&vendor(req::GET_STATUS), &mut buf, &mut stats, 40, 20),
        InReply::Stalled
    );
}

#[test]
fn payloads_are_read_in_whole_packets_and_a_tail() {
    let mut stats = Stats::new();
    let mut reader = PayloadReader::new(8192 + 130);
    assert_eq!(reader.window(), Window::Direct { from: 0, to: 8192 });
    assert_eq!(reader.received(Received::Bytes(8192), &mut stats), Reading::Continue);
    assert_eq!(reader.window(), Window::Direct { from: 8192, to: 8192 + 128 });
    assert_eq!(reader.received(Received::Bytes(100), &mut stats), Reading::Continue);
    assert_eq!(reader.window(), Window::Bounce);
    let mut band = Box::new([0u8; BAND_BYTES]);
    reader.place(&mut band, &[5; 30]);
    assert_eq!(&band[8291..8294], &[0, 5, 5]);
    assert_eq!(reader.filled(), 8292);
    assert_eq!(reader.received(Received::Bytes(30), &mut stats), Reading::Complete);
    assert!(reader.complete());
    assert_eq!(stats.rx_packets, 3);
}

#[test]
fn broken_payloads_are_counted() {
    let mut stats = Stats::new();
    let mut reader = PayloadReader::new(4);
    assert_eq!(reader.received(Received::TimedOut, &mut stats), Reading::Stall);
    assert_eq!(reader.received(Received::Disabled, &mut stats), Reading::Gone);
    assert_eq!(reader.received(Received::Overflow, &mut stats), Reading::Gone);
    assert_eq!(reader.received(Received::Bytes(5), &mut stats), Reading::Stall);
    assert_eq!(reader.filled(), 0);
    assert_eq!(
        (stats.abandoned, stats.rx_disabled, stats.rx_overflow, stats.rx_packets),
        (1, 1, 2, 1)
    );
}

struct Lamp(Vec<u8>);
impl Backlight for Lamp {
    fn set_brightness(&mut self, percent: u8) {
        self.0.push(percent);
    }
}

#[test]
fn commands_are_carried_out() {
    let mut stats = Stats::new();
    let mut lamp = Lamp(Vec::new());
    let rect =
        Rect { x: 0, y: 0, width: 1, height: 1, length: 2, payload: 2, compressed: false };
    assert_eq!(carry_out(Command::Update(rect), &mut stats), Step::Receive(rect));
    assert_eq!(stats, Stats::new());
    let Step::Backlight(percent) = carry_out(Command::Brightness(30), &mut stats) else {
        panic!("the backlight is left alone")
    };
    lamp.set_brightness(percent);
    assert_eq!(lamp.0, [30]);
    assert_eq!(stats.panel_state, 1 | 30 << 8);
    assert_eq!(carry_out(Command::Enable(false), &mut stats), Step::Enable(false));
    assert_eq!(stats.panel_state, 30 << 8);
    assert_eq!(carry_out(Command::Enable(true), &mut stats), Step::Enable(true));
    assert_eq!(stats.panel_state, 1 | 30 << 8);
    assert_eq!(account(u32::MAX, 3), 2);
    assert_eq!(account(1, 0x1_0000_0001), 2);
}

#[test]
fn bands_are_decoded_and_counted() {
    let mut stats = Stats::new();
    let mut rect =
        Rect { x: 0, y: 0, width: 2, height: 1, length: 4, payload: 4, compressed: false };
    let mut payload = [1, 2, 3, 4];
    let mut decoded = [0; 4];
    assert_eq!(decode(&rect, &mut payload, &mut decoded, &mut stats).unwrap(), [1, 2, 3, 4]);
    rect.compressed = true;
    assert!(decode(&rect, &mut payload, &mut decoded, &mut stats).is_err());
    assert_eq!(stats.decode_errors, 1);
    count_band(&mut stats, 4);
    assert_eq!((stats.bands_written, stats.pixels_written), (1, 4));
}

#[test]
fn rectangles_are_opened_and_closed() {
    let mut worker = PanelWorker::new();
    assert!(worker.tidy(true).is_empty());
    let script = worker.write_band(0, 0, WIDTH, HEIGHT, 40_000);
    assert_eq!(&script[..21], &St7789::new().begin_rect(0, 0, WIDTH, HEIGHT)[..]);
    assert_eq!(
        &script[21..],
        &[
            PanelOp::Send { from: 0, to: 32736 },
            PanelOp::Send { from: 32736, to: 40000 },
        ]
    );
    assert!(worker.tidy(false).is_empty());
    assert_eq!(worker.tidy(true), [PanelOp::Settle, PanelOp::Cs(true)]);
    assert!(worker.close_rect().is_empty());
    worker.write_band(0, 0, 1, 1, 2);
    assert_eq!(worker.enable(true).len(), 7);
    assert_eq!(worker.enable(true), St7789::new().set_display_on(true));
}

#[test]
fn the_logo_is_shown_in_bands() {
    let mut full = vec![0; FRAME_BYTES];
    render_rows(0, &mut full);
    let row = 2 * WIDTH as usize;
    let mut scratch = vec![0; 100 * row + 7];
    let (mut y, mut shown) = (0, Vec::new());
    let mut bands = Vec::new();
    while y < HEIGHT {
        let rows = logo_band(y, &mut scratch);
        bands.push(rows);
        shown.extend_from_slice(&scratch[..rows as usize * row]);
        y += rows;
    }
    assert_eq!(bands, [100, 100, 80]);
    assert_eq!(shown, full);
}

#[test]
fn strips_show_messages_and_the_status() {
    let (mut a, mut b) = (vec![0; STRIP_BYTES + 1], vec![0; STRIP_BYTES + 1]);
    message_strip(b"panic\nat 1", &mut a);
    draw_strip(b"panic at 1", &mut b);
    assert_eq!(a, b);
    let mut stats = Stats::new();
    stats.updates = 0xABC;
    stats.control_requests = 7;
    let values = status_values(&stats, 16, 15);
    let text = b"T:000010 K:00000F R:000007 \nD:000000 M:000000 W:000000 \n\
                 E:000000 U:000ABC B:000000 ";
    assert_eq!(status_strip_line(&values).as_bytes(), text);
    status_strip(&values, &mut a);
    draw_strip(text, &mut b);
    assert_eq!(a, b);
    assert!(status_due(1000) && !status_due(999));
}

#[test]
fn touches_are_reported() {
    let mut stats = Stats::new();
    let mut reader = TouchReader::new();
    assert_eq!(reader.wait_us(), 250_000);
    let down = TouchReport { tip: true, x: 9, y: 279, scan_time: 1 };
    assert_eq!(
        reader.sampled(Ok(Some(Point { x: 9, y: 500 })), 100, &mut stats),
        Some(down)
    );
    assert_eq!(reader.wait_us(), 10_000);
    assert_eq!(
        reader.sampled(Err(()), 200, &mut stats),
        Some(TouchReport { tip: false, scan_time: 2, ..down })
    );
    written(true, &mut stats);
    written(false, &mut stats);
    assert_eq!((stats.touch_reports, stats.touch_dropped, stats.touch_errors), (1, 1, 1));
}

#[test]
fn the_reflash_string_is_found_anywhere() {
    assert!(asks_for_reflash(b"gud-reflash"));
    assert!(asks_for_reflash(b"..gud-gud-reflash\r\n"));
    assert!(!asks_for_reflash(b"gud-reflas"));
    assert!(!asks_for_reflash(b"gud reflash"));
    assert!(!asks_for_reflash(b""));
}

#[test]
fn the_button_has_to_be_held_for_a_second() {
    let mut button = BootButton::new();
    for _ in 0..19 {
        assert!(!button.sampled(true));
    }
    assert!(!button.sampled(false));
    for _ in 0..19 {
        assert!(!button.sampled(true));
    }
    assert!(button.sampled(true));
}

#[test]
fn the_console_prints_while_the_port_is_open() {
    let mut stats = Stats::new();
    let mut console = Console::new();
    assert_eq!(console.tick(true, &mut stats), Printing::BootAndStatus);
    assert_eq!(stats.dtr, 1);
    assert_eq!(console.tick(false, &mut stats), Printing::Nothing);
    assert_eq!(stats.dtr, 0);
    for _ in 3..6 {
        assert_eq!(console.tick(true, &mut stats), Printing::Status);
    }
    assert_eq!(console.tick(true, &mut stats), Printing::BootAndStatus);
    assert_eq!(console.uptime_s(), 6);
    assert!(status_written(true, &mut stats));
    assert!(!status_written(false, &mut stats));
    assert_eq!((stats.console_tx_ok, stats.console_tx_timeout), (1, 1));
}

#[test]
fn crashes_are_kept_over_a_reset() {
    let mut record = CrashRecord::empty();
    record.stage = 9;
    assert_eq!(record.boot(), 0);
    assert_eq!(record.boots, 1);
    record.set_stage(4);
    record.record_stall(11, 25);
    record.record_panic(b"at \"x\"");
    assert_eq!(record.boot(), 4);
    assert_eq!(record.panic_text(), Some(&b"at \"x\""[..]));
    assert_eq!(
        boot_line(&record, 4).as_bytes(),
        b"boot #2 previous_stage=4 last_stall=11/25 last_panic=\"at \\\"x\\\"\"\r\n"
    );
    record.record_panic(&[0xff; 300]);
    assert_eq!(record.panic_len, 200);
    assert_eq!(
        boot_line(&record, 4).as_bytes(),
        b"boot #2 previous_stage=4 last_stall=11/25 last_panic=\"?\"\r\n"
    );
    record.panic_len = 0;
    assert_eq!(record.panic_text(), None);
    assert_eq!(
        boot_line(&record, 0).as_bytes(),
        b"boot #2 previous_stage=0 last_stall=11/25 last_panic=none\r\n"
    );
    assert_eq!(
        boot_line_with(&record, 0, Some("p")).as_bytes(),
        b"boot #2 previous_stage=0 last_stall=11/25 last_panic=p\r\n"
    );
}

#[test]
fn the_status_line_tells_everything_and_goes_out_in_packets() {
    let mut stats = Stats::new();
    stats.last_rejected_request = 0xa;
    stats.rx_packets = 42;
    let line = status_line(&stats, 3, "Some(CoreSw)");
    let text = std::str::from_utf8(line.as_bytes()).unwrap();
    assert_eq!(
        text,
        "gud 240x280 up=3s reset=Some(CoreSw) updates=0 bytes=0 wire=0 rejected=0 \
         last_rejected=0x0a abandoned=0 rx_disabled=0 rx_overflow=0 decode_errors=0 rx_us=0 \
         rx_pkts=42 decode_us=0 swap_us=0 spi_us=0 idle_us=0 starve_us=0 bands_written=0 \
         pixels_written=0 panel_state=0x6401 console_rx=0 console_tx_ok=0 console_tx_timeout=0 \
         touch=0 touch_dropped=0 touch_errors=0\r\n"
    );
    let mut at = 0;
    for packet in text.as_bytes().chunks(63) {
        let end = next_piece(text.len(), at, 63);
        assert_eq!(&text.as_bytes()[at..end], packet);
        at = end;
    }
    assert_eq!(at, text.len());
}

#[test]
fn a_line_keeps_what_fits() {
    let mut line = Line::<8>::new();
    line.write_str("abcd");
    line.write_decimal(1234567);
    line.write_hex(0xbeef);
    assert_eq!(line.as_bytes(), b"abcd1234");
    let mut line = Line::<16>::new();
    line.write_hex_pair(5);
    line.write_hex(0xbeef);
    line.field("=", 0);
    assert_eq!(line.as_bytes(), b"05beef=0");
}

#[test]
fn reads_end_up_one_behind_the_other() {
    let payload: Vec<u8> = (0..20_011u32).map(|i| (i % 251) as u8).collect();
    let mut band = Box::new([0xEEu8; BAND_BYTES]);
    let mut stats = Stats::new();
    let mut reader = PayloadReader::new(payload.len());
    let mut reads = 0;
    let mut sizes = [8192, 64, 0, 1000, 63, 17].iter().cycle();
    let mut next = Reading::Continue;
    while next == Reading::Continue {
        let at = reader.filled();
        let size = *sizes.next().unwrap();
        let n = match reader.window() {
            Window::Direct { from, to } => {
                let n = size.min(to - from);
                band[from..from + n].copy_from_slice(&payload[at..at + n]);
                n
            }
            Window::Bounce => {
                let n = size.min(payload.len() - at);
                reader.place(&mut band, &payload[at..at + n]);
                n
            }
        };
        next = reader.received(Received::Bytes(n), &mut stats);
        reads += 1;
    }
    assert_eq!(next, Reading::Complete);
    assert_eq!(&band[..payload.len()], &payload[..]);
    assert!(band[payload.len()..].iter().all(|b| *b == 0xEE));
    assert_eq!(stats.rx_packets, reads);
}
