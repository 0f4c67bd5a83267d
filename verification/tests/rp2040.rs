use gudlet::panel::{PanelOp, St7789};
use gudlet::protocol::{req, status, Rect};
use gudlet::rp2040::console::{status_line, wants_bootsel, StatusPort};
use gudlet::rp2040::gud::{
    Action, BulkError, FreeChannel, GudDevice, JobChannel, PanelJob, Reading, Stats, Turn,
    BAND_BYTES, BATCH, NUM_BANDS,
};
use gudlet::rp2040::panel::{PanelStats, PanelWorker, Transfer};
use gudlet::rp2040::touch::{self, Pushed, Touch};
use gudlet::rp2040::usb::passes_stall;
use gudlet::touch::{Point, TouchReport};
use gudlet::usb::{Recipient, Request, RequestType};
use std::collections::VecDeque;

type Packets = VecDeque<Vec<u8>>;

struct Board {
    gud: GudDevice,
    jobs: JobChannel,
    free: FreeChannel,
    packets: Packets,
    backlight: Vec<u8>,
    wakes: u32,
}

fn setup() -> Board {
    let mut free = FreeChannel::new();
    for _ in 0..NUM_BANDS {
        assert!(free.try_send(Box::leak(Box::new([0; BAND_BYTES]))).is_ok());
    }
    let gud = GudDevice::new(0);
    let jobs = JobChannel::new();
    Board { gud, jobs, free, packets: Packets::new(), backlight: Vec::new(), wakes: 0 }
}

impl Board {
    /// One batch, with the endpoint and the backlight played by the board.
    fn drain(&mut self) -> Result<(), &'static str> {
        let mut turns = BATCH;
        loop {
            let (action, wake) = self.gud.drain_bulk(&mut turns, &mut self.jobs, &mut self.free);
            self.wakes += wake as u32;
            match action {
                Action::Done => return Ok(()),
                Action::Read => {
                    let packet = self.packets.pop_front();
                    let result = match &packet {
                        Some(packet) if packet.len() <= 64 => Ok(&packet[..]),
                        Some(_) => Err(BulkError::Failed),
                        None => Err(BulkError::WouldBlock),
                    };
                    match self.gud.bulk_read(result) {
                        Reading::Continue => {}
                        Reading::Wait => return Ok(()),
                        Reading::Stall => return Err("payload stalled"),
                    }
                }
                Action::Backlight(percent) => {
                    self.backlight.push(percent);
                    self.gud.backlight_set(percent, true);
                }
            }
        }
    }

    fn service(&mut self, now_us: u64) -> Result<(), &'static str> {
        self.gud.service(now_us);
        self.drain()?;
        if self.gud.stalled() {
            return Err("payload stalled");
        }
        Ok(())
    }

    fn out(&mut self, request: u8, data: &[u8]) -> Option<Result<(), u8>> {
        self.gud.control_out(&vendor(request), data)
    }

    fn update(&mut self, y: u16, bytes: u32) {
        let mut data = Vec::new();
        for field in [0, y as u32, bytes / 2, 1, bytes] {
            data.extend_from_slice(&field.to_le_bytes());
        }
        data.extend_from_slice(&[0; 5]);
        assert_eq!(self.out(req::SET_BUFFER, &data), Some(Ok(())));
    }

    fn band(&mut self, y: u16, expected: &[u8]) {
        let Some(PanelJob::Band { payload, rect }) = self.jobs.try_receive() else {
            panic!("missing band")
        };
        assert_eq!(rect.y, y);
        assert_eq!(&payload[..expected.len()], expected);
        assert!(self.free.try_send(payload).is_ok());
    }
}

fn vendor(request: u8) -> Request {
    Request {
        request_type: RequestType::Vendor,
        recipient: Recipient::Interface,
        request,
        value: 0,
        index: 0,
        length: 0,
    }
}

impl Board {
    fn free_bands(&mut self) -> usize {
        let mut bands = Vec::new();
        while let Some(band) = self.free.try_receive() {
            bands.push(band);
        }
        let n = bands.len();
        for band in bands {
            assert!(self.free.try_send(band).is_ok());
        }
        n
    }

    fn queued_jobs(&mut self) -> usize {
        let mut jobs = Vec::new();
        while let Some(job) = self.jobs.try_receive() {
            jobs.push(job);
        }
        let n = jobs.len();
        for job in jobs {
            assert!(self.jobs.try_send(job).is_ok());
        }
        n
    }

    fn turn(&mut self) -> (Turn, bool) {
        self.gud.turn(&mut self.jobs, &mut self.free)
    }
}

#[test]
fn next_command_preserves_previous_unread_tail() {
    let mut board = setup();
    board.update(0, 66);
    board.packets.push_back(vec![7; 64]);
    board.service(10).unwrap();
    // EP0 queued the next SET_BUFFER before class polling read the last packet.
    board.update(1, 4);
    board.packets.extend([vec![8, 9], vec![1], vec![2, 3, 4]]);
    board.service(20).unwrap();
    let mut first = vec![7; 64];
    first.extend([8, 9]);
    board.band(0, &first);
    board.band(1, &[1, 2, 3, 4]);
    assert_eq!(board.gud.stats().updates, 2);
    assert_eq!(board.gud.stats().bytes, 70);
    assert_eq!(board.free_bands(), NUM_BANDS);
}

#[test]
fn exhausted_buffers_backpressure_without_consuming_next_packet() {
    let mut board = setup();
    for y in 0..4 {
        board.update(y, 2);
        board.packets.push_back(vec![y as u8; 2]);
    }
    board.service(1).unwrap();
    assert_eq!(board.free_bands(), 0);
    assert_eq!(board.queued_jobs(), 3);
    assert_eq!(board.packets.len(), 1);
    // Waiting for a free buffer is not a stalled host payload, regardless of duration.
    board.service(3_000_000).unwrap();
    board.band(0, &[0, 0]);
    board.service(3_000_001).unwrap();
    for y in 1..4 {
        board.band(y, &[y as u8; 2]);
    }
    assert_eq!(board.free_bands(), NUM_BANDS);
}

#[test]
fn reset_returns_partial_buffer_and_keeps_complete_jobs_owned() {
    let mut board = setup();
    board.update(0, 2);
    board.update(1, 4);
    board.packets.extend([vec![1, 2], vec![3]]);
    board.service(1).unwrap();
    assert_eq!(board.free_bands(), 1);
    assert!(board.gud.reset(&mut board.free));
    assert_eq!(board.free_bands(), 2);
    assert!(!board.gud.is_receiving());
    assert_eq!(board.gud.queued_commands(), 0);
    board.band(0, &[1, 2]);
    board.update(2, 2);
    board.packets.push_back(vec![9, 8]);
    board.service(2).unwrap();
    board.band(2, &[9, 8]);
    assert_eq!(board.free_bands(), NUM_BANDS);
}

#[test]
fn panel_queue_backpressure_preserves_pending_job() {
    let mut board = setup();
    for _ in 0..4 {
        assert!(board.jobs.try_send(PanelJob::Enable(true)).is_ok());
    }
    board.update(0, 2);
    board.packets.push_back(vec![8, 9]);
    board.service(1).unwrap();
    assert!(board.gud.has_pending_job());
    for _ in 0..4 {
        assert!(matches!(board.jobs.try_receive(), Some(PanelJob::Enable(true))));
    }
    board.service(2).unwrap();
    board.band(0, &[8, 9]);
}

#[test]
fn a_payload_overrun_stalls_instead_of_truncating() {
    let mut board = setup();
    board.update(0, 2);
    board.packets.push_back(vec![1, 2, 3]);
    assert_eq!(board.service(1), Err("payload stalled"));
}

#[test]
fn a_partial_payload_stalls_after_two_seconds() {
    let mut board = setup();
    board.update(0, 4);
    board.packets.push_back(vec![1]);
    assert_eq!(board.service(1), Ok(()));
    assert_eq!(board.service(2_000_000), Ok(()));
    assert_eq!(board.service(2_000_001), Err("payload stalled"));
}

#[test]
fn an_overlong_packet_stalls() {
    let mut board = setup();
    board.update(0, 400);
    board.packets.push_back(vec![0; 65]);
    assert_eq!(board.service(1), Err("payload stalled"));
}

#[test]
fn an_empty_packet_is_no_progress() {
    let mut board = setup();
    board.update(0, 4);
    board.packets.push_back(vec![1]);
    board.service(5).unwrap();
    board.packets.push_back(vec![]);
    board.service(1_000_000).unwrap();
    assert_eq!(board.service(2_000_005), Err("payload stalled"));
}

#[test]
fn enable_and_backlight_keep_their_order() {
    let mut board = setup();
    assert_eq!(board.out(req::SET_DISPLAY_ENABLE, &[0]), Some(Ok(())));
    assert_eq!(board.out(req::SET_DISPLAY_ENABLE, &[1]), Some(Ok(())));
    assert_eq!(board.gud.queued_commands(), 4);
    board.service(1).unwrap();
    assert_eq!(board.backlight, [0, 100]);
    assert!(matches!(board.jobs.try_receive(), Some(PanelJob::Enable(false))));
    assert!(matches!(board.jobs.try_receive(), Some(PanelJob::Enable(true))));
    assert_eq!(board.gud.stats().brightness, 100);
    assert!(board.wakes >= 1);
}

#[test]
fn a_turn_hands_over_then_carries_out() {
    let mut board = setup();
    assert_eq!(board.turn(), (Turn::Act(Action::Done), false));
    board.out(req::SET_DISPLAY_ENABLE, &[0]);
    assert_eq!(board.turn(), (Turn::Again, false));
    assert_eq!(board.turn(), (Turn::Act(Action::Backlight(0)), true));
    board.gud.backlight_set(0, false);
    assert_eq!(board.gud.stats().brightness, 100);
}

#[test]
fn commands_are_queued_all_or_none() {
    let mut board = setup();
    // Each switch takes two of the eight slots.
    for on in [0, 1, 0, 1] {
        assert_eq!(board.out(req::SET_DISPLAY_ENABLE, &[on]), Some(Ok(())));
    }
    assert_eq!(board.gud.queued_commands(), 8);
    assert_eq!(board.out(req::SET_DISPLAY_ENABLE, &[0]), Some(Err(status::PROTOCOL_ERROR)));
    assert_eq!(board.gud.queued_commands(), 8);
    assert_eq!(board.gud.stats().rejected, 1);
    assert_eq!(board.gud.stats().last_rejected_request, req::SET_DISPLAY_ENABLE);
    // A request without commands needs no room.
    assert_eq!(board.out(req::SET_CONTROLLER_ENABLE, &[1]), Some(Ok(())));
}

#[test]
fn requests_to_others_are_left_alone() {
    let mut board = setup();
    let mut buf = [0u8; 32];
    let mut other = vendor(req::GET_STATUS);
    other.index = 1;
    assert_eq!(board.gud.control_in(&other, &mut buf), None);
    assert_eq!(board.gud.control_out(&other, &[]), None);
    other.recipient = Recipient::Device;
    assert_eq!(board.gud.control_in(&other, &mut buf), Some(Ok(1)));
    other.request_type = RequestType::Class;
    assert_eq!(board.gud.control_in(&other, &mut buf), None);
    other.request_type = RequestType::Vendor;
    other.recipient = Recipient::Endpoint;
    assert_eq!(board.gud.control_in(&other, &mut buf), None);
    assert_eq!(
        board.gud.control_in(&vendor(0x7f), &mut buf),
        Some(Err(status::REQUEST_NOT_SUPPORTED))
    );
    assert_eq!(board.gud.stats().rejected, 1);
}

fn rect(length: u32) -> Rect {
    Rect { x: 0, y: 0, width: 2, height: 1, length, payload: length, compressed: false }
}

#[test]
fn the_panel_worker_keeps_its_books() {
    let mut worker = PanelWorker::new();
    let mut payload = [1, 2, 3, 4];
    let mut decoded = [0; 8];
    assert_eq!(worker.decode(&rect(4), &mut payload, &mut decoded).unwrap(), [2, 1, 4, 3]);
    assert_eq!(worker.idle(Transfer::Absent), (vec![], true));
    let script = worker.write_band(&rect(4));
    assert_eq!(&script[..21], &St7789::new().begin_rect(0, 0, 2, 1)[..]);
    assert_eq!(&script[21..], &[PanelOp::Send { from: 0, to: 4 }]);
    assert_eq!(worker.stats().completed, 0);
    assert_eq!(worker.idle(Transfer::Running), (vec![], false));
    let closing = vec![PanelOp::Settle, PanelOp::MustFlush, PanelOp::Cs(true)];
    assert_eq!(worker.idle(Transfer::Done), (closing, true));
    assert_eq!(worker.stats().completed, 1);
    assert_eq!(worker.idle(Transfer::Done), (vec![], false));
    assert_eq!(worker.enable(false), St7789::new().set_display_on(false));
    assert!(worker.decode(&rect(3), &mut payload, &mut decoded).is_err());
    assert_eq!(
        worker.stats(),
        PanelStats { enabled: 0, completed: 1, pixel_bytes: 4, decode_errors: 1 }
    );
}

#[test]
fn a_band_closes_the_one_before_and_goes_out_in_chunks() {
    let mut worker = PanelWorker::new();
    worker.write_band(&rect(2));
    let script = worker.write_band(&rect(20_000));
    assert_eq!(&script[..3], &[PanelOp::Settle, PanelOp::MustFlush, PanelOp::Cs(true)]);
    assert_eq!(
        &script[24..],
        &[
            PanelOp::Send { from: 0, to: 8192 },
            PanelOp::Send { from: 8192, to: 16384 },
            PanelOp::Send { from: 16384, to: 20000 },
        ]
    );
    let script = worker.enable(true);
    assert_eq!(script[0], PanelOp::Settle);
    assert_eq!(script[5], PanelOp::Write(vec![0x29]));
    assert_eq!((worker.stats().completed, worker.stats().pixel_bytes), (2, 20_002));
}

#[test]
fn touches_are_reported_and_held_until_they_are_taken() {
    let mut touch = Touch::new();
    assert_eq!(touch.service(1000), touch::Action::CheckInt);
    assert_eq!(touch.int_level(false), touch::Action::Done);
    assert_eq!(touch.service(2000), touch::Action::CheckInt);
    assert_eq!(touch.int_level(true), touch::Action::Read);
    let down = TouchReport { tip: true, x: 239, y: 7, scan_time: 20 };
    assert_eq!(
        touch.sampled(Ok(Some(Point { x: 300, y: 7 }))),
        touch::Action::Push(down)
    );
    assert_eq!(touch.pushed(Pushed::WouldBlock), touch::Action::Done);
    // The held report goes first; until it is taken nothing is read.
    assert_eq!(touch.service(3000), touch::Action::Push(down));
    assert_eq!(touch.pushed(Pushed::WouldBlock), touch::Action::Done);
    assert_eq!(touch.service(4000), touch::Action::Push(down));
    assert_eq!(touch.pushed(Pushed::Sent), touch::Action::CheckInt);
    assert_eq!(touch.int_level(false), touch::Action::Done);
    // While a finger is down the controller is read every 10 ms.
    assert_eq!(touch.service(12_000), touch::Action::CheckInt);
    assert_eq!(touch.int_level(false), touch::Action::Read);
    let up = TouchReport { tip: false, x: 239, y: 7, scan_time: 120 };
    assert_eq!(touch.sampled(Err(())), touch::Action::Push(up));
    assert_eq!(touch.pushed(Pushed::Failed), touch::Action::Done);
    assert_eq!(touch.stats(), touch::Stats { reports: 1, errors: 1 });
    assert_eq!(touch.service(262_000), touch::Action::CheckInt);
    assert_eq!(touch.int_level(false), touch::Action::Read);
    assert_eq!(touch.sampled(Ok(None)), touch::Action::Done);
}

#[test]
fn only_needless_unstalls_are_held_back() {
    assert!(!passes_stall(0, false, false));
    assert!(passes_stall(0, false, true));
    assert!(passes_stall(0, true, false));
    assert!(passes_stall(1, false, false));
    assert!(wants_bootsel(1200, false));
    assert!(!wants_bootsel(1200, true));
    assert!(!wants_bootsel(9600, false));
}

#[test]
fn the_status_line_tells_everything() {
    let stats = Stats {
        updates: 12,
        bytes: 4_294_967_295,
        wire_bytes: 300,
        rejected: 1,
        last_rejected_request: 0x0f,
        brightness: 40,
    };
    let panel = PanelStats { enabled: 1, completed: 11, pixel_bytes: 22, decode_errors: 0 };
    let line = status_line(&stats, &panel, 86_400);
    assert_eq!(
        std::str::from_utf8(line.as_bytes()).unwrap(),
        "gud 240x280 rx=12 bytes=4294967295 wire=300 done=11 written=22 decode_errors=0 \
         rejected=1 last=0x0f bl=40 on=1 spi=31250000 up=86400\r\n"
    );
}

#[test]
fn a_status_line_goes_out_in_parts() {
    let panel = PanelStats { enabled: 1, completed: 0, pixel_bytes: 0, decode_errors: 0 };
    let line = || status_line(&Stats::default(), &panel, 1);
    let whole = line().as_bytes().to_vec();
    let mut port = StatusPort::new(0);
    assert_eq!(port.tail(true), None);
    assert!(!port.due(999_999, true));
    assert!(!port.due(1_000_000, false));
    assert!(port.due(1_000_000, true));
    port.begin(1_000_000, line());
    assert_eq!(port.tail(true), Some(&whole[..]));
    assert!(!port.due(3_000_000, true));
    port.wrote(10);
    assert_eq!(port.tail(true), Some(&whole[10..]));
    port.wrote(whole.len() - 10);
    assert_eq!(port.tail(true), None);
    port.begin(2_000_000, line());
    assert_eq!(port.tail(false), None);
    assert_eq!(port.tail(true), None);
}

#[test]
fn queues_are_bounded_and_in_order() {
    let mut jobs = JobChannel::new();
    for on in [true, false, true, true] {
        assert!(jobs.try_send(PanelJob::Enable(on)).is_ok());
    }
    assert!(matches!(jobs.try_send(PanelJob::Enable(false)), Err(PanelJob::Enable(false))));
    assert!(matches!(jobs.try_receive(), Some(PanelJob::Enable(true))));
    assert!(matches!(jobs.try_receive(), Some(PanelJob::Enable(false))));
    let mut free = FreeChannel::new();
    assert!(free.try_receive().is_none());
    for i in 0..3 {
        assert!(free.try_send(Box::leak(Box::new([i; BAND_BYTES]))).is_ok());
    }
    let refused = free.try_send(Box::leak(Box::new([9; BAND_BYTES])));
    assert_eq!(refused.unwrap_err()[0], 9);
    assert_eq!(free.try_receive().unwrap()[0], 0);
    assert_eq!(free.try_receive().unwrap()[0], 1);
}

#[test]
fn a_reset_without_room_says_so() {
    let mut board = setup();
    board.update(0, 4);
    board.packets.push_back(vec![1]);
    board.service(1).unwrap();
    assert!(board.free.try_send(Box::leak(Box::new([0; BAND_BYTES]))).is_ok());
    assert!(!board.gud.reset(&mut board.free));
    assert!(board.gud.reset(&mut board.free));
}

#[test]
fn an_update_may_come_over_many_passes() {
    let mut board = setup();
    board.update(3, 6);
    for (i, packet) in [vec![1, 2, 3], vec![], vec![4, 5], vec![6]].into_iter().enumerate() {
        assert!(board.jobs.try_receive().is_none());
        board.packets.push_back(packet);
        board.service(1_000_000 * i as u64).unwrap();
    }
    board.band(3, &[1, 2, 3, 4, 5, 6]);
}
