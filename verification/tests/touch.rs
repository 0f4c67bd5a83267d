use gudlet::touch::cst816::{chip, irq, parse_point, reg, Answer, BusStep, Error, Init};
use gudlet::touch::hid::{
    feature_report, pack, report_descriptor, serve_report, unpack, ReportKind,
    MAX_CONTACTS_REPORT_ID, REPORT_DESCRIPTOR_LEN, TOUCH_REPORT_ID, TOUCH_REPORT_LEN,
};
use gudlet::touch::poll::{on_glass, poll_interval_us, scan_time};
use gudlet::touch::usbd::{Reply, TouchHidClass, Verdict};
use gudlet::touch::{
    Cst816, Panel, Point, ReportCell, TouchHidState, TouchReport, TouchTracker,
};
use gudlet::usb::{Recipient, Request, RequestType};
use std::collections::BTreeMap;

const PANEL: Panel = Panel { width: 240, height: 280, width_tenth_mm: 280, height_tenth_mm: 326 };

/// Minimal HID item walker: (tag byte, data) pairs, enough to check the
/// descriptor is well formed and to find the fields the host relies on.
fn items(desc: &[u8]) -> Vec<(u8, Vec<u8>)> {
    let mut out = Vec::new();
    let mut i = 0;
    while i < desc.len() {
        let prefix = desc[i];
        let size = match prefix & 0x03 {
            3 => 4,
            n => n as usize,
        };
        out.push((prefix & 0xFC, desc[i + 1..i + 1 + size].to_vec()));
        i += 1 + size;
    }
    out
}

#[test]
fn descriptor_is_well_formed_and_balanced() {
    let desc = report_descriptor(PANEL);
    let items = items(&desc);
    let opens = items.iter().filter(|(tag, _)| *tag == 0xA0).count();
    let closes = items.iter().filter(|(tag, _)| *tag == 0xC0).count();
    assert_eq!(opens, 2);
    assert_eq!(closes, 2);
    // Ends exactly at the last byte.
    assert_eq!(items.iter().map(|(_, d)| 1 + d.len()).sum::<usize>(), REPORT_DESCRIPTOR_LEN);
}

#[test]
fn descriptor_carries_the_panel_geometry() {
    let desc = report_descriptor(PANEL);
    let items = items(&desc);
    let logical_max: Vec<Vec<u8>> = items.iter().filter(|(t, _)| *t == 0x24).map(|(_, d)| d.clone()).collect();
    assert!(logical_max.contains(&vec![239, 0]));
    assert!(logical_max.contains(&vec![(279 & 0xFF) as u8, 1]));
    let physical_max: Vec<Vec<u8>> = items.iter().filter(|(t, _)| *t == 0x44).map(|(_, d)| d.clone()).collect();
    assert_eq!(physical_max, vec![vec![(280 & 0xFF) as u8, 1], vec![(326 & 0xFF) as u8, 1]]);
}

#[test]
fn descriptor_declares_the_usages_hosts_require() {
    let desc = report_descriptor(PANEL);
    let items = items(&desc);
    let mut page = 0u8;
    let mut usages = Vec::new();
    for (tag, data) in &items {
        match tag {
            0x04 => page = data[0],
            0x08 => usages.push((page, data[0])),
            _ => {}
        }
    }
    for required in [(0x0D, 0x04), (0x0D, 0x22), (0x0D, 0x42), (0x0D, 0x51), (0x01, 0x30), (0x01, 0x31),
                     (0x0D, 0x56), (0x0D, 0x54), (0x0D, 0x55)] {
        assert!(usages.contains(&required), "missing usage {required:?}");
    }
}

#[test]
fn input_report_bit_layout_matches_the_descriptor() {
    let desc = report_descriptor(PANEL);
    // Sum input bits under report ID 1: 1 + 7 + 8 + 16 + 16 + 16 + 8 = 72 = 9 bytes + ID.
    let mut size = 0u32;
    let mut count = 0u32;
    let mut bits = 0u32;
    for (tag, data) in items(&desc) {
        match tag {
            0x74 => size = data[0] as u32,
            0x94 => count = data[0] as u32,
            0x80 => bits += size * count,
            _ => {}
        }
    }
    assert_eq!(bits, (TOUCH_REPORT_LEN as u32 - 1) * 8);
}

#[test]
fn reports_encode_little_endian_with_ids() {
    let report = TouchReport { tip: true, x: 0x0102, y: 0x0116, scan_time: 0xBEEF };
    assert_eq!(report.to_bytes(), [1, 1, 0, 0x02, 0x01, 0x16, 0x01, 0xEF, 0xBE, 1]);
    let up = TouchReport { tip: false, x: 5, y: 6, scan_time: 0 };
    assert_eq!(up.to_bytes(), [1, 0, 0, 5, 0, 6, 0, 0, 0, 1]);
    assert_eq!(feature_report(), [2, 1]);
}

#[test]
fn tracker_reports_changes_and_one_lift_off() {
    let mut tracker = TouchTracker::new();
    assert_eq!(tracker.update(None, 1), None);
    assert_eq!(tracker.update(Some((10, 20)), 2), Some(TouchReport { tip: true, x: 10, y: 20, scan_time: 2 }));
    assert_eq!(tracker.update(Some((10, 20)), 3), None);
    assert!(tracker.touching());
    assert_eq!(tracker.update(Some((11, 20)), 4), Some(TouchReport { tip: true, x: 11, y: 20, scan_time: 4 }));
    assert_eq!(tracker.update(None, 5), Some(TouchReport { tip: false, x: 11, y: 20, scan_time: 5 }));
    assert_eq!(tracker.update(None, 6), None);
    assert!(!tracker.touching());
}

#[test]
fn get_report_serves_input_and_feature_reports() {
    let last: &'static ReportCell = Box::leak(Box::new(ReportCell::new()));
    let state = TouchHidState::new(last);
    let mut buf = [0u8; 16];
    assert_eq!(state.get_report(ReportKind::Feature, MAX_CONTACTS_REPORT_ID, &mut buf), Some(2));
    assert_eq!(&buf[..2], &[2, 1]);
    let report = TouchReport { tip: true, x: 1, y: 2, scan_time: 3 };
    last.store(&report);
    assert_eq!(last.load(), report);
    assert_eq!(state.get_report(ReportKind::Input, TOUCH_REPORT_ID, &mut buf), Some(TOUCH_REPORT_LEN));
    assert_eq!(&buf[..TOUCH_REPORT_LEN], &report.to_bytes());
    assert_eq!(state.get_report(ReportKind::Output, 1, &mut buf), None);
    assert_eq!(state.get_report(ReportKind::Feature, 9, &mut buf), None);
    assert_eq!(state.get_report(ReportKind::Input, TOUCH_REPORT_ID, &mut buf[..4]), None);
    assert_eq!(ReportKind::from_wvalue(0x0302), Some(ReportKind::Feature));
    assert_eq!(ReportKind::from_wvalue(0x0401), None);
}

#[test]
fn parses_twelve_bit_coordinates_and_no_finger() {
    assert_eq!(parse_point(&[0, 0x80, 0x10, 0x01, 0x05]), None);
    assert_eq!(parse_point(&[1, 0x80, 0x10, 0x01, 0x05]), Some(Point { x: 0x010, y: 0x105 }));
    assert_eq!(parse_point(&[1, 0x4F, 0xFF, 0x0F, 0xFF]), Some(Point { x: 0xFFF, y: 0xFFF }));
}

/// Fake bus: answers register reads from a map and logs writes.
#[derive(Default)]
struct Bus {
    regs: BTreeMap<u8, u8>,
    writes: Vec<Vec<u8>>,
    resets: Vec<bool>,
    delays: Vec<u32>,
}

#[derive(Debug, PartialEq, Eq)]
struct Nak;

impl Bus {
    fn step(&mut self, step: BusStep) -> Answer<Nak> {
        match step {
            BusStep::Reset(high) => {
                self.resets.push(high);
                Answer::Done
            }
            BusStep::DelayMs(ms) => {
                self.delays.push(ms);
                Answer::Done
            }
            BusStep::Read(register) => match self.regs.get(&register) {
                Some(&value) => Answer::Value(value),
                None => Answer::Failed(Nak),
            },
            BusStep::Write(register, value) => {
                self.writes.push(vec![register, value]);
                self.regs.insert(register, value);
                Answer::Done
            }
        }
    }

    fn block(&self) -> Result<[u8; 5], Nak> {
        let mut regs = [0; 5];
        for (i, b) in regs.iter_mut().enumerate() {
            *b = *self.regs.get(&(reg::FINGER_NUM + i as u8)).ok_or(Nak)?;
        }
        Ok(regs)
    }
}

fn init(bus: &mut Bus) -> Result<u8, Error<Nak>> {
    let mut ctp = Cst816::new();
    let mut next = ctp.init();
    loop {
        match next {
            Init::Step(step) => next = ctp.answer(bus.step(step)),
            Init::Finished(result) => return result,
        }
    }
}

#[test]
fn init_resets_identifies_and_configures_point_mode() {
    let mut bus = Bus::default();
    bus.regs.insert(reg::CHIP_ID, chip::CST816T);
    assert_eq!(init(&mut bus), Ok(chip::CST816T));
    assert_eq!(bus.resets, vec![false, true]);
    assert_eq!(bus.writes, vec![vec![reg::DIS_AUTO_SLEEP, 0x01], vec![reg::IRQ_CTL, 0x60]]);
    assert_eq!(bus.delays, vec![10, 100]);
    assert_eq!(irq::EN_TOUCH | irq::EN_CHANGE, 0x60);
}

#[test]
fn init_rejects_a_stranger() {
    let mut bus = Bus::default();
    bus.regs.insert(reg::CHIP_ID, 0x00);
    assert_eq!(init(&mut bus), Err(Error::UnknownChip(0)));
    assert!(bus.writes.is_empty());
}

#[test]
fn init_reports_a_failing_bus() {
    let mut bus = Bus::default();
    assert_eq!(init(&mut bus), Err(Error::I2c(Nak)));
}

#[test]
fn read_returns_the_finger_position() {
    let mut bus = Bus::default();
    for (r, v) in [
        (reg::FINGER_NUM, 1),
        (reg::XPOS_H, 0),
        (reg::XPOS_L, 120),
        (reg::YPOS_H, 1),
        (reg::YPOS_L, 4),
    ] {
        bus.regs.insert(r, v);
    }
    assert_eq!(Cst816::read(bus.block()).unwrap(), Some(Point { x: 120, y: 260 }));
    bus.regs.insert(reg::FINGER_NUM, 0);
    assert_eq!(Cst816::read(bus.block()).unwrap(), None);
    bus.regs.remove(&reg::YPOS_L);
    assert_eq!(Cst816::read(bus.block()), Err(Nak));
    assert_eq!(Cst816::firmware_version(), BusStep::Read(0xA9));
}

#[test]
fn words_hold_a_report_and_mix_only_two() {
    let a = TouchReport { tip: true, x: 239, y: 279, scan_time: 65535 };
    let b = TouchReport { tip: false, x: 1, y: 2, scan_time: 3 };
    assert_eq!(pack(&a), (239 * 65536 + 279, 65536 + 65535));
    let ((axy, arest), (bxy, brest)) = (pack(&a), pack(&b));
    assert_eq!(unpack(axy, arest), a);
    assert_eq!(unpack(bxy, brest), b);
    assert_eq!(unpack(axy, brest), TouchReport { tip: false, x: 239, y: 279, scan_time: 3 });
    assert_eq!(ReportCell::default().load(), TouchReport::default());
}

#[test]
fn a_report_is_served_only_if_it_fits() {
    let last = TouchReport { tip: true, x: 1, y: 2, scan_time: 3 };
    let mut buf = [7u8; 11];
    assert_eq!(serve_report(ReportKind::Input, 1, &last, &mut buf), Some(10));
    assert_eq!(buf, [1, 1, 0, 1, 0, 2, 0, 3, 0, 1, 7]);
    let mut short = [7u8; 9];
    assert_eq!(serve_report(ReportKind::Input, 1, &last, &mut short), None);
    assert_eq!(short, [7; 9]);
}

#[test]
fn idle_rates_are_kept() {
    let last: &'static ReportCell = Box::leak(Box::new(ReportCell::new()));
    let mut state = TouchHidState::new(last);
    assert_eq!(state.idle_ms(), 0);
    state.set_idle_ms(40);
    assert_eq!(state.idle_ms(), 40);
    state.set_idle_ms(u32::MAX);
    assert_eq!(state.idle_ms(), 0);
}

#[test]
fn fingers_stay_on_the_glass() {
    assert_eq!(on_glass(Some(Point { x: 239, y: 279 })), Some((239, 279)));
    assert_eq!(on_glass(Some(Point { x: 240, y: 4095 })), Some((239, 279)));
    assert_eq!(on_glass(None), None);
    assert_eq!(poll_interval_us(true), 10_000);
    assert_eq!(poll_interval_us(false), 250_000);
    assert_eq!(scan_time(6_553_700), 1);
}

static DESCRIPTOR: [u8; 300] = [0; 300];

fn request(request_type: RequestType, request: u8, value: u16) -> Request {
    Request { request_type, recipient: Recipient::Interface, request, value, index: 2, length: 64 }
}

fn class() -> (TouchHidClass, &'static ReportCell) {
    let last: &'static ReportCell = Box::leak(Box::new(ReportCell::new()));
    (TouchHidClass::new(2, &DESCRIPTOR, last), last)
}

#[test]
fn descriptors_are_served() {
    let (class, _) = class();
    let mut buf = [0u8; TOUCH_REPORT_LEN];
    assert_eq!(
        class.control_in(&request(RequestType::Standard, 6, 0x2200), &mut buf),
        Reply::AcceptDescriptor
    );
    assert_eq!(class.report_descriptor().len(), 300);
    assert_eq!(
        class.control_in(&request(RequestType::Standard, 6, 0x2100), &mut buf),
        Reply::Accept(9)
    );
    assert_eq!(&buf[..9], &[9, 0x21, 0x11, 0x01, 0, 1, 0x22, 44, 1]);
    assert_eq!(class.get_configuration_descriptors(), [0x11, 0x01, 0, 1, 0x22, 44, 1]);
    assert_eq!(
        class.control_in(&request(RequestType::Standard, 6, 0x2300), &mut buf),
        Reply::Reject
    );
}

#[test]
fn class_requests_are_answered() {
    let (mut class, last) = class();
    let mut buf = [0u8; TOUCH_REPORT_LEN];
    let report = TouchReport { tip: true, x: 5, y: 6, scan_time: 7 };
    assert_eq!(class.push(&report), [1, 1, 0, 5, 0, 6, 0, 7, 0, 1]);
    class.pushed(&report);
    assert_eq!(last.load(), report);
    assert_eq!(
        class.control_in(&request(RequestType::Class, 1, 0x0101), &mut buf),
        Reply::Accept(10)
    );
    assert_eq!(buf, report.to_bytes());
    assert_eq!(
        class.control_in(&request(RequestType::Class, 1, 0x0302), &mut buf),
        Reply::Accept(2)
    );
    assert_eq!(&buf[..2], &[2, 1]);
    assert_eq!(class.control_in(&request(RequestType::Class, 1, 0x0201), &mut buf), Reply::Reject);
    assert_eq!(class.control_in(&request(RequestType::Class, 1, 0x0901), &mut buf), Reply::Reject);
    assert_eq!(class.control_out(&request(RequestType::Class, 0x0A, 0x0900)), Verdict::Accept);
    assert_eq!(class.control_in(&request(RequestType::Class, 2, 0), &mut buf), Reply::Accept(1));
    assert_eq!(buf[0], 9);
    assert_eq!(class.control_in(&request(RequestType::Class, 9, 0), &mut buf), Reply::Reject);
    assert_eq!(class.control_out(&request(RequestType::Class, 9, 0)), Verdict::Reject);
}

#[test]
fn other_requests_are_left_alone() {
    let (mut class, _) = class();
    let mut buf = [0u8; TOUCH_REPORT_LEN];
    let mut other = request(RequestType::Class, 1, 0x0101);
    other.index = 1;
    assert_eq!(class.control_in(&other, &mut buf), Reply::Leave);
    assert_eq!(class.control_out(&other), Verdict::Leave);
    assert_eq!(class.control_in(&request(RequestType::Vendor, 1, 0), &mut buf), Reply::Leave);
    assert_eq!(class.control_in(&request(RequestType::Standard, 0, 0), &mut buf), Reply::Leave);
    assert_eq!(class.control_out(&request(RequestType::Vendor, 0x0A, 0)), Verdict::Leave);
}

#[test]
fn reports_come_from_the_cell_that_was_handed_over() {
    let cells: [&'static ReportCell; 2] =
        [Box::leak(Box::new(ReportCell::new())), Box::leak(Box::new(ReportCell::new()))];
    let states = cells.map(TouchHidState::new);
    let classes = cells.map(|cell| TouchHidClass::new(2, &DESCRIPTOR, cell));
    let report = TouchReport { tip: true, x: 11, y: 22, scan_time: 33 };
    classes[1].pushed(&report);
    let mut buf = [0u8; TOUCH_REPORT_LEN];
    for (i, expected) in [TouchReport::default(), report].iter().enumerate() {
        assert_eq!(cells[i].load(), *expected);
        assert_eq!(states[i].get_report(ReportKind::Input, 1, &mut buf), Some(10));
        assert_eq!(buf, expected.to_bytes());
        let req = request(RequestType::Class, 1, 0x0101);
        assert_eq!(classes[i].control_in(&req, &mut buf), Reply::Accept(10));
        assert_eq!(buf, expected.to_bytes());
    }
}
