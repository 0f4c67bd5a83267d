//! The HID touch screen report descriptor and the reports it describes.
//!
//! One digitizer application collection, one finger, laid out the way the
//! Windows touch requirements and Linux's hid-multitouch both expect: Tip
//! Switch, Contact Identifier, X and Y with physical units, Scan Time in
//! 100 us units, and a Contact Count per input report, plus a Contact Count
//! Maximum feature report the host reads once with GET_REPORT.

use vstd::prelude::*;

use std::sync::atomic::{AtomicU32, Ordering};

use crate::bytes;
use crate::touch::descriptor::{self, Item};

verus! {

/// Report ID of the touch input report.
pub const TOUCH_REPORT_ID: u8 = 1;
/// Report ID of the Contact Count Maximum feature report.
pub const MAX_CONTACTS_REPORT_ID: u8 = 2;
/// The CST816 tracks one finger.
pub const MAX_CONTACTS: u8 = 1;
/// Bytes in an input report, report ID included.
pub const TOUCH_REPORT_LEN: usize = 10;
/// Bytes in the feature report, report ID included.
pub const FEATURE_REPORT_LEN: usize = 2;
/// Bytes in the report descriptor.
pub const REPORT_DESCRIPTOR_LEN: usize = 124;

/// `bInterval` for the interrupt IN endpoint: full-speed frames are 1 ms,
/// and the controller scans every 10 ms.
pub const POLL_MS: u8 = 10;

/// Report types in the high byte of `wValue` for GET_REPORT / SET_REPORT
/// (HID 1.11 section 7.2.1): 1, 2 and 3.
#[derive(Clone, Copy, Debug, PartialEq, Eq, Structural)]
pub enum ReportKind {
    Input,
    Output,
    Feature,
}

impl ReportKind {
    /// The kind that the high byte names.
    pub open spec fn named(value: u16) -> Option<ReportKind> {
        if value / 256 == 1 {
            Some(ReportKind::Input)
        } else if value / 256 == 2 {
            Some(ReportKind::Output)
        } else if value / 256 == 3 {
            Some(ReportKind::Feature)
        } else {
            None
        }
    }

    pub fn from_wvalue(value: u16) -> (kind: Option<Self>)
        ensures
            kind == ReportKind::named(value),
    {
        match value / 256 {
            1 => Some(ReportKind::Input),
            2 => Some(ReportKind::Output),
            3 => Some(ReportKind::Feature),
            _ => None,
        }
    }
}

/// Touch surface geometry the descriptor advertises: logical range in
/// panel pixels and physical size in tenths of a millimetre.
#[derive(Clone, Copy, Debug, PartialEq, Eq, Structural)]
pub struct Panel {
    pub width: u16,
    pub height: u16,
    pub width_tenth_mm: u16,
    pub height_tenth_mm: u16,
}

/// The touch screen and its finger, whose tip is one bit in a byte and whose
/// identifier is a byte.
pub open spec fn finger_items() -> Seq<Item> {
    seq![
        descriptor::item(descriptor::USAGE_PAGE, 0x0D),  // Digitizer
        descriptor::item(descriptor::USAGE, 0x04),  // Touch Screen
        descriptor::item(descriptor::COLLECTION, 0x01),  // Application
        descriptor::item(descriptor::REPORT_ID, TOUCH_REPORT_ID),
        descriptor::item(descriptor::USAGE, 0x22),  // Finger
        descriptor::item(descriptor::COLLECTION, 0x02),  // Logical
        descriptor::item(descriptor::USAGE, 0x42),  // Tip Switch
        descriptor::item(descriptor::LOGICAL_MINIMUM, 0),
        descriptor::item(descriptor::LOGICAL_MAXIMUM, 1),
        descriptor::item(descriptor::REPORT_SIZE, 1),
        descriptor::item(descriptor::REPORT_COUNT, 1),
        descriptor::item(descriptor::INPUT, 0x02),  // Data, Variable, Absolute
        descriptor::item(descriptor::REPORT_COUNT, 7),
        descriptor::item(descriptor::INPUT, 0x03),  // Constant, Variable, Absolute
    ]
}

pub open spec fn identifier_items() -> Seq<Item> {
    seq![
        descriptor::item(descriptor::USAGE, 0x51),  // Contact Identifier
        descriptor::item(descriptor::LOGICAL_MAXIMUM, 127),
        descriptor::item(descriptor::REPORT_SIZE, 8),
        descriptor::item(descriptor::REPORT_COUNT, 1),
        descriptor::item(descriptor::INPUT, 0x02),
    ]
}

/// The finger's position: pixels, and how far they are apart on the glass.
pub open spec fn position_items(panel: Panel) -> Seq<Item> {
    seq![
        descriptor::item(descriptor::USAGE_PAGE, 0x01),  // Generic Desktop
        descriptor::item(descriptor::USAGE, 0x30),  // X
        descriptor::item(descriptor::LOGICAL_MINIMUM, 0),
        Item { tag: descriptor::LOGICAL_MAXIMUM, data: bytes::le16(panel.width - 1) },
        descriptor::item(descriptor::PHYSICAL_MINIMUM, 0),
        Item { tag: descriptor::PHYSICAL_MAXIMUM, data: bytes::le16(panel.width_tenth_mm as int) },
        descriptor::item(descriptor::UNIT_EXPONENT, 0x0E),  // -2
        descriptor::item(descriptor::UNIT, 0x11),  // SI Linear, centimetre
        descriptor::item(descriptor::REPORT_SIZE, 16),
        descriptor::item(descriptor::REPORT_COUNT, 1),
        descriptor::item(descriptor::INPUT, 0x02),
        descriptor::item(descriptor::USAGE, 0x31),  // Y
        Item { tag: descriptor::LOGICAL_MAXIMUM, data: bytes::le16(panel.height - 1) },
        Item { tag: descriptor::PHYSICAL_MAXIMUM, data: bytes::le16(panel.height_tenth_mm as int) },
        descriptor::item(descriptor::INPUT, 0x02),
        descriptor::item(descriptor::UNIT_EXPONENT, 0),
        descriptor::item(descriptor::UNIT, 0),
        Item { tag: descriptor::END_COLLECTION, data: seq![] },
    ]
}

/// The time of the scan in steps of 100 us, and the number of fingers.
pub open spec fn scan_items() -> Seq<Item> {
    seq![
        descriptor::item(descriptor::USAGE_PAGE, 0x0D),  // Digitizer
        descriptor::item(descriptor::USAGE, 0x56),  // Scan Time
        Item { tag: descriptor::LOGICAL_MAXIMUM, data: bytes::le32(65535) },
        descriptor::item(descriptor::UNIT_EXPONENT, 0x0C),  // -4
        Item { tag: descriptor::UNIT, data: bytes::le16(0x1001) },  // SI Linear, second
        descriptor::item(descriptor::REPORT_SIZE, 16),
        descriptor::item(descriptor::REPORT_COUNT, 1),
        descriptor::item(descriptor::INPUT, 0x02),
        descriptor::item(descriptor::UNIT_EXPONENT, 0),
        descriptor::item(descriptor::UNIT, 0),
        descriptor::item(descriptor::USAGE, 0x54),  // Contact Count
        descriptor::item(descriptor::LOGICAL_MAXIMUM, 127),
        descriptor::item(descriptor::REPORT_SIZE, 8),
        descriptor::item(descriptor::REPORT_COUNT, 1),
        descriptor::item(descriptor::INPUT, 0x02),
    ]
}

/// The feature report with the greatest number of fingers.
pub open spec fn feature_items() -> Seq<Item> {
    seq![
        descriptor::item(descriptor::REPORT_ID, MAX_CONTACTS_REPORT_ID),
        descriptor::item(descriptor::USAGE, 0x55),  // Contact Count Maximum
        descriptor::item(descriptor::LOGICAL_MAXIMUM, MAX_CONTACTS),
        descriptor::item(descriptor::REPORT_SIZE, 8),
        descriptor::item(descriptor::REPORT_COUNT, 1),
        descriptor::item(descriptor::FEATURE, 0x02),
        Item { tag: descriptor::END_COLLECTION, data: seq![] },
    ]
}

/// What the descriptor says of a panel.
pub open spec fn descriptor_items(panel: Panel) -> Seq<Item> {
    finger_items() + identifier_items() + position_items(panel) + scan_items() + feature_items()
}

/// The bytes of each part.
spec fn finger_bytes() -> Seq<u8> {
    seq![
        0x05, 0x0D, 0x09, 0x04, 0xA1, 0x01, 0x85, TOUCH_REPORT_ID, 0x09, 0x22, 0xA1, 0x02, 0x09,
        0x42, 0x15, 0x00, 0x25, 0x01, 0x75, 0x01, 0x95, 0x01, 0x81, 0x02, 0x95, 0x07, 0x81, 0x03,
    ]
}

spec fn identifier_bytes() -> Seq<u8> {
    seq![0x09, 0x51, 0x25, 0x7F, 0x75, 0x08, 0x95, 0x01, 0x81, 0x02]
}

spec fn position_bytes(panel: Panel) -> Seq<u8> {
    seq![0x05u8, 0x01, 0x09, 0x30, 0x15, 0x00, 0x26] + bytes::le16(panel.width - 1) + seq![
        0x35u8,
        0x00,
        0x46,
    ] + bytes::le16(panel.width_tenth_mm as int) + seq![
        0x55u8, 0x0E, 0x65, 0x11, 0x75, 0x10, 0x95, 0x01, 0x81, 0x02, 0x09, 0x31, 0x26,
    ] + bytes::le16(panel.height - 1) + seq![0x46u8] + bytes::le16(panel.height_tenth_mm as int)
        + seq![0x81u8, 0x02, 0x55, 0x00, 0x65, 0x00, 0xC0]
}

spec fn scan_bytes() -> Seq<u8> {
    seq![
        0x05, 0x0D, 0x09, 0x56, 0x27, 0xFF, 0xFF, 0x00, 0x00, 0x55, 0x0C, 0x66, 0x01, 0x10, 0x75,
        0x10, 0x95, 0x01, 0x81, 0x02, 0x55, 0x00, 0x65, 0x00, 0x09, 0x54, 0x25, 0x7F, 0x75, 0x08,
        0x95, 0x01, 0x81, 0x02,
    ]
}

spec fn feature_bytes() -> Seq<u8> {
    seq![
        0x85, MAX_CONTACTS_REPORT_ID, 0x09, 0x55, 0x25, MAX_CONTACTS, 0x75, 0x08, 0x95, 0x01, 0xB1,
        0x02, 0xC0,
    ]
}

proof fn finger_part()
    ensures
        descriptor::encoded(finger_items()) == finger_bytes(),
{
    reveal_with_fuel(descriptor::encoded, 15);
    assert(descriptor::encoded(finger_items()) =~= finger_bytes());
}

proof fn identifier_part()
    ensures
        descriptor::encoded(identifier_items()) == identifier_bytes(),
{
    reveal_with_fuel(descriptor::encoded, 6);
    assert(descriptor::encoded(identifier_items()) =~= identifier_bytes());
}

#[verifier::rlimit(40)]
proof fn position_part(panel: Panel)
    ensures
        descriptor::encoded(position_items(panel)) == position_bytes(panel),
{
    reveal_with_fuel(descriptor::encoded, 19);
    assert(descriptor::encoded(position_items(panel)) =~= position_bytes(panel));
}

proof fn scan_part()
    ensures
        descriptor::encoded(scan_items()) == scan_bytes(),
{
    reveal_with_fuel(descriptor::encoded, 16);
    assert(descriptor::encoded(scan_items()) =~= scan_bytes());
}

proof fn feature_part()
    ensures
        descriptor::encoded(feature_items()) == feature_bytes(),
{
    reveal_with_fuel(descriptor::encoded, 8);
    assert(descriptor::encoded(feature_items()) =~= feature_bytes());
}

proof fn descriptor_bytes(panel: Panel)
    ensures
        descriptor::encoded(descriptor_items(panel)) == finger_bytes() + identifier_bytes()
            + position_bytes(panel) + scan_bytes() + feature_bytes(),
{
    finger_part();
    identifier_part();
    position_part(panel);
    scan_part();
    feature_part();
    let a = finger_items();
    let b = a + identifier_items();
    let c = b + position_items(panel);
    descriptor::encoded_in_parts(a, identifier_items());
    descriptor::encoded_in_parts(b, position_items(panel));
    descriptor::encoded_in_parts(c, scan_items());
    descriptor::encoded_in_parts(c + scan_items(), feature_items());
}

/// Builds the report descriptor for a panel. The layout is fixed; only the
/// logical and physical maxima change with the panel.
pub fn report_descriptor(panel: Panel) -> (d: [u8; REPORT_DESCRIPTOR_LEN])
    requires
        panel.width >= 1,
        panel.height >= 1,
    ensures
        d@ == descriptor::encoded(descriptor_items(panel)),
{
    let w: u16 = panel.width - 1;
    let h: u16 = panel.height - 1;
    let (xl, xh) = ((w % 256) as u8, (w / 256) as u8);
    let (yl, yh) = ((h % 256) as u8, (h / 256) as u8);
    let (pxl, pxh) = ((panel.width_tenth_mm % 256) as u8, (panel.width_tenth_mm / 256) as u8);
    let (pyl, pyh) = ((panel.height_tenth_mm % 256) as u8, (panel.height_tenth_mm / 256) as u8);
    let d: [u8; REPORT_DESCRIPTOR_LEN] = [
        0x05, 0x0D,  // Usage Page (Digitizer)
        0x09, 0x04,  // Usage (Touch Screen)
        0xA1, 0x01,  // Collection (Application)
        0x85, TOUCH_REPORT_ID,  //   Report ID
        0x09, 0x22,  //   Usage (Finger)
        0xA1, 0x02,  //   Collection (Logical)
        0x09, 0x42,  //     Usage (Tip Switch)
        0x15, 0x00,  //     Logical Minimum (0)
        0x25, 0x01,  //     Logical Maximum (1)
        0x75, 0x01,  //     Report Size (1)
        0x95, 0x01,  //     Report Count (1)
        0x81, 0x02,  //     Input (Data, Variable, Absolute)
        0x95, 0x07,  //     Report Count (7)
        0x81, 0x03,  //     Input (Constant, Variable, Absolute): pad to a byte
        0x09, 0x51,  //     Usage (Contact Identifier)
        0x25, 0x7F,  //     Logical Maximum (127)
        0x75, 0x08,  //     Report Size (8)
        0x95, 0x01,  //     Report Count (1)
        0x81, 0x02,  //     Input (Data, Variable, Absolute)
        0x05, 0x01,  //     Usage Page (Generic Desktop)
        0x09, 0x30,  //     Usage (X)
        0x15, 0x00,  //     Logical Minimum (0)
        0x26, xl, xh,  //   Logical Maximum (width - 1)
        0x35, 0x00,  //     Physical Minimum (0)
        0x46, pxl, pxh,  // Physical Maximum (width)
        0x55, 0x0E,  //     Unit Exponent (-2)
        0x65, 0x11,  //     Unit (SI Linear, centimetre): 0.01 cm steps
        0x75, 0x10,  //     Report Size (16)
        0x95, 0x01,  //     Report Count (1)
        0x81, 0x02,  //     Input (Data, Variable, Absolute)
        0x09, 0x31,  //     Usage (Y)
        0x26, yl, yh,  //   Logical Maximum (height - 1)
        0x46, pyl, pyh,  // Physical Maximum (height)
        0x81, 0x02,  //     Input (Data, Variable, Absolute)
        0x55, 0x00,  //     Unit Exponent (0)
        0x65, 0x00,  //     Unit (None)
        0xC0,  //         End Collection
        0x05, 0x0D,  //   Usage Page (Digitizer)
        0x09, 0x56,  //   Usage (Scan Time)
        0x27, 0xFF, 0xFF, 0x00, 0x00,  // Logical Maximum (65535)
        0x55, 0x0C,  //   Unit Exponent (-4)
        0x66, 0x01, 0x10,  // Unit (SI Linear, second): 100 us steps
        0x75, 0x10,  //   Report Size (16)
        0x95, 0x01,  //   Report Count (1)
        0x81, 0x02,  //   Input (Data, Variable, Absolute)
        0x55, 0x00,  //   Unit Exponent (0)
        0x65, 0x00,  //   Unit (None)
        0x09, 0x54,  //   Usage (Contact Count)
        0x25, 0x7F,  //   Logical Maximum (127)
        0x75, 0x08,  //   Report Size (8)
        0x95, 0x01,  //   Report Count (1)
        0x81, 0x02,  //   Input (Data, Variable, Absolute)
        0x85, MAX_CONTACTS_REPORT_ID,  // Report ID
        0x09, 0x55,  //   Usage (Contact Count Maximum)
        0x25, MAX_CONTACTS,  // Logical Maximum
        0x75, 0x08,  //   Report Size (8)
        0x95, 0x01,  //   Report Count (1)
        0xB1, 0x02,  //   Feature (Data, Variable, Absolute)
        0xC0,  // End Collection
    ];
    proof {
        descriptor_bytes(panel);
        assert(d@ =~= finger_bytes() + identifier_bytes() + position_bytes(panel) + scan_bytes()
            + feature_bytes());
    }
    d
}

/// The Contact Count Maximum feature report.
pub fn feature_report() -> (r: [u8; FEATURE_REPORT_LEN])
    ensures
        r@ == seq![MAX_CONTACTS_REPORT_ID, MAX_CONTACTS],
{
    [MAX_CONTACTS_REPORT_ID, MAX_CONTACTS]
}

/// One touch input report: the finger's state in panel pixels.
#[derive(Clone, Copy, Debug, PartialEq, Eq, Structural)]
pub struct TouchReport {
    /// Finger on the glass.
    pub tip: bool,
    pub x: u16,
    pub y: u16,
    /// Free-running time in 100 us units; wraps.
    pub scan_time: u16,
}

/// The wire layout of a report: its ID, the tip switch, the contact's
/// identifier 0, position and time, and the contact count, which is 1 also for
/// a lift-off: that is a report for the same contact with the tip switch
/// cleared.
pub open spec fn report_bytes(r: TouchReport) -> Seq<u8> {
    seq![
        TOUCH_REPORT_ID,
        if r.tip {
            1u8
        } else {
            0
        },
        0,
    ] + bytes::le16(r.x as int) + bytes::le16(r.y as int) + bytes::le16(r.scan_time as int)
        + seq![1u8]
}

impl Default for TouchReport {
    fn default() -> (r: Self)
        ensures
            r == (TouchReport { tip: false, x: 0, y: 0, scan_time: 0 }),
    {
        TouchReport { tip: false, x: 0, y: 0, scan_time: 0 }
    }
}

impl TouchReport {
    /// Wire layout, report ID first.
    pub fn to_bytes(&self) -> (b: [u8; TOUCH_REPORT_LEN])
        ensures
            b@ == report_bytes(*self),
    {
        let tip: u8 = if self.tip {
            1
        } else {
            0
        };
        let b: [u8; TOUCH_REPORT_LEN] = [
            TOUCH_REPORT_ID,
            tip,
            0,
            (self.x % 256) as u8,
            (self.x / 256) as u8,
            (self.y % 256) as u8,
            (self.y / 256) as u8,
            (self.scan_time % 256) as u8,
            (self.scan_time / 256) as u8,
            1,
        ];
        assert(b@ =~= report_bytes(*self));
        b
    }
}

/// Turns controller reads into the reports worth sending: every change
/// while the finger is down, and exactly one lift-off.
#[derive(Debug)]
pub struct TouchTracker {
    last: Option<(u16, u16)>,
}

/// The report worth sending when the finger was at `last` and is at `point`: a
/// lift-off is where the finger was.
pub open spec fn worth_sending(
    last: Option<(u16, u16)>,
    point: Option<(u16, u16)>,
    scan_time: u16,
) -> Option<TouchReport> {
    if last == point {
        None
    } else {
        match point {
            Some((x, y)) => Some(TouchReport { tip: true, x, y, scan_time }),
            None => Some(
                TouchReport { tip: false, x: last->Some_0.0, y: last->Some_0.1, scan_time },
            ),
        }
    }
}

impl View for TouchTracker {
    type V = Option<(u16, u16)>;

    closed spec fn view(&self) -> Option<(u16, u16)> {
        self.last
    }
}

impl Default for TouchTracker {
    fn default() -> (t: Self)
        ensures
            t@ is None,
    {
        Self::new()
    }
}

impl TouchTracker {
    pub fn new() -> (t: Self)
        ensures
            t@ is None,
    {
        TouchTracker { last: None }
    }

    /// Finger currently down, as last reported.
    pub fn touching(&self) -> (down: bool)
        ensures
            down == (self@ is Some),
    {
        self.last.is_some()
    }

    pub fn update(&mut self, point: Option<(u16, u16)>, scan_time: u16) -> (r: Option<TouchReport>)
        ensures
            r == worth_sending(old(self)@, point, scan_time),
            final(self)@ == point,
    {
        match (self.last, point) {
            (Some((px, py)), Some((x, y))) => {
                if px == x && py == y {
                    return None;
                }
                self.last = point;
                Some(TouchReport { tip: true, x, y, scan_time })
            },
            (None, Some((x, y))) => {
                self.last = point;
                Some(TouchReport { tip: true, x, y, scan_time })
            },
            (Some((x, y)), None) => {
                self.last = None;
                Some(TouchReport { tip: false, x, y, scan_time })
            },
            (None, None) => None,
        }
    }
}

/// A report in two words: the position, and the tip switch with the time.
pub open spec fn packed(r: TouchReport) -> (int, int) {
    (
        r.x * 0x1_0000 + r.y,
        (if r.tip {
            0x1_0000int
        } else {
            0
        }) + r.scan_time,
    )
}

/// The report that two words hold.
pub open spec fn unpacked(xy: u32, rest: u32) -> TouchReport {
    TouchReport {
        tip: rest / 0x1_0000 != 0,
        x: (xy / 0x1_0000) as u16,
        y: (xy % 0x1_0000) as u16,
        scan_time: (rest % 0x1_0000) as u16,
    }
}

/// Packs a report into two words.
pub fn pack(r: &TouchReport) -> (words: (u32, u32))
    ensures
        (words.0 as int, words.1 as int) == packed(*r),
{
    let tip: u32 = if r.tip {
        0x1_0000
    } else {
        0
    };
    (r.x as u32 * 0x1_0000 + r.y as u32, tip + r.scan_time as u32)
}

/// The report that two words hold.
pub fn unpack(xy: u32, rest: u32) -> (r: TouchReport)
    ensures
        r == unpacked(xy, rest),
{
    TouchReport {
        tip: rest / 0x1_0000 != 0,
        x: (xy / 0x1_0000) as u16,
        y: (xy % 0x1_0000) as u16,
        scan_time: (rest % 0x1_0000) as u16,
    }
}

/// A report survives being packed. A position read with the tip and time of
/// another report is a mix of the two and of nothing else.
pub proof fn reports_unpack(a: TouchReport, b: TouchReport)
    ensures
        0 <= packed(a).0 <= u32::MAX,
        0 <= packed(a).1 <= u32::MAX,
        unpacked(packed(a).0 as u32, packed(a).1 as u32) == a,
        unpacked(packed(a).0 as u32, packed(b).1 as u32) == (TouchReport { x: a.x, y: a.y, ..b }),
{
}

/// The report most recently sent on the interrupt endpoint, shared between
/// whoever reads the controller and the control request handler that
/// answers GET_REPORT for it. Two words with plain loads and stores, so it
/// works on cores without compare-and-swap; a torn read can only mix two
/// consecutive reports.
#[derive(Debug)]
pub struct ReportCell {
    xy: AtomicU32,
    rest: AtomicU32,
}

impl Default for ReportCell {
    fn default() -> (c: Self)
        ensures
            c.fresh(),
    {
        Self::new()
    }
}

impl ReportCell {
    /// Both words were made as 0.
    pub closed spec fn fresh(self) -> bool {
        &&& call_ensures(AtomicU32::new, (0u32,), self.xy)
        &&& call_ensures(AtomicU32::new, (0u32,), self.rest)
    }

    /// Loading the cell's two words can give these.
    pub closed spec fn gave(self, xy: u32, rest: u32) -> bool {
        &&& call_ensures(AtomicU32::load, (&self.xy, Ordering::Relaxed), xy)
        &&& call_ensures(AtomicU32::load, (&self.rest, Ordering::Relaxed), rest)
    }

    /// These were stored in the cell's two words.
    pub closed spec fn took(self, xy: u32, rest: u32) -> bool {
        &&& call_ensures(AtomicU32::store, (&self.xy, xy, Ordering::Relaxed), ())
        &&& call_ensures(AtomicU32::store, (&self.rest, rest, Ordering::Relaxed), ())
    }

    /// A cell with the report of no finger at 0, 0.
    pub fn new() -> (c: Self)
        ensures
            c.fresh(),
    {
        ReportCell { xy: AtomicU32::new(0), rest: AtomicU32::new(0) }
    }

    pub fn store(&self, report: &TouchReport)
        ensures
            exists|xy: u32, rest: u32|
                #[trigger] self.took(xy, rest) && unpacked(xy, rest) == *report,
    {
        let (xy, rest) = pack(report);
        self.xy.store(xy, Ordering::Relaxed);
        self.rest.store(rest, Ordering::Relaxed);
        proof {
            reports_unpack(*report, *report);
        }
        assert(self.took(xy, rest));
    }

    /// The report in the cell: what its two words, as they were loaded, hold.
    /// Whoever shares the cell may store another at any time, so which words
    /// these are is not known.
    pub fn load(&self) -> (r: TouchReport)
        ensures
            exists|xy: u32, rest: u32| #[trigger] self.gave(xy, rest) && r == unpacked(xy, rest),
    {
        let xy: u32 = self.xy.load(Ordering::Relaxed);
        let rest: u32 = self.rest.load(Ordering::Relaxed);
        assert(self.gave(xy, rest));
        unpack(xy, rest)
    }
}

/// Everything the class requests need to know: the report the host would
/// get from GET_REPORT, and the idle rate it last set.
#[derive(Debug)]
pub struct TouchHidState {
    last: &'static ReportCell,
    idle_ms: u32,
}

/// What GET_REPORT returns while `last` is the report most recently sent: one
/// of the two reports there are, or nothing.
pub open spec fn requested_report(kind: ReportKind, id: u8, last: TouchReport) -> Option<Seq<u8>> {
    if kind == ReportKind::Input && id == TOUCH_REPORT_ID {
        Some(report_bytes(last))
    } else if kind == ReportKind::Feature && id == MAX_CONTACTS_REPORT_ID {
        Some(seq![MAX_CONTACTS_REPORT_ID, MAX_CONTACTS])
    } else {
        None
    }
}

/// GET_REPORT was answered from `last`: the report is at the front of the
/// buffer, or there is none or no room for it and the buffer is as it was.
pub open spec fn served(
    kind: ReportKind,
    id: u8,
    last: TouchReport,
    before: Seq<u8>,
    after: Seq<u8>,
    r: Option<usize>,
) -> bool {
    match requested_report(kind, id, last) {
        Some(report) => if report.len() <= before.len() {
            r == Some(report.len() as usize) && after == report + before.skip(report.len() as int)
        } else {
            r is None && after == before
        },
        None => r is None && after == before,
    }
}

/// GET_REPORT while `last` is the report most recently sent: copies the
/// requested report into `buf`, or `None` to stall.
pub fn serve_report(kind: ReportKind, id: u8, last: &TouchReport, buf: &mut [u8]) -> (r: Option<
    usize,
>)
    ensures
        served(kind, id, *last, old(buf)@, final(buf)@, r),
{
    match (kind, id) {
        (ReportKind::Input, TOUCH_REPORT_ID) => copy_report(&last.to_bytes(), buf),
        (ReportKind::Feature, MAX_CONTACTS_REPORT_ID) => copy_report(&feature_report(), buf),
        _ => None,
    }
}

/// Copies a report to the front of `buf`, if there is room.
pub(crate) fn copy_report<const N: usize>(report: &[u8; N], buf: &mut [u8]) -> (r: Option<usize>)
    ensures
        N <= old(buf)@.len() ==> r == Some(N) && final(buf)@ == report@ + old(buf)@.skip(N as int),
        N > old(buf)@.len() ==> r is None && final(buf)@ == old(buf)@,
{
    if buf.len() < N {
        return None;
    }
    let mut i: usize = 0;
    while i < N
        invariant
            i <= N,
            N <= buf@.len(),
            buf@.len() == old(buf)@.len(),
            forall|k: int| 0 <= k < i ==> buf@[k] == report@[k],
            forall|k: int| i <= k < buf@.len() ==> buf@[k] == old(buf)@[k],
        decreases N - i,
    {
        buf[i] = report[i];
        i += 1;
    }
    assert(buf@ =~= report@ + old(buf)@.skip(N as int));
    Some(N)
}

impl TouchHidState {
    /// The idle rate that the host last set, in milliseconds.
    pub closed spec fn idle(self) -> u32 {
        self.idle_ms
    }

    /// The cell with the report most recently sent.
    pub closed spec fn cell(self) -> ReportCell {
        *self.last
    }

    pub fn new(last: &'static ReportCell) -> (s: Self)
        ensures
            s.idle() == 0,
            s.cell() == *last,
    {
        TouchHidState { last, idle_ms: 0 }
    }

    /// GET_REPORT: copies the requested report into `buf`, or `None` to stall.
    /// The input report is the one in the cell.
    pub fn get_report(&self, kind: ReportKind, id: u8, buf: &mut [u8]) -> (r: Option<usize>)
        ensures
            exists|last: TouchReport|
                call_ensures(ReportCell::load, (&self.cell(),), last) && #[trigger] served(
                    kind,
                    id,
                    last,
                    old(buf)@,
                    final(buf)@,
                    r,
                ),
    {
        let last = self.last.load();
        serve_report(kind, id, &last, buf)
    }

    /// SET_IDLE: `duration_ms` is 0 for "only when the report changes",
    /// which is how the device reports anyway.
    pub fn set_idle(&mut self, duration_ms: u32)
        ensures
            final(self).idle() == duration_ms,
            final(self).cell() == old(self).cell(),
    {
        self.idle_ms = duration_ms;
    }

    /// SET_IDLE from a stack that writes an indefinite duration as the
    /// greatest number.
    pub fn set_idle_ms(&mut self, duration_ms: u32)
        ensures
            final(self).idle() == if duration_ms == u32::MAX {
                0
            } else {
                duration_ms
            },
            final(self).cell() == old(self).cell(),
    {
        self.set_idle(
            if duration_ms == u32::MAX {
                0
            } else {
                duration_ms
            },
        );
    }

    /// GET_IDLE, in milliseconds.
    pub fn idle_ms(&self) -> (ms: u32)
        ensures
            ms == self.idle(),
    {
        self.idle_ms
    }
}

} // verus!
