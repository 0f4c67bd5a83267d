//! What a host reads in the report descriptor and in the reports, byte by byte.

use vstd::prelude::*;

use crate::touch::descriptor::{self, Item};
use crate::touch::hid::{self, Panel, ReportCell, ReportKind, TouchHidState, TouchReport};
use crate::touch::usbd::{answer_to, replies, Reply, TouchHidClass, Verdict};
use crate::usb::{Recipient, Request, RequestType};

verus! {

/// Some values in a report, with all that was said of them.
#[verifier::ext_equal]
pub struct Value {
    pub report: int,
    /// What they are: a page and a number on it.
    pub usages: Seq<(int, int)>,
    pub flags: int,
    /// Bits of one, and how many there are.
    pub size: int,
    pub count: int,
    pub logical: (int, int),
    pub physical: (int, int),
    pub exponent: int,
    pub unit: int,
}

/// What a host knows behind some bytes of a descriptor.
#[verifier::ext_equal]
pub struct Host {
    pub page: int,
    /// Usages since the last main item.
    pub usages: Seq<(int, int)>,
    pub report: int,
    pub size: int,
    pub count: int,
    pub logical: (int, int),
    pub physical: (int, int),
    pub exponent: int,
    pub unit: int,
    /// Open collections.
    pub depth: int,
    /// All collections, with their usage and kind.
    pub collections: Seq<(Seq<(int, int)>, int)>,
    pub inputs: Seq<Value>,
    pub features: Seq<Value>,
    /// Something did not belong there, or the bytes ended too soon.
    pub confused: bool,
}

/// The data of an item as a number without a sign, low byte first.
pub open spec fn unsigned(b: Seq<u8>) -> int {
    if b.len() == 1 {
        b[0] as int
    } else if b.len() == 2 {
        b[0] + 256 * b[1]
    } else if b.len() == 4 {
        b[0] + 256 * b[1] + 65536 * b[2] + 16777216 * b[3]
    } else {
        0
    }
}

/// The data of an item as a number with a sign.
pub open spec fn signed(b: Seq<u8>) -> int {
    let v = unsigned(b);
    if b.len() == 1 && v >= 0x80 {
        v - 0x100
    } else if b.len() == 2 && v >= 0x8000 {
        v - 0x1_0000
    } else if b.len() == 4 && v >= 0x8000_0000 {
        v - 0x1_0000_0000
    } else {
        v
    }
}

/// An exponent is four bits with a sign.
pub open spec fn exponent_of(v: int) -> int {
    if v >= 8 {
        v - 16
    } else {
        v
    }
}

pub open spec fn knows_nothing() -> Host {
    Host {
        page: 0,
        usages: seq![],
        report: 0,
        size: 0,
        count: 0,
        logical: (0, 0),
        physical: (0, 0),
        exponent: 0,
        unit: 0,
        depth: 0,
        collections: seq![],
        inputs: seq![],
        features: seq![],
        confused: false,
    }
}

impl Host {
    /// What a main item declares here.
    pub open spec fn value(self, flags: int) -> Value {
        Value {
            report: self.report,
            usages: self.usages,
            flags,
            size: self.size,
            count: self.count,
            logical: self.logical,
            physical: self.physical,
            exponent: self.exponent,
            unit: self.unit,
        }
    }

    /// After an item with this tag and data.
    pub open spec fn told(self, tag: int, data: Seq<u8>) -> Host {
        let v = unsigned(data);
        if tag == 0x04 {
            Host { page: v, ..self }
        } else if tag == 0x08 {
            Host { usages: self.usages.push((self.page, v)), ..self }
        } else if tag == 0x14 {
            Host { logical: (signed(data), self.logical.1), ..self }
        } else if tag == 0x24 {
            Host { logical: (self.logical.0, signed(data)), ..self }
        } else if tag == 0x34 {
            Host { physical: (signed(data), self.physical.1), ..self }
        } else if tag == 0x44 {
            Host { physical: (self.physical.0, signed(data)), ..self }
        } else if tag == 0x54 {
            Host { exponent: exponent_of(v), ..self }
        } else if tag == 0x64 {
            Host { unit: v, ..self }
        } else if tag == 0x74 {
            Host { size: v, ..self }
        } else if tag == 0x84 {
            Host { report: v, ..self }
        } else if tag == 0x94 {
            Host { count: v, ..self }
        } else if tag == 0x80 {
            Host { inputs: self.inputs.push(self.value(v)), usages: seq![], ..self }
        } else if tag == 0xB0 {
            Host { features: self.features.push(self.value(v)), usages: seq![], ..self }
        } else if tag == 0xA0 {
            Host {
                depth: self.depth + 1,
                collections: self.collections.push((self.usages, v)),
                usages: seq![],
                ..self
            }
        } else if tag == 0xC0 {
            Host {
                depth: self.depth - 1,
                usages: seq![],
                confused: self.confused || self.depth == 0,
                ..self
            }
        } else {
            Host { confused: true, ..self }
        }
    }

    /// After these bytes: each item is a byte with its tag and length, and its
    /// data. The length of four bytes is written as three.
    pub open spec fn reads(self, b: Seq<u8>) -> Host
        decreases b.len(),
    {
        if b.len() == 0 {
            self
        } else {
            let n = if b[0] % 4 == 3 {
                4int
            } else {
                (b[0] % 4) as int
            };
            if b.len() < 1 + n {
                Host { confused: true, ..self }
            } else {
                self.told(b[0] - b[0] % 4, b.subrange(1, 1 + n)).reads(b.skip(1 + n))
            }
        }
    }

    /// After these items.
    pub open spec fn told_all(self, items: Seq<Item>) -> Host
        decreases items.len(),
    {
        if items.len() == 0 {
            self
        } else {
            self.told(items[0].tag as int, items[0].data).told_all(items.skip(1))
        }
    }

    proof fn told_in_parts(self, a: Seq<Item>, b: Seq<Item>)
        ensures
            self.told_all(a + b) == self.told_all(a).told_all(b),
        decreases a.len(),
    {
        if a.len() == 0 {
            assert(a + b =~= b);
        } else {
            self.told(a[0].tag as int, a[0].data).told_in_parts(a.skip(1), b);
            assert((a + b).skip(1) =~= a.skip(1) + b);
        }
    }

    proof fn reads_the_items(self, items: Seq<Item>)
        requires
            forall|i: int| 0 <= i < items.len() ==> (#[trigger] items[i]).valid(),
        ensures
            self.reads(descriptor::encoded(items)) == self.told_all(items),
        decreases items.len(),
    {
        if items.len() > 0 {
            let first = items[0];
            let rest = items.skip(1);
            assert(first.valid());
            assert forall|i: int| 0 <= i < rest.len() implies (#[trigger] rest[i]).valid() by {
                assert(rest[i] == items[i + 1]);
            }
            self.told(first.tag as int, first.data).reads_the_items(rest);
            let b = descriptor::encoded(items);
            let n = first.data.len() as int;
            assert(b[0] == first.tag + first.size_code());
            assert(b[0] - b[0] % 4 == first.tag);
            assert(b.subrange(1, 1 + n) =~= first.data);
            assert(b.skip(1 + n) =~= descriptor::encoded(rest));
        }
    }
}

proof fn items_are_valid(panel: Panel)
    ensures
        forall|i: int|
            0 <= i < hid::descriptor_items(panel).len() ==> (#[trigger] hid::descriptor_items(
                panel,
            )[i]).valid(),
{
    let items = hid::descriptor_items(panel);
    let a = hid::finger_items();
    let b = hid::identifier_items();
    let c = hid::position_items(panel);
    let d = hid::scan_items();
    let e = hid::feature_items();
    assert forall|i: int| 0 <= i < items.len() implies (#[trigger] items[i]).valid() by {
        let (p, q, r) = (a.len() + b.len(), a.len() + b.len() + c.len(), items.len() - e.len());
        if i < a.len() {
            assert(items[i] == a[i]);
        } else if i < p {
            assert(items[i] == b[i - a.len()]);
        } else if i < q {
            assert(items[i] == c[i - p]);
        } else if i < r {
            assert(items[i] == d[i - q]);
        } else {
            assert(items[i] == e[i - r]);
        }
    }
}

/// The tip of the finger, behind which seven bits are left out.
pub open spec fn tip_values() -> Seq<Value> {
    seq![
        Value {
            report: 1,
            usages: seq![(0x0D, 0x42)],
            flags: 2,
            size: 1,
            count: 1,
            logical: (0, 1),
            physical: (0, 0),
            exponent: 0,
            unit: 0,
        },
        Value {
            report: 1,
            usages: seq![],
            flags: 3,
            size: 1,
            count: 7,
            logical: (0, 1),
            physical: (0, 0),
            exponent: 0,
            unit: 0,
        },
    ]
}

/// Which finger it is.
pub open spec fn identifier_value() -> Value {
    Value {
        report: 1,
        usages: seq![(0x0D, 0x51)],
        flags: 2,
        size: 8,
        count: 1,
        logical: (0, 127),
        physical: (0, 0),
        exponent: 0,
        unit: 0,
    }
}

/// What a host makes of a number in two bytes: from 32768 on, which no panel
/// reaches, it would be negative.
pub open spec fn as_read(v: int) -> int {
    if v < 0x8000 {
        v
    } else {
        v - 0x1_0000
    }
}

/// A direction of the glass: 16 bits that go from 0 to the last pixel, over so
/// many tenths of a millimetre, which are hundredths of a centimetre.
pub open spec fn direction_value(usage: int, pixels: int, tenth_mm: int) -> Value {
    Value {
        report: 1,
        usages: seq![(0x01, usage)],
        flags: 2,
        size: 16,
        count: 1,
        logical: (0, as_read(pixels - 1)),
        physical: (0, as_read(tenth_mm)),
        exponent: -2,
        unit: 0x11,
    }
}

/// When it was: 16 bits of 10^-4 seconds. How many fingers there are.
pub open spec fn time_value(physical: (int, int)) -> Value {
    Value {
        report: 1,
        usages: seq![(0x0D, 0x56)],
        flags: 2,
        size: 16,
        count: 1,
        logical: (0, 65535),
        physical,
        exponent: -4,
        unit: 0x1001,
    }
}

pub open spec fn contacts_value(physical: (int, int)) -> Value {
    Value {
        report: 1,
        usages: seq![(0x0D, 0x54)],
        flags: 2,
        size: 8,
        count: 1,
        logical: (0, 127),
        physical,
        exponent: 0,
        unit: 0,
    }
}

/// The feature: at most one finger.
pub open spec fn most_contacts_value(physical: (int, int)) -> Value {
    Value {
        report: 2,
        usages: seq![(0x0D, 0x55)],
        flags: 2,
        size: 8,
        count: 1,
        logical: (0, 1),
        physical,
        exponent: 0,
        unit: 0,
    }
}

/// A host that reads the descriptor of a panel learns of one touch screen with
/// one finger, and of two reports. The input report has, in this order, the tip,
/// the identifier, X from 0 to the last pixel of a line, Y from 0 to the last
/// pixel of a column, each with the size of the glass in its direction, the time
/// and the number of fingers; the feature report the greatest number of fingers.
pub proof fn hosts_learn_of_the_panel(panel: Panel, d: [u8; 124])
    requires
        call_ensures(hid::report_descriptor, (panel,), d),
        panel.width >= 1,
        panel.height >= 1,
    ensures
        ({
            let host = knows_nothing().reads(d@);
            let glass = (0int, as_read(panel.height_tenth_mm as int));
            &&& !host.confused
            &&& host.depth == 0
            &&& host.collections == seq![
                (seq![(0x0Dint, 0x04int)], 1int),
                (seq![(0x0D, 0x22)], 2),
            ]
            &&& host.inputs == tip_values() + seq![
                identifier_value(),
                direction_value(0x30, panel.width as int, panel.width_tenth_mm as int),
                direction_value(0x31, panel.height as int, panel.height_tenth_mm as int),
                time_value(glass),
                contacts_value(glass),
            ]
            &&& host.features == seq![most_contacts_value(glass)]
        }),
{
    let items = hid::descriptor_items(panel);
    items_are_valid(panel);
    knows_nothing().reads_the_items(items);
    let a = hid::finger_items();
    let b = hid::identifier_items();
    let c = hid::position_items(panel);
    let e = hid::scan_items();
    let f = hid::feature_items();
    let h0 = knows_nothing();
    h0.told_in_parts(a, b);
    h0.told_in_parts(a + b, c);
    h0.told_in_parts(a + b + c, e);
    h0.told_in_parts(a + b + c + e, f);
    told_of_the_finger();
    let h1 = h0.told_all(a);
    told_of_the_identifier(h1);
    let h2 = h1.told_all(b);
    told_of_the_position(h2, panel);
    let h3 = h2.told_all(c);
    told_of_the_scan(h3);
    let h4 = h3.told_all(e);
    told_of_the_feature(h4);
    let host = h4.told_all(f);
    let glass = (0int, as_read(panel.height_tenth_mm as int));
    assert(host.inputs =~= tip_values() + seq![
        identifier_value(),
        direction_value(0x30, panel.width as int, panel.width_tenth_mm as int),
        direction_value(0x31, panel.height as int, panel.height_tenth_mm as int),
        time_value(glass),
        contacts_value(glass),
    ]);
}

/// For every panel of up to 32768 pixels each way, and up to 3.2 metres, X and Y are
/// read as they are meant: fields 3 and 4 of the input report.
pub proof fn directions_are_read_as_meant(panel: Panel, d: [u8; 124])
    requires
        call_ensures(hid::report_descriptor, (panel,), d),
        1 <= panel.width <= 0x8000,
        1 <= panel.height <= 0x8000,
        panel.width_tenth_mm < 0x8000,
        panel.height_tenth_mm < 0x8000,
    ensures
        ({
            let host = knows_nothing().reads(d@);
            let (x, y) = (host.inputs[3], host.inputs[4]);
            &&& x.usages == seq![(0x01int, 0x30int)]
            &&& x.logical == (0int, panel.width - 1)
            &&& x.physical == (0int, panel.width_tenth_mm as int)
            &&& y.usages == seq![(0x01int, 0x31int)]
            &&& y.logical == (0int, panel.height - 1)
            &&& y.physical == (0int, panel.height_tenth_mm as int)
        }),
{
    hosts_learn_of_the_panel(panel, d);
}

proof fn told_of_the_finger()
    ensures
        knows_nothing().told_all(hid::finger_items()) == (Host {
            page: 0x0D,
            report: 1,
            size: 1,
            count: 7,
            logical: (0, 1),
            depth: 2,
            collections: seq![(seq![(0x0Dint, 0x04int)], 1int), (seq![(0x0D, 0x22)], 2)],
            inputs: tip_values(),
            ..knows_nothing()
        }),
{
    reveal_with_fuel(Host::told_all, 15);
    let host = knows_nothing().told_all(hid::finger_items());
    assert(host.usages =~= seq![]);
    assert(Seq::<(int, int)>::empty().push((0x0D, 0x04)) =~= seq![(0x0D, 0x04)]);
    assert(Seq::<(int, int)>::empty().push((0x0D, 0x22)) =~= seq![(0x0D, 0x22)]);
    assert(Seq::<(int, int)>::empty().push((0x0D, 0x42)) =~= seq![(0x0D, 0x42)]);
    assert(host.collections =~= seq![(seq![(0x0Dint, 0x04int)], 1int), (seq![(0x0D, 0x22)], 2)]);
    assert(host.inputs =~= tip_values());
}

proof fn told_of_the_identifier(h: Host)
    requires
        h.usages.len() == 0,
        h.page == 0x0D,
        h.report == 1,
        h.logical.0 == 0,
        h.physical == (0int, 0int),
        h.exponent == 0,
        h.unit == 0,
    ensures
        h.told_all(hid::identifier_items()) == (Host {
            size: 8,
            count: 1,
            logical: (0, 127),
            usages: seq![],
            inputs: h.inputs.push(identifier_value()),
            ..h
        }),
{
    reveal_with_fuel(Host::told_all, 6);
    assert(h.usages.push((0x0D, 0x51)) =~= seq![(0x0D, 0x51)]);
}

proof fn words_are_read(v: int)
    requires
        0 <= v < 0x1_0000,
    ensures
        signed(crate::bytes::le16(v)) == as_read(v),
{
}

proof fn told_of_the_position(h: Host, panel: Panel)
    requires
        h.usages.len() == 0,
        h.report == 1,
        h.physical == (0int, 0int),
        h.depth > 0,
        panel.width >= 1,
        panel.height >= 1,
    ensures
        h.told_all(hid::position_items(panel)) == (Host {
            page: 0x01,
            usages: seq![],
            size: 16,
            count: 1,
            logical: (0, as_read(panel.height - 1)),
            physical: (0, as_read(panel.height_tenth_mm as int)),
            exponent: 0,
            unit: 0,
            depth: h.depth - 1,
            inputs: h.inputs.push(
                direction_value(0x30, panel.width as int, panel.width_tenth_mm as int),
            ).push(direction_value(0x31, panel.height as int, panel.height_tenth_mm as int)),
            ..h
        }),
{
    reveal_with_fuel(Host::told_all, 19);
    words_are_read(panel.width - 1);
    words_are_read(panel.height - 1);
    words_are_read(panel.width_tenth_mm as int);
    words_are_read(panel.height_tenth_mm as int);
    assert(h.usages.push((0x01, 0x30)) =~= seq![(0x01, 0x30)]);
    assert(Seq::<(int, int)>::empty().push((0x01, 0x31)) =~= seq![(0x01, 0x31)]);
}

proof fn told_of_the_scan(h: Host)
    requires
        h.usages.len() == 0,
        h.report == 1,
        h.logical.0 == 0,
    ensures
        h.told_all(hid::scan_items()) == (Host {
            page: 0x0D,
            usages: seq![],
            size: 8,
            count: 1,
            logical: (0, 127),
            exponent: 0,
            unit: 0,
            inputs: h.inputs.push(time_value(h.physical)).push(contacts_value(h.physical)),
            ..h
        }),
{
    reveal_with_fuel(Host::told_all, 16);
    assert(signed(crate::bytes::le32(65535)) == 65535);
    assert(unsigned(crate::bytes::le16(0x1001)) == 0x1001);
    assert(h.usages.push((0x0D, 0x56)) =~= seq![(0x0D, 0x56)]);
    assert(Seq::<(int, int)>::empty().push((0x0D, 0x54)) =~= seq![(0x0D, 0x54)]);
}

proof fn told_of_the_feature(h: Host)
    requires
        h.usages.len() == 0,
        h.page == 0x0D,
        h.logical.0 == 0,
        h.exponent == 0,
        h.unit == 0,
        h.depth > 0,
    ensures
        h.told_all(hid::feature_items()) == (Host {
            report: 2,
            usages: seq![],
            size: 8,
            count: 1,
            logical: (0, 1),
            depth: h.depth - 1,
            features: h.features.push(most_contacts_value(h.physical)),
            ..h
        }),
{
    reveal_with_fuel(Host::told_all, 8);
    assert(h.usages.push((0x0D, 0x55)) =~= seq![(0x0D, 0x55)]);
}

/// The two bytes at `at` as a number, low byte first.
pub open spec fn word(b: Seq<u8>, at: int) -> int {
    b[at] + 256 * b[at + 1]
}

/// These ten bytes are the input report: its number, and behind it, where the
/// descriptor puts them, the tip, finger 0, the position, the time and one finger.
pub open spec fn carries(b: Seq<u8>, r: TouchReport) -> bool {
    &&& b[0] == 1
    &&& b[1] == if r.tip {
        1int
    } else {
        0
    }
    &&& b[2] == 0
    &&& word(b, 3) == r.x
    &&& word(b, 5) == r.y
    &&& word(b, 7) == r.scan_time
    &&& b[9] == 1
}

/// A report says what it was made of, in the places that the descriptor names. A
/// finger that was lifted is one finger still. The feature report says that there
/// is at most one.
pub proof fn reports_carry_the_finger(r: TouchReport, b: [u8; 10], f: [u8; 2])
    requires
        call_ensures(TouchReport::to_bytes, (&r,), b),
        call_ensures(hid::feature_report, (), f),
    ensures
        carries(b@, r),
        f@ == seq![2u8, 1],
{
}

/// The kind of a report is the high byte of `wValue`: 1, 2 and 3 for input,
/// output and feature.
pub proof fn kinds_are_numbered(high: int, low: int, kind: Option<ReportKind>)
    requires
        0 <= high < 256,
        0 <= low < 256,
        call_ensures(ReportKind::from_wvalue, ((256 * high + low) as u16,), kind),
    ensures
        kind == (if high == 1 {
            Some(ReportKind::Input)
        } else if high == 2 {
            Some(ReportKind::Output)
        } else if high == 3 {
            Some(ReportKind::Feature)
        } else {
            None
        }),
{
    let v = (256 * high + low) as u16;
    assert(v as int / 256 == high);
}

/// GET_REPORT gives the input report 1 and the feature report 2, if there is
/// room, and no other.
pub proof fn reports_are_served(
    kind: ReportKind,
    id: u8,
    last: TouchReport,
    buf: &mut [u8],
    r: Option<usize>,
)
    requires
        call_ensures(hid::serve_report, (kind, id, &last, buf), r),
    ensures
        final(buf)@.len() == old(buf)@.len(),
        kind == ReportKind::Input && id == 1 && old(buf)@.len() >= 10 ==> {
            &&& r == Some(10usize)
            &&& carries(final(buf)@, last)
            &&& final(buf)@.skip(10) == old(buf)@.skip(10)
        },
        kind == ReportKind::Feature && id == 2 && old(buf)@.len() >= 2 ==> {
            &&& r == Some(2usize)
            &&& final(buf)@ == seq![2u8, 1] + old(buf)@.skip(2)
        },
        !(kind == ReportKind::Input && id == 1 && old(buf)@.len() >= 10) && !(kind
            == ReportKind::Feature && id == 2 && old(buf)@.len() >= 2) ==> r is None && final(buf)@
            == old(buf)@,
{
}

/// A state starts without an idle rate, with the cell that it was given.
pub proof fn states_start_without_an_idle_rate(last: &'static ReportCell, s: TouchHidState)
    requires
        call_ensures(TouchHidState::new, (last,), s),
    ensures
        s.idle() == 0,
        s.cell() == *last,
{
}

/// The idle rate is the one that was set; none was, to begin with. The greatest
/// number that a stack can write stands for none too.
pub proof fn idle_rates_are_kept(
    s: &mut TouchHidState,
    t: &mut TouchHidState,
    ms: u32,
    told: u32,
    other: u32,
)
    requires
        call_ensures(TouchHidState::set_idle, (s, ms), ()),
        call_ensures(TouchHidState::set_idle_ms, (t, ms), ()),
        call_ensures(TouchHidState::idle_ms, (&*final(s),), told),
        call_ensures(TouchHidState::idle_ms, (&*final(t),), other),
    ensures
        told == ms,
        ms < 0xffff_ffff ==> other == ms,
        ms == 0xffff_ffff ==> other == 0,
{
}

/// The request goes to the interface with this number.
pub open spec fn goes_to(r: Request, number: u8) -> bool {
    r.recipient == Recipient::Interface && r.index == number
}

/// What a host gets from the touch interface by control requests: its report
/// descriptor, the HID descriptor with version 1.11 and that one's length, the two
/// reports, and the idle rate in steps of 4 ms. Other class requests and other
/// descriptors are refused, and what goes elsewhere is left alone.
pub proof fn hosts_are_answered(
    c: TouchHidClass,
    r: Request,
    last: TouchReport,
    buf: &mut [u8],
    reply: Reply,
)
    requires
        call_ensures(TouchHidClass::answer, (&c, &r, &last, buf), reply),
        old(buf)@.len() >= 10,
        c.descriptor().len() < 65536,
    ensures
        !goes_to(r, c.number()) || r.request_type == RequestType::Vendor || r.request_type
            == RequestType::Reserved || (r.request_type == RequestType::Standard && r.request
            != 6) ==> reply == Reply::Leave && final(buf)@ == old(buf)@,
        goes_to(r, c.number()) && r.request_type == RequestType::Standard && r.request == 6 ==> {
            &&& 0x2200 <= r.value <= 0x22ff ==> reply == Reply::AcceptDescriptor
            &&& 0x2100 <= r.value <= 0x21ff ==> {
                let b = final(buf)@;
                &&& reply == Reply::Accept(9)
                &&& b[0] == 9
                &&& b[1] == 0x21
                &&& word(b, 2) == 0x0111
                &&& b[4] == 0
                &&& b[5] == 1
                &&& b[6] == 0x22
                &&& word(b, 7) == c.descriptor().len()
            }
            &&& r.value < 0x2100 || r.value > 0x22ff ==> reply == Reply::Reject
        },
        goes_to(r, c.number()) && r.request_type == RequestType::Class ==> {
            &&& r.request == 1 && r.value == 0x0101 ==> reply == Reply::Accept(10) && carries(
                final(buf)@,
                last,
            )
            &&& r.request == 1 && r.value == 0x0302 ==> reply == Reply::Accept(2) && final(buf)@
                == seq![2u8, 1] + old(buf)@.skip(2)
            &&& r.request == 1 && r.value != 0x0101 && r.value != 0x0302 ==> reply == Reply::Reject
            &&& r.request == 2 ==> reply == Reply::Accept(1) && final(buf)@[0] == c.idle() / 4
                % 256
            &&& r.request == 2 && c.idle() < 1024 ==> {
                let rate = final(buf)@[0];
                4 * rate <= c.idle() < 4 * rate + 4
            }
            &&& r.request != 1 && r.request != 2 ==> reply == Reply::Reject
        },
        !(reply is Accept) ==> final(buf)@ == old(buf)@,
        reply is Accept ==> final(buf)@.len() == old(buf)@.len() && final(buf)@.skip(
            reply->Accept_0 as int,
        ) == old(buf)@.skip(reply->Accept_0 as int),
{
    let v = r.value as int;
    assert(v / 256 == 0x22 <==> 0x2200 <= v <= 0x22ff);
    assert(v / 256 == 0x21 <==> 0x2100 <= v <= 0x21ff);
    let len = c.descriptor().len() as int;
    assert(len % 256 + 256 * (len / 256 % 256) == len);
}

/// The HID descriptor in the configuration says the same.
pub proof fn configurations_say_the_same(c: TouchHidClass, b: [u8; 7])
    requires
        call_ensures(TouchHidClass::get_configuration_descriptors, (&c,), b),
        c.descriptor().len() < 65536,
    ensures
        word(b@, 0) == 0x0111,
        b@[2] == 0,
        b@[3] == 1,
        b@[4] == 0x22,
        word(b@, 5) == c.descriptor().len(),
{
    let len = c.descriptor().len() as int;
    assert(len % 256 + 256 * (len / 256 % 256) == len);
}

/// The touch interface takes an idle rate, in steps of 4 ms, and nothing else
/// from a host; and tells it again when asked.
pub proof fn idle_rates_come_back(
    c: &mut TouchHidClass,
    set: Request,
    v: Verdict,
    ask: Request,
    last: TouchReport,
    buf: &mut [u8],
    reply: Reply,
    steps: int,
    id: int,
)
    requires
        call_ensures(TouchHidClass::control_out, (c, &set), v),
        call_ensures(TouchHidClass::answer, (&*final(c), &ask, &last, buf), reply),
        old(buf)@.len() >= 10,
        goes_to(ask, old(c).number()),
        ask.request_type == RequestType::Class,
        ask.request == 2,
        0 <= steps < 256,
        0 <= id < 256,
        set.value == 256 * steps + id,
    ensures
        reply == Reply::Accept(1),
        final(c).number() == old(c).number(),
        final(c).descriptor() == old(c).descriptor(),
        final(c).cell() == old(c).cell(),
        goes_to(set, old(c).number()) && set.request_type == RequestType::Class ==> {
            &&& set.request == 10 ==> {
                &&& v == Verdict::Accept
                &&& final(buf)@[0] == steps
                &&& final(c).idle() == 4 * steps
            }
            &&& set.request != 10 ==> v == Verdict::Reject && final(c).idle() == old(c).idle()
        },
        !goes_to(set, old(c).number()) || set.request_type != RequestType::Class ==> v
            == Verdict::Leave && final(c).idle() == old(c).idle(),
{
    assert(set.value as int / 256 == steps);
}

/// A report survives being packed into two words, which hold the column and the row,
/// and the tip and the time.
pub proof fn reports_survive_packing(r: TouchReport, words: (u32, u32), back: TouchReport)
    requires
        call_ensures(hid::pack, (&r,), words),
        call_ensures(hid::unpack, (words.0, words.1), back),
    ensures
        back == r,
        words.0 == 0x1_0000 * r.x + r.y,
        words.1 % 0x1_0000 == r.scan_time,
        words.1 / 0x1_0000 == if r.tip {
            1int
        } else {
            0
        },
{
}

/// What is stored in the cell unpacks to the report; what is loaded from it is what
/// the words that it gave unpack to.
pub proof fn cells_hold_reports(c: ReportCell, r: TouchReport, d: ReportCell, s: TouchReport)
    requires
        call_ensures(ReportCell::store, (&c, &r), ()),
        call_ensures(ReportCell::load, (&d,), s),
    ensures
        exists|xy: u32, rest: u32|
            {
                &&& #[trigger] c.took(xy, rest)
                &&& xy == 0x1_0000 * r.x + r.y
                &&& rest % 0x1_0000 == r.scan_time
                &&& rest >= 0x1_0000 <==> r.tip
            },
        exists|xy: u32, rest: u32|
            {
                &&& #[trigger] d.gave(xy, rest)
                &&& xy == 0x1_0000 * s.x + s.y
                &&& rest % 0x1_0000 == s.scan_time
                &&& rest >= 0x1_0000 <==> s.tip
            },
{
    let (xy, rest) = choose|xy: u32, rest: u32|
        #[trigger] c.took(xy, rest) && hid::unpacked(xy, rest) == r;
    assert(xy == 0x1_0000 * r.x + r.y);
    let (a, b) = choose|a: u32, b: u32| #[trigger] d.gave(a, b) && s == hid::unpacked(a, b);
    assert(a == 0x1_0000 * s.x + s.y);
}

/// GET_REPORT gives the report in the cell, and the feature report; other reports
/// there are none.
pub proof fn the_cell_is_served(
    s: TouchHidState,
    kind: ReportKind,
    id: u8,
    buf: &mut [u8],
    r: Option<usize>,
)
    requires
        call_ensures(TouchHidState::get_report, (&s, kind, id, buf), r),
        old(buf)@.len() >= 10,
    ensures
        kind == ReportKind::Input && id == 1 ==> {
            &&& r == Some(10usize)
            &&& exists|last: TouchReport|
                call_ensures(ReportCell::load, (&s.cell(),), last) && #[trigger] carries(
                    final(buf)@,
                    last,
                )
        },
        kind == ReportKind::Feature && id == 2 ==> r == Some(2usize) && final(buf)@ == seq![2u8, 1]
            + old(buf)@.skip(2),
        !(kind == ReportKind::Input && id == 1) && !(kind == ReportKind::Feature && id == 2)
            ==> r is None && final(buf)@ == old(buf)@,
{
    let last = choose|last: TouchReport|
        call_ensures(ReportCell::load, (&s.cell(),), last) && #[trigger] hid::served(
            kind,
            id,
            last,
            old(buf)@,
            final(buf)@,
            r,
        );
    if kind == ReportKind::Input && id == 1 {
        assert(carries(final(buf)@, last));
    }
}

/// The bytes that go to the interrupt endpoint carry the report.
pub proof fn pushed_reports_carry_the_finger(c: TouchHidClass, r: TouchReport, b: [u8; 10])
    requires
        call_ensures(TouchHidClass::push, (&c, &r), b),
    ensures
        carries(b@, r),
{
}

/// Control requests are answered with the report in the cell, and a report that the
/// endpoint took is put there.
pub proof fn the_cell_answers(
    c: TouchHidClass,
    r: Request,
    buf: &mut [u8],
    reply: Reply,
    d: TouchHidClass,
    report: TouchReport,
)
    requires
        call_ensures(TouchHidClass::control_in, (&c, &r, buf), reply),
        call_ensures(TouchHidClass::pushed, (&d, &report), ()),
        old(buf)@.len() >= 10,
        goes_to(r, c.number()),
        r.request_type == RequestType::Class,
        r.request == 1,
        r.value == 0x0101,
    ensures
        reply == Reply::Accept(10),
        exists|last: TouchReport|
            call_ensures(ReportCell::load, (&c.cell(),), last) && #[trigger] carries(
                final(buf)@,
                last,
            ),
        exists|xy: u32, rest: u32|
            {
                &&& #[trigger] d.cell().took(xy, rest)
                &&& xy == 0x1_0000 * report.x + report.y
                &&& rest % 0x1_0000 == report.scan_time
                &&& rest >= 0x1_0000 <==> report.tip
            },
{
    let last = choose|last: TouchReport|
        call_ensures(ReportCell::load, (&c.cell(),), last) && replies(
            #[trigger] answer_to(c.number(), c.descriptor().len() as int, c.idle(), last, r),
            old(buf)@,
            final(buf)@,
            reply,
        );
    assert(carries(final(buf)@, last));
    let (xy, rest) = choose|xy: u32, rest: u32|
        #[trigger] d.cell().took(xy, rest) && hid::unpacked(xy, rest) == report;
    assert(xy == 0x1_0000 * report.x + report.y);
}

/// A class starts with the interface, the descriptor and the cell that it was given,
/// and without an idle rate.
pub proof fn classes_keep_what_they_were_given(
    interface: u8,
    descriptor: &'static [u8],
    last: &'static ReportCell,
    c: TouchHidClass,
    d: &'static [u8],
)
    requires
        call_ensures(TouchHidClass::new, (interface, descriptor, last), c),
        call_ensures(TouchHidClass::report_descriptor, (&c,), d),
    ensures
        c.number() == interface,
        c.descriptor() == descriptor@,
        c.cell() == *last,
        c.idle() == 0,
        d@ == descriptor@,
{
}

} // verus!
