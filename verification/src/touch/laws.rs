//! What holds of the touch screen for every panel and every finger.

use vstd::prelude::*;

use crate::bytes;
use crate::touch::descriptor::{self, Field, Item, Reading};
use crate::touch::hid::{
    self, Panel, TouchReport, FEATURE_REPORT_LEN, MAX_CONTACTS_REPORT_ID, TOUCH_REPORT_ID,
    TOUCH_REPORT_LEN,
};

verus! {

/// The descriptor is well formed: a host reads out of its bytes the items that
/// it is made of, and ends exactly at the last byte.
pub proof fn the_descriptor_is_well_formed(panel: Panel)
    ensures
        descriptor::decoded(descriptor::encoded(hid::descriptor_items(panel))) == Some(
            hid::descriptor_items(panel),
        ),
{
    let items = hid::descriptor_items(panel);
    assert forall|i: int| 0 <= i < items.len() implies (#[trigger] items[i]).valid() by {
        let a = hid::finger_items();
        let b = hid::identifier_items();
        let c = hid::position_items(panel);
        let d = hid::scan_items();
        let e = hid::feature_items();
        assert(forall|k: int| 0 <= k < a.len() ==> (#[trigger] a[k]).valid());
        assert(forall|k: int| 0 <= k < b.len() ==> (#[trigger] b[k]).valid());
        assert(forall|k: int| 0 <= k < c.len() ==> (#[trigger] c[k]).valid());
        assert(forall|k: int| 0 <= k < d.len() ==> (#[trigger] d[k]).valid());
        assert(forall|k: int| 0 <= k < e.len() ==> (#[trigger] e[k]).valid());
        let (p, q, r) = (a.len() + b.len(), a.len() + b.len() + c.len(), items.len() - e.len());
        if i < a.len() {
            assert(items[i] == a[i]);
        } else if i < p {
            assert(items[i] == b[i - a.len()]);
        } else if i < q {
            assert(items[i] == c[i - p]);
        } else if i < r {
            assert(items[i] == d[i - q]);
        } else {
            assert(items[i] == e[i - r]);
        }
    }
    descriptor::items_read_back(items);
}

/// A field of a report.
pub open spec fn field(report_id: u8, size: int, count: int) -> Field {
    Field { report_id: report_id as int, size, count }
}

/// What a host makes of the whole descriptor.
pub open spec fn reading(panel: Panel) -> Reading {
    descriptor::start().after_all(hid::descriptor_items(panel))
}

/// Every collection that is opened is closed, and there are two. The usages
/// that hosts require are there, in this order. The fields of the input report
/// fill the bytes behind its ID, and that of the feature report likewise.
pub proof fn the_descriptor_describes_the_reports(panel: Panel)
    ensures
        reading(panel).depth == 0,
        reading(panel).collections == 2,
        !reading(panel).unbalanced,
        reading(panel).usages == seq![
            (0x0Dint, 0x04int),
            (0x0D, 0x22),
            (0x0D, 0x42),
            (0x0D, 0x51),
            (0x01, 0x30),
            (0x01, 0x31),
            (0x0D, 0x56),
            (0x0D, 0x54),
            (0x0D, 0x55),
        ],
        descriptor::total_bits(reading(panel).inputs) == 8 * (TOUCH_REPORT_LEN - 1),
        forall|i: int|
            0 <= i < reading(panel).inputs.len() ==> (#[trigger] reading(panel).inputs[i]).report_id
                == TOUCH_REPORT_ID,
        reading(panel).features == seq![
            field(MAX_CONTACTS_REPORT_ID, 8, FEATURE_REPORT_LEN - 1),
        ],
{
    let a = hid::finger_items();
    let b = hid::identifier_items();
    let c = hid::position_items(panel);
    let d = hid::scan_items();
    let e = hid::feature_items();
    let start = descriptor::start();
    start.read_in_parts(a, b);
    start.read_in_parts(a + b, c);
    start.read_in_parts(a + b + c, d);
    start.read_in_parts(a + b + c + d, e);
    let ra = start.after_all(a);
    reading_the_finger();
    reading_the_identifier(ra);
    let rb = ra.after_all(b);
    reading_the_position(rb, panel);
    let rc = rb.after_all(c);
    reading_the_scan(rc);
    let rd = rc.after_all(d);
    reading_the_feature(rd);
    let all = reading(panel);
    assert(all.inputs =~= seq![
        field(TOUCH_REPORT_ID, 1, 1),
        field(TOUCH_REPORT_ID, 1, 7),
        field(TOUCH_REPORT_ID, 8, 1),
        field(TOUCH_REPORT_ID, 16, 1),
        field(TOUCH_REPORT_ID, 16, 1),
        field(TOUCH_REPORT_ID, 16, 1),
        field(TOUCH_REPORT_ID, 8, 1),
    ]);
    let id = TOUCH_REPORT_ID as int;
    let none = Seq::<Field>::empty();
    let tip = none.push(field(TOUCH_REPORT_ID, 1, 1));
    let padded = tip.push(field(TOUCH_REPORT_ID, 1, 7));
    let identified = padded.push(field(TOUCH_REPORT_ID, 8, 1));
    let x = identified.push(field(TOUCH_REPORT_ID, 16, 1));
    let y = x.push(field(TOUCH_REPORT_ID, 16, 1));
    let time = y.push(field(TOUCH_REPORT_ID, 16, 1));
    descriptor::one_more_field(none, id, 1, 1);
    descriptor::one_more_field(tip, id, 1, 7);
    descriptor::one_more_field(padded, id, 8, 1);
    descriptor::one_more_field(identified, id, 16, 1);
    descriptor::one_more_field(x, id, 16, 1);
    descriptor::one_more_field(y, id, 16, 1);
    descriptor::one_more_field(time, id, 8, 1);
    assert(all.inputs =~= time.push(field(TOUCH_REPORT_ID, 8, 1)));
    assert(all.usages =~= seq![
        (0x0Dint, 0x04int),
        (0x0D, 0x22),
        (0x0D, 0x42),
        (0x0D, 0x51),
        (0x01, 0x30),
        (0x01, 0x31),
        (0x0D, 0x56),
        (0x0D, 0x54),
        (0x0D, 0x55),
    ]);
}

proof fn reading_the_finger()
    ensures
        descriptor::start().after_all(hid::finger_items()) == (Reading {
            page: 0x0D,
            report_id: TOUCH_REPORT_ID as int,
            report_size: 1,
            report_count: 7,
            depth: 2,
            collections: 2,
            unbalanced: false,
            usages: seq![(0x0Dint, 0x04int), (0x0D, 0x22), (0x0D, 0x42)],
            inputs: seq![field(TOUCH_REPORT_ID, 1, 1), field(TOUCH_REPORT_ID, 1, 7)],
            features: seq![],
        }),
{
    reveal_with_fuel(Reading::after_all, 15);
    assert(descriptor::start().after_all(hid::finger_items()) =~= (Reading {
        page: 0x0D,
        report_id: TOUCH_REPORT_ID as int,
        report_size: 1,
        report_count: 7,
        depth: 2,
        collections: 2,
        unbalanced: false,
        usages: seq![(0x0Dint, 0x04int), (0x0D, 0x22), (0x0D, 0x42)],
        inputs: seq![field(TOUCH_REPORT_ID, 1, 1), field(TOUCH_REPORT_ID, 1, 7)],
        features: seq![],
    }));
}

proof fn reading_the_identifier(r: Reading)
    ensures
        r.after_all(hid::identifier_items()) == (Reading {
            report_size: 8,
            report_count: 1,
            usages: r.usages.push((r.page, 0x51)),
            inputs: r.inputs.push(Field { report_id: r.report_id, size: 8, count: 1 }),
            ..r
        }),
{
    reveal_with_fuel(Reading::after_all, 6);
}

proof fn reading_the_position(r: Reading, panel: Panel)
    requires
        r.depth > 0,
    ensures
        r.after_all(hid::position_items(panel)) == (Reading {
            page: 0x01,
            report_size: 16,
            report_count: 1,
            depth: r.depth - 1,
            usages: r.usages.push((0x01int, 0x30int)).push((0x01int, 0x31int)),
            inputs: r.inputs.push(Field { report_id: r.report_id, size: 16, count: 1 }).push(
                Field { report_id: r.report_id, size: 16, count: 1 },
            ),
            ..r
        }),
{
    reveal_with_fuel(Reading::after_all, 19);
}

proof fn reading_the_scan(r: Reading)
    ensures
        r.after_all(hid::scan_items()) == (Reading {
            page: 0x0D,
            report_size: 8,
            report_count: 1,
            usages: r.usages.push((0x0Dint, 0x56int)).push((0x0Dint, 0x54int)),
            inputs: r.inputs.push(Field { report_id: r.report_id, size: 16, count: 1 }).push(
                Field { report_id: r.report_id, size: 8, count: 1 },
            ),
            ..r
        }),
{
    reveal_with_fuel(Reading::after_all, 16);
}

proof fn reading_the_feature(r: Reading)
    requires
        r.depth > 0,
    ensures
        r.after_all(hid::feature_items()) == (Reading {
            report_id: MAX_CONTACTS_REPORT_ID as int,
            report_size: 8,
            report_count: 1,
            depth: r.depth - 1,
            usages: r.usages.push((r.page, 0x55)),
            features: r.features.push(field(MAX_CONTACTS_REPORT_ID, 8, 1)),
            ..r
        }),
{
    reveal_with_fuel(Reading::after_all, 8);
}

/// The descriptor carries the panel's geometry: the last pixel of a line and
/// of a column, and the size of the glass.
pub proof fn the_descriptor_carries_the_geometry(panel: Panel)
    ensures
        ({
            let items = hid::descriptor_items(panel);
            &&& items.contains(
                Item { tag: descriptor::LOGICAL_MAXIMUM, data: bytes::le16(panel.width - 1) },
            )
            &&& items.contains(
                Item { tag: descriptor::LOGICAL_MAXIMUM, data: bytes::le16(panel.height - 1) },
            )
            &&& items.contains(
                Item {
                    tag: descriptor::PHYSICAL_MAXIMUM,
                    data: bytes::le16(panel.width_tenth_mm as int),
                },
            )
            &&& items.contains(
                Item {
                    tag: descriptor::PHYSICAL_MAXIMUM,
                    data: bytes::le16(panel.height_tenth_mm as int),
                },
            )
        }),
{
    let items = hid::descriptor_items(panel);
    let before: int = hid::finger_items().len() as int + hid::identifier_items().len();
    let position = hid::position_items(panel);
    assert(items[before + 3] == position[3]);
    assert(items[before + 5] == position[5]);
    assert(items[before + 12] == position[12]);
    assert(items[before + 13] == position[13]);
}

/// Where the finger is, as the controller is read time after time, and when.
pub struct Read {
    pub point: Option<(u16, u16)>,
    pub scan_time: u16,
}

/// Where the finger was last.
pub open spec fn position_after(reads: Seq<Read>) -> Option<(u16, u16)> {
    if reads.len() == 0 {
        None
    } else {
        reads.last().point
    }
}

/// The reports that a tracker sends for the reads.
pub open spec fn reports(reads: Seq<Read>) -> Seq<TouchReport>
    decreases reads.len(),
{
    if reads.len() == 0 {
        seq![]
    } else {
        let earlier = reads.drop_last();
        let read = reads.last();
        match hid::worth_sending(position_after(earlier), read.point, read.scan_time) {
            Some(report) => reports(earlier).push(report),
            None => reports(earlier),
        }
    }
}

/// The host's picture is the finger's: after any reads, the last report says
/// where the finger is, or that it was lifted; without one there was no finger.
pub proof fn the_last_report_is_where_the_finger_is(reads: Seq<Read>)
    ensures
        match position_after(reads) {
            Some((x, y)) => reports(reads).len() > 0 && reports(reads).last().tip && reports(
                reads,
            ).last().x == x && reports(reads).last().y == y,
            None => reports(reads).len() > 0 ==> !reports(reads).last().tip,
        },
    decreases reads.len(),
{
    if reads.len() > 0 {
        the_last_report_is_where_the_finger_is(reads.drop_last());
    }
}

/// There is exactly one lift-off for each touch, where the finger was: a
/// lift-off always follows a report of a finger at the same place.
pub proof fn every_lift_off_follows_a_touch(reads: Seq<Read>)
    ensures
        forall|i: int|
            0 <= i < reports(reads).len() && !(#[trigger] reports(reads)[i]).tip ==> i > 0
                && reports(reads)[i - 1].tip && reports(reads)[i - 1].x == reports(reads)[i].x
                && reports(reads)[i - 1].y == reports(reads)[i].y,
    decreases reads.len(),
{
    if reads.len() > 0 {
        let earlier = reads.drop_last();
        every_lift_off_follows_a_touch(earlier);
        the_last_report_is_where_the_finger_is(earlier);
        assert forall|i: int|
            0 <= i < reports(reads).len() && !(#[trigger] reports(reads)[i]).tip implies i > 0
            && reports(reads)[i - 1].tip && reports(reads)[i - 1].x == reports(reads)[i].x
            && reports(reads)[i - 1].y == reports(reads)[i].y by {
            if i < reports(earlier).len() {
                assert(reports(reads)[i] == reports(earlier)[i]);
            }
        }
    }
}

/// A finger that does not move, or is not there, is not reported again.
pub proof fn what_does_not_change_is_not_reported(
    last: Option<(u16, u16)>,
    point: Option<(u16, u16)>,
    scan_time: u16,
)
    ensures
        hid::worth_sending(last, point, scan_time) is None <==> last == point,
{
}

} // verus!
