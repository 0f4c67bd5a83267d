//! HID report descriptors: items, their bytes, and what a host makes of them.

use vstd::prelude::*;

verus! {

/// Tags of the short items in use (HID 1.11 section 6.2.2).
pub const USAGE_PAGE: u8 = 0x04;
pub const USAGE: u8 = 0x08;
pub const LOGICAL_MINIMUM: u8 = 0x14;
pub const LOGICAL_MAXIMUM: u8 = 0x24;
pub const PHYSICAL_MINIMUM: u8 = 0x34;
pub const PHYSICAL_MAXIMUM: u8 = 0x44;
pub const UNIT_EXPONENT: u8 = 0x54;
pub const UNIT: u8 = 0x64;
pub const REPORT_SIZE: u8 = 0x74;
pub const INPUT: u8 = 0x80;
pub const REPORT_ID: u8 = 0x84;
pub const REPORT_COUNT: u8 = 0x94;
pub const COLLECTION: u8 = 0xA0;
pub const FEATURE: u8 = 0xB0;
pub const END_COLLECTION: u8 = 0xC0;

/// One short item: its tag and its data, low byte first.
#[verifier::ext_equal]
pub struct Item {
    pub tag: u8,
    pub data: Seq<u8>,
}

impl Item {
    /// The tag leaves the two bits free that give the length, which is one that
    /// they can give.
    pub open spec fn valid(self) -> bool {
        &&& self.tag % 4 == 0
        &&& self.data.len() == 0 || self.data.len() == 1 || self.data.len() == 2
            || self.data.len() == 4
    }

    /// The two bits for the length: four bytes are written as three.
    pub open spec fn size_code(self) -> int {
        if self.data.len() == 4 {
            3
        } else {
            self.data.len() as int
        }
    }

    pub open spec fn bytes(self) -> Seq<u8> {
        seq![(self.tag + self.size_code()) as u8] + self.data
    }
}

/// An item with one byte of data.
pub open spec fn item(tag: u8, data: u8) -> Item {
    Item { tag, data: seq![data] }
}

/// The bytes of the items, one behind the other.
pub open spec fn encoded(items: Seq<Item>) -> Seq<u8>
    decreases items.len(),
{
    if items.len() == 0 {
        seq![]
    } else {
        items[0].bytes() + encoded(items.skip(1))
    }
}

/// How many bytes of data follow this first byte of an item.
pub open spec fn data_length(prefix: u8) -> int {
    if prefix % 4 == 3 {
        4
    } else {
        (prefix % 4) as int
    }
}

/// The items that a host reads out of the bytes, or nothing if they end within
/// an item.
pub open spec fn decoded(bytes: Seq<u8>) -> Option<Seq<Item>>
    decreases bytes.len(),
{
    if bytes.len() == 0 {
        Some(seq![])
    } else {
        let n = 1 + data_length(bytes[0]);
        if bytes.len() < n {
            None
        } else {
            match decoded(bytes.skip(n)) {
                Some(rest) => Some(
                    seq![
                        Item { tag: (bytes[0] - bytes[0] % 4) as u8, data: bytes.subrange(1, n) },
                    ] + rest,
                ),
                None => None,
            }
        }
    }
}

/// A host reads out of the bytes the items that were written.
pub proof fn items_read_back(items: Seq<Item>)
    requires
        forall|i: int| 0 <= i < items.len() ==> (#[trigger] items[i]).valid(),
    ensures
        decoded(encoded(items)) == Some(items),
    decreases items.len(),
{
    if items.len() > 0 {
        let rest = items.skip(1);
        assert forall|i: int| 0 <= i < rest.len() implies (#[trigger] rest[i]).valid() by {
            assert(rest[i] == items[i + 1]);
        }
        items_read_back(rest);
        let first = items[0];
        assert(first.valid());
        let bytes = encoded(items);
        let n = 1 + data_length(bytes[0]);
        assert(bytes[0] == first.tag + first.size_code());
        assert(n == first.bytes().len());
        assert(bytes.skip(n) =~= encoded(rest));
        assert(bytes.subrange(1, n) =~= first.data);
        let read = Item { tag: (bytes[0] - bytes[0] % 4) as u8, data: bytes.subrange(1, n) };
        assert(read =~= first);
        assert(seq![read] + rest =~= items);
    } else {
        assert(items =~= Seq::<Item>::empty());
    }
}

/// The bytes of two runs of items are those of the one and then of the other.
pub proof fn encoded_in_parts(a: Seq<Item>, b: Seq<Item>)
    ensures
        encoded(a + b) == encoded(a) + encoded(b),
    decreases a.len(),
{
    if a.len() == 0 {
        assert(a + b =~= b);
        assert(encoded(a) + encoded(b) =~= encoded(b));
    } else {
        encoded_in_parts(a.skip(1), b);
        assert((a + b).skip(1) =~= a.skip(1) + b);
        assert(encoded(a + b) =~= encoded(a) + encoded(b));
    }
}

/// Some values of the same size in a report.
pub struct Field {
    pub report_id: int,
    /// Bits of one value.
    pub size: int,
    /// Values.
    pub count: int,
}

/// What a host has made of a descriptor so far.
#[verifier::ext_equal]
pub struct Reading {
    pub page: int,
    pub report_id: int,
    pub report_size: int,
    pub report_count: int,
    /// Collections opened and not yet closed.
    pub depth: int,
    /// Collections opened.
    pub collections: int,
    /// A collection was closed that was not open.
    pub unbalanced: bool,
    /// Usages, each with its page.
    pub usages: Seq<(int, int)>,
    /// Fields of the input reports.
    pub inputs: Seq<Field>,
    /// Fields of the feature reports.
    pub features: Seq<Field>,
}

/// Nothing read yet.
pub open spec fn start() -> Reading {
    Reading {
        page: 0,
        report_id: 0,
        report_size: 0,
        report_count: 0,
        depth: 0,
        collections: 0,
        unbalanced: false,
        usages: seq![],
        inputs: seq![],
        features: seq![],
    }
}

impl Reading {
    /// The field that a main item would declare now.
    pub open spec fn field(self) -> Field {
        Field { report_id: self.report_id, size: self.report_size, count: self.report_count }
    }

    /// After one more item.
    pub open spec fn after(self, i: Item) -> Reading {
        let value = i.data[0] as int;
        if i.tag == USAGE_PAGE {
            Reading { page: value, ..self }
        } else if i.tag == USAGE {
            Reading { usages: self.usages.push((self.page, value)), ..self }
        } else if i.tag == REPORT_ID {
            Reading { report_id: value, ..self }
        } else if i.tag == REPORT_SIZE {
            Reading { report_size: value, ..self }
        } else if i.tag == REPORT_COUNT {
            Reading { report_count: value, ..self }
        } else if i.tag == COLLECTION {
            Reading { depth: self.depth + 1, collections: self.collections + 1, ..self }
        } else if i.tag == END_COLLECTION {
            Reading {
                depth: self.depth - 1,
                unbalanced: self.unbalanced || self.depth <= 0,
                ..self
            }
        } else if i.tag == INPUT {
            Reading {
                inputs: self.inputs.push(self.field()),
                ..self
            }
        } else if i.tag == FEATURE {
            Reading {
                features: self.features.push(self.field()),
                ..self
            }
        } else {
            self
        }
    }

    /// After several items.
    pub open spec fn after_all(self, items: Seq<Item>) -> Reading
        decreases items.len(),
    {
        if items.len() == 0 {
            self
        } else {
            self.after(items[0]).after_all(items.skip(1))
        }
    }

    /// Reading two runs of items is reading the one and then the other.
    pub proof fn read_in_parts(self, a: Seq<Item>, b: Seq<Item>)
        ensures
            self.after_all(a + b) == self.after_all(a).after_all(b),
        decreases a.len(),
    {
        if a.len() == 0 {
            assert(a + b =~= b);
        } else {
            self.after(a[0]).read_in_parts(a.skip(1), b);
            assert((a + b).skip(1) =~= a.skip(1) + b);
        }
    }
}

/// The bits of the fields together.
pub open spec fn total_bits(fields: Seq<Field>) -> int
    decreases fields.len(),
{
    if fields.len() == 0 {
        0
    } else {
        total_bits(fields.drop_last()) + fields.last().size * fields.last().count
    }
}

/// One more field adds its bits.
pub proof fn one_more_field(fields: Seq<Field>, report_id: int, size: int, count: int)
    ensures
        total_bits(fields.push(Field { report_id, size, count })) == total_bits(fields) + size
            * count,
{
    assert(fields.push(Field { report_id, size, count }).drop_last() =~= fields);
}

} // verus!
