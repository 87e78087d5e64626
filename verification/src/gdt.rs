//! The segment table: a null entry, and flat code and data segments.
use vstd::prelude::*;

verus! {

/// Selector of the kernel's code segment.
pub const KERNEL_CS: u64 = 0x08;

/// An entry of the table.
#[derive(Clone, Copy, PartialEq, Eq, Structural, Debug)]
pub struct GdtEntry {
    pub limit_low: u16,
    pub base_low: u16,
    pub base_mid: u8,
    pub access: u8,
    pub granularity: u8,
    pub base_high: u8,
}

impl GdtEntry {
    /// The entry as the processor reads it: eight bytes, the lowest first.
    pub open spec fn bytes(self) -> Seq<u8> {
        seq![
            (self.limit_low % 256) as u8,
            (self.limit_low / 256) as u8,
            (self.base_low % 256) as u8,
            (self.base_low / 256) as u8,
            self.base_mid,
            self.access,
            self.granularity,
            self.base_high,
        ]
    }

    /// The entry that stands for nothing.
    pub fn null() -> (e: GdtEntry)
        ensures
            e.bytes() == seq![0u8, 0u8, 0u8, 0u8, 0u8, 0u8, 0u8, 0u8],
    {
        GdtEntry {
            limit_low: 0,
            base_low: 0,
            base_mid: 0,
            access: 0,
            granularity: 0,
            base_high: 0,
        }
    }

    /// Code of 64 bits, for the kernel.
    pub fn code64() -> (e: GdtEntry)
        ensures
            e.bytes() == seq![0xFFu8, 0xFFu8, 0u8, 0u8, 0u8, 0x9Au8, 0x20u8, 0u8],
    {
        GdtEntry {
            limit_low: 0xFFFF,
            base_low: 0,
            base_mid: 0,
            access: 0x9A,
            granularity: 0x20,
            base_high: 0,
        }
    }

    /// Data, for the kernel.
    pub fn data64() -> (e: GdtEntry)
        ensures
            e.bytes() == seq![0xFFu8, 0xFFu8, 0u8, 0u8, 0u8, 0x92u8, 0u8, 0u8],
    {
        GdtEntry {
            limit_low: 0xFFFF,
            base_low: 0,
            base_mid: 0,
            access: 0x92,
            granularity: 0x00,
            base_high: 0,
        }
    }

    /// The entry as the processor reads it.
    pub fn to_bytes(&self) -> (b: [u8; 8])
        ensures
            b@ == self.bytes(),
    {
        let b: [u8; 8] = [
            (self.limit_low % 256) as u8,
            (self.limit_low / 256) as u8,
            (self.base_low % 256) as u8,
            (self.base_low / 256) as u8,
            self.base_mid,
            self.access,
            self.granularity,
            self.base_high,
        ];
        assert(b@ =~= self.bytes());
        b
    }
}

/// What the processor is told of the table: its size less one, and its address.
#[derive(Clone, Copy, PartialEq, Eq, Structural, Debug)]
pub struct Gdtr {
    pub size: u16,
    pub offset: u64,
}

/// The table's bytes: the null entry, then code at the kernel's selector, then
/// data.
pub open spec fn table() -> Seq<u8> {
    seq![0u8, 0u8, 0u8, 0u8, 0u8, 0u8, 0u8, 0u8] + seq![
        0xFFu8,
        0xFFu8,
        0u8,
        0u8,
        0u8,
        0x9Au8,
        0x20u8,
        0u8,
    ] + seq![0xFFu8, 0xFFu8, 0u8, 0u8, 0u8, 0x92u8, 0u8, 0u8]
}

/// The table, and what the processor is told of it where it lies at `offset`.
pub fn init(offset: u64) -> (r: ([GdtEntry; 3], Gdtr))
    ensures
        r.0@[0].bytes() + r.0@[1].bytes() + r.0@[2].bytes() == table(),
        r.0@[KERNEL_CS as int / 8].bytes()[5] == 0x9A,
        r.1 == (Gdtr { size: (table().len() - 1) as u16, offset }),
{
    let entries: [GdtEntry; 3] = [GdtEntry::null(), GdtEntry::code64(), GdtEntry::data64()];
    assert(entries@[0].bytes() + entries@[1].bytes() + entries@[2].bytes() =~= table());
    (entries, Gdtr { size: 23, offset })
}

/// The table as the processor reads it: an empty entry first; at the kernel's selector a
/// code segment of 64 bits that is present, for the kernel alone and readable; behind it a
/// data segment that is present, for the kernel alone and writable. Both begin at address
/// zero.
pub proof fn law_segments(i: int)
    requires
        0 <= i < 8,
    ensures
        table().len() == 24,
        table()[i] == 0,
        ({
            let access = table()[KERNEL_CS + 5] as int;
            access / 128 == 1 && (access / 32) % 4 == 0 && (access / 16) % 2 == 1 && (access / 8)
                % 2 == 1 && (access / 2) % 2 == 1
        }),
        (table()[KERNEL_CS + 6] / 32) % 2 == 1,
        ({
            let access = table()[KERNEL_CS + 8 + 5] as int;
            access / 128 == 1 && (access / 32) % 4 == 0 && (access / 16) % 2 == 1 && (access / 8)
                % 2 == 0 && (access / 2) % 2 == 1
        }),
        2 <= i < 5 || i == 7 ==> table()[KERNEL_CS + i] == 0 && table()[KERNEL_CS + 8 + i] == 0,
        KERNEL_CS == 8,
{
}

} // verus!
