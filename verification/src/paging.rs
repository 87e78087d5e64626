//! Page tables: the walk that maps one page, step by step. The walk asks for
//! words of memory and for fresh tables, and says what to write.
use vstd::prelude::*;
use crate::vmm;
use crate::vmm::DirectMap;

verus! {

/// The entry is in use.
pub const PRESENT: u64 = 1;

/// The page may be written.
pub const WRITE: u64 = 2;

/// User code may use the page.
pub const USER: u64 = 4;

/// The page is not cached.
pub const NOCACHE: u64 = 16;

/// The bits of an entry that hold an address.
pub const ADDRESS: u64 = 0x000F_FFFF_FFFF_F000;

/// The index into the table of a level (4 at the top, 1 at the bottom) for an
/// address.
pub open spec fn index_at(virt: u64, level: int) -> int {
    if level == 4 {
        (virt as int / 0x80_0000_0000) % 512
    } else if level == 3 {
        (virt as int / 0x4000_0000) % 512
    } else if level == 2 {
        (virt as int / 0x20_0000) % 512
    } else {
        (virt as int / 0x1000) % 512
    }
}

/// The index into the table of a level for an address.
pub fn table_index(virt: u64, level: u8) -> (i: u64)
    requires
        1 <= level <= 4,
    ensures
        i == index_at(virt, level as int),
        i < 512,
{
    if level == 4 {
        virt / 0x80_0000_0000 % 512
    } else if level == 3 {
        virt / 0x4000_0000 % 512
    } else if level == 2 {
        virt / 0x20_0000 % 512
    } else {
        virt / 0x1000 % 512
    }
}

/// Where the entry for an address lies in a table.
pub open spec fn entry_addr(table: u64, virt: u64, level: int) -> int {
    table + index_at(virt, level) * 8
}

/// The entry is in use.
pub open spec fn is_present(e: u64) -> bool {
    e & PRESENT != 0
}

/// The address in an entry.
pub open spec fn address_in(e: u64) -> u64 {
    e & ADDRESS
}

/// An entry for a table that user code could not walk through, on a walk whose
/// tables user code is to walk.
pub open spec fn lacks_user(e: u64, link: u64) -> bool {
    link & USER != 0 && e & USER == 0
}

/// What a walk does next.
#[derive(Clone, Copy, PartialEq, Eq, Structural, Debug)]
pub enum WalkStep {
    /// The word at a physical address is wanted.
    Read(u64),
    /// A table is wanted: a fresh page, filled with zeros.
    Fresh,
    /// A word is to be written at a physical address.
    Store { addr: u64, value: u64 },
    /// The processor is to forget what it knows of an address.
    Forget(u64),
    Done,
}

/// The outcome of a step.
#[derive(Clone, Copy, PartialEq, Eq, Structural, Debug)]
pub enum WalkEvent {
    Entry(u64),
    /// The physical address of the fresh table.
    Table(u64),
    Stored,
}

/// Where in a level the walk is.
#[derive(Clone, Copy, PartialEq, Eq, Structural, Debug)]
pub enum Stage {
    /// Waits for the entry.
    Look,
    /// Waits for a fresh table.
    Grow,
    /// Waits until the table below is linked.
    Linked(u64),
    /// Waits until the page itself is entered.
    Leaf,
    Done,
}

/// A walk down the tables that maps a page.
#[derive(Clone, Copy, PartialEq, Eq, Structural, Debug)]
pub struct Walk {
    pub virt: u64,
    /// The entry for the page.
    pub leaf: u64,
    /// The bits of the entries for tables.
    pub link: u64,
    /// Whether the tables are in use, so that the processor must be told.
    pub live: bool,
    pub level: u8,
    /// The physical address of the current table.
    pub table: u64,
    pub stage: Stage,
}

impl Walk {
    pub open spec fn wf(self) -> bool {
        &&& 1 <= self.level <= 4
        &&& self.table + 4088 <= u64::MAX
        &&& self.stage is Look || self.stage is Grow || self.stage is Linked ==> self.level >= 2
        &&& self.stage matches Stage::Linked(p) ==> p + 4088 <= u64::MAX
    }

    /// At a table: its entry is wanted, or, at the bottom, written.
    pub open spec fn arrived(self, table: u64, level: int) -> (Walk, WalkStep) {
        let w = Walk { table, level: level as u8, ..self };
        if level == 1 {
            (
                Walk { stage: Stage::Leaf, ..w },
                WalkStep::Store { addr: entry_addr(table, self.virt, 1) as u64, value: self.leaf },
            )
        } else {
            (
                Walk { stage: Stage::Look, ..w },
                WalkStep::Read(entry_addr(table, self.virt, level) as u64),
            )
        }
    }

    /// The walk after the outcome of its last step.
    pub open spec fn after(self, e: WalkEvent) -> (Walk, WalkStep) {
        match (self.stage, e) {
            (Stage::Look, WalkEvent::Entry(e)) => if is_present(e) {
                if lacks_user(e, self.link) {
                    (
                        Walk { stage: Stage::Linked(address_in(e)), ..self },
                        WalkStep::Store {
                            addr: entry_addr(self.table, self.virt, self.level as int) as u64,
                            value: e | self.link,
                        },
                    )
                } else {
                    self.arrived(address_in(e), self.level - 1)
                }
            } else {
                (Walk { stage: Stage::Grow, ..self }, WalkStep::Fresh)
            },
            (Stage::Grow, WalkEvent::Table(p)) => (
                Walk { stage: Stage::Linked(p), ..self },
                WalkStep::Store {
                    addr: entry_addr(self.table, self.virt, self.level as int) as u64,
                    value: p | self.link,
                },
            ),
            (Stage::Linked(p), WalkEvent::Stored) => self.arrived(p, self.level - 1),
            (Stage::Leaf, WalkEvent::Stored) => (
                Walk { stage: Stage::Done, ..self },
                if self.live {
                    WalkStep::Forget(self.virt)
                } else {
                    WalkStep::Done
                },
            ),
            _ => (self, WalkStep::Done),
        }
    }

    /// The outcome is one of what the walk waits for.
    pub open spec fn expects(self, e: WalkEvent) -> bool {
        match self.stage {
            Stage::Look => e is Entry,
            Stage::Grow => e matches WalkEvent::Table(p) && p + 4088 <= u64::MAX,
            Stage::Linked(_) => e is Stored,
            Stage::Leaf => e is Stored,
            Stage::Done => false,
        }
    }

    fn arrive(&mut self, table: u64, level: u8) -> (step: WalkStep)
        requires
            1 <= level <= 4,
            table + 4088 <= u64::MAX,
        ensures
            final(self).wf(),
            (*final(self), step) == old(self).arrived(table, level as int),
    {
        self.table = table;
        self.level = level;
        let addr: u64 = table + table_index(self.virt, level) * 8;
        if level == 1 {
            self.stage = Stage::Leaf;
            WalkStep::Store { addr, value: self.leaf }
        } else {
            self.stage = Stage::Look;
            WalkStep::Read(addr)
        }
    }

    /// Takes the outcome of the last step.
    pub fn step(&mut self, event: WalkEvent) -> (step: WalkStep)
        requires
            old(self).wf(),
            old(self).expects(event),
        ensures
            final(self).wf(),
            (*final(self), step) == old(self).after(event),
    {
        match (self.stage, event) {
            (Stage::Look, WalkEvent::Entry(e)) => {
                if e & PRESENT != 0 {
                    let table: u64 = e & ADDRESS;
                    assert(table + 4088 <= u64::MAX) by {
                        lemma_address(e);
                    }
                    if self.link & USER != 0 && e & USER == 0 {
                        self.stage = Stage::Linked(table);
                        let addr: u64 = self.table + table_index(self.virt, self.level) * 8;
                        WalkStep::Store { addr, value: e | self.link }
                    } else {
                        let level: u8 = self.level - 1;
                        self.arrive(table, level)
                    }
                } else {
                    self.stage = Stage::Grow;
                    WalkStep::Fresh
                }
            },
            (Stage::Grow, WalkEvent::Table(p)) => {
                self.stage = Stage::Linked(p);
                let addr: u64 = self.table + table_index(self.virt, self.level) * 8;
                WalkStep::Store { addr, value: p | self.link }
            },
            (Stage::Linked(p), WalkEvent::Stored) => {
                let level: u8 = self.level - 1;
                self.arrive(p, level)
            },
            (Stage::Leaf, WalkEvent::Stored) => {
                self.stage = Stage::Done;
                if self.live {
                    WalkStep::Forget(self.virt)
                } else {
                    WalkStep::Done
                }
            },
            _ => WalkStep::Done,
        }
    }
}

/// The address in an entry is that of a page, below 2^52.
pub proof fn lemma_address(e: u64)
    ensures
        address_in(e) % 4096 == 0,
        address_in(e) + 4096 <= 0x10_0000_0000_0000,
{
    assert((e & 0x000F_FFFF_FFFF_F000) % 4096 == 0 && (e & 0x000F_FFFF_FFFF_F000)
        <= 0x000F_FFFF_FFFF_F000) by (bit_vector);
}

/// The top of the tables, from the register that points to them.
pub fn root_of(cr3: u64) -> (root: u64)
    ensures
        root == cr3 & !0xFFFu64,
        root == root_in(cr3),
{
    cr3 & !0xFFFu64
}

/// A walk that maps a page in the tables in use, writable.
pub open spec fn kernel_walk(root: u64, virt: u64, phys: u64, flags: u64) -> Walk {
    Walk {
        virt,
        leaf: phys | flags | PRESENT | WRITE,
        link: PRESENT | WRITE,
        live: true,
        level: 4,
        table: root,
        stage: Stage::Look,
    }
}

/// A walk that maps a page in tables that are not in use. User code can walk all
/// of them down to the page, those too that were there before; the page's own bits
/// are those given.
pub open spec fn user_walk(root: u64, virt: u64, phys: u64, flags: u64) -> Walk {
    Walk {
        virt,
        leaf: phys | flags | PRESENT,
        link: PRESENT | WRITE | USER,
        live: false,
        level: 4,
        table: root,
        stage: Stage::Look,
    }
}

/// Begins to map a page in the tables in use.
pub fn map_page(root: u64, virt: u64, phys: u64, flags: u64) -> (r: (Walk, WalkStep))
    requires
        root + 4088 <= u64::MAX,
    ensures
        r.0.wf(),
        r.0 == kernel_walk(root, virt, phys, flags),
        r.1 == WalkStep::Read(entry_addr(root, virt, 4) as u64),
{
    let w = Walk {
        virt,
        leaf: phys | flags | PRESENT | WRITE,
        link: PRESENT | WRITE,
        live: true,
        level: 4,
        table: root,
        stage: Stage::Look,
    };
    (w, WalkStep::Read(root + table_index(virt, 4) * 8))
}

/// Begins to map a page in tables that are not in use.
pub fn map_page_into(root: u64, virt: u64, phys: u64, flags: u64) -> (r: (Walk, WalkStep))
    requires
        root + 4088 <= u64::MAX,
    ensures
        r.0.wf(),
        r.0 == user_walk(root, virt, phys, flags),
        r.1 == WalkStep::Read(entry_addr(root, virt, 4) as u64),
{
    let w = Walk {
        virt,
        leaf: phys | flags | PRESENT,
        link: PRESENT | WRITE | USER,
        live: false,
        level: 4,
        table: root,
        stage: Stage::Look,
    };
    (w, WalkStep::Read(root + table_index(virt, 4) * 8))
}

/// A page to be mapped.
#[derive(Clone, Copy, PartialEq, Eq, Structural, Debug)]
pub struct Mapping {
    pub virt: u64,
    pub phys: u64,
    pub flags: u64,
}

/// The pages of a device's memory, uncached at the direct map.
pub open spec fn mmio_pages(offset: u64, phys: u64, size: usize) -> Seq<Mapping> {
    Seq::new(
        ((size + 4095) / 4096) as nat,
        |i: int|
            Mapping {
                virt: (offset + phys + i * 4096) as u64,
                phys: (phys + i * 4096) as u64,
                flags: NOCACHE,
            },
    )
}

/// What is to be mapped for a device's memory at `phys`, and the address at which
/// it then appears.
pub fn map_mmio(map: &DirectMap, phys: u64, size: usize) -> (r: (Vec<Mapping>, u64))
    requires
        map.offset + phys + size <= u64::MAX,
    ensures
        r.0@ == mmio_pages(map.offset, phys, size),
        r.1 == map.offset + phys,
        r.1 == crate::vmm::appears_at(*map, phys as int),
{
    let hhdm: u64 = vmm::hhdm_offset(map);
    let pages: usize = size / 4096 + if size % 4096 == 0 {
        0
    } else {
        1
    };
    let mut v: Vec<Mapping> = Vec::new();
    let mut i: usize = 0;
    while i < pages
        invariant
            i <= pages,
            pages == (size + 4095) / 4096,
            hhdm == map.offset,
            map.offset + phys + size <= u64::MAX,
            v@ == mmio_pages(map.offset, phys, size).take(i as int),
        decreases pages - i,
    {
        let off: u64 = i as u64 * 4096;
        v.push(Mapping { virt: hhdm + phys + off, phys: phys + off, flags: NOCACHE });
        assert(v@ =~= mmio_pages(map.offset, phys, size).take(i + 1));
        i = i + 1;
    }
    assert(mmio_pages(map.offset, phys, size).take(pages as int) =~= mmio_pages(
        map.offset,
        phys,
        size,
    ));
    (v, vmm::phys_to_virt(map, phys))
}

/// The tables as the processor walks them: nine bits of the address for each level, from
/// bit 12 up, choose an entry of eight bytes; an entry counts when its lowest bit is set,
/// and bits 12 to 51 of it are the address of what is below.
pub proof fn law_as_the_processor_walks(table: u64, virt: u64, e: u64)
    ensures
        index_at(virt, 1) == ((virt >> 12) & 0x1FF) as int,
        index_at(virt, 2) == ((virt >> 21) & 0x1FF) as int,
        index_at(virt, 3) == ((virt >> 30) & 0x1FF) as int,
        index_at(virt, 4) == ((virt >> 39) & 0x1FF) as int,
        entry_addr(table, virt, 1) == table + 8 * ((virt >> 12) & 0x1FF) as int,
        entry_addr(table, virt, 4) == table + 8 * ((virt >> 39) & 0x1FF) as int,
        is_present(e) <==> e % 2 == 1,
        address_in(e) == (e as int / 4096) % 0x100_0000_0000 * 4096,
        PRESENT == 1 && WRITE == 2 && USER == 4 && NOCACHE == 16,
{
    assert((virt >> 12) & 0x1FF == virt / 0x1000 % 512 && (virt >> 21) & 0x1FF == virt / 0x20_0000
        % 512 && (virt >> 30) & 0x1FF == virt / 0x4000_0000 % 512 && (virt >> 39) & 0x1FF == virt
        / 0x80_0000_0000 % 512) by (bit_vector);
    assert((e & 1 != 0) == (e % 2 == 1) && e & 0x000F_FFFF_FFFF_F000 == e / 4096 % 0x100_0000_0000
        * 4096) by (bit_vector);
}

/// A page mapped in the tables in use is forgotten by the processor at the end, so that it
/// finds the new entry; in tables that are not in use there is nothing to forget.
pub proof fn law_processor_told(w: Walk)
    requires
        w.stage is Leaf,
    ensures
        w.live ==> w.after(WalkEvent::Stored).1 == WalkStep::Forget(w.virt),
        !w.live ==> w.after(WalkEvent::Stored).1 is Done,
        w.after(WalkEvent::Stored).0.stage is Done,
{
}

/// The top of the tables, in the register that points to them.
pub open spec fn root_in(cr3: u64) -> u64 {
    cr3 & !0xFFFu64
}

/// The top of the tables is the page that the register points into: the flags in its low
/// twelve bits are left out, and nothing else.
pub proof fn law_root_read(cr3: u64)
    ensures
        root_in(cr3) % 4096 == 0,
        root_in(cr3) <= cr3 < root_in(cr3) + 4096,
{
    crate::bytes::lemma_long_bits(cr3);
}

} // verus!
