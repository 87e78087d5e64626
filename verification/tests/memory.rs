use std::collections::BTreeMap;

use hepos::heap::{class_for, pages_for, size_of_class, AllocStep, FreeStep, LinkWrite, SlabHeap};
use hepos::paging::{map_mmio, map_page, map_page_into, root_of, Mapping, Walk, WalkEvent, WalkStep};
use hepos::process::{
    code_page, create_user_pml4, entry_frame, run_test, user_program, Process, RunOp, Slot,
};
use hepos::vmm;

#[test]
fn size_classes() {
    assert_eq!(class_for(1, 1), Some(0));
    assert_eq!(class_for(9, 1), Some(1));
    assert_eq!(class_for(8, 64), Some(3));
    assert_eq!(class_for(4096, 8), Some(9));
    assert_eq!(class_for(4097, 8), None);
    assert_eq!(class_for(8, 8192), None);
    assert_eq!(size_of_class(9), 4096);
    assert_eq!(pages_for(1), 1);
    assert_eq!(pages_for(4096), 1);
    assert_eq!(pages_for(4097), 2);
}

struct Memory {
    heap: SlabHeap,
    words: BTreeMap<u64, u64>,
    next_page: u64,
}

impl Memory {
    fn get(&mut self, size: usize, align: usize) -> Option<u64> {
        match self.heap.allocate(size, align) {
            AllocStep::Ready(p) => Some(p),
            AllocStep::Pages(n) => {
                let p = self.next_page;
                self.next_page += n as u64 * 4096;
                Some(p)
            }
            AllocStep::Refused => None,
            AllocStep::Next { class, node } => {
                let next = self.words[&node];
                assert_eq!(self.heap.popped(class, next), node);
                Some(node)
            }
            AllocStep::Page { class } => {
                let p = self.next_page;
                self.next_page += 4096;
                let r = self.heap.refilled(class, p);
                for j in 0..r.count() {
                    let w = r.link(j);
                    self.words.insert(w.addr, w.value);
                }
                Some(p)
            }
        }
    }

    fn put_back(&mut self, p: u64, size: usize, align: usize) {
        let map = vmm::init(0);
        if let FreeStep::Link(w) = self.heap.release(&map, p, size, align) {
            self.words.insert(w.addr, w.value);
        }
    }
}

#[test]
fn chunks_come_in_ascending_order() {
    let mut h = SlabHeap::new();
    h.init();
    let mut m = Memory { heap: h, words: BTreeMap::new(), next_page: 0x10_0000 };
    for i in 0..64u64 {
        assert_eq!(m.get(64, 8), Some(0x10_0000 + i * 64));
    }
    assert_eq!(m.get(64, 8), Some(0x10_1000));
    assert_eq!(m.get(64, 8), Some(0x10_1040));
    assert_eq!(m.get(4096, 8), Some(0x10_2000));
    assert_eq!(m.get(4096, 8), Some(0x10_3000));
}

#[test]
fn last_freed_comes_first() {
    let mut m = Memory { heap: SlabHeap::new(), words: BTreeMap::new(), next_page: 0x10_0000 };
    let a = m.get(32, 8).unwrap();
    let b = m.get(32, 8).unwrap();
    let c = m.get(32, 8).unwrap();
    m.put_back(a, 32, 8);
    m.put_back(c, 32, 8);
    assert_eq!(m.get(32, 8), Some(c));
    assert_eq!(m.get(32, 8), Some(a));
    assert_eq!(m.get(32, 8), Some(c + 32));
    assert_ne!(b, a);
}

#[test]
fn blocks_do_not_overlap() {
    let mut m = Memory { heap: SlabHeap::new(), words: BTreeMap::new(), next_page: 0x10_0000 };
    let mut live: Vec<(u64, usize, usize)> = vec![];
    for i in 0..600usize {
        let (size, align) = (1 + i * 37 % 5000, 1 << (i % 7));
        let p = m.get(size, align).unwrap();
        assert_eq!(p % align as u64, 0);
        for (q, n, _) in &live {
            assert!(p + size as u64 <= *q || q + *n as u64 <= p);
        }
        live.push((p, size, align));
        if i % 3 == 0 {
            let (q, n, a) = live.swap_remove(i * 31 % live.len());
            m.put_back(q, n, a);
        }
    }
}

#[test]
fn odd_allocations() {
    let mut h = SlabHeap::new();
    assert_eq!(h.allocate(0, 16), AllocStep::Ready(16));
    assert_eq!(h.allocate(8193, 8), AllocStep::Pages(3));
    assert_eq!(h.allocate(8, 8192), AllocStep::Refused);
    let map = vmm::init(0x1_0000);
    assert!(matches!(h.release(&map, 0, 8, 8), FreeStep::Nothing));
    assert!(matches!(h.release(&map, 8, 0, 8), FreeStep::Nothing));
    assert!(matches!(h.release(&map, 8, 8, 8192), FreeStep::Nothing));
    assert_eq!(
        h.release(&map, 0x3_0000, 8193, 8),
        FreeStep::Pages { phys: 0x2_0000, count: 3 }
    );
    match h.release(&map, 0x5000, 8, 8) {
        FreeStep::Link(w) => assert_eq!(w, LinkWrite { addr: 0x5000, value: 0 }),
        _ => panic!(),
    }
}

struct Tables {
    words: BTreeMap<u64, u64>,
    next: u64,
    forgotten: Vec<u64>,
}

impl Tables {
    fn run(&mut self, start: (Walk, WalkStep)) {
        let (mut w, mut s) = start;
        loop {
            let e = match s {
                WalkStep::Read(a) => WalkEvent::Entry(self.words.get(&a).copied().unwrap_or(0)),
                WalkStep::Fresh => {
                    self.next += 4096;
                    WalkEvent::Table(self.next)
                }
                WalkStep::Store { addr, value } => {
                    self.words.insert(addr, value);
                    WalkEvent::Stored
                }
                WalkStep::Forget(v) => {
                    self.forgotten.push(v);
                    return;
                }
                WalkStep::Done => return,
            };
            s = w.step(e);
        }
    }

    fn entry(&self, root: u64, virt: u64) -> Option<u64> {
        let mut t = root;
        for shift in [39, 30, 21, 12] {
            let e = *self.words.get(&(t + ((virt >> shift) & 0x1FF) * 8))?;
            if e & 1 == 0 {
                return None;
            }
            if shift == 12 {
                return Some(e);
            }
            t = e & 0x000F_FFFF_FFFF_F000;
        }
        None
    }
}

#[test]
fn a_page_is_mapped_and_found() {
    let mut t = Tables { words: BTreeMap::new(), next: 0x10_0000, forgotten: vec![] };
    let root = 0x1000;
    let v = 0xFFFF_8000_FEBC_0000u64;
    t.run(map_page(root, v, 0xFEBC_0000, 16));
    assert_eq!(t.entry(root, v), Some(0xFEBC_0013));
    assert_eq!(t.entry(root, v + 4096), None);
    assert_eq!(t.forgotten, vec![v]);
    // three new tables, then none
    assert_eq!(t.next, 0x10_3000);
    t.run(map_page(root, v + 4096, 0xFEBC_1000, 16));
    assert_eq!(t.next, 0x10_3000);
    assert_eq!(t.entry(root, v), Some(0xFEBC_0013));
    assert_eq!(t.entry(root, v + 4096), Some(0xFEBC_1013));
}

#[test]
fn a_user_page_lets_user_code_walk() {
    let mut t = Tables { words: BTreeMap::new(), next: 0x10_0000, forgotten: vec![] };
    t.run(map_page_into(0x1000, 0x40_0000, 0x7000, 4));
    assert_eq!(t.entry(0x1000, 0x40_0000), Some(0x7005));
    assert_eq!(t.words[&0x1000], 0x10_1007);
    assert!(t.forgotten.is_empty());
    assert_eq!(root_of(0x1234_5FFF), 0x1234_5000);
}

#[test]
fn a_user_page_opens_the_tables_that_are_there() {
    let mut t = Tables { words: BTreeMap::new(), next: 0x10_0000, forgotten: vec![] };
    t.run(map_page(0x1000, 0x40_0000, 0x6000, 0));
    assert_eq!(t.words[&0x1000], 0x10_1003);
    t.run(map_page_into(0x1000, 0x40_1000, 0x7000, 4));
    // no new table; the three on the way are open now, and the old page stays
    assert_eq!(t.next, 0x10_3000);
    assert_eq!(t.words[&0x1000], 0x10_1007);
    assert_eq!(t.words[&0x10_1000], 0x10_2007);
    assert_eq!(t.words[&0x10_2010], 0x10_3007);
    assert_eq!(t.entry(0x1000, 0x40_1000), Some(0x7005));
    assert_eq!(t.entry(0x1000, 0x40_0000), Some(0x6003));
    // entries that are open already are not written again
    let before = t.words.clone();
    t.run(map_page_into(0x1000, 0x40_1000, 0x7000, 4));
    assert_eq!(t.words, before);
}

#[test]
fn device_memory_pages() {
    let (p, v) = map_mmio(&vmm::init(0x8000_0000), 0xFEBC_0000, 8193);
    assert_eq!(v, 0x1_7EBC_0000);
    assert_eq!(p.len(), 3);
    assert_eq!(p[2], Mapping { virt: 0x1_7EBC_2000, phys: 0xFEBC_2000, flags: 16 });
}

#[test]
fn device_memory_up_to_the_last_address() {
    // the range may end with the address space, and its last page need not be whole
    let (p, v) = map_mmio(&vmm::init(0), 0xFFFF_FFFF_FFFF_F000, 4095);
    assert_eq!(v, 0xFFFF_FFFF_FFFF_F000);
    assert_eq!(p, vec![Mapping { virt: v, phys: v, flags: 16 }]);
    let (p, v) = map_mmio(&vmm::init(0x1000), 0xFFFF_FFFF_FFFF_D000, 4097);
    assert_eq!(v, 0xFFFF_FFFF_FFFF_E000);
    assert_eq!(p.len(), 2);
    assert_eq!((p[1].virt, p[1].phys), (0xFFFF_FFFF_FFFF_F000, 0xFFFF_FFFF_FFFF_E000));
    // no bytes take no page
    let (p, v) = map_mmio(&vmm::init(0x8000_0000), 0xFEBC_0000, 0);
    assert_eq!((p.len(), v), (0, 0x1_7EBC_0000));
}

#[test]
fn user_program_and_pages() {
    let p = user_program();
    assert_eq!(&p[44..], b"Hello from ring 3!\n");
    assert_eq!(21 + p[17] as usize, 44);
    let page = code_page();
    assert_eq!(page.len(), 4096);
    assert_eq!(&page[..63], &p[..]);
    assert!(page[63..].iter().all(|b| *b == 0));
    let mut cur = [5u64; 512];
    cur[256] = 7;
    let t = create_user_pml4(&cur);
    assert_eq!((t[0], t[255], t[256], t[511]), (0, 0, 7, 5));
    assert_eq!(entry_frame(), [0x40_0000, 0x23, 0x202, 0x7FFF_F000, 0x1B]);
}

#[test]
fn running_a_process() {
    let ops = run_test();
    let at = |o: RunOp| ops.iter().position(|x| *x == o).unwrap();
    assert!(at(RunOp::MaskTimer) < at(RunOp::Enter));
    assert!(at(RunOp::Enter) < at(RunOp::RestoreTables));
    assert!(at(RunOp::RestoreTables) < at(RunOp::UnmaskTimer));
    for s in [Slot::Tables, Slot::Code, Slot::Stack] {
        assert!(at(RunOp::Take(s)) < at(RunOp::Free(s)));
    }
    assert_eq!(
        ops[4],
        RunOp::MapPage { virt: 0x40_0000, slot: Slot::Code, flags: 6 }
    );
    let mut p = Process::new();
    p.entered();
    assert!(p.running);
    p.do_exit(3);
    assert_eq!(p, Process { running: false, exit_code: 3 });
}
