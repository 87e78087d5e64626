//! Slab allocator: ten size classes from 8 to 4096 bytes, each with a list of
//! free chunks that is threaded through the chunks themselves. Larger blocks are
//! whole pages.
use vstd::prelude::*;
use crate::vmm;
use crate::vmm::DirectMap;

verus! {

pub const PAGE_SIZE: usize = 4096;

pub const NUM_CLASSES: usize = 10;

/// The allocator: the first free chunk of each class, 0 where there is none. A
/// free chunk's first word is the address of the next.
pub struct SlabHeap {
    free_lists: [u64; 10],
}

/// A word to be written to memory.
#[derive(Clone, Copy, PartialEq, Eq, Structural, Debug)]
pub struct LinkWrite {
    pub addr: u64,
    pub value: u64,
}

/// How an allocation goes on.
#[derive(Clone, Copy, PartialEq, Eq, Structural, Debug)]
pub enum AllocStep {
    /// Nothing is needed for a block of no size: any address of its alignment
    /// will do.
    Ready(u64),
    /// The block is made of this many pages in a row.
    Pages(usize),
    /// No class serves the alignment.
    Refused,
    /// The chunk `node` is free; its first word is wanted.
    Next { class: usize, node: u64 },
    /// A fresh page is wanted.
    Page { class: usize },
}

/// What a release asks for.
#[derive(Clone, Copy, PartialEq, Eq, Structural, Debug)]
pub enum FreeStep {
    Nothing,
    /// So many pages from a physical address on are free again.
    Pages { phys: u64, count: usize },
    /// The chunk is threaded onto its list.
    Link(LinkWrite),
}

/// The words that thread a fresh page's chunks onto a list. They are made one by
/// one, so that nothing is allocated here.
#[derive(Clone, Copy, PartialEq, Eq, Structural, Debug)]
pub struct Refill {
    pub base: u64,
    pub size: usize,
    /// The list's first chunk before.
    pub head: u64,
}

impl Refill {
    pub open spec fn wf(self) -> bool {
        &&& 8 <= self.size <= 4096
        &&& 4096int % self.size as int == 0
        &&& self.base + 4095 <= u64::MAX
    }

    /// The words, in the order in which they are written.
    pub open spec fn all(self) -> Seq<LinkWrite> {
        links(self.base as int, self.size as int, self.head)
    }

    /// How many words there are.
    pub fn count(&self) -> (n: usize)
        requires
            self.wf(),
        ensures
            n == self.all().len(),
    {
        proof {
            lemma_chunk_count(self.size as int);
        }
        PAGE_SIZE / self.size - 1
    }

    /// The word number `j`.
    pub fn link(&self, j: usize) -> (w: LinkWrite)
        requires
            self.wf(),
            j < self.all().len(),
        ensures
            w == self.all()[j as int],
    {
        let count: usize = PAGE_SIZE / self.size;
        proof {
            lemma_chunk_count(self.size as int);
            lemma_inside(count - 1 - j, self.size as int);
            if j > 0 {
                lemma_inside(count - j, self.size as int);
            }
        }
        let addr: u64 = self.base + ((count - 1 - j) * self.size) as u64;
        let value: u64 = if j == 0 {
            self.head
        } else {
            self.base + ((count - j) * self.size) as u64
        };
        LinkWrite { addr, value }
    }
}

proof fn lemma_chunk_count(size: int)
    requires
        8 <= size <= 4096,
    ensures
        1 <= 4096int / size <= 512,
        (4096int / size) * size <= 4096,
{
    let c = 4096int / size;
    assert(1 <= c <= 512 && c * size <= 4096) by (nonlinear_arith)
        requires
            8 <= size <= 4096,
            c == 4096int / size,
    ;
}

proof fn lemma_inside(i: int, size: int)
    requires
        8 <= size <= 4096,
        0 <= i < 4096int / size,
    ensures
        0 <= i * size <= 4096 - size,
{
    lemma_chunk_count(size);
    assert(0 <= i * size && i * size + size <= (4096int / size) * size) by (nonlinear_arith)
        requires
            0 <= i < 4096int / size,
            size > 0,
    ;
}

/// The chunk size of a class.
pub open spec fn class_size(i: int) -> int {
    if i == 0 {
        8
    } else if i == 1 {
        16
    } else if i == 2 {
        32
    } else if i == 3 {
        64
    } else if i == 4 {
        128
    } else if i == 5 {
        256
    } else if i == 6 {
        512
    } else if i == 7 {
        1024
    } else if i == 8 {
        2048
    } else {
        4096
    }
}

/// The chunk size of a class.
pub fn size_of_class(i: usize) -> (r: usize)
    requires
        i < NUM_CLASSES,
    ensures
        r == class_size(i as int),
{
    let sizes: [usize; 10] = [8, 16, 32, 64, 128, 256, 512, 1024, 2048, 4096];
    sizes[i]
}

/// What a chunk has to cover: the size, the alignment, and a word.
pub open spec fn need(size: int, align: int) -> int {
    let m = if size > align {
        size
    } else {
        align
    };
    if m > 8 {
        m
    } else {
        8
    }
}

/// The class `i` is the smallest that covers the size and the alignment.
pub open spec fn is_class_for(i: int, size: int, align: int) -> bool {
    &&& 0 <= i < NUM_CLASSES
    &&& class_size(i) >= need(size, align)
    &&& i > 0 ==> class_size(i - 1) < need(size, align)
}

/// The smallest class for a block, where one is large enough.
pub open spec fn class_of(size: int, align: int) -> Option<int> {
    if need(size, align) > 4096 {
        None
    } else {
        Some(choose|i: int| is_class_for(i, size, align))
    }
}

/// At most one class is the smallest.
proof fn lemma_class_unique(i: int, j: int, size: int, align: int)
    requires
        is_class_for(i, size, align),
        is_class_for(j, size, align),
    ensures
        i == j,
{
}

/// The smallest class for a block.
pub fn class_for(size: usize, align: usize) -> (r: Option<usize>)
    ensures
        r is Some <==> need(size as int, align as int) <= 4096,
        r matches Some(i) ==> is_class_for(i as int, size as int, align as int) && class_of(
            size as int,
            align as int,
        ) == Some(i as int),
{
    let m: usize = if size > align {
        size
    } else {
        align
    };
    let min: usize = if m > 8 {
        m
    } else {
        8
    };
    let mut i: usize = 0;
    while i < NUM_CLASSES
        invariant
            i <= 10,
            min == need(size as int, align as int),
            i > 0 ==> class_size(i - 1) < min,
        decreases 10 - i,
    {
        if size_of_class(i) >= min {
            proof {
                let c = choose|c: int| is_class_for(c, size as int, align as int);
                assert(is_class_for(i as int, size as int, align as int));
                lemma_class_unique(i as int, c, size as int, align as int);
            }
            return Some(i);
        }
        i = i + 1;
    }
    None
}

/// How many pages hold some bytes.
pub open spec fn page_count(bytes: int) -> int {
    (bytes + 4095) / 4096
}

/// How many pages hold some bytes.
pub fn pages_for(bytes: usize) -> (n: usize)
    requires
        bytes + 4095 <= usize::MAX,
    ensures
        n == page_count(bytes as int),
{
    (bytes + (PAGE_SIZE - 1)) / PAGE_SIZE
}

/// The words that thread the chunks of a page, all but the first, onto a list
/// that begins with `head`: from the last chunk to the second.
pub open spec fn links(base: int, size: int, head: u64) -> Seq<LinkWrite> {
    let count = 4096int / size;
    Seq::new(
        (count - 1) as nat,
        |j: int|
            LinkWrite {
                addr: (base + (count - 1 - j) * size) as u64,
                value: if j == 0 {
                    head
                } else {
                    (base + (count - j) * size) as u64
                },
            },
    )
}

/// The list's first chunk after a page was threaded onto it.
pub open spec fn head_after(base: int, size: int, head: u64) -> u64 {
    if 4096int / size > 1 {
        (base + size) as u64
    } else {
        head
    }
}

/// How an allocation begins, where `lists` are the first free chunks.
pub open spec fn allocation(lists: Seq<u64>, size: int, align: int) -> AllocStep {
    if size == 0 {
        AllocStep::Ready(align as u64)
    } else if size > 4096 {
        AllocStep::Pages(page_count(size) as usize)
    } else {
        match class_of(size, align) {
            None => AllocStep::Refused,
            Some(i) => if lists[i] != 0 {
                AllocStep::Next { class: i as usize, node: lists[i] }
            } else {
                AllocStep::Page { class: i as usize }
            },
        }
    }
}

/// What a release does to the first free chunks, and what it asks for. The direct
/// map begins at `offset`.
pub open spec fn releasing(lists: Seq<u64>, offset: int, ptr: u64, size: int, align: int) -> (
    Seq<u64>,
    FreeStep,
) {
    if ptr == 0 || size == 0 {
        (lists, FreeStep::Nothing)
    } else if size > 4096 {
        (
            lists,
            FreeStep::Pages { phys: (ptr - offset) as u64, count: page_count(size) as usize },
        )
    } else {
        match class_of(size, align) {
            None => (lists, FreeStep::Nothing),
            Some(i) => (
                lists.update(i, ptr),
                FreeStep::Link(LinkWrite { addr: ptr, value: lists[i] }),
            ),
        }
    }
}

impl View for SlabHeap {
    type V = Seq<u64>;

    closed spec fn view(&self) -> Seq<u64> {
        self.free_lists@
    }
}

impl SlabHeap {
    /// An allocator without any memory.
    pub fn new() -> (h: SlabHeap)
        ensures
            h@ == Seq::new(10, |i: int| 0u64),
    {
        let h = SlabHeap { free_lists: [0u64; 10] };
        assert(h@ =~= Seq::new(10, |i: int| 0u64));
        h
    }

    /// Does nothing: the lists are filled when they are first needed.
    pub fn init(&mut self)
        ensures
            final(self)@ == old(self)@,
    {
    }

    /// Begins an allocation.
    pub fn allocate(&self, size: usize, align: usize) -> (step: AllocStep)
        requires
            size + 4095 <= usize::MAX,
        ensures
            step == allocation(self@, size as int, align as int),
    {
        if size == 0 {
            return AllocStep::Ready(align as u64);
        }
        if size > PAGE_SIZE {
            return AllocStep::Pages(pages_for(size));
        }
        match class_for(size, align) {
            None => AllocStep::Refused,
            Some(i) => {
                if self.free_lists[i] != 0 {
                    AllocStep::Next { class: i, node: self.free_lists[i] }
                } else {
                    AllocStep::Page { class: i }
                }
            },
        }
    }

    /// Takes the first free chunk of a class, whose first word is `next`.
    pub fn popped(&mut self, class: usize, next: u64) -> (node: u64)
        requires
            class < NUM_CLASSES,
        ensures
            node == old(self)@[class as int],
            final(self)@ == old(self)@.update(class as int, next),
            (final(self)@, node) == popping(old(self)@, class as int, next),
    {
        let node: u64 = self.free_lists[class];
        self.free_lists[class] = next;
        assert(self@ =~= old(self)@.update(class as int, next));
        node
    }

    /// Cuts a fresh page into chunks of a class: the first is the block, the
    /// others go onto the list, so that they come in the order of their
    /// addresses. Gives the words to be written.
    pub fn refilled(&mut self, class: usize, base: u64) -> (r: Refill)
        requires
            class < NUM_CLASSES,
            base + 4095 <= u64::MAX,
        ensures
            r.wf(),
            r.all() == links(base as int, class_size(class as int), old(self)@[class as int]),
            final(self)@ == old(self)@.update(
                class as int,
                head_after(base as int, class_size(class as int), old(self)@[class as int]),
            ),
            (final(self)@, r.all()) == refilling(old(self)@, class as int, base as int),
    {
        let size: usize = size_of_class(class);
        let head: u64 = self.free_lists[class];
        if PAGE_SIZE / size > 1 {
            self.free_lists[class] = base + size as u64;
        }
        assert(self@ =~= old(self)@.update(
            class as int,
            head_after(base as int, class_size(class as int), head),
        ));
        Refill { base, size, head }
    }

    /// Releases a block.
    pub fn release(&mut self, map: &DirectMap, ptr: u64, size: usize, align: usize) -> (step:
        FreeStep)
        requires
            size + 4095 <= usize::MAX,
            ptr != 0 && size > 4096 ==> ptr >= map.offset,
        ensures
            (final(self)@, step) == releasing(
                old(self)@,
                map.offset as int,
                ptr,
                size as int,
                align as int,
            ),
    {
        if ptr == 0 || size == 0 {
            return FreeStep::Nothing;
        }
        if size > PAGE_SIZE {
            let phys: u64 = ptr - vmm::hhdm_offset(map);
            return FreeStep::Pages { phys, count: pages_for(size) };
        }
        match class_for(size, align) {
            None => FreeStep::Nothing,
            Some(i) => {
                let w = LinkWrite { addr: ptr, value: self.free_lists[i] };
                self.free_lists[i] = ptr;
                assert(self@ =~= old(self)@.update(i as int, ptr));
                FreeStep::Link(w)
            },
        }
    }
}

// ── Laws ────────────────────────────────────────────────────────────────────

/// There is a list for each class, whatever was done to the allocator.
pub proof fn law_ten_lists(h: SlabHeap)
    ensures
        h@.len() == NUM_CLASSES,
{
}

/// Every block of at most a page, aligned to no more than a page, has a class.
pub proof fn lemma_class_exists(size: int, align: int)
    requires
        need(size, align) <= 4096,
    ensures
        class_of(size, align) matches Some(i) && is_class_for(i, size, align),
{
    let n = need(size, align);
    let i: int = if n <= 8 {
        0
    } else if n <= 16 {
        1
    } else if n <= 32 {
        2
    } else if n <= 64 {
        3
    } else if n <= 128 {
        4
    } else if n <= 256 {
        5
    } else if n <= 512 {
        6
    } else if n <= 1024 {
        7
    } else if n <= 2048 {
        8
    } else {
        9
    };
    assert(is_class_for(i, size, align));
}

/// A block released is the next one that its class gives out, and giving it out
/// leaves all lists as they were; the release changes no other class.
pub proof fn law_release_then_allocate(
    lists: Seq<u64>,
    offset: int,
    ptr: u64,
    size: int,
    align: int,
    size2: int,
    align2: int,
)
    requires
        lists.len() == NUM_CLASSES,
        ptr != 0,
        0 < size <= 4096,
        0 < size2 <= 4096,
        class_of(size, align) is Some,
        class_of(size2, align2) == class_of(size, align),
    ensures
        ({
            let c = class_of(size, align)->0;
            let (after, step) = releasing(lists, offset, ptr, size, align);
            &&& step == FreeStep::Link(LinkWrite { addr: ptr, value: lists[c] })
            &&& allocation(after, size2, align2) == (AllocStep::Next {
                class: c as usize,
                node: ptr,
            })
            &&& after.update(c, lists[c]) == lists
            &&& forall|d: int| 0 <= d < NUM_CLASSES && d != c ==> #[trigger] after[d] == lists[d]
        }),
{
    lemma_class_exists(size, align);
    let c = class_of(size, align)->0;
    assert(lists.update(c, ptr).update(c, lists[c]) =~= lists);
}

/// Releasing nothing changes nothing, and a block of more than a page gives back as
/// many pages as hold it.
pub proof fn law_release_elsewhere(
    lists: Seq<u64>,
    offset: int,
    ptr: u64,
    size: int,
    align: int,
)
    requires
        offset <= ptr,
        offset >= 0,
        0 <= size <= usize::MAX - 4095,
    ensures
        ptr == 0 || size == 0 ==> releasing(lists, offset, ptr, size, align) == (
            lists,
            FreeStep::Nothing,
        ),
        ptr != 0 && size > 4096 ==> {
            let (after, step) = releasing(lists, offset, ptr, size, align);
            &&& after == lists
            &&& step matches FreeStep::Pages { phys, count } && phys == ptr - offset && (count - 1)
                * 4096 < size <= count * 4096
        },
{
}

/// Memory after some words were written.
pub open spec fn stored(mem: Map<u64, u64>, writes: Seq<LinkWrite>) -> Map<u64, u64>
    decreases writes.len(),
{
    if writes.len() == 0 {
        mem
    } else {
        stored(mem, writes.drop_last()).insert(writes.last().addr, writes.last().value)
    }
}

/// The chunks on the list that begins with `head`, as memory holds it.
pub open spec fn is_list(mem: Map<u64, u64>, head: u64, chunks: Seq<u64>) -> bool
    decreases chunks.len(),
{
    if chunks.len() == 0 {
        head == 0
    } else {
        head == chunks[0] && head != 0 && mem.contains_key(head) && is_list(
            mem,
            mem[head],
            chunks.drop_first(),
        )
    }
}

/// A list stays one when a word is written that is in none of its chunks.
proof fn lemma_list_frame(mem: Map<u64, u64>, head: u64, chunks: Seq<u64>, addr: u64, value: u64)
    requires
        is_list(mem, head, chunks),
        !chunks.contains(addr),
    ensures
        is_list(mem.insert(addr, value), head, chunks),
    decreases chunks.len(),
{
    if chunks.len() > 0 {
        let r = chunks.drop_first();
        assert(chunks[0] == head);
        assert forall|i: int| 0 <= i < r.len() implies r[i] != addr by {
            assert(chunks[i + 1] == r[i]);
        }
        lemma_list_frame(mem, mem[head], r, addr, value);
    }
}

/// What was released last is given out first, and taking it leaves the list as
/// it was before the release.
pub proof fn law_last_freed_first(mem: Map<u64, u64>, head: u64, chunks: Seq<u64>, ptr: u64)
    requires
        is_list(mem, head, chunks),
        ptr != 0,
        !chunks.contains(ptr),
    ensures
        ({
            let m = stored(mem, seq![LinkWrite { addr: ptr, value: head }]);
            &&& is_list(m, ptr, seq![ptr] + chunks)
            &&& m[ptr] == head
            &&& is_list(m, m[ptr], chunks)
        }),
{
    let w = seq![LinkWrite { addr: ptr, value: head }];
    assert(w.drop_last() =~= Seq::<LinkWrite>::empty());
    let m = stored(mem, w);
    assert(m == mem.insert(ptr, head)) by {
        reveal_with_fuel(stored, 2);
    }
    lemma_list_frame(mem, head, chunks, ptr, head);
    assert((seq![ptr] + chunks).drop_first() =~= chunks);
}

/// The chunks of a page from number `i` on.
pub open spec fn chunks_from(base: int, size: int, i: int) -> Seq<u64> {
    Seq::new((4096int / size - i) as nat, |k: int| (base + (i + k) * size) as u64)
}

proof fn lemma_links(mem: Map<u64, u64>, base: int, size: int, n: int)
    requires
        size > 0,
        0 < base,
        base + 4095 <= u64::MAX,
        0 <= n <= 4096int / size - 1,
    ensures
        is_list(
            stored(mem, links(base, size, 0).take(n)),
            if n == 0 {
                0
            } else {
                (base + (4096int / size - n) * size) as u64
            },
            chunks_from(base, size, 4096int / size - n),
        ),
    decreases n,
{
    let count = 4096int / size;
    let all = links(base, size, 0);
    let c = chunks_from(base, size, count - n);
    if n > 0 {
        lemma_links(mem, base, size, n - 1);
        assert(all.take(n).drop_last() =~= all.take(n - 1));
        assert(all.take(n).last() == all[n - 1]);
        let m0 = stored(mem, all.take(n - 1));
        let w = all[n - 1];
        let i = count - n;
        let rest = chunks_from(base, size, i + 1);
        assert(count - 1 - (n - 1) == i);
        assert(count - (n - 1) == i + 1);
        assert(count * size <= 4096) by (nonlinear_arith)
            requires
                count == 4096int / size,
                size > 0,
        ;
        assert(0 <= i * size <= 4095 && (n > 1 ==> (i + 1) * size <= 4095)) by (nonlinear_arith)
            requires
                0 <= i,
                i == count - n,
                1 <= n,
                count * size <= 4096,
                size > 0,
        ;
        assert(w.addr == base + i * size);
        assert forall|k: int| 0 <= k < rest.len() implies rest[k] != w.addr by {
            assert((i + 1 + k) * size <= 4095 && (i + 1 + k) * size > i * size) by (nonlinear_arith)
                requires
                    0 <= i,
                    0 <= k,
                    i + 1 + k < count,
                    count * size <= 4096,
                    size > 0,
            ;
        }
        lemma_list_frame(
            m0,
            if n - 1 == 0 {
                0
            } else {
                (base + (i + 1) * size) as u64
            },
            rest,
            w.addr,
            w.value,
        );
        assert(c[0] == w.addr) by {
            assert((i + 0) * size == i * size);
        }
        assert(c.drop_first() =~= rest) by {
            assert forall|k: int| 0 <= k < rest.len() implies c.drop_first()[k] == rest[k] by {
                assert(i + (k + 1) == i + 1 + k);
            }
        }
    } else {
        assert(c.len() == 0);
    }
}

/// The chunks of a fresh page, after the first, stand on the list in the order
/// of their addresses.
pub proof fn law_ascending(mem: Map<u64, u64>, base: int, class: int)
    requires
        0 <= class < NUM_CLASSES,
        0 < base,
        base + 4095 <= u64::MAX,
    ensures
        is_list(
            stored(mem, links(base, class_size(class), 0)),
            head_after(base, class_size(class), 0),
            chunks_from(base, class_size(class), 1),
        ),
{
    let size = class_size(class);
    let n = 4096int / size - 1;
    lemma_links(mem, base, size, n);
    assert(links(base, size, 0).take(n) =~= links(base, size, 0));
    assert((4096int / size - n) * size == size) by (nonlinear_arith)
        requires
            4096int / size - n == 1,
    ;
}

/// An alignment that the classes serve.
pub open spec fn small_power(a: int) -> bool {
    a == 1 || a == 2 || a == 4 || a == 8 || a == 16 || a == 32 || a == 64 || a == 128 || a == 256
        || a == 512 || a == 1024 || a == 2048 || a == 4096
}

/// Every chunk of a page is large enough for the block, lies inside the page, and
/// is aligned as the block wants it.
pub proof fn law_chunk_fits(base: int, size: int, align: int, class: int, i: int)
    requires
        is_class_for(class, size, align),
        small_power(align),
        base % 4096 == 0,
        0 <= i < 4096int / class_size(class),
    ensures
        size <= class_size(class),
        base + i * class_size(class) + class_size(class) <= base + 4096,
        (base + i * class_size(class)) % align == 0,
{
    let c = class_size(class);
    assert(c % align == 0 && 4096int % c == 0 && 4096int % align == 0);
    assert(i * c + c <= 4096) by (nonlinear_arith)
        requires
            0 <= i < 4096int / c,
            c > 0,
    ;
    let p = base / 4096;
    let q = 4096int / align;
    let r = c / align;
    assert(base == p * 4096);
    assert(4096 == q * align && c == r * align) by (nonlinear_arith)
        requires
            4096int % align == 0,
            c % align == 0,
            align > 0,
            q == 4096int / align,
            r == c / align,
    ;
    assert(base + i * c == (p * q + i * r) * align) by (nonlinear_arith)
        requires
            base == p * 4096,
            4096 == q * align,
            c == r * align,
    ;
    assert(((p * q + i * r) * align) % align == 0) by (nonlinear_arith)
        requires
            align > 0,
    ;
}

/// Two chunks of a page do not overlap.
pub proof fn law_chunks_apart(base: int, class: int, i: int, j: int)
    requires
        0 <= i < j,
    ensures
        base + i * class_size(class) + class_size(class) <= base + j * class_size(class),
{
    let c = class_size(class);
    assert(i * c + c <= j * c) by (nonlinear_arith)
        requires
            i < j,
            c > 0,
    ;
}

/// The lists with the first chunk of a class taken, whose first word is `next`, and the
/// chunk.
pub open spec fn popping(lists: Seq<u64>, class: int, next: u64) -> (Seq<u64>, u64) {
    (lists.update(class, next), lists[class])
}

/// The lists with a fresh page cut into chunks of a class, and the words that are written.
pub open spec fn refilling(lists: Seq<u64>, class: int, base: int) -> (Seq<u64>, Seq<LinkWrite>) {
    (
        lists.update(class, head_after(base, class_size(class), lists[class])),
        links(base, class_size(class), lists[class]),
    )
}

/// The chunks of the classes double in size, from a word to a page.
pub proof fn law_classes_double(i: int)
    requires
        0 <= i < 9,
    ensures
        class_size(0) == 8,
        class_size(i + 1) == 2 * class_size(i),
        class_size(9) == 4096,
{
}

/// A block gets a chunk that covers it, and none that is twice as large as needed. A large
/// one gets as many pages as cover it, and no more; its release gives back as many, from
/// the physical address that the direct map shows at its own.
pub proof fn law_nothing_wasted(size: int, align: int, lists: Seq<u64>, offset: int, ptr: u64)
    requires
        0 < size,
        small_power(align),
        0 <= offset <= ptr,
        0 < ptr,
    ensures
        size <= 4096 ==> (class_of(size, align) matches Some(c) && size <= class_size(c) && align
            <= class_size(c) && (class_size(c) == 8 || class_size(c) < 2 * size || class_size(c) < 2
            * align)),
        (page_count(size) - 1) * 4096 < size <= page_count(size) * 4096,
        size > 4096 && page_count(size) <= usize::MAX ==> releasing(lists, offset, ptr, size, align)
            == (lists, FreeStep::Pages { phys: (ptr - offset) as u64, count: page_count(size) as usize }),
{
    if size <= 4096 {
        lemma_class_exists(size, align);
    }
}

} // verus!
