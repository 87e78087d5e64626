//! What holds of the heap over any number of allocations and releases: no block is
//! given out twice.
use vstd::prelude::*;
use crate::heap;
use crate::heap::{AllocStep, NUM_CLASSES};

verus! {

/// A block that was given out.
pub struct Block {
    pub addr: int,
    pub len: int,
}

/// The allocator and the memory around it.
pub struct Arena {
    /// The first free chunk of each class.
    pub lists: Seq<u64>,
    /// The words in memory.
    pub mem: Map<u64, u64>,
    /// The free chunks of each class, in the order of its list.
    pub free: Seq<Seq<u64>>,
    /// The blocks that were given out and not yet released.
    pub live: Set<Block>,
}

/// Two stretches of memory have no byte in common.
pub open spec fn apart(a: int, len_a: int, b: int, len_b: int) -> bool {
    a + len_a <= b || b + len_b <= a
}

impl Arena {
    /// Nothing was allocated yet.
    pub open spec fn empty() -> Arena {
        Arena {
            lists: Seq::new(10, |i: int| 0u64),
            mem: Map::empty(),
            free: Seq::new(10, |i: int| Seq::<u64>::empty()),
            live: Set::empty(),
        }
    }

    /// The chunk at `p` is a free one of class `c`.
    pub open spec fn is_free(self, c: int, p: u64) -> bool {
        0 <= c < NUM_CLASSES && self.free[c].contains(p)
    }

    /// The stretch overlaps neither a block that was given out nor a free chunk.
    pub open spec fn is_fresh(self, base: int, len: int) -> bool {
        &&& forall|b: Block| #[trigger] self.live.contains(b) ==> apart(base, len, b.addr, b.len)
        &&& forall|c: int, p: u64| #[trigger] self.is_free(c, p) ==> apart(
            base,
            len,
            p as int,
            heap::class_size(c),
        )
    }

    pub open spec fn wf(self) -> bool {
        &&& self.lists.len() == NUM_CLASSES
        &&& self.free.len() == NUM_CLASSES
        &&& self.linked()
        &&& self.chunks_wf()
        &&& self.blocks_wf()
        &&& self.all_apart()
    }

    /// Each list leads through memory from free chunk to free chunk, and to none twice.
    pub open spec fn linked(self) -> bool {
        forall|c: int|
            0 <= c < NUM_CLASSES ==> (#[trigger] self.free[c]).no_duplicates() && heap::is_list(
                self.mem,
                self.lists[c],
                self.free[c],
            )
    }

    /// Free chunks are aligned to their size.
    pub open spec fn chunks_wf(self) -> bool {
        forall|c: int, p: u64| #[trigger] self.is_free(c, p) ==> chunk_wf(p as int, c)
    }

    /// So are the blocks given out that came from a list.
    pub open spec fn blocks_wf(self) -> bool {
        forall|b: Block| #[trigger] self.live.contains(b) ==> b.len > 0 && (b.len <= 4096 ==> {
            &&& b.addr % b.len == 0
            &&& 0 < b.addr
            &&& b.addr + b.len <= u64::MAX + 1
        })
    }

    /// Free chunks and blocks given out have no byte in common.
    pub open spec fn all_apart(self) -> bool {
        &&& forall|a: Block, b: Block|
            #![trigger self.live.contains(a), self.live.contains(b)]
            self.live.contains(a) && self.live.contains(b) && a != b ==> apart(
                a.addr,
                a.len,
                b.addr,
                b.len,
            )
        &&& forall|b: Block, c: int, p: u64|
            #![trigger self.live.contains(b), self.is_free(c, p)]
            self.live.contains(b) && self.is_free(c, p) ==> apart(
                b.addr,
                b.len,
                p as int,
                heap::class_size(c),
            )
        &&& forall|c: int, p: u64, d: int, q: u64|
            #![trigger self.is_free(c, p), self.is_free(d, q)]
            self.is_free(c, p) && self.is_free(d, q) && !(c == d && p == q) ==> apart(
                p as int,
                heap::class_size(c),
                q as int,
                heap::class_size(d),
            )
    }

    /// The first free chunk of a class given out.
    pub open spec fn taken(self, c: int) -> Arena {
        Arena {
            lists: self.lists.update(c, self.mem[self.lists[c]]),
            free: self.free.update(c, self.free[c].drop_first()),
            live: self.live.insert(
                Block { addr: self.lists[c] as int, len: heap::class_size(c) },
            ),
            ..self
        }
    }

    /// A page cut into chunks of a class: the first is given out, the others go onto
    /// the list.
    pub open spec fn refilled(self, c: int, base: u64) -> Arena {
        let size = heap::class_size(c);
        Arena {
            lists: self.lists.update(c, heap::head_after(base as int, size, self.lists[c])),
            mem: heap::stored(self.mem, heap::links(base as int, size, self.lists[c])),
            free: self.free.update(c, heap::chunks_from(base as int, size, 1)),
            live: self.live.insert(Block { addr: base as int, len: size }),
        }
    }

    /// The arena after an allocation, and the address that it gives. `grant` is what
    /// the page allocator gives, where it is asked.
    pub open spec fn allocated(self, size: int, align: int, grant: Option<u64>) -> (Arena, u64) {
        match (heap::allocation(self.lists, size, align), grant) {
            (AllocStep::Ready(p), _) => (self, p),
            (AllocStep::Next { class, node }, _) => (self.taken(class as int), node),
            (AllocStep::Page { class }, Some(base)) => (self.refilled(class as int, base), base),
            (AllocStep::Pages(n), Some(base)) => (
                Arena {
                    live: self.live.insert(Block { addr: base as int, len: n * 4096 }),
                    ..self
                },
                base,
            ),
            (_, _) => (self, 0),
        }
    }

    /// What the page allocator gives is in order: pages that nothing uses.
    pub open spec fn grants(self, size: int, align: int, grant: Option<u64>) -> bool {
        grant matches Some(base) ==> {
            let len = if size > 4096 {
                heap::page_count(size) * 4096
            } else {
                4096
            };
            &&& base % 4096 == 0
            &&& 0 < base
            &&& base + len <= u64::MAX + 1
            &&& self.is_fresh(base as int, len)
        }
    }

    /// The block behind a pointer, as large as its size and alignment make it.
    pub open spec fn block_at(ptr: u64, size: int, align: int) -> Block {
        Block {
            addr: ptr as int,
            len: if size > 4096 {
                heap::page_count(size) * 4096
            } else {
                heap::class_size(heap::class_of(size, align)->0)
            },
        }
    }

    /// The arena after a release.
    pub open spec fn released(self, ptr: u64, size: int, align: int) -> Arena {
        let (lists, step) = heap::releasing(self.lists, 0, ptr, size, align);
        match step {
            heap::FreeStep::Nothing => self,
            heap::FreeStep::Pages { phys, count } => Arena {
                live: self.live.remove(Self::block_at(ptr, size, align)),
                ..self
            },
            heap::FreeStep::Link(w) => {
                let c = heap::class_of(size, align)->0;
                Arena {
                    lists,
                    mem: heap::stored(self.mem, seq![w]),
                    free: self.free.update(c, seq![ptr] + self.free[c]),
                    live: self.live.remove(Self::block_at(ptr, size, align)),
                }
            },
        }
    }

    /// The release is one of a block that was given out.
    pub open spec fn may_release(self, ptr: u64, size: int, align: int) -> bool {
        ptr != 0 && size > 0 ==> heap::small_power(align) && self.live.contains(
            Self::block_at(ptr, size, align),
        )
    }

    /// Memory changes to `mem` in the blocks that were given out, and nowhere else.
    pub open spec fn may_write(self, mem: Map<u64, u64>) -> bool {
        forall|p: u64| #[trigger]
            self.mem.contains_key(p) && !self.in_use(p as int) ==> mem.contains_key(p) && mem[p]
                == self.mem[p]
    }

    /// The byte belongs to a block that was given out.
    pub open spec fn in_use(self, p: int) -> bool {
        exists|b: Block| #[trigger] self.live.contains(b) && b.addr <= p < b.addr + b.len
    }
}

/// A chunk of a class: aligned to its size, not at address 0, inside memory.
pub open spec fn chunk_wf(p: int, c: int) -> bool {
    &&& p % heap::class_size(c) == 0
    &&& 0 < p
    &&& p + heap::class_size(c) <= u64::MAX + 1
}

// ── Lists ───────────────────────────────────────────────────────────────────

proof fn lemma_list_same(m: Map<u64, u64>, n: Map<u64, u64>, head: u64, chunks: Seq<u64>)
    requires
        heap::is_list(m, head, chunks),
        forall|i: int|
            0 <= i < chunks.len() && m.contains_key(#[trigger] chunks[i]) ==> n.contains_key(
                chunks[i],
            ) && n[chunks[i]] == m[chunks[i]],
    ensures
        heap::is_list(n, head, chunks),
    decreases chunks.len(),
{
    if chunks.len() > 0 {
        let r = chunks.drop_first();
        assert(chunks[0] == head);
        assert forall|i: int|
            0 <= i < r.len() && m.contains_key(#[trigger] r[i]) implies n.contains_key(r[i])
            && n[r[i]] == m[r[i]] by {
            assert(r[i] == chunks[i + 1]);
        }
        lemma_list_same(m, n, m[head], r);
    }
}

/// Words that are written leave the others alone.
proof fn lemma_stored_frame(m: Map<u64, u64>, ws: Seq<heap::LinkWrite>, p: u64)
    requires
        forall|i: int| 0 <= i < ws.len() ==> (#[trigger] ws[i]).addr != p,
    ensures
        heap::stored(m, ws).contains_key(p) == m.contains_key(p),
        m.contains_key(p) ==> heap::stored(m, ws)[p] == m[p],
    decreases ws.len(),
{
    if ws.len() > 0 {
        let r = ws.drop_last();
        assert(ws[ws.len() - 1].addr != p);
        assert forall|i: int| 0 <= i < r.len() implies (#[trigger] r[i]).addr != p by {
            assert(r[i] == ws[i]);
        }
        lemma_stored_frame(m, r, p);
    }
}

/// The chunk `i` of a page lies inside it and is aligned to its size.
proof fn lemma_chunk(base: int, c: int, i: int)
    requires
        0 <= c < NUM_CLASSES,
        base % 4096 == 0,
        0 < base,
        base + 4095 <= u64::MAX,
        0 <= i < 4096int / heap::class_size(c),
    ensures
        chunk_wf(base + i * heap::class_size(c), c),
        base <= base + i * heap::class_size(c),
        base + i * heap::class_size(c) + heap::class_size(c) <= base + 4096,
{
    let s = heap::class_size(c);
    assert(heap::is_class_for(c, s, s));
    heap::law_chunk_fits(base, s, s, c, i);
    assert(i * s >= 0) by (nonlinear_arith)
        requires
            i >= 0,
            s > 0,
    ;
}

/// The chunks of a page behind the first: where they are, and that they are apart.
proof fn lemma_page_chunks(base: u64, c: int)
    requires
        0 <= c < NUM_CLASSES,
        base % 4096 == 0,
        0 < base,
        base + 4095 <= u64::MAX,
    ensures
        ({
            let s = heap::class_size(c);
            let ps = heap::chunks_from(base as int, s, 1);
            &&& ps.no_duplicates()
            &&& forall|p: u64| #[trigger]
                ps.contains(p) ==> chunk_wf(p as int, c) && base + s <= p && p + s <= base + 4096
            &&& forall|p: u64, q: u64| #[trigger]
                ps.contains(p) && #[trigger] ps.contains(q) && p != q ==> apart(
                    p as int,
                    s,
                    q as int,
                    s,
                )
            &&& chunk_wf(base as int, c)
        }),
{
    let s = heap::class_size(c);
    let b = base as int;
    let ps = heap::chunks_from(b, s, 1);
    assert(4096int / s >= 1);
    assert(b + 0 * s == b);
    lemma_chunk(b, c, 0);
    assert forall|k: int| 0 <= k < ps.len() implies #[trigger] ps[k] == b + (1 + k) * s && chunk_wf(
        ps[k] as int,
        c,
    ) && base + s <= ps[k] && ps[k] + s <= base + 4096 by {
        lemma_chunk(b, c, 1 + k);
        heap::law_chunks_apart(b, c, 0, 1 + k);
    }
    assert forall|k: int, l: int| 0 <= k < l < ps.len() implies #[trigger] ps[k] + s
        <= #[trigger] ps[l] by {
        heap::law_chunks_apart(b, c, 1 + k, 1 + l);
    }
    assert forall|p: u64, q: u64| #[trigger]
        ps.contains(p) && #[trigger] ps.contains(q) && p != q implies apart(
        p as int,
        s,
        q as int,
        s,
    ) by {
        let k = choose|k: int| 0 <= k < ps.len() && ps[k] == p;
        let l = choose|l: int| 0 <= l < ps.len() && ps[l] == q;
        if k < l {
            assert(ps[k] + s <= ps[l]);
        } else {
            assert(ps[l] + s <= ps[k]);
        }
    }
    assert(ps.no_duplicates()) by {
        assert forall|k: int, l: int| 0 <= k < ps.len() && 0 <= l < ps.len() && k != l implies ps[k]
            != ps[l] by {
            if k < l {
                assert(ps[k] + s <= ps[l]);
            } else {
                assert(ps[l] + s <= ps[k]);
            }
        }
    }
}

// ── Each step keeps the arena in order ──────────────────────────────────────

proof fn lemma_taken(a: Arena, c: int)
    requires
        a.wf(),
        0 <= c < NUM_CLASSES,
        a.lists[c] != 0,
    ensures
        a.taken(c).wf(),
        a.is_free(c, a.lists[c]),
{
    let t = a.taken(c);
    let old = a.free[c];
    let new = old.drop_first();
    let head = a.lists[c];
    assert(heap::is_list(a.mem, head, old));
    assert(old.len() > 0 && old[0] == head);
    assert(a.is_free(c, head));
    assert forall|d: int, q: u64| #[trigger] t.is_free(d, q) implies a.is_free(d, q) && !(d == c
        && q == head) by {
        if d == c {
            let k = choose|k: int| 0 <= k < new.len() && new[k] == q;
            assert(old[k + 1] == q);
            assert(old[0] != old[k + 1]);
        }
    }
    assert(t.linked()) by {
        assert forall|d: int| 0 <= d < NUM_CLASSES implies (#[trigger] t.free[d]).no_duplicates()
            && heap::is_list(t.mem, t.lists[d], t.free[d]) by {
            assert(a.free[d].no_duplicates());
            if d == c {
                assert forall|i: int, j: int|
                    0 <= i < new.len() && 0 <= j < new.len() && i != j implies new[i] != new[j] by {
                    assert(old[i + 1] != old[j + 1]);
                }
            }
        }
    }
}

proof fn lemma_refilled(a: Arena, c: int, base: u64)
    requires
        a.wf(),
        0 <= c < NUM_CLASSES,
        a.lists[c] == 0,
        base % 4096 == 0,
        0 < base,
        base + 4095 <= u64::MAX,
        a.is_fresh(base as int, 4096),
    ensures
        a.refilled(c, base).wf(),
{
    let t = a.refilled(c, base);
    let s = heap::class_size(c);
    let ps = heap::chunks_from(base as int, s, 1);
    let ws = heap::links(base as int, s, 0);
    assert(heap::is_list(a.mem, a.lists[c], a.free[c]));
    lemma_page_chunks(base, c);
    heap::law_ascending(a.mem, base as int, c);
    assert forall|i: int| 0 <= i < ws.len() implies base <= (#[trigger] ws[i]).addr < base
        + 4096 by {
        let n = 4096int / s;
        lemma_chunk(base as int, c, n - 1 - i);
    }
    assert forall|d: int, q: u64| #[trigger] t.is_free(d, q) implies (d == c && ps.contains(q)) || (d
        != c && a.is_free(d, q)) by {}
    assert(t.linked()) by {
        assert forall|d: int| 0 <= d < NUM_CLASSES implies (#[trigger] t.free[d]).no_duplicates()
            && heap::is_list(t.mem, t.lists[d], t.free[d]) by {
            if d != c {
                let f = a.free[d];
                assert(f.no_duplicates());
                assert forall|i: int|
                    0 <= i < f.len() && a.mem.contains_key(#[trigger] f[i]) implies t.mem.contains_key(
                    f[i],
                ) && t.mem[f[i]] == a.mem[f[i]] by {
                    assert(a.is_free(d, f[i]));
                    lemma_stored_frame(a.mem, ws, f[i]);
                }
                lemma_list_same(a.mem, t.mem, a.lists[d], f);
            }
        }
    }
}

proof fn lemma_large(a: Arena, base: u64, len: int)
    requires
        a.wf(),
        len > 4096,
        a.is_fresh(base as int, len),
    ensures
        (Arena { live: a.live.insert(Block { addr: base as int, len }), ..a }).wf(),
{
    let t = Arena { live: a.live.insert(Block { addr: base as int, len }), ..a };
    assert forall|d: int, q: u64| #[trigger] t.is_free(d, q) implies a.is_free(d, q) by {}
}

proof fn lemma_let_go(a: Arena, b: Block)
    requires
        a.wf(),
    ensures
        (Arena { live: a.live.remove(b), ..a }).wf(),
{
    let t = Arena { live: a.live.remove(b), ..a };
    assert forall|d: int, q: u64| #[trigger] t.is_free(d, q) implies a.is_free(d, q) by {}
}

/// The arena with a chunk of a class back on its list.
spec fn returned(a: Arena, c: int, ptr: u64) -> Arena {
    Arena {
        lists: a.lists.update(c, ptr),
        mem: a.mem.insert(ptr, a.lists[c]),
        free: a.free.update(c, seq![ptr] + a.free[c]),
        live: a.live.remove(Block { addr: ptr as int, len: heap::class_size(c) }),
    }
}

proof fn lemma_returned(a: Arena, c: int, ptr: u64)
    requires
        a.wf(),
        0 <= c < NUM_CLASSES,
        a.live.contains(Block { addr: ptr as int, len: heap::class_size(c) }),
    ensures
        returned(a, c, ptr).wf(),
{
    let t = returned(a, c, ptr);
    let b = Block { addr: ptr as int, len: heap::class_size(c) };
    let old = a.free[c];
    let new = seq![ptr] + old;
    assert(heap::class_size(c) <= 4096);
    assert(a.live.contains(b));
    assert(chunk_wf(ptr as int, c));
    assert forall|d: int, q: u64| a.is_free(d, q) implies q != ptr by {
        assert(a.live.contains(b));
        assert(a.is_free(d, q));
    }
    assert forall|d: int, q: u64| #[trigger] t.is_free(d, q) implies a.is_free(d, q) || (d == c && q
        == ptr) by {
        if d == c {
            let k = choose|k: int| 0 <= k < new.len() && new[k] == q;
            if k > 0 {
                assert(old[k - 1] == q);
            }
        }
    }
    assert(t.linked()) by {
        assert forall|d: int| 0 <= d < NUM_CLASSES implies (#[trigger] t.free[d]).no_duplicates()
            && heap::is_list(t.mem, t.lists[d], t.free[d]) by {
            let f = a.free[d];
            assert(f.no_duplicates());
            assert forall|i: int|
                0 <= i < f.len() && a.mem.contains_key(#[trigger] f[i]) implies t.mem.contains_key(
                f[i],
            ) && t.mem[f[i]] == a.mem[f[i]] by {
                assert(a.is_free(d, f[i]));
            }
            lemma_list_same(a.mem, t.mem, a.lists[d], f);
            if d == c {
                assert(new.drop_first() =~= old);
                assert forall|i: int, j: int|
                    0 <= i < new.len() && 0 <= j < new.len() && i != j implies new[i] != new[j] by {
                    if i > 0 {
                        assert(a.is_free(c, old[i - 1]));
                    }
                    if j > 0 {
                        assert(a.is_free(c, old[j - 1]));
                    }
                }
            }
        }
    }
}

// ── The laws ────────────────────────────────────────────────────────────────

/// An allocator without any memory is in order.
pub proof fn law_empty_arena()
    ensures
        Arena::empty().wf(),
{
    let t = Arena::empty();
    assert forall|d: int, q: u64| !(#[trigger] t.is_free(d, q)) by {}
}

/// The block at `p` is a good one: aligned and large enough, apart from all that were
/// given out before, and `t` is the arena with it given out.
pub open spec fn well_given(a: Arena, t: Arena, p: u64, size: int, align: int) -> bool {
    let b = Arena::block_at(p, size, align);
    &&& p as int % align == 0
    &&& t.live == a.live.insert(b)
    &&& size <= b.len
    &&& !a.live.contains(b)
    &&& forall|c: Block| #[trigger] a.live.contains(c) ==> apart(p as int, size, c.addr, c.len)
}

/// A block that is apart from all others is none of them.
proof fn lemma_new_block(a: Arena, p: u64, len: int, size: int)
    requires
        0 < size <= len,
        a.blocks_wf(),
        forall|b: Block| #[trigger] a.live.contains(b) ==> apart(p as int, len, b.addr, b.len),
    ensures
        !a.live.contains(Block { addr: p as int, len }),
        forall|b: Block| #[trigger] a.live.contains(b) ==> apart(p as int, size, b.addr, b.len),
{
    let n = Block { addr: p as int, len };
    if a.live.contains(n) {
        assert(apart(n.addr, n.len, n.addr, n.len));
    }
}

proof fn lemma_pages_given(a: Arena, size: int, align: int, base: u64)
    requires
        a.wf(),
        4096 < size <= usize::MAX - 4095,
        heap::small_power(align),
        a.grants(size, align, Some(base)),
    ensures
        ({
            let (t, p) = a.allocated(size, align, Some(base));
            p == base && t.wf() && well_given(a, t, p, size, align)
        }),
{
    let len = heap::page_count(size) * 4096;
    lemma_large(a, base, len);
    lemma_page_aligned(base as int, align);
    lemma_new_block(a, base, len, size);
}

proof fn lemma_chunk_given(a: Arena, size: int, align: int, grant: Option<u64>)
    requires
        a.wf(),
        0 < size <= 4096,
        heap::small_power(align),
        a.lists[heap::class_of(size, align)->0] != 0,
    ensures
        ({
            let (t, p) = a.allocated(size, align, grant);
            &&& p == a.lists[heap::class_of(size, align)->0]
            &&& t.wf() && well_given(a, t, p, size, align)
        }),
{
    heap::lemma_class_exists(size, align);
    let c = heap::class_of(size, align)->0;
    let head = a.lists[c];
    lemma_taken(a, c);
    assert(a.is_free(c, head));
    assert(heap::class_size(c) % align == 0);
    lemma_size_aligned(head as int, heap::class_size(c), align);
    assert forall|b: Block| #[trigger] a.live.contains(b) implies apart(
        head as int,
        heap::class_size(c),
        b.addr,
        b.len,
    ) by {
        assert(a.is_free(c, head));
    }
    lemma_new_block(a, head, heap::class_size(c), size);
}

proof fn lemma_page_given(a: Arena, size: int, align: int, base: u64)
    requires
        a.wf(),
        0 < size <= 4096,
        heap::small_power(align),
        a.lists[heap::class_of(size, align)->0] == 0,
        a.grants(size, align, Some(base)),
    ensures
        ({
            let (t, p) = a.allocated(size, align, Some(base));
            p == base && t.wf() && well_given(a, t, p, size, align)
        }),
{
    heap::lemma_class_exists(size, align);
    let c = heap::class_of(size, align)->0;
    lemma_refilled(a, c, base);
    lemma_page_aligned(base as int, align);
    lemma_new_block(a, base, 4096, size);
    lemma_new_block(a, base, 4096, heap::class_size(c));
    lemma_new_block(a, base, heap::class_size(c), size);
}

/// An allocation keeps the arena in order. The block that it gives is aligned and large
/// enough, and overlaps no block that was given out before. It fails only where a page
/// is needed and there is none. A block of no size is the alignment itself, and nothing
/// changes.
pub proof fn law_allocation(a: Arena, size: int, align: int, grant: Option<u64>)
    requires
        a.wf(),
        0 <= size <= usize::MAX - 4095,
        heap::small_power(align),
        a.grants(size, align, grant),
    ensures
        ({
            let (t, p) = a.allocated(size, align, grant);
            let step = heap::allocation(a.lists, size, align);
            &&& t.wf()
            &&& size == 0 ==> p == align && t == a
            &&& p == 0 <==> grant is None && (step is Page || step is Pages)
            &&& p == 0 ==> t == a
            &&& size > 0 && p != 0 ==> well_given(a, t, p, size, align)
        }),
{
    if size > 4096 {
        if let Some(base) = grant {
            lemma_pages_given(a, size, align, base);
        }
    } else if size > 0 {
        heap::lemma_class_exists(size, align);
        if a.lists[heap::class_of(size, align)->0] != 0 {
            lemma_chunk_given(a, size, align, grant);
        } else if let Some(base) = grant {
            lemma_page_given(a, size, align, base);
        }
    }
}

proof fn lemma_page_aligned(p: int, align: int)
    requires
        p % 4096 == 0,
        heap::small_power(align),
    ensures
        p % align == 0,
{
    lemma_size_aligned(p, 4096, align);
}

proof fn lemma_size_aligned(p: int, s: int, align: int)
    requires
        p % s == 0,
        s > 0,
        align > 0,
        s % align == 0,
    ensures
        p % align == 0,
{
    let k = p / s;
    let q = s / align;
    assert(p == (k * q) * align) by (nonlinear_arith)
        requires
            p % s == 0,
            s > 0,
            align > 0,
            s % align == 0,
            k == p / s,
            q == s / align,
    ;
    assert(((k * q) * align) % align == 0) by (nonlinear_arith)
        requires
            align > 0,
    ;
}

/// A release of a block that was given out keeps the arena in order, and takes that
/// block, and no other, from those given out. A release of nothing changes nothing.
pub proof fn law_release(a: Arena, ptr: u64, size: int, align: int)
    requires
        a.wf(),
        0 <= size <= usize::MAX - 4095,
        a.may_release(ptr, size, align),
    ensures
        a.released(ptr, size, align).wf(),
        ptr == 0 || size == 0 ==> a.released(ptr, size, align) == a,
        ptr != 0 && size > 0 ==> a.released(ptr, size, align).live == a.live.remove(
            Arena::block_at(ptr, size, align),
        ),
{
    if ptr != 0 && size > 0 {
        if size > 4096 {
            lemma_let_go(a, Arena::block_at(ptr, size, align));
        } else {
            heap::lemma_class_exists(size, align);
            let c = heap::class_of(size, align)->0;
            let w = heap::LinkWrite { addr: ptr, value: a.lists[c] };
            assert(seq![w].drop_last() =~= Seq::<heap::LinkWrite>::empty());
            assert(heap::stored(a.mem, seq![w]) == a.mem.insert(ptr, a.lists[c])) by {
                reveal_with_fuel(heap::stored, 2);
            }
            lemma_returned(a, c, ptr);
        }
    }
}

/// Whatever is written to blocks that were given out, the arena stays in order.
pub proof fn law_blocks_writable(a: Arena, mem: Map<u64, u64>)
    requires
        a.wf(),
        a.may_write(mem),
    ensures
        (Arena { mem, ..a }).wf(),
{
    let t = Arena { mem, ..a };
    assert forall|d: int, q: u64| #[trigger] t.is_free(d, q) implies a.is_free(d, q) by {}
    assert(t.linked()) by {
        assert forall|d: int| 0 <= d < NUM_CLASSES implies (#[trigger] t.free[d]).no_duplicates()
            && heap::is_list(t.mem, t.lists[d], t.free[d]) by {
            let f = a.free[d];
            assert(f.no_duplicates());
            assert forall|i: int|
                0 <= i < f.len() && a.mem.contains_key(#[trigger] f[i]) implies mem.contains_key(
                f[i],
            ) && mem[f[i]] == a.mem[f[i]] by {
                assert(a.is_free(d, f[i]));
                assert(!a.in_use(f[i] as int));
            }
            lemma_list_same(a.mem, mem, a.lists[d], f);
        }
    }
}

/// What happens to the heap.
pub enum HeapEvent {
    /// A block is asked for; `grant` is what the page allocator gives, where it is asked.
    Allocate { size: int, align: int, grant: Option<u64> },
    Release { ptr: u64, size: int, align: int },
    /// Blocks that were given out are written to.
    Write { mem: Map<u64, u64> },
}

impl Arena {
    /// The event is one that can happen.
    pub open spec fn allows(self, e: HeapEvent) -> bool {
        match e {
            HeapEvent::Allocate { size, align, grant } => {
                &&& 0 <= size <= usize::MAX - 4095
                &&& heap::small_power(align)
                &&& self.grants(size, align, grant)
            },
            HeapEvent::Release { ptr, size, align } => 0 <= size <= usize::MAX - 4095
                && self.may_release(ptr, size, align),
            HeapEvent::Write { mem } => self.may_write(mem),
        }
    }

    /// The arena after an event.
    pub open spec fn after(self, e: HeapEvent) -> Arena {
        match e {
            HeapEvent::Allocate { size, align, grant } => self.allocated(size, align, grant).0,
            HeapEvent::Release { ptr, size, align } => self.released(ptr, size, align),
            HeapEvent::Write { mem } => Arena { mem, ..self },
        }
    }

    /// The arena after some events.
    pub open spec fn run(self, es: Seq<HeapEvent>) -> Arena
        decreases es.len(),
    {
        if es.len() == 0 {
            self
        } else {
            self.run(es.drop_last()).after(es.last())
        }
    }

    /// Each of the events can happen after those before it.
    pub open spec fn allows_all(self, es: Seq<HeapEvent>) -> bool
        decreases es.len(),
    {
        es.len() > 0 ==> self.allows_all(es.drop_last()) && self.run(es.drop_last()).allows(
            es.last(),
        )
    }
}

/// Over any number of allocations, releases and writes, from the beginning on: no two
/// blocks that are given out at a time overlap.
pub proof fn law_blocks_never_overlap(es: Seq<HeapEvent>)
    requires
        Arena::empty().allows_all(es),
    ensures
        Arena::empty().run(es).wf(),
        forall|a: Block, b: Block|
            #![trigger Arena::empty().run(es).live.contains(a), Arena::empty().run(es).live.contains(b)]
            Arena::empty().run(es).live.contains(a) && Arena::empty().run(es).live.contains(b) && a
                != b ==> apart(a.addr, a.len, b.addr, b.len),
    decreases es.len(),
{
    if es.len() == 0 {
        law_empty_arena();
    } else {
        law_blocks_never_overlap(es.drop_last());
        let a = Arena::empty().run(es.drop_last());
        match es.last() {
            HeapEvent::Allocate { size, align, grant } => law_allocation(a, size, align, grant),
            HeapEvent::Release { ptr, size, align } => law_release(a, ptr, size, align),
            HeapEvent::Write { mem } => law_blocks_writable(a, mem),
        }
    }
}

/// What is taken from a list is its first chunk, and the list goes on with the second; what
/// a fresh page leaves on a list that was empty are its chunks, all but the first.
pub proof fn law_lists_served(a: Arena, c: int, base: u64)
    requires
        a.wf(),
        0 <= c < NUM_CLASSES,
        0 < base,
        base + 4095 <= u64::MAX,
    ensures
        a.free[c].len() > 0 ==> ({
            let (lists, node) = heap::popping(a.lists, c, a.mem[a.lists[c]]);
            &&& node == a.free[c][0]
            &&& heap::is_list(a.mem, lists[c], a.free[c].drop_first())
            &&& forall|d: int| 0 <= d < NUM_CLASSES && d != c ==> #[trigger] lists[d] == a.lists[d]
        }),
        a.lists[c] == 0 ==> ({
            let (lists, words) = heap::refilling(a.lists, c, base as int);
            &&& heap::is_list(
                heap::stored(a.mem, words),
                lists[c],
                heap::chunks_from(base as int, heap::class_size(c), 1),
            )
            &&& forall|d: int| 0 <= d < NUM_CLASSES && d != c ==> #[trigger] lists[d] == a.lists[d]
        }),
{
    assert(heap::is_list(a.mem, a.lists[c], a.free[c]));
    heap::law_ascending(a.mem, base as int, c);
}

} // verus!
