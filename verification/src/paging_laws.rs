//! What a walk means for memory: the page is mapped, and no other page is moved.
use vstd::prelude::*;
use crate::paging;
use crate::paging::{Walk, WalkEvent, WalkStep, PRESENT, USER, WRITE};

verus! {

/// Memory after the rest of a walk was carried out: words are read from memory
/// and written to it, and `fresh` are the tables that are handed out.
pub open spec fn carried_out(
    mem: Map<int, u64>,
    w: Walk,
    step: WalkStep,
    fresh: Seq<u64>,
    steps: nat,
) -> Map<int, u64>
    decreases steps,
{
    if steps == 0 {
        mem
    } else {
        match step {
            WalkStep::Read(a) => {
                let n = w.after(WalkEvent::Entry(mem[a as int]));
                carried_out(mem, n.0, n.1, fresh, (steps - 1) as nat)
            },
            WalkStep::Fresh => {
                let n = w.after(WalkEvent::Table(fresh[0]));
                carried_out(mem, n.0, n.1, fresh.drop_first(), (steps - 1) as nat)
            },
            WalkStep::Store { addr, value } => {
                let n = w.after(WalkEvent::Stored);
                carried_out(
                    mem.insert(addr as int, value),
                    n.0,
                    n.1,
                    fresh,
                    (steps - 1) as nat,
                )
            },
            WalkStep::Forget(_) => mem,
            WalkStep::Done => mem,
        }
    }
}

/// Memory in which the entry at `a` has the bits of `link`, where user code is to
/// walk through it and could not.
pub open spec fn opened(mem: Map<int, u64>, a: int, link: u64) -> Map<int, u64> {
    if paging::lacks_user(mem[a], link) {
        mem.insert(a, mem[a] | link)
    } else {
        mem
    }
}

/// Memory with the page of `virt` entered as `leaf` below the table `table` of a
/// level; where a table is missing, the next fresh one is linked.
pub open spec fn mapped(
    mem: Map<int, u64>,
    table: u64,
    virt: u64,
    leaf: u64,
    link: u64,
    level: int,
    fresh: Seq<u64>,
) -> Map<int, u64>
    decreases level,
{
    let a = paging::entry_addr(table, virt, level);
    if level <= 1 {
        mem.insert(a, leaf)
    } else if paging::is_present(mem[a]) {
        mapped(
            opened(mem, a, link),
            paging::address_in(mem[a]),
            virt,
            leaf,
            link,
            level - 1,
            fresh,
        )
    } else {
        mapped(
            mem.insert(a, fresh[0] | link),
            fresh[0],
            virt,
            leaf,
            link,
            level - 1,
            fresh.drop_first(),
        )
    }
}

/// The entry of the page that an address lies in, as the processor finds it below
/// the table `table` of a level.
pub open spec fn entry_of(mem: Map<int, u64>, table: u64, virt: u64, level: int) -> Option<u64>
    decreases level,
{
    let e = mem[paging::entry_addr(table, virt, level)];
    if !paging::is_present(e) {
        None
    } else if level <= 1 {
        Some(e)
    } else {
        entry_of(mem, paging::address_in(e), virt, level - 1)
    }
}

/// User code can walk the tables down to the page of `virt`: every entry for a
/// table is in use and open to it.
pub open spec fn user_way(mem: Map<int, u64>, table: u64, virt: u64, level: int) -> bool
    decreases level,
{
    let e = mem[paging::entry_addr(table, virt, level)];
    level <= 1 || {
        &&& paging::is_present(e)
        &&& e & USER != 0
        &&& user_way(mem, paging::address_in(e), virt, level - 1)
    }
}

/// The tables on the way to a page, from the top.
pub open spec fn way(mem: Map<int, u64>, table: u64, virt: u64, level: int) -> Seq<u64>
    decreases level,
{
    let e = mem[paging::entry_addr(table, virt, level)];
    if level <= 1 || !paging::is_present(e) {
        seq![table]
    } else {
        seq![table] + way(mem, paging::address_in(e), virt, level - 1)
    }
}

/// A table can be used: a page of zeros, below 2^52.
pub open spec fn blank(mem: Map<int, u64>, t: u64) -> bool {
    &&& t % 4096 == 0
    &&& t + 4096 <= 0x10_0000_0000_0000
    &&& forall|i: int| 0 <= i < 512 ==> #[trigger] mem[t + i * 8] == 0
}

/// Fresh tables: blank, and no two the same.
pub open spec fn all_fresh(mem: Map<int, u64>, fresh: Seq<u64>) -> bool {
    &&& forall|i: int| 0 <= i < fresh.len() ==> blank(mem, #[trigger] fresh[i])
    &&& forall|i: int, j: int| 0 <= i < j < fresh.len() ==> fresh[i] != fresh[j]
}

/// None of the tables `a` is among `b`.
pub open spec fn apart(a: Seq<u64>, b: Seq<u64>) -> bool {
    forall|i: int| 0 <= i < a.len() ==> !b.contains(#[trigger] a[i])
}

/// The way to a page never comes back to a table.
pub open spec fn no_loop(mem: Map<int, u64>, table: u64, virt: u64, level: int) -> bool
    decreases level,
{
    let e = mem[paging::entry_addr(table, virt, level)];
    level <= 1 || !paging::is_present(e) || {
        &&& !way(mem, paging::address_in(e), virt, level - 1).contains(table)
        &&& no_loop(mem, paging::address_in(e), virt, level - 1)
    }
}

/// The ways to two pages part for good: below the table where they part they have
/// no table in common.
pub open spec fn part(mem: Map<int, u64>, table: u64, v: u64, w: u64, level: int) -> bool
    decreases level,
{
    let e = mem[paging::entry_addr(table, v, level)];
    let f = mem[paging::entry_addr(table, w, level)];
    if level <= 1 {
        true
    } else if paging::index_at(v, level) == paging::index_at(w, level) {
        paging::is_present(e) ==> part(mem, paging::address_in(e), v, w, level - 1)
    } else {
        paging::is_present(f) ==> {
            &&& !way(mem, paging::address_in(f), w, level - 1).contains(table)
            &&& paging::is_present(e) ==> apart(
                way(mem, paging::address_in(f), w, level - 1),
                way(mem, paging::address_in(e), v, level - 1),
            )
        }
    }
}

/// Two addresses lie in different pages, as far as the tables from a level down
/// tell.
pub open spec fn differ(v: u64, w: u64, level: int) -> bool
    decreases level,
{
    if level <= 0 {
        false
    } else {
        paging::index_at(v, level) != paging::index_at(w, level) || differ(v, w, level - 1)
    }
}

/// The bits that link a table.
pub open spec fn is_link(link: u64) -> bool {
    link == PRESENT | WRITE || link == PRESENT | WRITE | USER
}

// ── Words and pages ─────────────────────────────────────────────────────────

proof fn lemma_link(p: u64, link: u64)
    requires
        p % 4096 == 0,
        p + 4096 <= 0x10_0000_0000_0000,
        is_link(link),
    ensures
        paging::is_present(p | link),
        paging::address_in(p | link) == p,
        link & USER != 0 ==> (p | link) & USER != 0,
{
    assert(1u64 | 2 == 3 && 1u64 | 2 | 4 == 7) by (bit_vector);
    assert(p % 4096 == 0 && p < 0x10_0000_0000_0000 && (link == 3 || link == 7) ==> (p | link) & 1
        != 0 && (p | link) & 0x000F_FFFF_FFFF_F000 == p && (link & 4 != 0 ==> (p | link) & 4 != 0))
        by (bit_vector);
}

/// The bits of a link change neither whether an entry is in use nor its address.
proof fn lemma_opened_bits(e: u64, link: u64)
    requires
        is_link(link),
        paging::is_present(e),
    ensures
        paging::is_present(e | link),
        paging::address_in(e | link) == paging::address_in(e),
        link & USER != 0 ==> (e | link) & USER != 0,
{
    assert(1u64 | 2 == 3 && 1u64 | 2 | 4 == 7) by (bit_vector);
    assert(e & 1 != 0 && (link == 3 || link == 7) ==> (e | link) & 1 != 0 && (e | link)
        & 0x000F_FFFF_FFFF_F000 == e & 0x000F_FFFF_FFFF_F000 && (link & 4 != 0 ==> (e | link) & 4
        != 0)) by (bit_vector);
}

/// Two memories whose entries lead to the same tables.
spec fn alike(m: Map<int, u64>, n: Map<int, u64>) -> bool {
    forall|x: int|
        paging::is_present(m[x]) == paging::is_present(n[x]) && (paging::is_present(m[x])
            ==> paging::address_in(#[trigger] m[x]) == paging::address_in(n[x]))
}

proof fn lemma_opened_alike(mem: Map<int, u64>, a: int, link: u64)
    requires
        is_link(link),
        paging::is_present(mem[a]),
    ensures
        alike(mem, opened(mem, a, link)),
        link & USER != 0 ==> opened(mem, a, link)[a] & USER != 0,
        paging::is_present(opened(mem, a, link)[a]),
        paging::address_in(opened(mem, a, link)[a]) == paging::address_in(mem[a]),
        forall|x: int| x != a ==> #[trigger] opened(mem, a, link)[x] == mem[x],
{
    lemma_opened_bits(mem[a], link);
    let n = opened(mem, a, link);
    assert forall|x: int|
        paging::is_present(mem[x]) == paging::is_present(n[x]) && (paging::is_present(mem[x])
            ==> paging::address_in(#[trigger] mem[x]) == paging::address_in(n[x])) by {
        if x != a {
            assert(n[x] == mem[x]);
        }
    }
}

proof fn lemma_alike_way(m: Map<int, u64>, n: Map<int, u64>, t: u64, v: u64, l: int)
    requires
        alike(m, n),
    ensures
        way(m, t, v, l) == way(n, t, v, l),
        no_loop(m, t, v, l) == no_loop(n, t, v, l),
    decreases l,
{
    let e = m[paging::entry_addr(t, v, l)];
    if l > 1 && paging::is_present(e) {
        lemma_alike_way(m, n, paging::address_in(e), v, l - 1);
    }
}

proof fn lemma_alike_untouched(
    m: Map<int, u64>,
    n: Map<int, u64>,
    t: u64,
    v: u64,
    l: int,
    x: int,
)
    requires
        alike(m, n),
    ensures
        untouched(m, t, v, l, x) == untouched(n, t, v, l, x),
    decreases l,
{
    let e = m[paging::entry_addr(t, v, l)];
    if l > 1 && paging::is_present(e) {
        lemma_alike_untouched(m, n, paging::address_in(e), v, l - 1, x);
    }
}

proof fn lemma_alike_part(m: Map<int, u64>, n: Map<int, u64>, t: u64, v: u64, w: u64, l: int)
    requires
        alike(m, n),
    ensures
        part(m, t, v, w, l) == part(n, t, v, w, l),
    decreases l,
{
    let e = m[paging::entry_addr(t, v, l)];
    let f = m[paging::entry_addr(t, w, l)];
    if l > 1 {
        assert(paging::is_present(e) == paging::is_present(n[paging::entry_addr(t, v, l)]));
        assert(paging::is_present(f) == paging::is_present(n[paging::entry_addr(t, w, l)]));
        if paging::is_present(e) {
            lemma_alike_part(m, n, paging::address_in(e), v, w, l - 1);
            lemma_alike_way(m, n, paging::address_in(e), v, l - 1);
        }
        if paging::is_present(f) {
            lemma_alike_way(m, n, paging::address_in(f), w, l - 1);
        }
    }
}

/// A word in a table that is not on the way changes nothing for the page.
proof fn lemma_entry_elsewhere(
    m: Map<int, u64>,
    n: Map<int, u64>,
    t: u64,
    v: u64,
    l: int,
    a: int,
    table: u64,
)
    requires
        forall|x: int| x != a ==> #[trigger] n[x] == m[x],
        in_page(a, table),
        table % 4096 == 0,
        t % 4096 == 0,
        !way(m, t, v, l).contains(table),
    ensures
        entry_of(n, t, v, l) == entry_of(m, t, v, l),
    decreases l,
{
    let b = paging::entry_addr(t, v, l);
    let ws = way(m, t, v, l);
    assert(ws[0] == t);
    lemma_entry_in_page(t, v, l);
    assert(n[b] == m[b]);
    if l > 1 && paging::is_present(m[b]) {
        let c = paging::address_in(m[b]);
        paging::lemma_address(m[b]);
        let r = way(m, c, v, l - 1);
        assert forall|i: int| 0 <= i < r.len() implies r[i] != table by {
            assert(ws[i + 1] == r[i]);
        }
        lemma_entry_elsewhere(m, n, c, v, l - 1, a, table);
    }
}

proof fn lemma_zero_absent()
    ensures
        !paging::is_present(0),
{
    assert(0u64 & 1 == 0) by (bit_vector);
}

/// The entry for `virt` in a table at a level is left alone below `table`.
spec fn untouched(mem: Map<int, u64>, table: u64, virt: u64, level: int, x: int) -> bool
    decreases level,
{
    let a = paging::entry_addr(table, virt, level);
    &&& x != a
    &&& level > 1 && paging::is_present(mem[a]) ==> untouched(
        mem,
        paging::address_in(mem[a]),
        virt,
        level - 1,
        x,
    )
}

/// The word lies in the page.
spec fn in_page(x: int, t: u64) -> bool {
    t <= x < t + 4096
}

proof fn lemma_entry_in_page(table: u64, virt: u64, level: int)
    ensures
        in_page(paging::entry_addr(table, virt, level), table),
        0 <= paging::index_at(virt, level) < 512,
{
}

/// A word in a page that is not on the way is left alone.
proof fn lemma_untouched(mem: Map<int, u64>, table: u64, virt: u64, level: int, x: int, t: u64)
    requires
        in_page(x, t),
        t % 4096 == 0,
        table % 4096 == 0,
        !way(mem, table, virt, level).contains(t),
    ensures
        untouched(mem, table, virt, level, x),
    decreases level,
{
    let a = paging::entry_addr(table, virt, level);
    let ws = way(mem, table, virt, level);
    assert(ws[0] == table);
    assert(table != t);
    lemma_entry_in_page(table, virt, level);
    if level > 1 && paging::is_present(mem[a]) {
        let c = paging::address_in(mem[a]);
        paging::lemma_address(mem[a]);
        let r = way(mem, c, virt, level - 1);
        assert forall|i: int| 0 <= i < r.len() implies r[i] != t by {
            assert(ws[i + 1] == r[i]);
        }
        lemma_untouched(mem, c, virt, level - 1, x, t);
    }
}

/// What holds of the memory, the tables and the fresh tables as a walk goes on.
spec fn ready(mem: Map<int, u64>, table: u64, virt: u64, level: int, fresh: Seq<u64>) -> bool {
    &&& level >= 1
    &&& table % 4096 == 0
    &&& level - 1 <= fresh.len()
    &&& all_fresh(mem, fresh)
    &&& apart(fresh, way(mem, table, virt, level))
}

/// Going down through an entry that is there.
proof fn lemma_down(
    mem: Map<int, u64>,
    table: u64,
    virt: u64,
    link: u64,
    level: int,
    fresh: Seq<u64>,
)
    requires
        ready(mem, table, virt, level, fresh),
        level > 1,
        is_link(link),
        paging::is_present(mem[paging::entry_addr(table, virt, level)]),
    ensures
        ready(
            opened(mem, paging::entry_addr(table, virt, level), link),
            paging::address_in(mem[paging::entry_addr(table, virt, level)]),
            virt,
            level - 1,
            fresh,
        ),
{
    let e = mem[paging::entry_addr(table, virt, level)];
    let c = paging::address_in(e);
    paging::lemma_address(e);
    let ws = way(mem, table, virt, level);
    let r = way(mem, c, virt, level - 1);
    assert forall|i: int| 0 <= i < fresh.len() implies !r.contains(#[trigger] fresh[i]) by {
        if r.contains(fresh[i]) {
            let k = choose|k: int| 0 <= k < r.len() && r[k] == fresh[i];
            assert(ws[k + 1] == fresh[i]);
            assert(ws.contains(fresh[i]));
        }
    }
    let a = paging::entry_addr(table, virt, level);
    let m2 = opened(mem, a, link);
    lemma_opened_alike(mem, a, link);
    lemma_alike_way(mem, m2, c, virt, level - 1);
    assert(ws[0] == table);
    assert(ws.contains(table));
    lemma_entry_in_page(table, virt, level);
    assert forall|i: int| 0 <= i < fresh.len() implies blank(m2, #[trigger] fresh[i]) by {
        let t = fresh[i];
        assert(t != table);
        assert(blank(mem, t));
        assert forall|k: int| 0 <= k < 512 implies #[trigger] m2[t + k * 8] == 0 by {
            assert(mem[t + k * 8] == 0);
            assert(t + k * 8 != a);
        }
    }
}

/// Going down through a table that was just linked.
proof fn lemma_grow(
    mem: Map<int, u64>,
    table: u64,
    virt: u64,
    link: u64,
    level: int,
    fresh: Seq<u64>,
)
    requires
        ready(mem, table, virt, level, fresh),
        level > 1,
    ensures
        ({
            let a = paging::entry_addr(table, virt, level);
            let m2 = mem.insert(a, fresh[0] | link);
            &&& ready(m2, fresh[0], virt, level - 1, fresh.drop_first())
            &&& blank(m2, fresh[0])
            &&& way(m2, fresh[0], virt, level - 1) == seq![fresh[0]]
            &&& !in_page(a, fresh[0])
        }),
{
    let a = paging::entry_addr(table, virt, level);
    let f = fresh[0];
    let m2 = mem.insert(a, f | link);
    let rest = fresh.drop_first();
    let ws = way(mem, table, virt, level);
    assert(ws[0] == table);
    assert(ws.contains(table));
    lemma_entry_in_page(table, virt, level);
    assert forall|i: int| 0 <= i < fresh.len() implies blank(m2, #[trigger] fresh[i]) && !in_page(
        a,
        fresh[i],
    ) by {
        let t = fresh[i];
        assert(t != table);
        assert(blank(mem, t));
        assert(!in_page(a, t));
        assert forall|k: int| 0 <= k < 512 implies #[trigger] m2[t + k * 8] == 0 by {
            assert(mem[t + k * 8] == 0);
        }
    }
    assert forall|i: int| 0 <= i < rest.len() implies blank(m2, #[trigger] rest[i]) by {
        assert(rest[i] == fresh[i + 1]);
    }
    assert forall|i: int, j: int| 0 <= i < j < rest.len() implies rest[i] != rest[j] by {
        assert(fresh[i + 1] != fresh[j + 1]);
    }
    lemma_entry_in_page(f, virt, level - 1);
    lemma_zero_absent();
    assert(m2[f + paging::index_at(virt, level - 1) * 8] == 0);
    assert(way(m2, f, virt, level - 1) =~= seq![f]);
    assert forall|i: int| 0 <= i < rest.len() implies !seq![f].contains(#[trigger] rest[i]) by {
        assert(rest[i] == fresh[i + 1]);
        assert(fresh[0] != fresh[i + 1]);
    }
}

/// A walk changes no word but the entries on its way and words of fresh tables.
proof fn lemma_frame(
    mem: Map<int, u64>,
    table: u64,
    virt: u64,
    leaf: u64,
    link: u64,
    level: int,
    fresh: Seq<u64>,
    x: int,
)
    requires
        ready(mem, table, virt, level, fresh),
        untouched(mem, table, virt, level, x),
        is_link(link),
        forall|i: int| 0 <= i < fresh.len() ==> !in_page(x, #[trigger] fresh[i]),
    ensures
        mapped(mem, table, virt, leaf, link, level, fresh)[x] == mem[x],
    decreases level,
{
    let a = paging::entry_addr(table, virt, level);
    if level > 1 {
        if paging::is_present(mem[a]) {
            let c = paging::address_in(mem[a]);
            let m2 = opened(mem, a, link);
            lemma_down(mem, table, virt, link, level, fresh);
            lemma_opened_alike(mem, a, link);
            lemma_alike_untouched(mem, m2, c, virt, level - 1, x);
            lemma_frame(m2, c, virt, leaf, link, level - 1, fresh, x);
        } else {
            let f = fresh[0];
            let m2 = mem.insert(a, f | link);
            let rest = fresh.drop_first();
            lemma_grow(mem, table, virt, link, level, fresh);
            lemma_entry_in_page(f, virt, level - 1);
            lemma_zero_absent();
            assert(m2[f + paging::index_at(virt, level - 1) * 8] == 0);
            assert(untouched(m2, f, virt, level - 1, x));
            assert forall|i: int| 0 <= i < rest.len() implies !in_page(x, #[trigger] rest[i]) by {
                assert(rest[i] == fresh[i + 1]);
            }
            lemma_frame(m2, f, virt, leaf, link, level - 1, rest, x);
        }
    }
}

/// The entry that leads down stays as it is while the walk goes on below it.
proof fn lemma_entry_kept(
    mem: Map<int, u64>,
    table: u64,
    child: u64,
    virt: u64,
    leaf: u64,
    link: u64,
    level: int,
    fresh: Seq<u64>,
    x: int,
)
    requires
        ready(mem, child, virt, level, fresh),
        table % 4096 == 0,
        in_page(x, table),
        is_link(link),
        !way(mem, child, virt, level).contains(table),
        !fresh.contains(table),
    ensures
        mapped(mem, child, virt, leaf, link, level, fresh)[x] == mem[x],
{
    lemma_untouched(mem, child, virt, level, x, table);
    assert forall|i: int| 0 <= i < fresh.len() implies !in_page(x, #[trigger] fresh[i]) by {
        assert(blank(mem, fresh[i]));
        assert(fresh[i] != table);
    }
    lemma_frame(mem, child, virt, leaf, link, level, fresh, x);
}

proof fn lemma_maps(
    mem: Map<int, u64>,
    table: u64,
    virt: u64,
    leaf: u64,
    link: u64,
    level: int,
    fresh: Seq<u64>,
)
    requires
        ready(mem, table, virt, level, fresh),
        no_loop(mem, table, virt, level),
        is_link(link),
        paging::is_present(leaf),
    ensures
        entry_of(mapped(mem, table, virt, leaf, link, level, fresh), table, virt, level) == Some(
            leaf,
        ),
        link & USER != 0 ==> user_way(
            mapped(mem, table, virt, leaf, link, level, fresh),
            table,
            virt,
            level,
        ),
    decreases level,
{
    let a = paging::entry_addr(table, virt, level);
    lemma_entry_in_page(table, virt, level);
    let ws = way(mem, table, virt, level);
    assert(ws[0] == table);
    if fresh.contains(table) {
        let k = choose|k: int| 0 <= k < fresh.len() && fresh[k] == table;
        assert(ws.contains(fresh[k]));
    }
    if level > 1 {
        if paging::is_present(mem[a]) {
            let c = paging::address_in(mem[a]);
            let m2 = opened(mem, a, link);
            lemma_down(mem, table, virt, link, level, fresh);
            lemma_opened_alike(mem, a, link);
            lemma_alike_way(mem, m2, c, virt, level - 1);
            lemma_maps(m2, c, virt, leaf, link, level - 1, fresh);
            lemma_entry_kept(m2, table, c, virt, leaf, link, level - 1, fresh, a);
        } else {
            let f = fresh[0];
            let m2 = mem.insert(a, f | link);
            let rest = fresh.drop_first();
            lemma_grow(mem, table, virt, link, level, fresh);
            lemma_link(f, link);
            lemma_zero_absent();
            lemma_entry_in_page(f, virt, level - 1);
            assert(m2[f + paging::index_at(virt, level - 1) * 8] == 0);
            lemma_maps(m2, f, virt, leaf, link, level - 1, rest);
            assert(!rest.contains(table)) by {
                if rest.contains(table) {
                    let k = choose|k: int| 0 <= k < rest.len() && rest[k] == table;
                    assert(fresh[k + 1] == table);
                }
            }
            assert(f != table);
            lemma_entry_kept(m2, table, f, virt, leaf, link, level - 1, rest, a);
        }
    }
}

/// In a fresh table only the page that is being mapped is found.
proof fn lemma_fresh_empty(
    mem: Map<int, u64>,
    f: u64,
    virt: u64,
    other: u64,
    leaf: u64,
    link: u64,
    level: int,
    fresh: Seq<u64>,
)
    requires
        ready(mem, f, virt, level, fresh),
        blank(mem, f),
        is_link(link),
        differ(virt, other, level),
    ensures
        entry_of(mapped(mem, f, virt, leaf, link, level, fresh), f, other, level) is None,
    decreases level,
{
    let a = paging::entry_addr(f, virt, level);
    let b = paging::entry_addr(f, other, level);
    lemma_entry_in_page(f, virt, level);
    lemma_entry_in_page(f, other, level);
    lemma_zero_absent();
    assert(mem[f + paging::index_at(virt, level) * 8] == 0);
    assert(mem[f + paging::index_at(other, level) * 8] == 0);
    let ws = way(mem, f, virt, level);
    assert(ws[0] == f);
    assert forall|i: int| 0 <= i < fresh.len() implies fresh[i] != f by {
        assert(ws.contains(f));
    }
    if paging::index_at(virt, level) != paging::index_at(other, level) {
        assert(untouched(mem, f, virt, level, b));
        assert forall|i: int| 0 <= i < fresh.len() implies !in_page(b, #[trigger] fresh[i]) by {
            assert(blank(mem, fresh[i]));
        }
        lemma_frame(mem, f, virt, leaf, link, level, fresh, b);
    } else {
        assert(level > 1) by {
            reveal_with_fuel(differ, 2);
        }
        let g = fresh[0];
        let m2 = mem.insert(a, g | link);
        let rest = fresh.drop_first();
        lemma_grow(mem, f, virt, link, level, fresh);
        lemma_link(g, link);
        lemma_fresh_empty(m2, g, virt, other, leaf, link, level - 1, rest);
        assert(!rest.contains(f)) by {
            if rest.contains(f) {
                let k = choose|k: int| 0 <= k < rest.len() && rest[k] == f;
                assert(fresh[k + 1] == f);
            }
        }
        lemma_entry_kept(m2, f, g, virt, leaf, link, level - 1, rest, a);
    }
}

/// A way that shares no table with the walk below `table` leads to the same entry.
proof fn lemma_way_kept(
    mem: Map<int, u64>,
    table: u64,
    virt: u64,
    leaf: u64,
    link: u64,
    level: int,
    fresh: Seq<u64>,
    t: u64,
    other: u64,
    l: int,
)
    requires
        ready(mem, table, virt, level, fresh),
        t % 4096 == 0,
        is_link(link),
        apart(way(mem, t, other, l), way(mem, table, virt, level)),
        apart(fresh, way(mem, t, other, l)),
    ensures
        entry_of(mapped(mem, table, virt, leaf, link, level, fresh), t, other, l) == entry_of(
            mem,
            t,
            other,
            l,
        ),
    decreases l,
{
    let e = paging::entry_addr(t, other, l);
    let ws = way(mem, t, other, l);
    assert(ws[0] == t);
    assert(ws.contains(t));
    lemma_entry_in_page(t, other, l);
    lemma_untouched(mem, table, virt, level, e, t);
    assert forall|i: int| 0 <= i < fresh.len() implies !in_page(e, #[trigger] fresh[i]) by {
        assert(blank(mem, fresh[i]));
        assert(fresh[i] != t);
    }
    lemma_frame(mem, table, virt, leaf, link, level, fresh, e);
    if l > 1 && paging::is_present(mem[e]) {
        let c = paging::address_in(mem[e]);
        paging::lemma_address(mem[e]);
        let r = way(mem, c, other, l - 1);
        let vs = way(mem, table, virt, level);
        assert forall|i: int| 0 <= i < r.len() implies !vs.contains(#[trigger] r[i]) by {
            assert(ws[i + 1] == r[i]);
        }
        assert forall|i: int| 0 <= i < fresh.len() implies !r.contains(#[trigger] fresh[i]) by {
            if r.contains(fresh[i]) {
                let k = choose|k: int| 0 <= k < r.len() && r[k] == fresh[i];
                assert(ws[k + 1] == fresh[i]);
                assert(ws.contains(fresh[i]));
            }
        }
        lemma_way_kept(mem, table, virt, leaf, link, level, fresh, c, other, l - 1);
    }
}

proof fn lemma_others(
    mem: Map<int, u64>,
    table: u64,
    virt: u64,
    other: u64,
    leaf: u64,
    link: u64,
    level: int,
    fresh: Seq<u64>,
)
    requires
        ready(mem, table, virt, level, fresh),
        apart(fresh, way(mem, table, other, level)),
        no_loop(mem, table, virt, level),
        no_loop(mem, table, other, level),
        part(mem, table, virt, other, level),
        is_link(link),
        differ(virt, other, level),
    ensures
        entry_of(mapped(mem, table, virt, leaf, link, level, fresh), table, other, level)
            == entry_of(mem, table, other, level),
    decreases level,
{
    let a = paging::entry_addr(table, virt, level);
    let b = paging::entry_addr(table, other, level);
    lemma_entry_in_page(table, virt, level);
    lemma_entry_in_page(table, other, level);
    let ws = way(mem, table, virt, level);
    let os = way(mem, table, other, level);
    assert(ws[0] == table && os[0] == table);
    assert(ws.contains(table));
    assert forall|i: int| 0 <= i < fresh.len() implies fresh[i] != table && !in_page(
        b,
        #[trigger] fresh[i],
    ) by {
        assert(blank(mem, fresh[i]));
    }
    if paging::index_at(virt, level) == paging::index_at(other, level) {
        assert(level > 1) by {
            reveal_with_fuel(differ, 2);
        }
        assert(a == b);
        if paging::is_present(mem[a]) {
            let c = paging::address_in(mem[a]);
            let m2 = opened(mem, a, link);
            lemma_down(mem, table, virt, link, level, fresh);
            lemma_opened_alike(mem, a, link);
            lemma_alike_way(mem, m2, c, virt, level - 1);
            lemma_alike_way(mem, m2, c, other, level - 1);
            lemma_alike_part(mem, m2, c, virt, other, level - 1);
            let r = way(mem, c, other, level - 1);
            assert forall|i: int| 0 <= i < fresh.len() implies !r.contains(#[trigger] fresh[i]) by {
                if r.contains(fresh[i]) {
                    let k = choose|k: int| 0 <= k < r.len() && r[k] == fresh[i];
                    assert(os[k + 1] == fresh[i]);
                    assert(os.contains(fresh[i]));
                }
            }
            paging::lemma_address(mem[a]);
            lemma_entry_elsewhere(mem, m2, c, other, level - 1, a, table);
            lemma_others(m2, c, virt, other, leaf, link, level - 1, fresh);
            lemma_entry_kept(m2, table, c, virt, leaf, link, level - 1, fresh, a);
        } else {
            let f = fresh[0];
            let m2 = mem.insert(a, f | link);
            let rest = fresh.drop_first();
            lemma_grow(mem, table, virt, link, level, fresh);
            lemma_link(f, link);
            lemma_fresh_empty(m2, f, virt, other, leaf, link, level - 1, rest);
            assert(!rest.contains(table)) by {
                if rest.contains(table) {
                    let k = choose|k: int| 0 <= k < rest.len() && rest[k] == table;
                    assert(fresh[k + 1] == table);
                }
            }
            lemma_entry_kept(m2, table, f, virt, leaf, link, level - 1, rest, a);
        }
    } else {
        lemma_parted(mem, table, virt, other, leaf, link, level, fresh);
    }
}

proof fn lemma_parted(
    mem: Map<int, u64>,
    table: u64,
    virt: u64,
    other: u64,
    leaf: u64,
    link: u64,
    level: int,
    fresh: Seq<u64>,
)
    requires
        ready(mem, table, virt, level, fresh),
        apart(fresh, way(mem, table, other, level)),
        no_loop(mem, table, virt, level),
        part(mem, table, virt, other, level),
        is_link(link),
        paging::index_at(virt, level) != paging::index_at(other, level),
    ensures
        entry_of(mapped(mem, table, virt, leaf, link, level, fresh), table, other, level)
            == entry_of(mem, table, other, level),
{
    let a = paging::entry_addr(table, virt, level);
    let b = paging::entry_addr(table, other, level);
    lemma_entry_in_page(table, virt, level);
    lemma_entry_in_page(table, other, level);
    let ws = way(mem, table, virt, level);
    let os = way(mem, table, other, level);
    assert(ws[0] == table && os[0] == table);
    assert(ws.contains(table));
    assert forall|i: int| 0 <= i < fresh.len() implies !in_page(b, #[trigger] fresh[i]) by {
        assert(blank(mem, fresh[i]));
        assert(fresh[i] != table);
    }
    if level > 1 && paging::is_present(mem[a]) {
        paging::lemma_address(mem[a]);
        lemma_untouched(mem, paging::address_in(mem[a]), virt, level - 1, b, table);
    }
    assert(untouched(mem, table, virt, level, b));
    lemma_frame(mem, table, virt, leaf, link, level, fresh, b);
    if level > 1 && paging::is_present(mem[b]) {
        let c = paging::address_in(mem[b]);
        paging::lemma_address(mem[b]);
        let r = way(mem, c, other, level - 1);
        assert forall|i: int| 0 <= i < fresh.len() implies !r.contains(#[trigger] fresh[i]) by {
            if r.contains(fresh[i]) {
                let k = choose|k: int| 0 <= k < r.len() && r[k] == fresh[i];
                assert(os[k + 1] == fresh[i]);
                assert(os.contains(fresh[i]));
            }
        }
        assert forall|i: int| 0 <= i < r.len() implies !ws.contains(#[trigger] r[i]) by {
            assert(r.contains(r[i]));
            if ws.contains(r[i]) {
                let k = choose|k: int| 0 <= k < ws.len() && ws[k] == r[i];
                if k > 0 {
                    let vs = way(mem, paging::address_in(mem[a]), virt, level - 1);
                    assert(vs[k - 1] == r[i]);
                    assert(vs.contains(r[i]));
                }
            }
        }
        lemma_way_kept(mem, table, virt, leaf, link, level, fresh, c, other, level - 1);
    }
}

// ── The laws ────────────────────────────────────────────────────────────────

/// The steps of a walk, carried out on memory, enter the page below the top
/// table, through the tables that are there and fresh ones where there are none.
pub proof fn law_walk_maps(mem: Map<int, u64>, w: Walk, fresh: Seq<u64>, steps: nat)
    requires
        w.wf(),
        w.stage is Look,
        w.level >= 2,
        steps >= 3 * w.level,
        fresh.len() >= w.level - 1,
        forall|i: int| 0 <= i < fresh.len() ==> (#[trigger] fresh[i]) + 4088 <= u64::MAX,
    ensures
        carried_out(
            mem,
            w,
            WalkStep::Read(paging::entry_addr(w.table, w.virt, w.level as int) as u64),
            fresh,
            steps,
        ) == mapped(mem, w.table, w.virt, w.leaf, w.link, w.level as int, fresh),
    decreases w.level,
{
    let a = paging::entry_addr(w.table, w.virt, w.level as int);
    lemma_entry_in_page(w.table, w.virt, w.level as int);
    let e = mem[a];
    let n = w.after(WalkEvent::Entry(e));
    if paging::is_present(e) {
        paging::lemma_address(e);
        lemma_entry_in_page(paging::address_in(e), w.virt, w.level - 1);
        if paging::lacks_user(e, w.link) {
            let m2 = opened(mem, a, w.link);
            let n2 = n.0.after(WalkEvent::Stored);
            if w.level > 2 {
                reveal_with_fuel(carried_out, 3);
                law_walk_maps(m2, n2.0, fresh, (steps - 2) as nat);
            } else {
                reveal_with_fuel(carried_out, 5);
                reveal_with_fuel(mapped, 3);
            }
        } else if w.level > 2 {
            law_walk_maps(mem, n.0, fresh, (steps - 1) as nat);
        } else {
            reveal_with_fuel(carried_out, 4);
            reveal_with_fuel(mapped, 3);
        }
    } else {
        let f = fresh[0];
        let m2 = mem.insert(a, f | w.link);
        let rest = fresh.drop_first();
        let n2 = n.0.after(WalkEvent::Table(f));
        let n3 = n2.0.after(WalkEvent::Stored);
        lemma_entry_in_page(f, w.virt, w.level - 1);
        assert forall|i: int| 0 <= i < rest.len() implies (#[trigger] rest[i]) + 4088
            <= u64::MAX by {
            assert(rest[i] == fresh[i + 1]);
        }
        if w.level > 2 {
            reveal_with_fuel(carried_out, 4);
            law_walk_maps(m2, n3.0, rest, (steps - 3) as nat);
        } else {
            reveal_with_fuel(carried_out, 6);
            reveal_with_fuel(mapped, 3);
        }
    }
}

/// Once a page is mapped, the processor finds it: the entry for the address is
/// the one that was asked for. Where the walk is one for user code, every entry on
/// the way to it is open to user code.
pub proof fn law_page_found(
    mem: Map<int, u64>,
    root: u64,
    virt: u64,
    leaf: u64,
    link: u64,
    fresh: Seq<u64>,
)
    requires
        root % 4096 == 0,
        fresh.len() >= 3,
        all_fresh(mem, fresh),
        apart(fresh, way(mem, root, virt, 4)),
        no_loop(mem, root, virt, 4),
        is_link(link),
        paging::is_present(leaf),
    ensures
        entry_of(mapped(mem, root, virt, leaf, link, 4, fresh), root, virt, 4) == Some(leaf),
        link & USER != 0 ==> user_way(
            mapped(mem, root, virt, leaf, link, 4, fresh),
            root,
            virt,
            4,
        ),
{
    lemma_maps(mem, root, virt, leaf, link, 4, fresh);
}

/// Mapping a page changes what the processor finds for no other page.
pub proof fn law_other_pages_kept(
    mem: Map<int, u64>,
    root: u64,
    virt: u64,
    other: u64,
    leaf: u64,
    link: u64,
    fresh: Seq<u64>,
)
    requires
        root % 4096 == 0,
        fresh.len() >= 3,
        all_fresh(mem, fresh),
        apart(fresh, way(mem, root, virt, 4)),
        apart(fresh, way(mem, root, other, 4)),
        no_loop(mem, root, virt, 4),
        no_loop(mem, root, other, 4),
        part(mem, root, virt, other, 4),
        is_link(link),
        differ(virt, other, 4),
    ensures
        entry_of(mapped(mem, root, virt, leaf, link, 4, fresh), root, other, 4) == entry_of(
            mem,
            root,
            other,
            4,
        ),
{
    lemma_others(mem, root, virt, other, leaf, link, 4, fresh);
}

/// The entries that the two kinds of walk write are in use, hold the page's
/// address, and carry the bits that were asked for.
pub proof fn law_leaf(root: u64, virt: u64, phys: u64, flags: u64)
    requires
        phys % 4096 == 0,
        phys < 0x10_0000_0000_0000,
        flags & paging::ADDRESS == 0,
    ensures
        ({
            let k = paging::kernel_walk(root, virt, phys, flags);
            let u = paging::user_walk(root, virt, phys, flags);
            &&& is_link(k.link) && is_link(u.link)
            &&& k.link & USER == 0 && u.link & USER != 0
            &&& paging::is_present(k.leaf) && paging::is_present(u.leaf)
            &&& paging::address_in(k.leaf) == phys && paging::address_in(u.leaf) == phys
            &&& k.leaf & WRITE == WRITE
            &&& k.leaf & flags == flags && u.leaf & flags == flags
        }),
{
    assert(phys % 4096 == 0 && phys < 0x10_0000_0000_0000 && flags & 0x000F_FFFF_FFFF_F000 == 0 ==> (
    phys | flags | 1 | 2) & 1 != 0 && (phys | flags | 1) & 1 != 0 && (phys | flags | 1 | 2)
        & 0x000F_FFFF_FFFF_F000 == phys && (phys | flags | 1) & 0x000F_FFFF_FFFF_F000 == phys && (phys
        | flags | 1 | 2) & 2 == 2 && (phys | flags | 1 | 2) & flags == flags && (phys | flags | 1)
        & flags == flags) by (bit_vector);
    assert((1u64 | 2) & 4 == 0 && (1u64 | 2 | 4) & 4 != 0) by (bit_vector);
}

/// The steps of a walk for user code, carried out on memory: the entry for the
/// page holds its address and the bits that were asked for, and every entry on the
/// way to it is in use and open to user code.
pub proof fn law_user_page(
    mem: Map<int, u64>,
    root: u64,
    virt: u64,
    phys: u64,
    flags: u64,
    fresh: Seq<u64>,
    steps: nat,
)
    requires
        root % 4096 == 0,
        root + 4088 <= u64::MAX,
        phys % 4096 == 0,
        phys < 0x10_0000_0000_0000,
        flags & paging::ADDRESS == 0,
        fresh.len() >= 3,
        all_fresh(mem, fresh),
        apart(fresh, way(mem, root, virt, 4)),
        no_loop(mem, root, virt, 4),
        steps >= 12,
    ensures
        ({
            let m = carried_out(
                mem,
                paging::user_walk(root, virt, phys, flags),
                WalkStep::Read(paging::entry_addr(root, virt, 4) as u64),
                fresh,
                steps,
            );
            &&& entry_of(m, root, virt, 4) == Some(phys | flags | PRESENT)
            &&& user_way(m, root, virt, 4)
        }),
{
    let w = paging::user_walk(root, virt, phys, flags);
    law_leaf(root, virt, phys, flags);
    assert forall|i: int| 0 <= i < fresh.len() implies (#[trigger] fresh[i]) + 4088
        <= u64::MAX by {
        assert(blank(mem, fresh[i]));
    }
    law_walk_maps(mem, w, fresh, steps);
    law_page_found(mem, root, virt, w.leaf, w.link, fresh);
}

/// The tables tell two addresses apart exactly when their page numbers differ in
/// the 36 bits that the tables look at.
pub proof fn law_differ(v: u64, w: u64)
    ensures
        differ(v, w, 4) <==> (v as int / 4096) % 0x10_0000_0000 != (w as int / 4096)
            % 0x10_0000_0000,
{
    reveal_with_fuel(differ, 5);
    lemma_digits(v);
    lemma_digits(w);
}

proof fn lemma_digits(v: u64)
    ensures
        (v as int / 4096) % 0x10_0000_0000 == paging::index_at(v, 4) * 0x800_0000
            + paging::index_at(v, 3) * 0x4_0000 + paging::index_at(v, 2) * 512 + paging::index_at(
            v,
            1,
        ),
{
    let n = v as int / 4096;
    assert(v as int / 0x20_0000 == n / 512);
    assert(v as int / 0x4000_0000 == n / 0x4_0000);
    assert(v as int / 0x80_0000_0000 == n / 0x800_0000);
    assert(n / 0x4_0000 == (n / 512) / 512);
    assert(n / 0x800_0000 == (n / 0x4_0000) / 512);
}

/// Every byte of a device's memory appears at its place in the direct map.
pub proof fn law_mmio_covers(offset: u64, phys: u64, size: usize, o: int)
    requires
        0 <= o < size,
        offset + phys + size <= u64::MAX,
    ensures
        ({
            let pages = paging::mmio_pages(offset, phys, size);
            &&& o / 4096 < pages.len()
            &&& pages[o / 4096].virt + o % 4096 == offset + phys + o
            &&& pages[o / 4096].phys + o % 4096 == phys + o
            &&& pages[o / 4096].flags == paging::NOCACHE
        }),
{
}

} // verus!
