//! What holds of the rings and of the setup.
use vstd::prelude::*;
use crate::xhci::{
    Area, EventRing, HwOp, Init, InitError, InitEvent, InitStage, Page, Pages, Ring, Setup,
    SetupEvent, Trb, TrbWrite, TRB_LINK,
};
use crate::{pci, xhci};

verus! {

/// A ring's memory after some entries were written.
pub open spec fn stored(mem: Seq<Trb>, ws: Seq<TrbWrite>) -> Seq<Trb>
    decreases ws.len(),
{
    if ws.len() == 0 {
        mem
    } else {
        stored(mem, ws.drop_last()).update(ws.last().index as int, ws.last().trb)
    }
}

/// Where the controller stands in a ring.
pub struct Reader {
    pub pos: int,
    /// The cycle bit that marks an entry as new for it.
    pub cycle: u32,
}

/// The reader past a link that is new: back at the beginning, with the cycle
/// toggled where the link says so.
pub open spec fn settled(mem: Seq<Trb>, r: Reader) -> Reader {
    let t = mem[r.pos];
    if t.cycle() == r.cycle && t.kind() == TRB_LINK {
        Reader {
            pos: 0,
            cycle: if t.w3 & 2 != 0 {
                (1 - r.cycle) as u32
            } else {
                r.cycle
            },
        }
    } else {
        r
    }
}

/// The entries from the writer's place on are old, up to the link.
pub open spec fn in_step(mem: Seq<Trb>, ring: Ring) -> bool {
    &&& mem.len() == 64
    &&& forall|i: int|
        ring.idx <= i < 63 ==> (#[trigger] mem[i]).cycle() != ring.cycle && mem[i].cycle() <= 1
    &&& forall|i: int| 0 <= i < ring.idx ==> (#[trigger] mem[i]).cycle() == ring.cycle
}

proof fn lemma_with_cycle(t: Trb, c: u32)
    requires
        c <= 1,
    ensures
        t.with_cycle(c).cycle() == c,
        t.with_cycle(c).kind() == t.kind(),
{
    let w = t.w3;
    assert(c <= 1 ==> ((w & !1u32) | c) & 1 == c && (((w & !1u32) | c) >> 10) & 0x3F == (w >> 10)
        & 0x3F) by (bit_vector);
}

proof fn lemma_link(base: u64, c: u32)
    requires
        c <= 1,
    ensures
        xhci::link_trb(base, c).cycle() == c,
        xhci::link_trb(base, c).kind() == TRB_LINK,
        xhci::link_trb(base, c).w3 & 2 != 0,
{
    let w = (0x1802 + c) as u32;
    assert(c <= 1 && w == 0x1802 + c ==> w & 1 == c && (w >> 10) & 0x3F == 6 && w & 2 != 0)
        by (bit_vector);
}

/// A ring's memory before anything is written to it, but for the link: the writer
/// and the controller are in step.
pub proof fn law_fresh_ring(mem: Seq<Trb>, base: u64)
    requires
        mem.len() == 64,
        forall|i: int| 0 <= i < 63 ==> (#[trigger] mem[i]).w3 == 0,
        mem[63] == xhci::link_trb(base, 1),
    ensures
        in_step(mem, Ring { base, idx: 0, cycle: 1 }),
{
    assert(0u32 & 1 == 0) by (bit_vector);
}

/// The writer and the controller stay in step, also where the ring goes round: a
/// controller that stands where the writer does finds nothing; after an entry was
/// added it finds that entry, then stands where the writer now does, and again
/// finds nothing.
pub proof fn law_ring_in_step(mem: Seq<Trb>, ring: Ring, t: Trb)
    requires
        ring.wf(),
        in_step(mem, ring),
        t.kind() != TRB_LINK,
    ensures
        ({
            let m = stored(mem, ring.writes(t));
            let here = Reader { pos: ring.idx as int, cycle: ring.cycle };
            let next = Reader { pos: ring.idx + 1, cycle: ring.cycle };
            let new = ring.pushed();
            &&& mem[ring.idx as int].cycle() != ring.cycle
            &&& settled(m, here) == here
            &&& m[ring.idx as int] == t.with_cycle(ring.cycle)
            &&& m[ring.idx as int].cycle() == ring.cycle
            &&& in_step(m, new)
            &&& settled(m, next) == (Reader { pos: new.idx as int, cycle: new.cycle })
            &&& m[new.idx as int].cycle() != new.cycle
        }),
{
    let ws = ring.writes(t);
    let m = stored(mem, ws);
    let new = ring.pushed();
    let first = TrbWrite { index: ring.idx, trb: t.with_cycle(ring.cycle) };
    lemma_with_cycle(t, ring.cycle);
    lemma_link(ring.base, ring.cycle);
    reveal_with_fuel(stored, 3);
    assert(seq![first].drop_last() =~= Seq::<TrbWrite>::empty());
    if ring.idx + 1 >= 63 {
        let link = TrbWrite { index: 63, trb: xhci::link_trb(ring.base, ring.cycle) };
        assert(ws =~= seq![first, link]);
        assert(ws.drop_last() =~= seq![first]);
        assert(m == mem.update(62, first.trb).update(63, link.trb));
        assert forall|i: int| new.idx <= i < 63 implies (#[trigger] m[i]).cycle() != new.cycle
            && m[i].cycle() <= 1 by {
            if i < 62 {
                assert(mem[i].cycle() == ring.cycle);
            }
        }
    } else {
        assert(m == mem.update(ring.idx as int, first.trb));
        assert forall|i: int| new.idx <= i < 63 implies (#[trigger] m[i]).cycle() != new.cycle
            && m[i].cycle() <= 1 by {
            assert(mem[i].cycle() != ring.cycle);
        }
        assert forall|i: int| 0 <= i < new.idx implies (#[trigger] m[i]).cycle() == new.cycle by {
            if i < ring.idx {
                assert(mem[i].cycle() == ring.cycle);
            }
        }
    }
    assert(mem[ring.idx as int].cycle() != ring.cycle);
}

/// The event ring goes round with its cycle bit: an event that was taken is not new
/// any more, and the place after the last is the first.
pub proof fn law_event_once(e: xhci::EventRing, t: Trb)
    requires
        e.wf(),
        t.cycle() == e.cycle,
    ensures
        e.taken().wf(),
        e.taken().idx == (e.idx + 1) % 64,
        e.taken().cycle == e.cycle <==> e.idx < 63,
{
}

/// How many steps of the setup are left at most.
pub open spec fn rank(s: Setup) -> int {
    match s {
        Setup::Start => 5,
        Setup::EnableSlot => 4,
        Setup::Address => 3,
        Setup::Configure => 2,
        Setup::Endpoint => 1,
        Setup::Ready => 0,
        Setup::Failed => 0,
    }
}

/// The setup ends, and a command that fails ends it at once, with nothing more
/// done.
pub proof fn law_setup_ends(x: xhci::Xhci, e: SetupEvent)
    requires
        x.expects(e),
    ensures
        rank(x.set_up(e).0.setup) < rank(x.setup),
        e matches SetupEvent::Command { code, slot } ==> (code != xhci::CC_SUCCESS ==> x.set_up(
            e,
        ).0.setup == Setup::Failed && x.set_up(e).1.len() == 0),
{
}

/// The only way to be ready is through all the steps, and then the slot that the
/// controller gave is the one in use.
pub proof fn law_setup_order(x: xhci::Xhci, e: SetupEvent)
    requires
        x.expects(e),
    ensures
        x.set_up(e).0.setup == Setup::Ready ==> x.setup == Setup::Endpoint,
        x.set_up(e).0.setup == Setup::Endpoint ==> x.setup == Setup::Configure,
        x.set_up(e).0.setup == Setup::Configure ==> x.setup == Setup::Address,
        x.set_up(e).0.setup == Setup::Address ==> x.setup == Setup::EnableSlot && x.set_up(
            e,
        ).0.slot == e->slot,
        x.setup != Setup::EnableSlot ==> x.set_up(e).0.slot == x.slot,
{
}

/// A write to a port leaves its change bits alone, but for the one that is meant.
pub proof fn law_port_write(sc: u32, bits: u32)
    requires
        bits == 0x200 || bits == 0x10 || bits == 0x20_0000,
    ensures
        ((sc & !xhci::PORT_W1C) | bits) & xhci::PORT_W1C == bits & xhci::PORT_W1C,
        ((sc & !xhci::PORT_W1C) | bits) & bits == bits,
{
    assert(((sc & !0x00FE_0000u32) | bits) & 0x00FE_0000 == bits & 0x00FE_0000 && ((sc
        & !0x00FE_0000u32) | bits) & bits == bits) by (bit_vector);
}

/// The search of the ports ends after at most three looks at each, and only the
/// first device is taken.
pub proof fn law_scan(s: xhci::Scan, sc: u32)
    requires
        s.wf(),
        !(s.stage is Done),
    ensures
        scan_rank(s.after(sc).0) < scan_rank(s),
        s.found != 0 ==> s.after(sc).0.found == s.found,
{
}

/// How many looks at ports are left at most.
pub open spec fn scan_rank(s: xhci::Scan) -> int {
    match s.stage {
        xhci::ScanStage::First => (s.max_ports - s.port) * 3,
        xhci::ScanStage::Powered => (s.max_ports - s.port) * 3 - 1,
        xhci::ScanStage::Reset => (s.max_ports - s.port) * 3 - 2,
        xhci::ScanStage::Done => 0,
    }
}

/// A coordinate of the tablet falls on the screen, and a larger one never comes out
/// further left or up.
pub proof fn law_scaled(v: int, w: int, size: u32)
    requires
        0 <= v <= w <= 32767,
        0 < size <= 131_072,
    ensures
        0 <= xhci::scaled(v, size) < size,
        xhci::scaled(v, size) <= xhci::scaled(w, size),
        xhci::scaled(0, size) == 0,
        xhci::scaled(v, size) == v * size / 32768,
{
    let s = size as int;
    assert(0 <= v * s <= w * s && w * s <= 32767 * s) by (nonlinear_arith)
        requires
            0 <= v <= w <= 32767,
            s > 0,
    ;
    assert(0 * s == 0);
}

// ── From the bus to the tablet ──────────────────────────────────────────────

/// What happens while the controller is started.
pub enum InitInput {
    /// What was waited for.
    Event(InitEvent),
    /// Events of the controller are read, up to this place of their ring.
    Read(EventRing),
}

/// The start of the controller after one input.
pub open spec fn started_more(t: Init, i: InitInput) -> Init {
    match i {
        InitInput::Event(e) => t.after(e).0,
        InitInput::Read(evt) => match t.stage {
            InitStage::Device { x } => Init {
                stage: InitStage::Device { x: xhci::Xhci { evt, ..x } },
            },
            _ => t,
        },
    }
}

/// The start of the controller after some inputs.
pub open spec fn started(s: Init, es: Seq<InitInput>) -> Init
    decreases es.len(),
{
    if es.len() == 0 {
        s
    } else {
        started_more(started(s, es.drop_last()), es.last())
    }
}

/// What the inputs told of the controller.
pub struct Told {
    /// It has registers in memory.
    pub bar: bool,
    /// A port with power had a device.
    pub connected: bool,
    /// How many commands were granted.
    pub granted: nat,
    /// A command was refused.
    pub refused: bool,
}

/// What one input adds to what was told, in a stage.
pub open spec fn told_more(s: InitStage, i: InitInput, f: Told) -> Told {
    match (s, i) {
        (InitStage::Bars { index }, InitInput::Event(InitEvent::Bars { bar0, bar1 })) => Told {
            bar: pci::bar_address(bar0, bar1) != 0,
            ..f
        },
        (InitStage::Ports { scan, pages }, InitInput::Event(InitEvent::Port(sc))) => Told {
            connected: f.connected || (scan.stage is Powered && sc & 1 != 0),
            ..f
        },
        (
            InitStage::Device { x },
            InitInput::Event(InitEvent::Device(SetupEvent::Command { code, slot })),
        ) => if x.setup == Setup::Configure {
            f
        } else if code == xhci::CC_SUCCESS {
            Told { granted: f.granted + 1, ..f }
        } else {
            Told { refused: true, ..f }
        },
        _ => f,
    }
}

/// What the inputs told of the controller, each read in the stage that it came in.
pub open spec fn told(s: Init, es: Seq<InitInput>) -> Told
    decreases es.len(),
{
    if es.len() == 0 {
        Told { bar: false, connected: false, granted: 0, refused: false }
    } else {
        told_more(
            started(s, es.drop_last()).stage,
            es.last(),
            told(s, es.drop_last()),
        )
    }
}

/// What a stage says of what was told.
spec fn stage_told(s: InitStage, f: Told) -> bool {
    match s {
        InitStage::Bars { index } => !f.bar && !f.connected && f.granted == 0 && !f.refused,
        InitStage::Caps { base } => f.bar && !f.connected && f.granted == 0 && !f.refused,
        InitStage::Register { layout, pages } => f.bar && !f.connected && f.granted == 0
            && !f.refused,
        InitStage::Ports { scan, pages } => {
            &&& f.bar && f.granted == 0 && !f.refused
            &&& f.connected <==> scan.found != 0
            &&& scan.stage is Reset ==> scan.found != 0
            &&& scan.port < scan.max_ports
        },
        InitStage::Device { x } => {
            &&& f.bar && f.connected && !f.refused
            &&& match x.setup {
                Setup::EnableSlot => f.granted == 0,
                Setup::Address => f.granted == 1,
                Setup::Configure => f.granted == 2,
                Setup::Endpoint => f.granted == 2,
                _ => false,
            }
        },
        InitStage::Ready { x } => f.bar && f.connected && !f.refused && f.granted == 3 && x.setup
            == Setup::Ready,
        InitStage::Failed(e) => match e {
            InitError::NoController => !f.bar && !f.refused,
            InitError::NoBar => !f.bar && !f.refused,
            InitError::NoDevice => f.bar && !f.connected && !f.refused,
            InitError::Refused => f.bar && f.connected && f.refused,
        },
    }
}

proof fn lemma_told_ports(t: Init, i: InitInput, f: Told)
    requires
        t.stage is Ports,
        stage_told(t.stage, f),
    ensures
        stage_told(started_more(t, i).stage, told_more(t.stage, i, f)),
{
}

proof fn lemma_told_device(t: Init, i: InitInput, f: Told)
    requires
        t.stage is Device,
        stage_told(t.stage, f),
    ensures
        stage_told(started_more(t, i).stage, told_more(t.stage, i, f)),
{
}

proof fn lemma_told_else(t: Init, i: InitInput, f: Told)
    requires
        !(t.stage is Ports || t.stage is Device),
        stage_told(t.stage, f),
    ensures
        stage_told(started_more(t, i).stage, told_more(t.stage, i, f)),
        t.stage is Failed ==> started_more(t, i) == t,
{
}

proof fn lemma_told(s: Init, es: Seq<InitInput>)
    requires
        s.stage is Bars || s.stage == InitStage::Failed(InitError::NoController),
    ensures
        stage_told(started(s, es).stage, told(s, es)),
        s.stage is Failed ==> started(s, es) == s,
    decreases es.len(),
{
    if es.len() > 0 {
        lemma_told(s, es.drop_last());
        let t = started(s, es.drop_last());
        let f = told(s, es.drop_last());
        if t.stage is Ports {
            lemma_told_ports(t, es.last(), f);
        } else if t.stage is Device {
            lemma_told_device(t, es.last(), f);
        } else {
            lemma_told_else(t, es.last(), f);
        }
    }
}

/// The tablet is ready exactly when the controller has registers in memory, a port
/// had a device, and all three commands of the setup were granted; a command that is
/// refused, or a controller without registers or devices, leaves none. Without a
/// controller on the bus it never is.
pub proof fn law_ready(s: Init, es: Seq<InitInput>)
    requires
        s.stage is Bars || s.stage == InitStage::Failed(InitError::NoController),
    ensures
        ({
            let t = started(s, es);
            let f = told(s, es);
            &&& t.stage is Ready <==> s.stage is Bars && f.bar && f.connected && f.granted == 3
                && !f.refused
            &&& f.refused ==> t.stage == InitStage::Failed(InitError::Refused)
            &&& s.stage is Failed ==> t == s
        }),
{
    lemma_told(s, es);
}

/// Once the start of the controller has ended, well or not, nothing changes it.
pub proof fn law_init_ends(s: Init, e: InitEvent)
    requires
        s.stage is Ready || s.stage is Failed,
    ensures
        s.after(e) == (s, Seq::<xhci::HwOp>::empty()),
{
}

// ── What the controller is told ─────────────────────────────────────────────

/// What a place holds after the first `n` things done, if it was written: the last value
/// counts.
pub open spec fn held_after(ops: Seq<HwOp>, n: int, area: Area, off: int) -> Option<int>
    decreases n,
{
    if n <= 0 {
        None
    } else {
        match ops[n - 1] {
            HwOp::Word { area: a, off: o, word } => if a == area && o == off {
                Some(word as int)
            } else {
                held_after(ops, n - 1, area, off)
            },
            HwOp::Long { area: a, off: o, long } => if a == area && o == off {
                Some(long as int)
            } else {
                held_after(ops, n - 1, area, off)
            },
            _ => held_after(ops, n - 1, area, off),
        }
    }
}

/// What a place holds after some things done.
pub open spec fn held(ops: Seq<HwOp>, area: Area, off: int) -> Option<int> {
    held_after(ops, ops.len() as int, area, off)
}

/// The controller is told where everything lies: its table of contexts, the ring of
/// commands with its first cycle bit, the one segment of events with its 64 entries, and
/// the first event; how many slots there may be; and then that it is to run. Each of the
/// three rings that are written ends with a link to its own beginning.
pub proof fn law_controller_told(p: Pages, max_slots: u32)
    requires
        p.cmd % 64 == 0,
    ensures
        ({
            let ops = xhci::start_program(p, max_slots);
            &&& held(ops, Area::Op, 0x30) == Some(p.dcbaa as int)
            &&& held(ops, Area::Op, 0x18) == Some(p.cmd + 1)
            &&& held(ops, Area::Op, 0x38) == Some(max_slots as int)
            &&& held(ops, Area::Page(Page::Erst), 0) == Some(p.evt as int)
            &&& held(ops, Area::Page(Page::Erst), 8) == Some(64int)
            &&& held(ops, Area::Runtime, 0x28) == Some(1int)
            &&& held(ops, Area::Runtime, 0x30) == Some(p.erst as int)
            &&& held(ops, Area::Runtime, 0x38) == Some(p.evt as int)
            &&& held(ops, Area::Op, 0) == Some(1int + 4 + 8)
            &&& ops.contains(link_at(Page::Cmd, p.cmd))
            &&& ops.contains(link_at(Page::Ep0, p.ep0))
            &&& ops.contains(link_at(Page::Hid, p.hid))
            &&& forall|n: int|
                0 <= n < ops.len() && (#[trigger] ops[n] matches HwOp::Word { area, off, word }
                    && area == Area::Op && off == 0) ==> held_after(ops, n, Area::Op, 0x18) is Some
                    && held_after(ops, n, Area::Op, 0x30) is Some && held_after(
                    ops,
                    n,
                    Area::Runtime,
                    0x30,
                ) is Some
        }),
{
    reveal_with_fuel(held_after, 16);
    let ops = xhci::start_program(p, max_slots);
    let c = p.cmd;
    crate::bytes::lemma_long_bits(c);
    assert(ops[0] == link_at(Page::Cmd, p.cmd));
    assert(ops[1] == link_at(Page::Ep0, p.ep0));
    assert(ops[2] == link_at(Page::Hid, p.hid));
}

/// The link in the last entry of a ring, back to its beginning, with the cycle bit of the
/// first round and the one that toggles it.
pub open spec fn link_at(page: Page, base: u64) -> HwOp {
    HwOp::Entry {
        page,
        write: TrbWrite {
            index: 63,
            trb: Trb {
                w0: (base % 0x1_0000_0000) as u32,
                w1: (base / 0x1_0000_0000) as u32,
                w2: 0,
                w3: (6 * 0x400 + 2 + 1) as u32,
            },
        },
    }
}

/// A controller that runs is stopped and waited for before it is reset; the reset is over
/// when its bit is clear and the controller says it is ready.
pub proof fn law_controller_reset(usbcmd: u32)
    ensures
        ({
            let ops = xhci::reset_program(usbcmd);
            let n = ops.len() as int;
            &&& held(ops, Area::Op, 0) == Some(2int)
            &&& usbcmd % 2 == 1 ==> n == 5 && ops[0] == (HwOp::Word {
                area: Area::Op,
                off: 0,
                word: (usbcmd - 1) as u32,
            }) && ops[1] == (HwOp::Wait { off: 4, mask: 1, set: true })
            &&& usbcmd % 2 == 0 ==> n == 3
            &&& ops[n - 2] == (HwOp::Wait { off: 0, mask: 2, set: false })
            &&& ops[n - 1] == (HwOp::Wait { off: 4, mask: 0x800, set: false })
        }),
{
    reveal_with_fuel(held_after, 6);
    assert((usbcmd & 1 != 0) == (usbcmd % 2 == 1) && (usbcmd % 2 == 1 ==> usbcmd & !1u32 == usbcmd
        - 1)) by (bit_vector);
}

/// The registers of the controller lie where its capabilities say.
pub proof fn law_layout_read(cap_len: u8, dboff: u32, rtsoff: u32, hcsparams1: u32)
    ensures
        ({
            let l = xhci::layout_of(cap_len, dboff, rtsoff, hcsparams1);
            &&& l.op == cap_len
            &&& l.doorbell == dboff / 4 * 4
            &&& l.runtime == rtsoff / 32 * 32
            &&& l.max_slots == hcsparams1 % 256
            &&& l.max_ports == hcsparams1 / 0x100_0000
        }),
{
    assert(dboff & !3u32 == dboff / 4 * 4 && rtsoff & !31u32 == rtsoff / 32 * 32 && hcsparams1
        & 0xFF == hcsparams1 % 256 && hcsparams1 >> 24 == hcsparams1 / 0x100_0000) by (bit_vector);
}

/// A port without power is given it; the first port with a device is taken, by its number
/// from one on, and reset; its speed is read once that is done, and is high speed where
/// the port does not say. Every port is looked at in turn.
pub proof fn law_ports_searched(s: xhci::Scan, sc: u32)
    requires
        s.wf(),
        !(s.stage is Done),
    ensures
        ({
            let (t, ops) = s.after(sc);
            let off = 0x400 + 16 * s.port;
            &&& s.stage is First ==> t.stage is Powered && t.port == s.port && ops.last()
                == HwOp::ReadPort(s.port)
            &&& s.stage is First && (sc / 0x200) % 2 == 0 ==> (ops[0] matches HwOp::Word {
                area,
                off: o,
                word,
            } && area == Area::Op && o == off && (word / 0x200) % 2 == 1)
            &&& s.stage is First && (sc / 0x200) % 2 == 1 ==> ops.len() == 1
            &&& s.stage is Powered && sc % 2 == 1 && s.found == 0 ==> t.found == s.port + 1
                && t.stage is Reset && ops.last() == HwOp::ReadPort(s.port) && (ops[0] matches HwOp::Word {
                area,
                off: o,
                word,
            } && area == Area::Op && o == off && (word / 0x10) % 2 == 1)
            &&& s.stage is Powered && (sc % 2 == 0 || s.found != 0) ==> t.found == s.found
            &&& s.stage is Reset && (sc / 0x400) % 16 != 0 ==> t.speed == (sc / 0x400) % 16
            &&& s.stage is Reset && (sc / 0x400) % 16 == 0 ==> t.speed == 3
            &&& !(s.stage is First) && !(t.stage is Reset) && s.port + 1 < s.max_ports ==> t.port
                == s.port + 1 && t.stage is First && ops.last() == HwOp::ReadPort(t.port)
            &&& !(s.stage is First) && !(t.stage is Reset) && s.port + 1 == s.max_ports
                ==> t.stage is Done
        }),
{
    assert((sc & 0x200 == 0) == ((sc / 0x200) % 2 == 0) && (sc & 1 != 0) == (sc % 2 == 1) && (sc >> 10)
        & 0xF == (sc / 0x400) % 16 && (((sc & !0x00FE_0000u32) | 0x200) / 0x200) % 2 == 1 && (((sc
        & !0x00FE_0000u32) | 0x10) / 0x10) % 2 == 1) by (bit_vector);
}

/// Before the device gets its address, its slot names its context; the input context adds
/// the slot and the control endpoint, and gives the speed, the port, and of the control
/// endpoint its type, its packet size and its ring.
pub proof fn law_address_context(x: xhci::Xhci)
    requires
        x.wf(),
        x.pages.ep0 % 64 == 0,
    ensures
        ({
            let c = x.address_context();
            let ctx = Area::Page(Page::InCtx);
            &&& held(c, Area::Page(Page::Dcbaa), 8 * x.slot) == Some(x.pages.dev_ctx as int)
            &&& held(c, ctx, 0x04) == Some(1int + 2)
            &&& held(c, ctx, 0x20) matches Some(v) && v / 0x800_0000 == 1 && (v / 0x10_0000) % 16
                == x.speed
            &&& held(c, ctx, 0x24) == Some(x.port * 0x1_0000)
            &&& held(c, ctx, 0x44) matches Some(v) && (v / 8) % 8 == 4 && v / 0x1_0000 == 64 && (v
                / 2) % 4 == 3
            &&& held(c, ctx, 0x48) == Some(x.pages.ep0 + 1)
        }),
{
    reveal_with_fuel(held_after, 8);
    let b = x.pages.ep0;
    crate::bytes::lemma_long_bits(b);
}

/// Before the endpoint of the reports is added, the input context adds it and the slot,
/// which now has three contexts, and gives its type, an interrupt endpoint that is read,
/// its interval, its packet size and its ring.
pub proof fn law_endpoint_context(x: xhci::Xhci)
    requires
        x.wf(),
        x.pages.hid % 64 == 0,
    ensures
        ({
            let c = x.endpoint_context();
            let ctx = Area::Page(Page::InCtx);
            &&& held(c, ctx, 0x00) == Some(0int)
            &&& held(c, ctx, 0x04) == Some(1int + 8)
            &&& held(c, ctx, 0x20) matches Some(v) && v / 0x800_0000 == 3 && (v / 0x10_0000) % 16
                == x.speed
            &&& held(c, ctx, 0x80) == Some(3 * 0x1_0000int)
            &&& held(c, ctx, 0x84) matches Some(v) && (v / 8) % 8 == 7 && v / 0x1_0000 == 8 && (v
                / 2) % 4 == 3
            &&& held(c, ctx, 0x88) == Some(x.pages.hid + 1)
            &&& held(c, ctx, 0x24) is None
        }),
{
    reveal_with_fuel(held_after, 8);
    let b = x.pages.hid;
    crate::bytes::lemma_long_bits(b);
}

/// The commands of the setup: the first asks for a slot, the others carry the slot that was
/// given and the address of the input context. The device is told its configuration, the
/// first, by a request on its control endpoint.
pub proof fn law_setup_commands(x: xhci::Xhci, slot: u8)
    requires
        x.wf(),
        x.pages.in_ctx % 16 == 0,
    ensures
        x.setup == Setup::Start ==> x.set_up(SetupEvent::Begin).1[1] == (HwOp::Entry {
            page: Page::Cmd,
            write: TrbWrite {
                index: x.cmd.idx,
                trb: (Trb { w0: 0, w1: 0, w2: 0, w3: (9 * 0x400) as u32 }).with_cycle(x.cmd.cycle),
            },
        }),
        ({
            let t = x.ctx_command(11);
            let u = x.ctx_command(12);
            &&& t.w0 + 0x1_0000_0000 * t.w1 == x.pages.in_ctx
            &&& t.w3 / 0x100_0000 == x.slot && (t.w3 / 0x400) % 64 == 11
            &&& u.w3 / 0x100_0000 == x.slot && (u.w3 / 0x400) % 64 == 12
        }),
        x.setup == Setup::EnableSlot ==> ({
            let n = x.set_up(SetupEvent::Command { code: 1, slot });
            let y = xhci::Xhci { setup: Setup::Address, slot, ..x };
            &&& n.0.slot == slot
            &&& n.1 == y.address_context() + y.commanded(y.ctx_command(11)).1
        }),
        x.setup == Setup::Address ==> ({
            let n = x.set_up(SetupEvent::Command { code: 1, slot });
            n.1[0] matches HwOp::Entry { page, write } && page == Page::Ep0 && write.index
                == x.ep0.idx && write.trb.w0 == 9 * 0x100 + 1 * 0x1_0000 && write.trb.w1 == 0
                && write.trb.w2 == 8
        }),
        x.setup == Setup::Configure ==> ({
            let y = xhci::Xhci { setup: Setup::Endpoint, ..x };
            x.set_up(SetupEvent::Transfer).1 == y.endpoint_context() + y.commanded(
                y.ctx_command(12),
            ).1
        }),
{
    let a = xhci::low(x.pages.in_ctx);
    let p = x.pages.in_ctx;
    assert(p % 16 == 0 ==> (p % 0x1_0000_0000) % 16 == 0) by (nonlinear_arith);
    assert(a & !0xFu32 == a) by (bit_vector)
        requires
            a % 16 == 0,
    ;
}

/// A command, a request and a call for a report are each followed by the doorbell that
/// belongs to them: that of the controller, or that of the device's slot with the number of
/// the endpoint.
pub proof fn law_doorbells(x: xhci::Xhci, t: Trb)
    requires
        x.wf(),
    ensures
        held(x.commanded(t).1, Area::Doorbell, 0) == Some(0int),
        x.commanded(t).1.last() is AwaitCommand,
        held(x.requested(0, 9, 1, 0).1, Area::Doorbell, 4 * x.slot) == Some(1int),
        x.requested(0, 9, 1, 0).1.last() is AwaitTransfer,
        held(x.listening().1, Area::Doorbell, 4 * x.slot) == Some(3int),
{
    let a = x.commanded(t).1;
    let b = x.requested(0, 9, 1, 0).1;
    let c = x.listening().1;
    reveal_with_fuel(held_after, 3);
    assert(a[a.len() - 2] == HwOp::Word { area: Area::Doorbell, off: 0, word: 0 });
    assert(b[b.len() - 2] == HwOp::Word {
        area: Area::Doorbell,
        off: (x.slot * 4) as u32,
        word: 1,
    });
    assert(c[c.len() - 1] == HwOp::Word {
        area: Area::Doorbell,
        off: (x.slot * 4) as u32,
        word: 3,
    });
}

/// A report is asked for into the driver's buffer, eight bytes of it, with an event when
/// it is there.
pub proof fn law_report_asked(x: xhci::Xhci)
    ensures
        ({
            let t = x.report_trb();
            &&& t.w0 + 0x1_0000_0000 * t.w1 == x.pages.hid_buf
            &&& t.w2 == 8
            &&& (t.w3 / 0x400) % 64 == 1
            &&& (t.w3 / 0x20) % 2 == 1
        }),
{
}

/// A report puts the pointer where it says, each coordinate of sixteen bits, lower byte
/// first, from the tablet's 32768 steps to the pixels of the screen, and sets the three
/// buttons. One that says nothing at all is left out.
pub proof fn law_report_points(m: crate::mouse::Mouse, b: Seq<u8>, fb_w: u32, fb_h: u32)
    requires
        b.len() == 8,
        b[1] + 256 * b[2] < 32768,
        b[3] + 256 * b[4] < 32768,
        0 < fb_w <= 131_072,
        0 < fb_h <= 131_072,
    ensures
        ({
            let n = xhci::reported(m, b, fb_w, fb_h);
            let x = b[1] + 256 * b[2];
            let y = b[3] + 256 * b[4];
            &&& x != 0 || y != 0 || b[0] % 8 != 0 ==> n.x == x * fb_w / 32768 && n.y == y * fb_h
                / 32768 && n.buttons == b[0] % 8 && 0 <= n.x < fb_w && 0 <= n.y < fb_h
            &&& x == 0 && y == 0 && b[0] % 8 == 0 ==> n == m
            &&& n.cycle == m.cycle && n.packet == m.packet
        }),
{
    let v = b[0];
    assert(v & 0x07 == v % 8) by (bit_vector);
    law_scaled(b[1] + 256 * b[2], b[1] + 256 * b[2], fb_w);
    law_scaled(b[3] + 256 * b[4], b[3] + 256 * b[4], fb_h);
}

/// An event tells of a report when it is one of a transfer that ended well, or with less
/// than its buffer holds.
pub proof fn law_report_events(t: Trb)
    ensures
        xhci::is_report(t) <==> (t.w3 / 0x400) % 64 == 32 && (t.w2 / 0x100_0000 == 1 || t.w2
            / 0x100_0000 == 13),
        t.cycle() == t.w3 % 2,
        t.slot() == t.w3 / 0x100_0000,
{
    let a = t.w3;
    let b = t.w2;
    assert((a >> 10) & 0x3F == (a / 0x400) % 64 && (b >> 24) & 0xFF == b / 0x100_0000 && a & 1 == a
        % 2 && (a >> 24) as u8 == a / 0x100_0000) by (bit_vector);
}

/// A new event is one whose lowest bit is that of the ring's round, which is one in the
/// first round, over memory that was cleared. Once it is taken the controller is told its
/// address, with the bit that says that events are handled.
pub proof fn law_event_told(r: EventRing, t: Trb)
    requires
        r.wf(),
        r.base % 16 == 0,
    ensures
        r.told() == r.base + 16 * r.idx + 8,
        r.is_new(t) <==> t.w3 % 2 == r.cycle,
        r.cycle == 1 ==> !r.is_new(Trb { w0: 0, w1: 0, w2: 0, w3: 0 }),
{
    law_report_events(t);
    law_report_events(Trb { w0: 0, w1: 0, w2: 0, w3: 0 });
    crate::bytes::lemma_long_bits((r.base + r.idx * 16) as u64);
}

/// An event of kind 33 ends a command, and gives its code and its slot, both in the highest
/// byte of a word; one of kind 32 ends a transfer.
pub proof fn law_events_told_apart(t: Trb)
    ensures
        (t.w3 / 0x400) % 64 == 33 ==> xhci::of_command(t) == Some(
            (t.w2 / 0x100_0000, (t.w3 / 0x100_0000) as u8),
        ),
        (t.w3 / 0x400) % 64 != 33 ==> xhci::of_command(t) is None,
        xhci::of_transfer(t) <==> (t.w3 / 0x400) % 64 == 32,
{
    law_report_events(t);
    law_kind_read(t);
}

/// The kind of an entry is in six bits of its last word, and the code of an event in the
/// highest byte of the one before.
pub proof fn law_kind_read(t: Trb)
    ensures
        t.kind() == (t.w3 / 0x400) % 64,
        t.code() == t.w2 / 0x100_0000,
{
    let a = t.w3;
    let b = t.w2;
    assert((a >> 10) & 0x3F == (a / 0x400) % 64 && (b >> 24) & 0xFF == b / 0x100_0000)
        by (bit_vector);
}

/// After a report the buffer is cleared and the next one is asked for, by the doorbell of
/// the device's slot; after any other event nothing is done.
pub proof fn law_report_answered(x: xhci::Xhci, t: Trb)
    requires
        x.wf(),
    ensures
        xhci::is_report(t) ==> x.reaction(t)[0] is ClearReport && x.reaction(t).last() == (
        HwOp::Word { area: Area::Doorbell, off: (4 * x.slot) as u32, word: 3 }),
        !xhci::is_report(t) ==> x.reaction(t).len() == 0,
{
    let taken = xhci::Xhci { evt: x.evt.taken(), ..x };
    let c = taken.listening().1;
    assert(c[c.len() - 1] == HwOp::Word {
        area: Area::Doorbell,
        off: (x.slot * 4) as u32,
        word: 3,
    });
}

/// The controller is waited for before anything else; then it is reset, and only after that
/// told where everything lies and to run; then the first port is looked at. The device that
/// the search found is set up on its own port, at its own speed, with rings that begin on
/// their pages, empty, in their first round.
pub proof fn law_started_in_order(
    layout: xhci::Layout,
    pages: Pages,
    usbcmd: u32,
    base: u64,
    cap: (u8, u32, u32, u32),
    scan: xhci::Scan,
)
    requires
        0 < layout.max_ports,
        scan.stage is Done,
        scan.found != 0,
    ensures
        (Init { stage: InitStage::Caps { base } }).after(
            InitEvent::Caps {
                cap_len: cap.0,
                dboff: cap.1,
                rtsoff: cap.2,
                hcsparams1: cap.3,
                pages,
            },
        ).1 == seq![HwOp::Wait { off: 4, mask: 0x800, set: false }],
        ({
            let (t, ops) = (Init { stage: InitStage::Register { layout, pages } }).after(
                InitEvent::Register(usbcmd),
            );
            let n = xhci::reset_program(usbcmd).len() as int;
            &&& ops.take(n) == xhci::reset_program(usbcmd)
            &&& ops.subrange(n, ops.len() - 1) == xhci::start_program(pages, layout.max_slots)
            &&& ops.last() == HwOp::ReadPort(0)
            &&& t.stage matches InitStage::Ports { scan: s, pages: p } && s.port == 0 && s.found == 0
                && s.max_ports == layout.max_ports && p == pages
        }),
        ({
            let (t, ops) = Init::searched(scan, pages, Seq::empty());
            &&& t.stage matches InitStage::Device { x } && x.port == scan.found && x.speed
                == scan.speed && x.pages == pages && x.ep0 == (Ring {
                base: pages.ep0,
                idx: 0,
                cycle: 1,
            }) && x.hid == (Ring { base: pages.hid, idx: 0, cycle: 1 }) && x.evt == (EventRing {
                base: pages.evt,
                idx: 0,
                cycle: 1,
            }) && x.cmd.base == pages.cmd
        }),
{
    let r = xhci::reset_program(usbcmd);
    let s = xhci::start_program(pages, layout.max_slots);
    let ops = (r + s).push(HwOp::ReadPort(0));
    let n = r.len() as int;
    assert(ops.take(n) =~= r);
    assert(ops.subrange(n, ops.len() - 1) =~= s);
}

} // verus!
