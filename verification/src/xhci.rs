//! USB host controller: the rings through which commands and transfers go, the
//! way a tablet is set up, and its reports.
use vstd::prelude::*;
use crate::bytes;
use crate::mouse;
use crate::mouse::MouseState;
use crate::pci;
use crate::pci::{Kind, PciDevice};

verus! {

/// Entries of a ring; in the rings that are written, the last is the link back.
pub const RING_N: usize = 64;

pub const TRB_LINK: u32 = 6;

/// Event: a transfer is done.
pub const TRB_EV_XFER: u32 = 32;

/// Event: a command is done.
pub const TRB_EV_CMD: u32 = 33;

pub const CC_SUCCESS: u32 = 1;

/// A transfer was shorter than its buffer.
pub const CC_SHORT: u32 = 13;

/// The completion code that stands for an answer that did not come.
pub const CC_TIMEOUT: u32 = 0xFF;

/// Looks at a register before one gives up.
pub const TRIES: u32 = 4_000_000;

/// Looks at the event ring before one gives up.
pub const EVENT_TRIES: u32 = 8_000_000;

/// The controller's registers take this many bytes.
pub const REGS_SIZE: usize = 65_536;

/// An entry of a ring: four words.
#[derive(Clone, Copy, PartialEq, Eq, Structural, Debug)]
pub struct Trb {
    pub w0: u32,
    pub w1: u32,
    pub w2: u32,
    pub w3: u32,
}

impl Trb {
    /// The kind of the entry.
    pub open spec fn kind(self) -> u32 {
        (self.w3 >> 10) & 0x3F
    }

    /// The cycle bit.
    pub open spec fn cycle(self) -> u32 {
        self.w3 & 1
    }

    /// The completion code of an event.
    pub open spec fn code(self) -> u32 {
        (self.w2 >> 24) & 0xFF
    }

    /// The slot that an event is about.
    pub open spec fn slot(self) -> u8 {
        (self.w3 >> 24) as u8
    }

    /// The entry with a cycle bit.
    pub open spec fn with_cycle(self, c: u32) -> Trb {
        Trb { w3: (self.w3 & !1u32) | c, ..self }
    }
}

/// An entry to be written to a ring.
#[derive(Clone, Copy, PartialEq, Eq, Structural, Debug)]
pub struct TrbWrite {
    pub index: usize,
    pub trb: Trb,
}

/// The low half of an address.
pub open spec fn low(p: u64) -> u32 {
    (p % 0x1_0000_0000) as u32
}

/// The high half of an address.
pub open spec fn high(p: u64) -> u32 {
    (p / 0x1_0000_0000) as u32
}

/// The link back to the beginning of a ring. It always has the cycle toggled.
pub open spec fn link_trb(base: u64, cycle: u32) -> Trb {
    Trb { w0: low(base), w1: high(base), w2: 0, w3: (0x1802 + cycle) as u32 }
}

/// A ring that is written: where it lies, the next entry, and the cycle bit that
/// marks an entry as new.
#[derive(Clone, Copy, PartialEq, Eq, Structural, Debug)]
pub struct Ring {
    pub base: u64,
    pub idx: usize,
    pub cycle: u32,
}

impl Ring {
    pub open spec fn wf(self) -> bool {
        self.idx < 63 && self.cycle <= 1
    }

    /// The ring after an entry.
    pub open spec fn pushed(self) -> Ring {
        if self.idx + 1 >= 63 {
            Ring { idx: 0, cycle: (1 - self.cycle) as u32, ..self }
        } else {
            Ring { idx: (self.idx + 1) as usize, ..self }
        }
    }

    /// What is written for an entry: the entry and, before the ring goes round, the
    /// link.
    pub open spec fn writes(self, t: Trb) -> Seq<TrbWrite> {
        let first = TrbWrite { index: self.idx, trb: t.with_cycle(self.cycle) };
        if self.idx + 1 >= 63 {
            seq![first, TrbWrite { index: 63, trb: link_trb(self.base, self.cycle) }]
        } else {
            seq![first]
        }
    }

    /// An empty ring at `base`.
    pub fn new(base: u64) -> (r: Ring)
        ensures
            r.wf(),
            r == (Ring { base, idx: 0, cycle: 1 }),
    {
        Ring { base, idx: 0, cycle: 1 }
    }

    /// Adds an entry.
    pub fn push(&mut self, t: Trb) -> (w: Vec<TrbWrite>)
        requires
            old(self).wf(),
        ensures
            final(self).wf(),
            *final(self) == old(self).pushed(),
            w@ == old(self).writes(t),
    {
        let mut w: Vec<TrbWrite> = Vec::new();
        let trb = Trb { w3: (t.w3 & !1u32) | self.cycle, ..t };
        w.push(TrbWrite { index: self.idx, trb });
        self.idx = self.idx + 1;
        if self.idx >= RING_N - 1 {
            w.push(
                TrbWrite {
                    index: self.idx,
                    trb: Trb {
                        w0: (self.base % 0x1_0000_0000) as u32,
                        w1: (self.base / 0x1_0000_0000) as u32,
                        w2: 0,
                        w3: 0x1802 + self.cycle,
                    },
                },
            );
            self.idx = 0;
            self.cycle = 1 - self.cycle;
        }
        assert(w@ =~= old(self).writes(t));
        w
    }
}

/// The ring that the controller writes events to.
#[derive(Clone, Copy, PartialEq, Eq, Structural, Debug)]
pub struct EventRing {
    pub base: u64,
    pub idx: usize,
    pub cycle: u32,
}

impl EventRing {
    pub open spec fn wf(self) -> bool {
        self.idx < 64 && self.cycle <= 1 && self.base + 1008 <= u64::MAX
    }

    /// The ring after an event.
    pub open spec fn taken(self) -> EventRing {
        if self.idx + 1 >= 64 {
            EventRing { idx: 0, cycle: (1 - self.cycle) as u32, ..self }
        } else {
            EventRing { idx: (self.idx + 1) as usize, ..self }
        }
    }

    /// An empty ring at `base`.
    pub fn new(base: u64) -> (r: EventRing)
        requires
            base + 1008 <= u64::MAX,
        ensures
            r.wf(),
            r == (EventRing { base, idx: 0, cycle: 1 }),
    {
        EventRing { base, idx: 0, cycle: 1 }
    }

    /// Looks at the next entry. A new one is taken: the result is what the
    /// controller is told of it.
    pub fn dequeue(&mut self, t: &Trb) -> (r: Option<u64>)
        requires
            old(self).wf(),
        ensures
            final(self).wf(),
            t.cycle() != old(self).cycle ==> r is None && *final(self) == *old(self),
            t.cycle() == old(self).cycle ==> r == Some(
                ((old(self).base + old(self).idx * 16) as u64) | 8,
            ) && *final(self) == old(self).taken(),
            r is Some <==> old(self).is_new(*t),
            r matches Some(p) ==> p == old(self).told(),
    {
        if t.w3 & 1 != self.cycle {
            return None;
        }
        let p: u64 = self.base + self.idx as u64 * 16;
        self.idx = self.idx + 1;
        if self.idx >= RING_N {
            self.idx = 0;
            self.cycle = 1 - self.cycle;
        }
        Some(p | 8)
    }
}

// ── What is done to the controller ──────────────────────────────────────────

/// Pages that the driver shares with the controller.
#[derive(Clone, Copy, PartialEq, Eq, Structural, Debug)]
pub enum Page {
    Cmd,
    Evt,
    /// The table of event ring segments.
    Erst,
    /// The table of device contexts.
    Dcbaa,
    InCtx,
    Ep0,
    Hid,
    HidBuf,
}

/// Where the pages lie.
#[derive(Clone, Copy, PartialEq, Eq, Structural, Debug)]
pub struct Pages {
    pub cmd: u64,
    pub evt: u64,
    pub erst: u64,
    pub dcbaa: u64,
    pub dev_ctx: u64,
    pub in_ctx: u64,
    pub ep0: u64,
    pub hid: u64,
    pub hid_buf: u64,
}

/// Something to write to or wait for.
#[derive(Clone, Copy, PartialEq, Eq, Structural, Debug)]
pub enum Area {
    /// The operational registers.
    Op,
    /// The runtime registers.
    Runtime,
    /// The doorbells.
    Doorbell,
    Page(Page),
}

/// One thing to do with the controller.
#[derive(Clone, Copy, PartialEq, Eq, Structural, Debug)]
pub enum HwOp {
    Word { area: Area, off: u32, word: u32 },
    Long { area: Area, off: u32, long: u64 },
    /// An entry of a ring.
    Entry { page: Page, write: TrbWrite },
    /// Zeros over the report.
    ClearReport,
    /// Wait until the bits in `mask` are set, or clear, at most `TRIES` looks.
    Wait { off: u32, mask: u32, set: bool },
    /// Wait some turns.
    Delay(u32),
    /// Read a port's register: the value is wanted next.
    ReadPort(u32),
    /// Wait for the event of a command: its code and slot are wanted next.
    AwaitCommand,
    /// Wait for the event of a transfer.
    AwaitTransfer,
}

/// The register of a port, among the operational registers.
pub open spec fn port_off(i: int) -> int {
    0x400 + i * 0x10
}

/// What the capability registers say.
#[derive(Clone, Copy, PartialEq, Eq, Structural, Debug)]
pub struct Layout {
    /// Where the operational registers begin.
    pub op: u32,
    pub doorbell: u32,
    pub runtime: u32,
    pub max_slots: u32,
    pub max_ports: u32,
}

/// What the capability registers say: the length of the first part, the offsets of
/// the doorbells and the runtime registers, and the structural parameters.
pub open spec fn layout_of(cap_len: u8, dboff: u32, rtsoff: u32, hcsparams1: u32) -> Layout {
    Layout {
        op: cap_len as u32,
        doorbell: dboff & !3u32,
        runtime: rtsoff & !31u32,
        max_slots: hcsparams1 & 0xFF,
        max_ports: hcsparams1 >> 24,
    }
}

/// Reads the capability registers.
pub fn layout(cap_len: u8, dboff: u32, rtsoff: u32, hcsparams1: u32) -> (l: Layout)
    ensures
        l == layout_of(cap_len, dboff, rtsoff, hcsparams1),
        l.max_slots <= 255,
        l.max_ports <= 255,
{
    assert(hcsparams1 & 0xFF <= 255 && hcsparams1 >> 24 <= 255) by (bit_vector);
    Layout {
        op: cap_len as u32,
        doorbell: dboff & !3u32,
        runtime: rtsoff & !31u32,
        max_slots: hcsparams1 & 0xFF,
        max_ports: hcsparams1 >> 24,
    }
}

/// What stops and resets the controller, where its command register holds `usbcmd`
/// once it is ready.
pub open spec fn reset_program(usbcmd: u32) -> Seq<HwOp> {
    (if usbcmd & 1 != 0 {
        seq![
            HwOp::Word { area: Area::Op, off: 0, word: usbcmd & !1u32 },
            HwOp::Wait { off: 4, mask: 1, set: true },
        ]
    } else {
        Seq::empty()
    }) + seq![
        HwOp::Word { area: Area::Op, off: 0, word: 2 },
        HwOp::Wait { off: 0, mask: 2, set: false },
        HwOp::Wait { off: 4, mask: 0x800, set: false },
    ]
}

/// What is waited for before the command register is read: that the controller is
/// ready.
pub fn ready() -> (op: HwOp)
    ensures
        op == (HwOp::Wait { off: 4, mask: 0x800, set: false }),
{
    HwOp::Wait { off: 4, mask: 0x800, set: false }
}

/// What stops and resets the controller.
pub fn reset(usbcmd: u32) -> (ops: Vec<HwOp>)
    ensures
        ops@ == reset_program(usbcmd),
{
    let mut ops: Vec<HwOp> = Vec::new();
    if usbcmd & 1 != 0 {
        ops.push(HwOp::Word { area: Area::Op, off: 0, word: usbcmd & !1u32 });
        ops.push(HwOp::Wait { off: 4, mask: 1, set: true });
    }
    ops.push(HwOp::Word { area: Area::Op, off: 0, word: 2 });
    ops.push(HwOp::Wait { off: 0, mask: 2, set: false });
    ops.push(HwOp::Wait { off: 4, mask: 0x800, set: false });
    assert(ops@ =~= reset_program(usbcmd));
    ops
}

/// A link at the end of a fresh ring.
pub open spec fn first_link(page: Page, base: u64) -> HwOp {
    HwOp::Entry { page, write: TrbWrite { index: 63, trb: link_trb(base, 1) } }
}

/// What sets the controller up and starts it: the rings with their links, one event
/// segment, the tables, the number of slots; then it runs, and devices are given
/// time to show up.
pub open spec fn start_program(p: Pages, max_slots: u32) -> Seq<HwOp> {
    seq![
        first_link(Page::Cmd, p.cmd),
        first_link(Page::Ep0, p.ep0),
        first_link(Page::Hid, p.hid),
        HwOp::Long { area: Area::Page(Page::Erst), off: 0, long: p.evt },
        HwOp::Word { area: Area::Page(Page::Erst), off: 8, word: 64 },
        HwOp::Word { area: Area::Runtime, off: 0x28, word: 1 },
        HwOp::Long { area: Area::Runtime, off: 0x30, long: p.erst },
        HwOp::Long { area: Area::Runtime, off: 0x38, long: p.evt },
        HwOp::Long { area: Area::Op, off: 0x30, long: p.dcbaa },
        HwOp::Word { area: Area::Op, off: 0x38, word: max_slots },
        HwOp::Word { area: Area::Op, off: 0x14, word: 0xFFFF },
        HwOp::Long { area: Area::Op, off: 0x18, long: p.cmd | 1 },
        HwOp::Word { area: Area::Op, off: 0, word: 0xD },
        HwOp::Wait { off: 4, mask: 1, set: false },
        HwOp::Delay(1_000_000),
    ]
}

fn make_link(page: Page, base: u64) -> (op: HwOp)
    ensures
        op == first_link(page, base),
{
    HwOp::Entry {
        page,
        write: TrbWrite {
            index: 63,
            trb: Trb {
                w0: (base % 0x1_0000_0000) as u32,
                w1: (base / 0x1_0000_0000) as u32,
                w2: 0,
                w3: 0x1803,
            },
        },
    }
}

/// What sets the controller up and starts it.
pub fn start(p: &Pages, max_slots: u32) -> (ops: Vec<HwOp>)
    requires
        max_slots <= 255,
    ensures
        ops@ == start_program(*p, max_slots),
{
    let ops: Vec<HwOp> = vec![
        make_link(Page::Cmd, p.cmd),
        make_link(Page::Ep0, p.ep0),
        make_link(Page::Hid, p.hid),
        HwOp::Long { area: Area::Page(Page::Erst), off: 0, long: p.evt },
        HwOp::Word { area: Area::Page(Page::Erst), off: 8, word: 64 },
        HwOp::Word { area: Area::Runtime, off: 0x28, word: 1 },
        HwOp::Long { area: Area::Runtime, off: 0x30, long: p.erst },
        HwOp::Long { area: Area::Runtime, off: 0x38, long: p.evt },
        HwOp::Long { area: Area::Op, off: 0x30, long: p.dcbaa },
        HwOp::Word { area: Area::Op, off: 0x38, word: max_slots },
        HwOp::Word { area: Area::Op, off: 0x14, word: 0xFFFF },
        HwOp::Long { area: Area::Op, off: 0x18, long: p.cmd | 1 },
        HwOp::Word { area: Area::Op, off: 0, word: 0xD },
        HwOp::Wait { off: 4, mask: 1, set: false },
        HwOp::Delay(1_000_000),
    ];
    assert(ops@ =~= start_program(*p, max_slots));
    ops
}

// ── The ports ───────────────────────────────────────────────────────────────

/// How far the search of the ports is.
#[derive(Clone, Copy, PartialEq, Eq, Structural, Debug)]
pub enum ScanStage {
    /// Waits for the register of a port.
    First,
    /// Waits for it again, once the port has power.
    Powered,
    /// Waits for it once the port is reset.
    Reset,
    Done,
}

/// A search for the first port with a device.
#[derive(Clone, Copy, PartialEq, Eq, Structural, Debug)]
pub struct Scan {
    pub port: u32,
    pub max_ports: u32,
    pub stage: ScanStage,
    /// The port with the device, counted from 1; 0 while there is none.
    pub found: u32,
    pub speed: u32,
}

/// The bits of a port's register that a written 1 clears.
pub const PORT_W1C: u32 = 0x00FE_0000;

impl Scan {
    pub open spec fn wf(self) -> bool {
        &&& self.max_ports <= 255
        &&& !(self.stage is Done) ==> self.port < self.max_ports
        &&& self.found <= 255
        &&& self.speed <= 15
    }

    /// A search that begins.
    pub open spec fn fresh(max_ports: u32) -> Scan {
        Scan {
            port: 0,
            max_ports,
            stage: if max_ports == 0 {
                ScanStage::Done
            } else {
                ScanStage::First
            },
            found: 0,
            speed: 3,
        }
    }

    /// On to the next port.
    pub open spec fn next(self) -> (Scan, Seq<HwOp>) {
        if self.port + 1 < self.max_ports {
            (
                Scan { port: (self.port + 1) as u32, stage: ScanStage::First, ..self },
                seq![HwOp::ReadPort((self.port + 1) as u32)],
            )
        } else {
            (Scan { stage: ScanStage::Done, ..self }, Seq::empty())
        }
    }

    /// A write to the current port that clears none of its change bits but those
    /// in `bits`.
    pub open spec fn port_write(self, sc: u32, bits: u32) -> HwOp {
        HwOp::Word {
            area: Area::Op,
            off: port_off(self.port as int) as u32,
            word: (sc & !PORT_W1C) | bits,
        }
    }

    /// The search after a port's register was read: a port without power gets it;
    /// the first port with a device is reset, and its speed read.
    pub open spec fn after(self, sc: u32) -> (Scan, Seq<HwOp>) {
        match self.stage {
            ScanStage::First => (
                Scan { stage: ScanStage::Powered, ..self },
                (if sc & 0x200 == 0 {
                    seq![self.port_write(sc, 0x200), HwOp::Delay(500_000)]
                } else {
                    Seq::empty()
                }) + seq![HwOp::ReadPort(self.port)],
            ),
            ScanStage::Powered => if sc & 1 != 0 && self.found == 0 {
                (
                    Scan { stage: ScanStage::Reset, found: (self.port + 1) as u32, ..self },
                    seq![
                        self.port_write(sc, 0x10),
                        HwOp::Wait { off: port_off(self.port as int) as u32, mask: 0x10, set: false },
                        HwOp::ReadPort(self.port),
                    ],
                )
            } else {
                self.next()
            },
            ScanStage::Reset => {
                let speed = (sc >> 10) & 0xF;
                let s = Scan {
                    speed: if speed == 0 {
                        3
                    } else {
                        speed
                    },
                    ..self
                };
                (s.next().0, seq![self.port_write(sc, 0x20_0000)] + s.next().1)
            },
            ScanStage::Done => (self, Seq::empty()),
        }
    }

    /// Begins the search.
    pub fn begin(max_ports: u32) -> (r: (Scan, Vec<HwOp>))
        requires
            max_ports <= 255,
        ensures
            r.0.wf(),
            r.0 == Scan::fresh(max_ports),
            r.1@ == if max_ports == 0 {
                Seq::<HwOp>::empty()
            } else {
                seq![HwOp::ReadPort(0)]
            },
    {
        let mut ops: Vec<HwOp> = Vec::new();
        let stage: ScanStage = if max_ports == 0 {
            ScanStage::Done
        } else {
            ops.push(HwOp::ReadPort(0));
            ScanStage::First
        };
        (Scan { port: 0, max_ports, stage, found: 0, speed: 3 }, ops)
    }

    fn advance(&mut self, ops: &mut Vec<HwOp>)
        requires
            old(self).max_ports <= 255,
            old(self).port < old(self).max_ports,
            old(self).found <= 255,
            old(self).speed <= 15,
        ensures
            final(self).wf(),
            *final(self) == old(self).next().0,
            final(ops)@ == old(ops)@ + old(self).next().1,
    {
        if self.port + 1 < self.max_ports {
            self.port = self.port + 1;
            self.stage = ScanStage::First;
            ops.push(HwOp::ReadPort(self.port));
        } else {
            self.stage = ScanStage::Done;
        }
        assert(ops@ =~= old(ops)@ + old(self).next().1);
    }

    /// Takes the register of the current port.
    pub fn step(&mut self, sc: u32) -> (ops: Vec<HwOp>)
        requires
            old(self).wf(),
            !(old(self).stage is Done),
        ensures
            final(self).wf(),
            (*final(self), ops@) == old(self).after(sc),
    {
        let mut ops: Vec<HwOp> = Vec::new();
        let off: u32 = 0x400 + self.port * 0x10;
        match self.stage {
            ScanStage::First => {
                if sc & 0x200 == 0 {
                    ops.push(
                        HwOp::Word { area: Area::Op, off, word: (sc & !PORT_W1C) | 0x200 },
                    );
                    ops.push(HwOp::Delay(500_000));
                }
                ops.push(HwOp::ReadPort(self.port));
                self.stage = ScanStage::Powered;
            },
            ScanStage::Powered => {
                if sc & 1 != 0 && self.found == 0 {
                    self.found = self.port + 1;
                    self.stage = ScanStage::Reset;
                    ops.push(HwOp::Word { area: Area::Op, off, word: (sc & !PORT_W1C) | 0x10 });
                    ops.push(HwOp::Wait { off, mask: 0x10, set: false });
                    ops.push(HwOp::ReadPort(self.port));
                } else {
                    self.advance(&mut ops);
                }
            },
            ScanStage::Reset => {
                let speed: u32 = (sc >> 10) & 0xF;
                assert((sc >> 10) & 0xF <= 15) by (bit_vector);
                self.speed = if speed == 0 {
                    3
                } else {
                    speed
                };
                ops.push(HwOp::Word { area: Area::Op, off, word: (sc & !PORT_W1C) | 0x20_0000 });
                self.advance(&mut ops);
            },
            ScanStage::Done => {},
        }
        assert(ops@ =~= old(self).after(sc).1);
        ops
    }
}

// ── The device ──────────────────────────────────────────────────────────────

/// How far the device is.
#[derive(Clone, Copy, PartialEq, Eq, Structural, Debug)]
pub enum Setup {
    Start,
    /// A slot was asked for.
    EnableSlot,
    /// An address was asked for.
    Address,
    /// The configuration is being chosen.
    Configure,
    /// The endpoint of the reports was asked for.
    Endpoint,
    Ready,
    Failed,
}

/// The driver: its rings, where the reports go, the slot of the device, and what is
/// known of it.
#[derive(Clone, Copy, PartialEq, Eq, Structural, Debug)]
pub struct Xhci {
    pub pages: Pages,
    pub cmd: Ring,
    pub ep0: Ring,
    pub hid: Ring,
    pub evt: EventRing,
    pub slot: u8,
    pub port: u32,
    pub speed: u32,
    pub setup: Setup,
}

/// The outcome of a step of the setup.
#[derive(Clone, Copy, PartialEq, Eq, Structural, Debug)]
pub enum SetupEvent {
    Begin,
    /// A command is done.
    Command { code: u32, slot: u8 },
    /// A transfer is done, or was given up.
    Transfer,
}

/// The entries of a ring, as things to do.
pub open spec fn entries(page: Page, ws: Seq<TrbWrite>) -> Seq<HwOp> {
    ws.map_values(|w: TrbWrite| HwOp::Entry { page, write: w })
}

/// A word into the input context.
pub open spec fn ctx(off: u32, word: u32) -> HwOp {
    HwOp::Word { area: Area::Page(Page::InCtx), off, word }
}

/// An address into the input context, with its cycle bit.
pub open spec fn ctx_ring(off: u32, base: u64) -> HwOp {
    HwOp::Long { area: Area::Page(Page::InCtx), off, long: base | 1 }
}

impl Xhci {
    pub open spec fn wf(self) -> bool {
        &&& self.cmd.wf()
        &&& self.ep0.wf()
        &&& self.hid.wf()
        &&& self.evt.wf()
        &&& self.port <= 255
        &&& self.speed <= 15
    }

    /// A driver for a device that nothing was asked of yet.
    pub open spec fn fresh(pages: Pages, port: u32, speed: u32) -> Xhci {
        Xhci {
            pages,
            cmd: Ring { base: pages.cmd, idx: 0, cycle: 1 },
            ep0: Ring { base: pages.ep0, idx: 0, cycle: 1 },
            hid: Ring { base: pages.hid, idx: 0, cycle: 1 },
            evt: EventRing { base: pages.evt, idx: 0, cycle: 1 },
            slot: 0,
            port,
            speed,
            setup: Setup::Start,
        }
    }

    /// A command given to the controller and waited for.
    pub open spec fn commanded(self, t: Trb) -> (Xhci, Seq<HwOp>) {
        (
            Xhci { cmd: self.cmd.pushed(), ..self },
            entries(Page::Cmd, self.cmd.writes(t)) + seq![
                HwOp::Word { area: Area::Doorbell, off: 0, word: 0 },
                HwOp::AwaitCommand,
            ],
        )
    }

    /// A command about the input context.
    pub open spec fn ctx_command(self, kind: u32) -> Trb {
        Trb {
            w0: low(self.pages.in_ctx) & !0xFu32,
            w1: high(self.pages.in_ctx),
            w2: 0,
            w3: (kind * 0x400 + self.slot * 0x100_0000) as u32,
        }
    }

    /// A request on the control endpoint without data, waited for.
    pub open spec fn requested(self, bm: u8, req: u8, val: u16, idx: u16) -> (Xhci, Seq<HwOp>) {
        let setup = Trb {
            w0: (bm + req * 0x100 + val * 0x1_0000) as u32,
            w1: idx as u32,
            w2: 8,
            w3: 0x840,
        };
        let status = Trb { w0: 0, w1: 0, w2: 0, w3: 0x1_1020 };
        (
            Xhci { ep0: self.ep0.pushed().pushed(), ..self },
            entries(Page::Ep0, self.ep0.writes(setup)) + entries(
                Page::Ep0,
                self.ep0.pushed().writes(status),
            ) + seq![
                HwOp::Word { area: Area::Doorbell, off: (self.slot * 4) as u32, word: 1 },
                HwOp::AwaitTransfer,
            ],
        )
    }

    /// The entry that asks for a report.
    pub open spec fn report_trb(self) -> Trb {
        Trb { w0: low(self.pages.hid_buf), w1: high(self.pages.hid_buf), w2: 8, w3: 0x420 }
    }

    /// A report asked for.
    pub open spec fn listening(self) -> (Xhci, Seq<HwOp>) {
        (
            Xhci { hid: self.hid.pushed(), ..self },
            entries(Page::Hid, self.hid.writes(self.report_trb())) + seq![
                HwOp::Word { area: Area::Doorbell, off: (self.slot * 4) as u32, word: 3 },
            ],
        )
    }

    /// What is written before the device gets its address: its context in the table,
    /// and in the input context its speed, its port and its control endpoint.
    pub open spec fn address_context(self) -> Seq<HwOp> {
        seq![
            HwOp::Long {
                area: Area::Page(Page::Dcbaa),
                off: (self.slot * 8) as u32,
                long: self.pages.dev_ctx,
            },
            ctx(0x04, 0x3),
            ctx(0x20, (0x800_0000 + self.speed * 0x10_0000) as u32),
            ctx(0x24, (self.port * 0x1_0000) as u32),
            ctx(0x44, 0x40_0026),
            ctx_ring(0x48, self.pages.ep0),
            ctx(0x50, 8),
        ]
    }

    /// What is written before the endpoint of the reports is added: the slot now
    /// covers it, and its ring and its interval are given.
    pub open spec fn endpoint_context(self) -> Seq<HwOp> {
        seq![
            ctx(0x00, 0),
            ctx(0x04, 0x9),
            ctx(0x20, (0x1800_0000 + self.speed * 0x10_0000) as u32),
            ctx(0x80, 0x3_0000),
            ctx(0x84, 0x8_003E),
            ctx_ring(0x88, self.pages.hid),
            ctx(0x90, 8),
        ]
    }

    /// The setup after the outcome of its last step. A command that fails ends it.
    pub open spec fn set_up(self, e: SetupEvent) -> (Xhci, Seq<HwOp>) {
        match (self.setup, e) {
            (Setup::Start, SetupEvent::Begin) => {
                let n = (Xhci { setup: Setup::EnableSlot, ..self }).commanded(
                    Trb { w0: 0, w1: 0, w2: 0, w3: 0x2400 },
                );
                (n.0, seq![HwOp::Delay(200_000)] + n.1)
            },
            (Setup::EnableSlot, SetupEvent::Command { code, slot }) => if code == CC_SUCCESS {
                let x = Xhci { setup: Setup::Address, slot, ..self };
                let n = x.commanded(x.ctx_command(11));
                (n.0, x.address_context() + n.1)
            } else {
                (Xhci { setup: Setup::Failed, ..self }, Seq::empty())
            },
            (Setup::Address, SetupEvent::Command { code, slot }) => if code == CC_SUCCESS {
                (Xhci { setup: Setup::Configure, ..self }).requested(0, 9, 1, 0)
            } else {
                (Xhci { setup: Setup::Failed, ..self }, Seq::empty())
            },
            (Setup::Configure, SetupEvent::Transfer) => {
                let x = Xhci { setup: Setup::Endpoint, ..self };
                let n = x.commanded(x.ctx_command(12));
                (n.0, x.endpoint_context() + n.1)
            },
            (Setup::Endpoint, SetupEvent::Command { code, slot }) => if code == CC_SUCCESS {
                (Xhci { setup: Setup::Ready, ..self }).listening()
            } else {
                (Xhci { setup: Setup::Failed, ..self }, Seq::empty())
            },
            _ => (self, Seq::empty()),
        }
    }

    /// The outcome is one of what the setup waits for.
    pub open spec fn expects(self, e: SetupEvent) -> bool {
        match self.setup {
            Setup::Start => e is Begin,
            Setup::EnableSlot => e is Command,
            Setup::Address => e is Command,
            Setup::Configure => e is Transfer,
            Setup::Endpoint => e is Command,
            Setup::Ready => false,
            Setup::Failed => false,
        }
    }
}

/// Appends the entries of a ring.
fn push_entries(ops: &mut Vec<HwOp>, page: Page, ws: &Vec<TrbWrite>)
    ensures
        final(ops)@ == old(ops)@ + entries(page, ws@),
{
    let mut i: usize = 0;
    assert(ops@ =~= old(ops)@ + entries(page, ws@.take(0)));
    while i < ws.len()
        invariant
            i <= ws@.len(),
            ops@ == old(ops)@ + entries(page, ws@.take(i as int)),
        decreases ws@.len() - i,
    {
        ops.push(HwOp::Entry { page, write: ws[i] });
        assert(ops@ =~= old(ops)@ + entries(page, ws@.take(i + 1)));
        i = i + 1;
    }
    assert(ws@.take(ws@.len() as int) =~= ws@);
}

fn push_ctx(ops: &mut Vec<HwOp>, off: u32, word: u32)
    ensures
        final(ops)@ == old(ops)@.push(ctx(off, word)),
{
    ops.push(HwOp::Word { area: Area::Page(Page::InCtx), off, word });
}

fn push_ctx_ring(ops: &mut Vec<HwOp>, off: u32, base: u64)
    ensures
        final(ops)@ == old(ops)@.push(ctx_ring(off, base)),
{
    ops.push(HwOp::Long { area: Area::Page(Page::InCtx), off, long: base | 1 });
}

impl Xhci {
    /// A driver for the device that was found on a port.
    pub fn new(pages: Pages, port: u32, speed: u32) -> (x: Xhci)
        requires
            pages.evt + 1008 <= u64::MAX,
            port <= 255,
            speed <= 15,
        ensures
            x.wf(),
            x == Xhci::fresh(pages, port, speed),
    {
        Xhci {
            pages,
            cmd: Ring::new(pages.cmd),
            ep0: Ring::new(pages.ep0),
            hid: Ring::new(pages.hid),
            evt: EventRing::new(pages.evt),
            slot: 0,
            port,
            speed,
            setup: Setup::Start,
        }
    }

    fn command(&mut self, t: Trb, ops: &mut Vec<HwOp>)
        requires
            old(self).wf(),
        ensures
            final(self).wf(),
            *final(self) == old(self).commanded(t).0,
            final(ops)@ == old(ops)@ + old(self).commanded(t).1,
    {
        let w: Vec<TrbWrite> = self.cmd.push(t);
        push_entries(ops, Page::Cmd, &w);
        ops.push(HwOp::Word { area: Area::Doorbell, off: 0, word: 0 });
        ops.push(HwOp::AwaitCommand);
        assert(ops@ =~= old(ops)@ + old(self).commanded(t).1);
    }

    fn context_command(&self, kind: u32) -> (t: Trb)
        requires
            kind <= 12,
        ensures
            t == self.ctx_command(kind),
    {
        Trb {
            w0: (self.pages.in_ctx % 0x1_0000_0000) as u32 & !0xFu32,
            w1: (self.pages.in_ctx / 0x1_0000_0000) as u32,
            w2: 0,
            w3: kind * 0x400 + self.slot as u32 * 0x100_0000,
        }
    }

    /// A request on the control endpoint without data.
    fn ctrl_nodata(&mut self, bm: u8, req: u8, val: u16, idx: u16, ops: &mut Vec<HwOp>)
        requires
            old(self).wf(),
        ensures
            final(self).wf(),
            *final(self) == old(self).requested(bm, req, val, idx).0,
            final(ops)@ == old(ops)@ + old(self).requested(bm, req, val, idx).1,
    {
        let w0: u32 = bm as u32 + req as u32 * 0x100 + val as u32 * 0x1_0000;
        let setup: Vec<TrbWrite> = self.ep0.push(Trb { w0, w1: idx as u32, w2: 8, w3: 0x840 });
        push_entries(ops, Page::Ep0, &setup);
        let status: Vec<TrbWrite> = self.ep0.push(Trb { w0: 0, w1: 0, w2: 0, w3: 0x1_1020 });
        push_entries(ops, Page::Ep0, &status);
        ops.push(HwOp::Word { area: Area::Doorbell, off: self.slot as u32 * 4, word: 1 });
        ops.push(HwOp::AwaitTransfer);
        assert(ops@ =~= old(ops)@ + old(self).requested(bm, req, val, idx).1);
    }

    /// Asks for a report.
    fn queue_hid(&mut self, ops: &mut Vec<HwOp>)
        requires
            old(self).wf(),
        ensures
            final(self).wf(),
            *final(self) == old(self).listening().0,
            final(ops)@ == old(ops)@ + old(self).listening().1,
    {
        let t = Trb {
            w0: (self.pages.hid_buf % 0x1_0000_0000) as u32,
            w1: (self.pages.hid_buf / 0x1_0000_0000) as u32,
            w2: 8,
            w3: 0x420,
        };
        let w: Vec<TrbWrite> = self.hid.push(t);
        push_entries(ops, Page::Hid, &w);
        ops.push(HwOp::Word { area: Area::Doorbell, off: self.slot as u32 * 4, word: 3 });
        assert(ops@ =~= old(ops)@ + old(self).listening().1);
    }

    fn write_address_context(&self, ops: &mut Vec<HwOp>)
        requires
            self.wf(),
        ensures
            final(ops)@ == old(ops)@ + self.address_context(),
    {
        ops.push(
            HwOp::Long {
                area: Area::Page(Page::Dcbaa),
                off: self.slot as u32 * 8,
                long: self.pages.dev_ctx,
            },
        );
        push_ctx(ops, 0x04, 0x3);
        push_ctx(ops, 0x20, 0x800_0000 + self.speed * 0x10_0000);
        push_ctx(ops, 0x24, self.port * 0x1_0000);
        push_ctx(ops, 0x44, 0x40_0026);
        push_ctx_ring(ops, 0x48, self.pages.ep0);
        push_ctx(ops, 0x50, 8);
        assert(ops@ =~= old(ops)@ + self.address_context());
    }

    fn write_endpoint_context(&self, ops: &mut Vec<HwOp>)
        requires
            self.wf(),
        ensures
            final(ops)@ == old(ops)@ + self.endpoint_context(),
    {
        push_ctx(ops, 0x00, 0);
        push_ctx(ops, 0x04, 0x9);
        push_ctx(ops, 0x20, 0x1800_0000 + self.speed * 0x10_0000);
        push_ctx(ops, 0x80, 0x3_0000);
        push_ctx(ops, 0x84, 0x8_003E);
        push_ctx_ring(ops, 0x88, self.pages.hid);
        push_ctx(ops, 0x90, 8);
        assert(ops@ =~= old(ops)@ + self.endpoint_context());
    }

    /// Takes the outcome of the last step of the setup and gives what is to be
    /// done, in order.
    pub fn step(&mut self, event: SetupEvent) -> (ops: Vec<HwOp>)
        requires
            old(self).wf(),
            old(self).expects(event),
        ensures
            final(self).wf(),
            (*final(self), ops@) == old(self).set_up(event),
    {
        let mut ops: Vec<HwOp> = Vec::new();
        match (self.setup, event) {
            (Setup::Start, SetupEvent::Begin) => {
                self.setup = Setup::EnableSlot;
                ops.push(HwOp::Delay(200_000));
                self.command(Trb { w0: 0, w1: 0, w2: 0, w3: 0x2400 }, &mut ops);
            },
            (Setup::EnableSlot, SetupEvent::Command { code, slot }) => {
                if code == CC_SUCCESS {
                    self.setup = Setup::Address;
                    self.slot = slot;
                    self.write_address_context(&mut ops);
                    let t: Trb = self.context_command(11);
                    self.command(t, &mut ops);
                } else {
                    self.setup = Setup::Failed;
                }
            },
            (Setup::Address, SetupEvent::Command { code, slot }) => {
                if code == CC_SUCCESS {
                    self.setup = Setup::Configure;
                    self.ctrl_nodata(0, 9, 1, 0, &mut ops);
                } else {
                    self.setup = Setup::Failed;
                }
            },
            (Setup::Configure, SetupEvent::Transfer) => {
                self.setup = Setup::Endpoint;
                self.write_endpoint_context(&mut ops);
                let t: Trb = self.context_command(12);
                self.command(t, &mut ops);
            },
            (Setup::Endpoint, SetupEvent::Command { code, slot }) => {
                if code == CC_SUCCESS {
                    self.setup = Setup::Ready;
                    self.queue_hid(&mut ops);
                } else {
                    self.setup = Setup::Failed;
                }
            },
            _ => {},
        }
        assert(ops@ =~= old(self).set_up(event).1);
        ops
    }

    /// Looks at the next event while a command is waited for: the code and the slot
    /// once it is the command's, and what the controller is told of any event.
    pub fn wait_cmd(&mut self, t: &Trb) -> (r: (Option<u64>, Option<(u32, u8)>))
        requires
            old(self).wf(),
        ensures
            final(self).wf(),
            t.cycle() != old(self).evt.cycle ==> r == (None::<u64>, None::<(u32, u8)>)
                && *final(self) == *old(self),
            t.cycle() == old(self).evt.cycle ==> {
                &&& r.0 == Some(((old(self).evt.base + old(self).evt.idx * 16) as u64) | 8)
                &&& r.1 == if t.kind() == TRB_EV_CMD {
                    Some((t.code(), t.slot()))
                } else {
                    None
                }
                &&& *final(self) == (Xhci { evt: old(self).evt.taken(), ..*old(self) })
            },
            r.0 is Some <==> old(self).evt.is_new(*t),
            r.0 matches Some(p) ==> p == old(self).evt.told() && r.1 == of_command(*t),
            r.0 is None ==> r.1 is None,
    {
        match self.evt.dequeue(t) {
            None => (None, None),
            Some(p) => {
                if (t.w3 >> 10) & 0x3F == TRB_EV_CMD {
                    (Some(p), Some(((t.w2 >> 24) & 0xFF, (t.w3 >> 24) as u8)))
                } else {
                    (Some(p), None)
                }
            },
        }
    }

    /// Looks at the next event while a transfer is waited for: whether it is one,
    /// and what the controller is told of any event.
    pub fn wait_xfer(&mut self, t: &Trb) -> (r: (Option<u64>, bool))
        requires
            old(self).wf(),
        ensures
            final(self).wf(),
            t.cycle() != old(self).evt.cycle ==> r == (None::<u64>, false) && *final(self)
                == *old(self),
            t.cycle() == old(self).evt.cycle ==> {
                &&& r.0 == Some(((old(self).evt.base + old(self).evt.idx * 16) as u64) | 8)
                &&& r.1 == (t.kind() == TRB_EV_XFER)
                &&& *final(self) == (Xhci { evt: old(self).evt.taken(), ..*old(self) })
            },
            r.0 is Some <==> old(self).evt.is_new(*t),
            r.0 matches Some(p) ==> p == old(self).evt.told() && r.1 == of_transfer(*t),
            r.0 is None ==> !r.1,
    {
        match self.evt.dequeue(t) {
            None => (None, false),
            Some(p) => (Some(p), (t.w3 >> 10) & 0x3F == TRB_EV_XFER),
        }
    }

    /// Looks at the next event. A report moves the pointer to where it says, on a
    /// screen of `fb_w` by `fb_h` pixels, and the next report is asked for.
    pub fn poll(
        &mut self,
        t: &Trb,
        report: &[u8; 8],
        fb_w: u32,
        fb_h: u32,
        m: &mut MouseState,
    ) -> (r: Option<(u64, Vec<HwOp>)>)
        requires
            old(self).wf(),
        ensures
            final(self).wf(),
            t.cycle() != old(self).evt.cycle ==> r is None && *final(self) == *old(self)
                && final(m)@ == old(m)@,
            t.cycle() == old(self).evt.cycle ==> {
                let x = Xhci { evt: old(self).evt.taken(), ..*old(self) };
                &&& r matches Some((erdp, ops)) && erdp == ((old(self).evt.base + old(self).evt.idx
                    * 16) as u64) | 8 && ops@ == if is_report(*t) {
                    seq![HwOp::ClearReport] + x.listening().1
                } else {
                    Seq::<HwOp>::empty()
                }
                &&& *final(self) == if is_report(*t) {
                    x.listening().0
                } else {
                    x
                }
                &&& final(m)@ == if is_report(*t) {
                    reported(old(m)@, report@, fb_w, fb_h)
                } else {
                    old(m)@
                }
            },
            r is Some <==> old(self).evt.is_new(*t),
            r matches Some((p, ops)) ==> p == old(self).evt.told() && ops@ == old(self).reaction(*t),
    {
        match self.evt.dequeue(t) {
            None => None,
            Some(erdp) => {
                let mut ops: Vec<HwOp> = Vec::new();
                let code: u32 = (t.w2 >> 24) & 0xFF;
                if (t.w3 >> 10) & 0x3F == TRB_EV_XFER && (code == CC_SUCCESS || code == CC_SHORT) {
                    take_report(m, report, fb_w, fb_h);
                    ops.push(HwOp::ClearReport);
                    self.queue_hid(&mut ops);
                }
                Some((erdp, ops))
            },
        }
    }
}

// ── Reports ─────────────────────────────────────────────────────────────────

/// The event tells of a report that came in.
pub open spec fn is_report(t: Trb) -> bool {
    t.kind() == TRB_EV_XFER && (t.code() == CC_SUCCESS || t.code() == CC_SHORT)
}

/// A coordinate of the tablet, of 32768 steps, on a screen of `size` pixels.
pub open spec fn scaled(v: int, size: u32) -> int {
    (if v * size > u32::MAX {
        u32::MAX as int
    } else {
        v * size
    }) / 32768
}

/// The mouse after a report: the buttons and both coordinates. A report of nothing
/// at the origin is what the tablet sends before it is used, and is left out.
pub open spec fn reported(m: mouse::Mouse, b: Seq<u8>, fb_w: u32, fb_h: u32) -> mouse::Mouse {
    let buttons = b[0] & 0x07;
    let x = b[1] + 256 * b[2];
    let y = b[3] + 256 * b[4];
    if x != 0 || y != 0 || buttons != 0 {
        mouse::Mouse { x: scaled(x, fb_w), y: scaled(y, fb_h), buttons, ..m }
    } else {
        m
    }
}

fn scale(v: u16, size: u32) -> (r: i32)
    ensures
        r == scaled(v as int, size),
{
    assert(v * size <= 0xFFFF * 0xFFFF_FFFF) by (nonlinear_arith)
        requires
            v <= 0xFFFF,
            size <= 0xFFFF_FFFF,
    ;
    let p: u64 = v as u64 * size as u64;
    let q: u64 = if p > u32::MAX as u64 {
        u32::MAX as u64
    } else {
        p
    };
    (q / 32768) as i32
}

/// Moves the pointer to where a report says.
pub fn take_report(m: &mut MouseState, b: &[u8; 8], fb_w: u32, fb_h: u32)
    ensures
        final(m)@ == reported(old(m)@, b@, fb_w, fb_h),
{
    let buttons: u8 = b[0] & 0x07;
    let x: u16 = bytes::read_le16(b[1], b[2]);
    let y: u16 = bytes::read_le16(b[3], b[4]);
    if x != 0 || y != 0 || buttons != 0 {
        m.x = scale(x, fb_w);
        m.y = scale(y, fb_h);
        m.buttons = buttons;
    }
}

/// Looks at the next event of the controller, where there is one.
pub fn poll_mouse(
    xhci: &mut Option<Xhci>,
    t: &Trb,
    report: &[u8; 8],
    fb_w: u32,
    fb_h: u32,
    m: &mut MouseState,
) -> (r: Option<(u64, Vec<HwOp>)>)
    requires
        *old(xhci) matches Some(x) ==> x.wf(),
    ensures
        *old(xhci) is None ==> r is None && *final(xhci) is None && final(m)@ == old(m)@,
        *old(xhci) matches Some(x) ==> {
            let taken = Xhci { evt: x.evt.taken(), ..x };
            let new = t.cycle() == x.evt.cycle;
            &&& r is Some <==> new
            &&& r matches Some((erdp, ops)) ==> erdp == ((x.evt.base + x.evt.idx * 16) as u64) | 8
                && ops@ == if is_report(*t) {
                seq![HwOp::ClearReport] + taken.listening().1
            } else {
                Seq::<HwOp>::empty()
            }
            &&& *final(xhci) == Some(
                if new && is_report(*t) {
                    taken.listening().0
                } else if new {
                    taken
                } else {
                    x
                },
            )
            &&& final(m)@ == if new && is_report(*t) {
                reported(old(m)@, report@, fb_w, fb_h)
            } else {
                old(m)@
            }
        },
        *old(xhci) matches Some(x) ==> (r is Some <==> x.evt.is_new(*t)),
        *old(xhci) matches Some(x) ==> (r matches Some((p, ops)) ==> p == x.evt.told() && ops@
            == x.reaction(*t)),
{
    match *xhci {
        None => None,
        Some(mut x) => {
            let r: Option<(u64, Vec<HwOp>)> = x.poll(t, report, fb_w, fb_h, m);
            *xhci = Some(x);
            r
        },
    }
}

/// Whether there is a controller with a device that is set up.
pub fn is_ready(xhci: &Option<Xhci>) -> (r: bool)
    ensures
        r == (xhci is Some),
{
    xhci.is_some()
}

// ── From the bus to the tablet ──────────────────────────────────────────────

/// Why there is no tablet.
#[derive(Clone, Copy, PartialEq, Eq, Structural, Debug)]
pub enum InitError {
    /// There is no controller on the bus.
    NoController,
    /// The controller has no registers in memory.
    NoBar,
    /// No port has a device.
    NoDevice,
    /// The controller refused a command.
    Refused,
}

/// What the start of the controller waits for.
#[derive(Clone, Copy, PartialEq, Eq, Structural, Debug)]
pub enum InitStage {
    /// The base address registers of the device at a place on the bus, once it may use
    /// memory and the bus.
    Bars { index: usize },
    /// The capability registers at an address, once they are mapped, and fresh pages.
    Caps { base: u64 },
    /// The command register.
    Register { layout: Layout, pages: Pages },
    /// The register of a port.
    Ports { scan: Scan, pages: Pages },
    /// The outcome of a step of the setup.
    Device { x: Xhci },
    Ready { x: Xhci },
    Failed(InitError),
}

/// The start of the controller.
#[derive(Clone, Copy, PartialEq, Eq, Structural, Debug)]
pub struct Init {
    pub stage: InitStage,
}

/// What was waited for.
#[derive(Clone, Copy, PartialEq, Eq, Structural, Debug)]
pub enum InitEvent {
    Bars { bar0: u32, bar1: u32 },
    Caps { cap_len: u8, dboff: u32, rtsoff: u32, hcsparams1: u32, pages: Pages },
    Register(u32),
    Port(u32),
    Device(SetupEvent),
}

impl Init {
    pub open spec fn wf(self) -> bool {
        match self.stage {
            InitStage::Register { layout, pages } => layout.max_slots <= 255 && layout.max_ports
                <= 255 && pages.evt + 1008 <= u64::MAX,
            InitStage::Ports { scan, pages } => scan.wf() && !(scan.stage is Done) && pages.evt
                + 1008 <= u64::MAX,
            InitStage::Device { x } => x.wf(),
            InitStage::Ready { x } => x.wf(),
            _ => true,
        }
    }

    /// The event is what is waited for.
    pub open spec fn expects(self, e: InitEvent) -> bool {
        match self.stage {
            InitStage::Bars { index } => e is Bars,
            InitStage::Caps { base } => e matches InitEvent::Caps {
                cap_len,
                dboff,
                rtsoff,
                hcsparams1,
                pages,
            } && pages.evt + 1008 <= u64::MAX,
            InitStage::Register { layout, pages } => e is Register,
            InitStage::Ports { scan, pages } => e is Port,
            InitStage::Device { x } => e matches InitEvent::Device(s) && x.expects(s),
            _ => false,
        }
    }

    /// After the last port: the device that was found, if any, is set up.
    pub open spec fn searched(scan: Scan, pages: Pages, ops: Seq<HwOp>) -> (Init, Seq<HwOp>) {
        if !(scan.stage is Done) {
            (Init { stage: InitStage::Ports { scan, pages } }, ops)
        } else if scan.found == 0 {
            (Init { stage: InitStage::Failed(InitError::NoDevice) }, ops)
        } else {
            let n = Xhci::fresh(pages, scan.found, scan.speed).set_up(SetupEvent::Begin);
            (Init { stage: InitStage::Device { x: n.0 } }, ops + n.1)
        }
    }

    /// The start of the controller after what it waited for, and what is done next: the
    /// controller is reset and started, its ports are searched, and the device on the
    /// first port with one is set up.
    pub open spec fn after(self, e: InitEvent) -> (Init, Seq<HwOp>) {
        match (self.stage, e) {
            (InitStage::Bars { index }, InitEvent::Bars { bar0, bar1 }) => (
                Init {
                    stage: if pci::bar_address(bar0, bar1) == 0 {
                        InitStage::Failed(InitError::NoBar)
                    } else {
                        InitStage::Caps { base: pci::bar_address(bar0, bar1) }
                    },
                },
                Seq::empty(),
            ),
            (
                InitStage::Caps { base },
                InitEvent::Caps { cap_len, dboff, rtsoff, hcsparams1, pages },
            ) => (
                Init {
                    stage: InitStage::Register {
                        layout: layout_of(cap_len, dboff, rtsoff, hcsparams1),
                        pages,
                    },
                },
                seq![HwOp::Wait { off: 4, mask: 0x800, set: false }],
            ),
            (InitStage::Register { layout, pages }, InitEvent::Register(usbcmd)) => {
                let ops = reset_program(usbcmd) + start_program(pages, layout.max_slots);
                Self::searched(
                    Scan::fresh(layout.max_ports),
                    pages,
                    if layout.max_ports == 0 {
                        ops
                    } else {
                        ops.push(HwOp::ReadPort(0))
                    },
                )
            },
            (InitStage::Ports { scan, pages }, InitEvent::Port(sc)) => Self::searched(
                scan.after(sc).0,
                pages,
                scan.after(sc).1,
            ),
            (InitStage::Device { x }, InitEvent::Device(s)) => {
                let n = x.set_up(s);
                (
                    Init {
                        stage: if n.0.setup == Setup::Ready {
                            InitStage::Ready { x: n.0 }
                        } else if n.0.setup == Setup::Failed {
                            InitStage::Failed(InitError::Refused)
                        } else {
                            InitStage::Device { x: n.0 }
                        },
                    },
                    n.1,
                )
            },
            _ => (self, Seq::empty()),
        }
    }

    /// Goes on after the search of a port, or begins it.
    fn search_on(&mut self, scan: Scan, pages: Pages, ops: &mut Vec<HwOp>)
        requires
            scan.wf(),
            pages.evt + 1008 <= u64::MAX,
        ensures
            final(self).wf(),
            (*final(self), final(ops)@) == Self::searched(scan, pages, old(ops)@),
    {
        match scan.stage {
            ScanStage::Done => {
                if scan.found == 0 {
                    self.stage = InitStage::Failed(InitError::NoDevice);
                } else {
                    let mut x: Xhci = Xhci::new(pages, scan.found, scan.speed);
                    let mut more: Vec<HwOp> = x.step(SetupEvent::Begin);
                    ops.append(&mut more);
                    self.stage = InitStage::Device { x };
                }
            },
            _ => {
                self.stage = InitStage::Ports { scan, pages };
            },
        }
    }

    /// Takes what was waited for. Gives what is to be done with the controller; the
    /// outcome of the last of it is what is waited for next.
    pub fn step(&mut self, event: InitEvent) -> (ops: Vec<HwOp>)
        requires
            old(self).wf(),
            old(self).expects(event),
        ensures
            final(self).wf(),
            (*final(self), ops@) == old(self).after(event),
    {
        let mut ops: Vec<HwOp> = Vec::new();
        match (self.stage, event) {
            (InitStage::Bars { index }, InitEvent::Bars { bar0, bar1 }) => {
                let base: u64 = pci::memory_bar(bar0, bar1);
                if base == 0 {
                    self.stage = InitStage::Failed(InitError::NoBar);
                } else {
                    self.stage = InitStage::Caps { base };
                }
            },
            (
                InitStage::Caps { base },
                InitEvent::Caps { cap_len, dboff, rtsoff, hcsparams1, pages },
            ) => {
                let layout: Layout = layout(cap_len, dboff, rtsoff, hcsparams1);
                self.stage = InitStage::Register { layout, pages };
                ops.push(ready());
                assert(ops@ =~= old(self).after(event).1);
            },
            (InitStage::Register { layout, pages }, InitEvent::Register(usbcmd)) => {
                ops = reset(usbcmd);
                let mut more: Vec<HwOp> = start(&pages, layout.max_slots);
                ops.append(&mut more);
                let (scan, mut first) = Scan::begin(layout.max_ports);
                ops.append(&mut first);
                proof {
                    let o = reset_program(usbcmd) + start_program(pages, layout.max_slots);
                    if layout.max_ports == 0 {
                        assert(ops@ =~= o);
                    } else {
                        assert(ops@ =~= o.push(HwOp::ReadPort(0)));
                    }
                }
                self.search_on(scan, pages, &mut ops);
            },
            (InitStage::Ports { scan, pages }, InitEvent::Port(sc)) => {
                let mut scan: Scan = scan;
                ops = scan.step(sc);
                self.search_on(scan, pages, &mut ops);
            },
            (InitStage::Device { x }, InitEvent::Device(s)) => {
                let mut x: Xhci = x;
                ops = x.step(s);
                self.stage = match x.setup {
                    Setup::Ready => InitStage::Ready { x },
                    Setup::Failed => InitStage::Failed(InitError::Refused),
                    _ => InitStage::Device { x },
                };
            },
            _ => {},
        }
        ops
    }

    /// The driver, once the tablet is set up.
    pub fn driver(&self) -> (r: Option<Xhci>)
        ensures
            match self.stage {
                InitStage::Ready { x } => r == Some(x),
                _ => r is None,
            },
    {
        match self.stage {
            InitStage::Ready { x } => Some(x),
            _ => None,
        }
    }
}

/// Begins to start the first controller on the bus.
pub fn init(devices: &Vec<PciDevice>) -> (s: Init)
    ensures
        s.wf(),
        match s.stage {
            InitStage::Bars { index } => {
                &&& index < devices@.len()
                &&& pci::serves(Kind::Xhci, devices@[index as int])
                &&& forall|j: int| 0 <= j < index ==> !pci::serves(Kind::Xhci, #[trigger] devices@[j])
            },
            InitStage::Failed(e) => e == InitError::NoController && forall|j: int|
                0 <= j < devices@.len() ==> !pci::serves(Kind::Xhci, #[trigger] devices@[j]),
            _ => false,
        },
{
    match pci::find_device(devices, Kind::Xhci, 0) {
        Some(index) => Init { stage: InitStage::Bars { index } },
        None => Init { stage: InitStage::Failed(InitError::NoController) },
    }
}

impl EventRing {
    /// What the controller is told once the next entry is taken.
    pub open spec fn told(self) -> u64 {
        ((self.base + self.idx * 16) as u64) | 8
    }

    /// The entry at the next place is a new one.
    pub open spec fn is_new(self, t: Trb) -> bool {
        t.cycle() == self.cycle
    }
}

/// The code and the slot of a command that is over.
pub open spec fn of_command(t: Trb) -> Option<(u32, u8)> {
    if t.kind() == TRB_EV_CMD {
        Some((t.code(), t.slot()))
    } else {
        None
    }
}

/// The event is that of a transfer.
pub open spec fn of_transfer(t: Trb) -> bool {
    t.kind() == TRB_EV_XFER
}

impl Xhci {
    /// What is done about a new event.
    pub open spec fn reaction(self, t: Trb) -> Seq<HwOp> {
        if is_report(t) {
            seq![HwOp::ClearReport] + (Xhci { evt: self.evt.taken(), ..self }).listening().1
        } else {
            Seq::<HwOp>::empty()
        }
    }
}

} // verus!
