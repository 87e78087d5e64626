//! Intel e1000 network card: rings of eight descriptors for each direction.
use vstd::prelude::*;
use crate::bytes;

verus! {

/// Descriptors in a ring.
pub const RING: usize = 8;

pub const CTRL: u32 = 0x0000;

pub const STATUS: u32 = 0x0008;

pub const IMS: u32 = 0x00D0;

pub const RCTL: u32 = 0x0100;

pub const TCTL: u32 = 0x0400;

pub const TIPG: u32 = 0x0410;

pub const RDBAL: u32 = 0x2800;

pub const RDBAH: u32 = 0x2804;

pub const RDLEN: u32 = 0x2808;

pub const RDH: u32 = 0x2810;

pub const RDT: u32 = 0x2818;

pub const TDBAL: u32 = 0x3800;

pub const TDBAH: u32 = 0x3804;

pub const TDLEN: u32 = 0x3808;

pub const TDH: u32 = 0x3810;

pub const TDT: u32 = 0x3818;

pub const MTA: u32 = 0x5200;

pub const RAL: u32 = 0x5400;

pub const RAH: u32 = 0x5404;

/// Reset bit of the control register.
pub const CTRL_RST: u32 = 0x0400_0000;

/// The card's registers take this many bytes.
pub const REGS_SIZE: usize = 131_072;

/// A register to be written.
#[derive(Clone, Copy, PartialEq, Eq, Structural, Debug)]
pub struct RegWrite {
    pub off: u32,
    pub value: u32,
}

/// A receive descriptor.
#[derive(Clone, Copy, PartialEq, Eq, Structural, Debug)]
pub struct RxDesc {
    pub addr: u64,
    pub len: u16,
    pub cksum: u16,
    pub status: u8,
    pub errors: u8,
    pub spec: u16,
}

/// A transmit descriptor.
#[derive(Clone, Copy, PartialEq, Eq, Structural, Debug)]
pub struct TxDesc {
    pub addr: u64,
    pub len: u16,
    pub cso: u8,
    pub cmd: u8,
    pub status: u8,
    pub css: u8,
    pub spec: u16,
}

impl RxDesc {
    /// The sixteen bytes of the descriptor.
    pub open spec fn image(self) -> Seq<u8> {
        bytes::le(self.addr as nat, 8) + bytes::le(self.len as nat, 2) + bytes::le(
            self.cksum as nat,
            2,
        ) + seq![self.status, self.errors] + bytes::le(self.spec as nat, 2)
    }

    /// The sixteen bytes of the descriptor.
    pub fn to_bytes(&self) -> (v: Vec<u8>)
        ensures
            v@ == self.image(),
    {
        let mut v: Vec<u8> = Vec::new();
        bytes::push_le(&mut v, self.addr, 8);
        bytes::push_le(&mut v, self.len as u64, 2);
        bytes::push_le(&mut v, self.cksum as u64, 2);
        v.push(self.status);
        v.push(self.errors);
        bytes::push_le(&mut v, self.spec as u64, 2);
        assert(v@ =~= self.image());
        v
    }
}

impl TxDesc {
    /// The sixteen bytes of the descriptor.
    pub open spec fn image(self) -> Seq<u8> {
        bytes::le(self.addr as nat, 8) + bytes::le(self.len as nat, 2) + seq![
            self.cso,
            self.cmd,
            self.status,
            self.css,
        ] + bytes::le(self.spec as nat, 2)
    }

    /// The sixteen bytes of the descriptor.
    pub fn to_bytes(&self) -> (v: Vec<u8>)
        ensures
            v@ == self.image(),
    {
        let mut v: Vec<u8> = Vec::new();
        bytes::push_le(&mut v, self.addr, 8);
        bytes::push_le(&mut v, self.len as u64, 2);
        v.push(self.cso);
        v.push(self.cmd);
        v.push(self.status);
        v.push(self.css);
        bytes::push_le(&mut v, self.spec as u64, 2);
        assert(v@ =~= self.image());
        v
    }
}

/// The card: its address, the receive pages, and where its rings are.
pub struct E1000 {
    pub mac: [u8; 6],
    /// Physical addresses of the receive pages.
    pub rx_bufs: [u64; 8],
    /// The next receive descriptor.
    pub rx_tail: usize,
    /// The next transmit descriptor.
    pub tx_tail: usize,
}

/// A packet to be sent: the descriptor goes to a place of the ring, and then the
/// tail register is written.
#[derive(Clone, Copy, PartialEq, Eq, Structural, Debug)]
pub struct Sending {
    pub index: usize,
    pub desc: TxDesc,
    pub tail: RegWrite,
}

/// What a look at the receive ring gives.
#[derive(Clone, Copy, PartialEq, Eq, Structural, Debug)]
pub enum Receiving {
    /// Nothing came.
    Empty,
    /// A frame that is too short: its descriptor is cleared and the tail written.
    Skip { index: usize, tail: RegWrite },
    /// A frame of `len` bytes lies at `buf`; when it is copied, its descriptor is
    /// cleared and the tail written.
    Packet { index: usize, buf: u64, len: usize, tail: RegWrite },
}

/// The place after another in a ring.
pub open spec fn next_place(i: int) -> int {
    (i + 1) % 8
}

impl E1000 {
    pub open spec fn wf(self) -> bool {
        self.rx_tail < RING && self.tx_tail < RING
    }

    /// A card that was just started.
    pub fn new(mac: [u8; 6], rx_bufs: [u64; 8]) -> (c: E1000)
        ensures
            c.wf(),
            c.mac == mac,
            c.rx_bufs == rx_bufs,
            c.rx_tail == 0,
            c.tx_tail == 0,
    {
        E1000 { mac, rx_bufs, rx_tail: 0, tx_tail: 0 }
    }

    /// The card after it was given `len` bytes at `phys` to send, and what is to be done
    /// for that.
    pub open spec fn sends(self, phys: u64, len: usize) -> (E1000, Option<Sending>) {
        if len > 4096 {
            (self, None)
        } else {
            let next = next_place(self.tx_tail as int);
            (
                E1000 { tx_tail: next as usize, ..self },
                Some(
                    Sending {
                        index: self.tx_tail,
                        desc: TxDesc {
                            addr: phys,
                            len: len as u16,
                            cso: 0,
                            cmd: 9,
                            status: 0,
                            css: 0,
                            spec: 0,
                        },
                        tail: RegWrite { off: TDT, value: next as u32 },
                    },
                ),
            )
        }
    }

    /// The card after a look at the next receive descriptor, and what it gave.
    pub open spec fn receives(self, status: u8, len: u16) -> (E1000, Receiving) {
        if status & 1 == 0 {
            (self, Receiving::Empty)
        } else {
            let next = next_place(self.rx_tail as int);
            let tail = RegWrite { off: RDT, value: next as u32 };
            (
                E1000 { rx_tail: next as usize, ..self },
                if len < 14 {
                    Receiving::Skip { index: self.rx_tail, tail }
                } else {
                    Receiving::Packet {
                        index: self.rx_tail,
                        buf: self.rx_bufs@[self.rx_tail as int],
                        len: len as usize,
                        tail,
                    }
                },
            )
        }
    }

    /// Sends `len` bytes that lie in a page at `phys`. More than a page is not
    /// sent.
    pub fn send(&mut self, phys: u64, len: usize) -> (r: Option<Sending>)
        requires
            old(self).wf(),
        ensures
            final(self).wf(),
            *final(self) == old(self).sends(phys, len).0,
            r == old(self).sends(phys, len).1,
            len > 4096 ==> r is None && *final(self) == *old(self),
            len <= 4096 ==> {
                &&& r == Some(
                    Sending {
                        index: old(self).tx_tail,
                        desc: TxDesc {
                            addr: phys,
                            len: len as u16,
                            cso: 0,
                            cmd: 9,
                            status: 0,
                            css: 0,
                            spec: 0,
                        },
                        tail: RegWrite {
                            off: TDT,
                            value: next_place(old(self).tx_tail as int) as u32,
                        },
                    },
                )
                &&& *final(self) == (E1000 {
                    tx_tail: next_place(old(self).tx_tail as int) as usize,
                    ..*old(self)
                })
            },
    {
        if len > 4096 {
            return None;
        }
        let index: usize = self.tx_tail % RING;
        let desc = TxDesc { addr: phys, len: len as u16, cso: 0, cmd: 9, status: 0, css: 0, spec: 0 };
        self.tx_tail = (self.tx_tail + 1) % RING;
        Some(Sending { index, desc, tail: RegWrite { off: TDT, value: self.tx_tail as u32 } })
    }

    /// Looks at the next receive descriptor, of which `status` and `len` are given.
    pub fn recv(&mut self, status: u8, len: u16) -> (r: Receiving)
        requires
            old(self).wf(),
        ensures
            final(self).wf(),
            *final(self) == old(self).receives(status, len).0,
            r == old(self).receives(status, len).1,
            status & 1 == 0 ==> r is Empty && *final(self) == *old(self),
            status & 1 != 0 ==> {
                let tail = RegWrite {
                    off: RDT,
                    value: next_place(old(self).rx_tail as int) as u32,
                };
                &&& r == if len < 14 {
                    Receiving::Skip { index: old(self).rx_tail, tail }
                } else {
                    Receiving::Packet {
                        index: old(self).rx_tail,
                        buf: old(self).rx_bufs@[old(self).rx_tail as int],
                        len: len as usize,
                        tail,
                    }
                }
                &&& *final(self) == (E1000 {
                    rx_tail: next_place(old(self).rx_tail as int) as usize,
                    ..*old(self)
                })
            },
    {
        let index: usize = self.rx_tail % RING;
        if status & 1 == 0 {
            return Receiving::Empty;
        }
        let buf: u64 = self.rx_bufs[index];
        self.rx_tail = (self.rx_tail + 1) % RING;
        let tail = RegWrite { off: RDT, value: self.rx_tail as u32 };
        if len < 14 {
            Receiving::Skip { index, tail }
        } else {
            Receiving::Packet { index, buf, len: len as usize, tail }
        }
    }
}

/// Whether a transmit descriptor is done, by its status.
pub fn is_sent(status: u8) -> (r: bool)
    ensures
        r == (status & 1 != 0),
        r == sent_by(status),
{
    status & 1 != 0
}

/// Whether the card is still in reset, by its control register.
pub fn in_reset(ctrl: u32) -> (r: bool)
    ensures
        r == (ctrl & CTRL_RST != 0),
        r == resetting(ctrl),
{
    ctrl & CTRL_RST != 0
}

/// What resets the card, where its control register holds `ctrl`.
pub fn reset(ctrl: u32) -> (w: RegWrite)
    ensures
        w == (RegWrite { off: CTRL, value: ctrl | CTRL_RST }),
{
    RegWrite { off: CTRL, value: ctrl | CTRL_RST }
}

/// The multicast table cleared, up to entry `n`.
pub open spec fn clear_multicast(n: nat) -> Seq<RegWrite> {
    Seq::new(n, |i: int| RegWrite { off: (MTA + i * 4) as u32, value: 0 })
}

/// What is written to start the card once it is reset: the link comes up, the
/// multicast table is cleared, no interrupts; then the receive ring at `rx` with
/// all descriptors but one handed over, every frame accepted and its checksum
/// stripped; then the transmit ring at `tx`.
pub open spec fn start_program(rx: u64, tx: u64) -> Seq<RegWrite> {
    seq![RegWrite { off: CTRL, value: 0x60 }] + clear_multicast(128) + seq![
        RegWrite { off: IMS, value: 0 },
        RegWrite { off: RDBAL, value: (rx % 0x1_0000_0000) as u32 },
        RegWrite { off: RDBAH, value: (rx / 0x1_0000_0000) as u32 },
        RegWrite { off: RDLEN, value: 128 },
        RegWrite { off: RDH, value: 0 },
        RegWrite { off: RDT, value: 7 },
        RegWrite { off: RCTL, value: 0x0400_801A },
        RegWrite { off: TDBAL, value: (tx % 0x1_0000_0000) as u32 },
        RegWrite { off: TDBAH, value: (tx / 0x1_0000_0000) as u32 },
        RegWrite { off: TDLEN, value: 128 },
        RegWrite { off: TDH, value: 0 },
        RegWrite { off: TDT, value: 0 },
        RegWrite { off: TIPG, value: 0x0060_200A },
        RegWrite { off: TCTL, value: 0x0003_F0FA },
    ]
}

/// What is written to start the card once it is reset.
pub fn init(rx: u64, tx: u64) -> (w: Vec<RegWrite>)
    ensures
        w@ == start_program(rx, tx),
{
    let mut w: Vec<RegWrite> = vec![RegWrite { off: CTRL, value: 0x60 }];
    let mut i: u32 = 0;
    assert(w@ =~= seq![RegWrite { off: CTRL, value: 0x60 }] + clear_multicast(0));
    while i < 128
        invariant
            i <= 128,
            w@ == seq![RegWrite { off: CTRL, value: 0x60 }] + clear_multicast(i as nat),
        decreases 128 - i,
    {
        w.push(RegWrite { off: MTA + i * 4, value: 0 });
        assert(w@ =~= seq![RegWrite { off: CTRL, value: 0x60 }] + clear_multicast((i + 1) as nat));
        i = i + 1;
    }
    w.push(RegWrite { off: IMS, value: 0 });
    w.push(RegWrite { off: RDBAL, value: (rx % 0x1_0000_0000) as u32 });
    w.push(RegWrite { off: RDBAH, value: (rx / 0x1_0000_0000) as u32 });
    w.push(RegWrite { off: RDLEN, value: 128 });
    w.push(RegWrite { off: RDH, value: 0 });
    w.push(RegWrite { off: RDT, value: 7 });
    w.push(RegWrite { off: RCTL, value: 0x0400_801A });
    w.push(RegWrite { off: TDBAL, value: (tx % 0x1_0000_0000) as u32 });
    w.push(RegWrite { off: TDBAH, value: (tx / 0x1_0000_0000) as u32 });
    w.push(RegWrite { off: TDLEN, value: 128 });
    w.push(RegWrite { off: TDH, value: 0 });
    w.push(RegWrite { off: TDT, value: 0 });
    w.push(RegWrite { off: TIPG, value: 0x0060_200A });
    w.push(RegWrite { off: TCTL, value: 0x0003_F0FA });
    assert(w@ =~= start_program(rx, tx));
    w
}

/// A receive descriptor that waits for a frame.
pub open spec fn waiting(buf: u64) -> RxDesc {
    RxDesc { addr: buf, len: 0, cksum: 0, status: 0, errors: 0, spec: 0 }
}

/// The receive ring at the start: each descriptor with its page.
pub fn rx_ring(bufs: &[u64; 8]) -> (ring: Vec<RxDesc>)
    ensures
        ring@ == bufs@.map_values(|b: u64| waiting(b)),
{
    let mut ring: Vec<RxDesc> = Vec::new();
    let mut i: usize = 0;
    while i < RING
        invariant
            i <= 8,
            ring@ == bufs@.take(i as int).map_values(|b: u64| waiting(b)),
        decreases 8 - i,
    {
        ring.push(
            RxDesc { addr: bufs[i], len: 0, cksum: 0, status: 0, errors: 0, spec: 0 },
        );
        assert(ring@ =~= bufs@.take(i + 1).map_values(|b: u64| waiting(b)));
        i = i + 1;
    }
    assert(bufs@.take(8) =~= bufs@);
    ring
}

/// A transmit descriptor that is done.
pub open spec fn idle() -> TxDesc {
    TxDesc { addr: 0, len: 0, cso: 0, cmd: 0, status: 1, css: 0, spec: 0 }
}

/// The transmit ring at the start: every descriptor done.
pub fn tx_ring() -> (ring: Vec<TxDesc>)
    ensures
        ring@ == Seq::new(8, |i: int| idle()),
{
    let d = TxDesc { addr: 0, len: 0, cso: 0, cmd: 0, status: 1, css: 0, spec: 0 };
    let ring: Vec<TxDesc> = vec![d, d, d, d, d, d, d, d];
    assert(ring@ =~= Seq::new(8, |i: int| idle()));
    ring
}

/// Going round a ring.
pub open spec fn places_on(i: int, n: nat) -> int
    decreases n,
{
    if n == 0 {
        i
    } else {
        next_place(places_on(i, (n - 1) as nat))
    }
}

proof fn lemma_places(i: int, n: nat)
    requires
        0 <= i < 8,
    ensures
        places_on(i, n) == (i + n) % 8,
    decreases n,
{
    if n > 0 {
        lemma_places(i, (n - 1) as nat);
    }
}

/// The places of a ring are used in turn: after `n` steps the place is `n` further,
/// and after a whole round it is the same again.
pub proof fn law_ring_turns(i: int, n: nat)
    requires
        0 <= i < 8,
    ensures
        places_on(i, n) == (i + n) % 8,
        places_on(i, 8) == i,
{
    lemma_places(i, n);
    lemma_places(i, 8);
}

/// The descriptors lie in memory as the card expects them: sixteen bytes each, the
/// status in byte 12.
pub proof fn law_descriptor_layout(r: RxDesc, t: TxDesc)
    ensures
        r.image().len() == 16,
        t.image().len() == 16,
        r.image()[12] == r.status,
        t.image()[12] == t.status,
        t.image()[11] == t.cmd,
        r.image().take(8) == bytes::le(r.addr as nat, 8),
        t.image().take(8) == bytes::le(t.addr as nat, 8),
{
    bytes::law_le_value(r.addr as nat, 8);
    bytes::law_le_value(r.len as nat, 2);
    bytes::law_le_value(r.cksum as nat, 2);
    bytes::law_le_value(r.spec as nat, 2);
    bytes::law_le_value(t.addr as nat, 8);
    bytes::law_le_value(t.len as nat, 2);
    bytes::law_le_value(t.spec as nat, 2);
    assert(r.image().take(8) =~= bytes::le(r.addr as nat, 8));
    assert(t.image().take(8) =~= bytes::le(t.addr as nat, 8));
}

// ── What the card is told ───────────────────────────────────────────────────

/// What a register holds after the first `n` writes, if it was written: the last value
/// counts.
pub open spec fn held_after(ws: Seq<RegWrite>, n: int, off: int) -> Option<u32>
    decreases n,
{
    if n <= 0 {
        None
    } else if ws[n - 1].off == off {
        Some(ws[n - 1].value)
    } else {
        held_after(ws, n - 1, off)
    }
}

/// What a register holds after some writes.
pub open spec fn held(ws: Seq<RegWrite>, off: int) -> Option<u32> {
    held_after(ws, ws.len() as int, off)
}

/// The address that two registers hold, the lower and the upper half.
pub open spec fn address_in(ws: Seq<RegWrite>, low: int, high: int) -> Option<int> {
    match (held(ws, low), held(ws, high)) {
        (Some(l), Some(h)) => Some(l + 0x1_0000_0000 * h),
        _ => None,
    }
}

proof fn lemma_held_from(a: Seq<RegWrite>, b: Seq<RegWrite>, n: int, off: int)
    requires
        0 <= n <= b.len(),
    ensures
        held_after(a + b, a.len() + n, off) == if held_after(b, n, off) is Some {
            held_after(b, n, off)
        } else {
            held(a, off)
        },
    decreases n,
{
    if n == 0 {
        lemma_held_prefix(a, b, a.len() as int, off);
    } else {
        lemma_held_from(a, b, n - 1, off);
    }
}

proof fn lemma_held_prefix(a: Seq<RegWrite>, b: Seq<RegWrite>, n: int, off: int)
    requires
        0 <= n <= a.len(),
    ensures
        held_after(a + b, n, off) == held_after(a, n, off),
    decreases n,
{
    if n > 0 {
        lemma_held_prefix(a, b, n - 1, off);
    }
}

proof fn lemma_held_multicast(n: nat, k: int)
    requires
        0 <= k < n <= 128,
    ensures
        held(clear_multicast(n), 0x5200 + 4 * k) == Some(0u32),
    decreases n,
{
    let c = clear_multicast(n);
    if k < n - 1 {
        lemma_held_multicast((n - 1) as nat, k);
        let d = clear_multicast((n - 1) as nat);
        assert(c =~= d + seq![c[n - 1]]);
        lemma_held_prefix(d, seq![c[n - 1]], n - 1, 0x5200 + 4 * k);
    }
}

/// The writes that come behind the multicast table.
spec fn after_multicast(rx: u64, tx: u64) -> Seq<RegWrite> {
    start_program(rx, tx).skip(129)
}

proof fn lemma_start_held(rx: u64, tx: u64, off: int)
    requires
        held(after_multicast(rx, tx), off) is Some,
    ensures
        held(start_program(rx, tx), off) == held(after_multicast(rx, tx), off),
{
    let a = seq![RegWrite { off: CTRL, value: 0x60 }] + clear_multicast(128);
    let b = after_multicast(rx, tx);
    assert(start_program(rx, tx) =~= a + b);
    lemma_held_from(a, b, b.len() as int, off);
}

/// Once started, the card has its receive ring at `rx` and its transmit ring at `tx`, each
/// of eight descriptors of sixteen bytes. Of the receive ring all descriptors but the last
/// are the card's; the transmit ring is empty.
pub proof fn law_rings_told(rx: u64, tx: u64)
    ensures
        ({
            let w = start_program(rx, tx);
            &&& address_in(w, 0x2800, 0x2804) == Some(rx as int)
            &&& address_in(w, 0x3800, 0x3804) == Some(tx as int)
            &&& held(w, 0x2808) == Some((RING * 16) as u32)
            &&& held(w, 0x3808) == Some((RING * 16) as u32)
            &&& held(w, 0x2810) == Some(0u32)
            &&& held(w, 0x2818) == Some((RING - 1) as u32)
            &&& held(w, 0x3810) == Some(0u32)
            &&& held(w, 0x3818) == Some(0u32)
        }),
{
    reveal_with_fuel(held_after, 16);
    lemma_start_held(rx, tx, 0x2800);
    lemma_start_held(rx, tx, 0x2804);
    lemma_start_held(rx, tx, 0x3800);
    lemma_start_held(rx, tx, 0x3804);
    lemma_start_held(rx, tx, 0x2808);
    lemma_start_held(rx, tx, 0x3808);
    lemma_start_held(rx, tx, 0x2810);
    lemma_start_held(rx, tx, 0x2818);
    lemma_start_held(rx, tx, 0x3810);
    lemma_start_held(rx, tx, 0x3818);
}

/// Once started, the card has its link up, no interrupts and an empty multicast table. It
/// receives every frame, also broadcasts and those for others, and leaves the checksum
/// out; it sends, and pads short packets.
pub proof fn law_card_runs(rx: u64, tx: u64, k: int)
    requires
        0 <= k < 128,
    ensures
        ({
            let w = start_program(rx, tx);
            &&& held(w, 0x0000) matches Some(ctrl) && ctrl & 0x40 != 0 && ctrl & 0x20 != 0 && ctrl
                & 0x0400_0000 == 0
            &&& held(w, 0x00D0) == Some(0u32)
            &&& held(w, 0x5200 + 4 * k) == Some(0u32)
            &&& held(w, 0x0100) matches Some(rctl) && rctl & 0x02 != 0 && rctl & 0x08 != 0 && rctl
                & 0x10 != 0 && rctl & 0x8000 != 0 && rctl & 0x0400_0000 != 0
            &&& held(w, 0x0400) matches Some(tctl) && tctl & 0x02 != 0 && tctl & 0x08 != 0 && tctl
                / 16 % 256 == 15 && tctl / 4096 % 1024 == 63
            &&& held(w, 0x0410) == Some(0x0060_200Au32)
        }),
{
    reveal_with_fuel(held_after, 16);
    let w = start_program(rx, tx);
    let b = after_multicast(rx, tx);
    lemma_start_held(rx, tx, 0x00D0);
    lemma_start_held(rx, tx, 0x0100);
    lemma_start_held(rx, tx, 0x0400);
    lemma_start_held(rx, tx, 0x0410);
    lemma_held_multicast(128, k);
    let first = seq![RegWrite { off: CTRL, value: 0x60 }];
    let m = clear_multicast(128);
    lemma_held_from(first, m, 128, 0x5200 + 4 * k);
    lemma_held_untouched(m, 128, 0);
    lemma_held_from(first, m, 128, 0);
    assert(w =~= first + m + b);
    lemma_held_from(first + m, b, b.len() as int, 0x5200 + 4 * k);
    lemma_held_from(first + m, b, b.len() as int, 0);
    assert(0x60u32 & 0x40 != 0 && 0x60u32 & 0x20 != 0 && 0x60u32 & 0x0400_0000 == 0)
        by (bit_vector);
    assert(0x0400_801Au32 & 0x02 != 0 && 0x0400_801Au32 & 0x08 != 0 && 0x0400_801Au32 & 0x10 != 0
        && 0x0400_801Au32 & 0x8000 != 0 && 0x0400_801Au32 & 0x0400_0000 != 0) by (bit_vector);
    assert(0x0003_F0FAu32 & 0x02 != 0 && 0x0003_F0FAu32 & 0x08 != 0) by (bit_vector);
}

proof fn lemma_held_untouched(m: Seq<RegWrite>, n: int, off: int)
    requires
        0 <= n <= m.len(),
        forall|i: int| 0 <= i < n ==> (#[trigger] m[i]).off != off,
    ensures
        held_after(m, n, off) is None,
    decreases n,
{
    if n > 0 {
        lemma_held_untouched(m, n - 1, off);
    }
}

/// Neither direction is switched on before the card knows its ring.
pub proof fn law_rings_before_running(rx: u64, tx: u64, n: int)
    requires
        0 <= n < start_program(rx, tx).len(),
    ensures
        ({
            let w = start_program(rx, tx);
            &&& w[n].off == 0x0100 ==> address_in(w.take(n), 0x2800, 0x2804) == Some(rx as int)
                && held(w.take(n), 0x2818) == Some((RING - 1) as u32)
            &&& w[n].off == 0x0400 ==> address_in(w.take(n), 0x3800, 0x3804) == Some(tx as int)
                && held(w.take(n), 0x3818) == Some(0u32)
        }),
{
    reveal_with_fuel(held_after, 16);
    let w = start_program(rx, tx);
    let a = seq![RegWrite { off: CTRL, value: 0x60 }] + clear_multicast(128);
    let b = after_multicast(rx, tx);
    assert(w =~= a + b);
    if w[n].off == 0x0100 || w[n].off == 0x0400 {
        if n < 129 {
            assert(w[n] == a[n]);
        }
        let k = n - 129;
        assert(w[n] == b[k]);
        let c = b.take(k);
        assert(w.take(n) =~= a + c);
        if w[n].off == 0x0100 {
            assert(k == 6);
            lemma_held_from(a, c, k, 0x2800);
            lemma_held_from(a, c, k, 0x2804);
            lemma_held_from(a, c, k, 0x2818);
        } else {
            assert(k == 13);
            lemma_held_from(a, c, k, 0x3800);
            lemma_held_from(a, c, k, 0x3804);
            lemma_held_from(a, c, k, 0x3818);
        }
    }
}

/// A packet that is sent goes to the place of the ring where the card's tail stands: the
/// descriptor names the bytes and their number, ends the packet there and asks for a
/// report. Then the tail goes one place on, round the ring, and the next packet follows
/// there.
pub proof fn law_packet_sent(c: E1000, phys: u64, len: usize, phys2: u64, len2: usize)
    requires
        c.wf(),
        len <= 4096,
        len2 <= 4096,
    ensures
        ({
            let (d, r) = c.sends(phys, len);
            let (_, r2) = d.sends(phys2, len2);
            let s = r->0;
            &&& r is Some && r2 is Some
            &&& s.index == c.tx_tail
            &&& s.desc.addr == phys
            &&& s.desc.len == len
            &&& s.desc.cmd & 1 != 0
            &&& s.desc.cmd & 8 != 0
            &&& s.desc.status & 1 == 0
            &&& s.desc.cso == 0 && s.desc.css == 0 && s.desc.spec == 0
            &&& s.tail.off == 0x3818
            &&& s.tail.value == (s.index + 1) % 8
            &&& r2->0.index == s.tail.value
            &&& d.wf() && d.rx_tail == c.rx_tail && d.rx_bufs == c.rx_bufs && d.mac == c.mac
        }),
{
    assert(9u8 & 1 != 0 && 9u8 & 8 != 0 && 0u8 & 1 == 0) by (bit_vector);
}

/// What came in is taken from the page that belongs to its place of the ring, and the
/// places are taken in turn. Nothing is taken before the card is done with it, and a frame
/// too short to be one is passed over.
pub proof fn law_frame_taken(c: E1000, status: u8, len: u16)
    requires
        c.wf(),
    ensures
        ({
            let (d, r) = c.receives(status, len);
            &&& status & 1 == 0 ==> r is Empty && d == c
            &&& status & 1 != 0 ==> d.rx_tail == (c.rx_tail + 1) % 8 && d.tx_tail == c.tx_tail
                && d.rx_bufs == c.rx_bufs && d.mac == c.mac
            &&& status & 1 != 0 && len >= 14 ==> (r matches Receiving::Packet {
                index,
                buf,
                len: n,
                tail,
            } && index == c.rx_tail && buf == c.rx_bufs@[index as int] && n == len && tail.off
                == 0x2818 && tail.value == d.rx_tail)
            &&& status & 1 != 0 && len < 14 ==> (r matches Receiving::Skip { index, tail } && index
                == c.rx_tail && tail.off == 0x2818 && tail.value == d.rx_tail)
        }),
{
}

/// The descriptors as the card reads them: the page's address, the length, and for sending
/// the command in its byte.
pub proof fn law_descriptor_read(r: RxDesc, t: TxDesc)
    ensures
        bytes::value(r.image().take(8)) == r.addr,
        bytes::value(t.image().take(8)) == t.addr,
        bytes::value(r.image().subrange(8, 10)) == r.len,
        bytes::value(t.image().subrange(8, 10)) == t.len,
        t.image()[11] == t.cmd && t.image()[12] == t.status && r.image()[12] == r.status,
{
    law_descriptor_layout(r, t);
    bytes::law_read_back(r.addr as nat, 8);
    bytes::law_read_back(t.addr as nat, 8);
    bytes::law_read_back(r.len as nat, 2);
    bytes::law_read_back(t.len as nat, 2);
    bytes::law_le_value(r.cksum as nat, 2);
    assert(r.image().subrange(8, 10) =~= bytes::le(r.len as nat, 2));
    assert(t.image().subrange(8, 10) =~= bytes::le(t.len as nat, 2));
}

/// The card has sent what a descriptor stood for.
pub open spec fn sent_by(status: u8) -> bool {
    status & 1 != 0
}

/// The card is still resetting itself.
pub open spec fn resetting(ctrl: u32) -> bool {
    ctrl & CTRL_RST != 0
}

/// A descriptor is done when the lowest bit of its status is set, and the card is resetting
/// itself while bit 26 of its control register is. At the start every descriptor for what
/// is sent is done, and every one for what comes in waits, empty, with its own page.
pub proof fn law_status_read(status: u8, ctrl: u32, buf: u64)
    ensures
        sent_by(status) <==> status % 2 == 1,
        resetting(ctrl) <==> (ctrl / 0x0400_0000) % 2 == 1,
        sent_by(idle().status) && idle().len == 0 && idle().cmd == 0,
        waiting(buf).addr == buf && waiting(buf).status == 0 && waiting(buf).len == 0,
{
    crate::bytes::lemma_byte_bits(status);
    crate::bytes::lemma_byte_bits(1);
    crate::bytes::lemma_word_bits(ctrl);
}

} // verus!
