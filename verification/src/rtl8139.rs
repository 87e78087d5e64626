//! RTL8139 network card: four transmit slots, and a receive ring of 64 KB in which
//! frames follow one another.
use vstd::prelude::*;
use crate::bytes;

verus! {

pub const TX_SLOTS: usize = 4;

/// The receive ring, with room for an overrun.
pub const RX_BUF_LEN: usize = 65_552;

/// Pages that the receive ring takes.
pub const RX_PAGES: usize = 17;

/// Bytes of the ring that frames go round in.
pub const RX_RING: usize = 65_536;

pub const TXSTAT0: u16 = 0x10;

pub const TXADDR0: u16 = 0x20;

pub const RXBUF: u16 = 0x30;

pub const CMD: u16 = 0x37;

pub const CAPR: u16 = 0x38;

pub const CBA: u16 = 0x3A;

pub const IMR: u16 = 0x3C;

pub const TXCFG: u16 = 0x40;

pub const RXCFG: u16 = 0x44;

pub const CONFIG1: u16 = 0x52;

/// Reset bit of the command register.
pub const CMD_RST: u8 = 0x10;

/// The slot is ours.
pub const TXSTAT_OWN: u32 = 0x2000;

/// The longest packet that is sent.
pub const TX_MAX: usize = 1792;

/// Something to do with a port of the card.
#[derive(Clone, Copy, PartialEq, Eq, Structural, Debug)]
pub enum PortOp {
    Byte { port: u16, byte: u8 },
    Word { port: u16, word: u16 },
    Long { port: u16, long: u32 },
    /// Read a byte until the bits in `mask` are clear, at most `tries` times.
    WaitClear { port: u16, mask: u8, tries: u32 },
}

/// The card: its ports, its address, its transmit pages, the next slot, and how far
/// the receive ring was read.
pub struct Rtl8139 {
    pub io: u16,
    pub mac: [u8; 6],
    pub tx_phys: [u64; 4],
    pub tx_slot: usize,
    pub rx_off: usize,
}

/// A packet to be sent: it is copied to the slot's page once the slot is ours, and
/// then the two ports are written.
#[derive(Clone, Copy, PartialEq, Eq, Structural, Debug)]
pub struct Sending {
    pub slot: usize,
    /// The port that says whether the slot is ours.
    pub status: u16,
    pub addr: PortOp,
    pub start: PortOp,
}

/// What a look at the receive ring gives.
pub enum Receiving {
    /// Nothing came.
    Empty,
    /// A damaged frame, left behind; the read pointer is written.
    Bad(PortOp),
    /// A frame; the read pointer is written.
    Packet(Vec<u8>, PortOp),
}

/// Byte `i` of the ring, which goes round.
pub open spec fn at(ring: Seq<u8>, i: int) -> u8 {
    ring[i % 65536]
}

/// The status of the frame at `off`.
pub open spec fn frame_status(ring: Seq<u8>, off: int) -> int {
    at(ring, off) + 256 * at(ring, off + 1)
}

/// The length of the frame at `off`, with its checksum.
pub open spec fn frame_len(ring: Seq<u8>, off: int) -> int {
    at(ring, off + 2) + 256 * at(ring, off + 3)
}

/// The frame at `off` came in well.
pub open spec fn is_good(ring: Seq<u8>, off: int) -> bool {
    frame_status(ring, off) % 2 == 1 && 14 <= frame_len(ring, off) <= 1518
}

/// The frame at `off` without its checksum.
pub open spec fn frame(ring: Seq<u8>, off: int) -> Seq<u8> {
    Seq::new((frame_len(ring, off) - 4) as nat, |i: int| at(ring, off + 4 + i))
}

/// Where the frame after the one at `off` begins: at the next multiple of four.
pub open spec fn next_frame(ring: Seq<u8>, off: int) -> int {
    (off + 4 + frame_len(ring, off) + 3) / 4 * 4
}

/// The read pointer that the card wants for a place: sixteen bytes before it.
pub open spec fn read_pointer(off: int) -> u16 {
    ((off + 65520) % 65536) as u16
}

/// The word at `off` of the ring.
fn word_at(ring: &[u8], off: usize) -> (w: u16)
    requires
        ring@.len() >= 65536,
        off + 1 <= usize::MAX,
    ensures
        w == at(ring@, off as int) + 256 * at(ring@, off + 1),
{
    bytes::read_le16(ring[off % RX_RING], ring[(off + 1) % RX_RING])
}

/// The read pointer that the card wants for a place.
fn pointer_before(off: usize) -> (w: u16)
    ensures
        w == read_pointer(off as int),
{
    ((off % RX_RING + 65520) % RX_RING) as u16
}

/// Copies the frame of `len` bytes at `off`, without its checksum.
fn copy_frame(ring: &[u8], off: usize, len: usize) -> (data: Vec<u8>)
    requires
        ring@.len() >= 65536,
        4 <= len <= 1518,
        len == frame_len(ring@, off as int),
        off + 1518 <= usize::MAX,
    ensures
        data@ == frame(ring@, off as int),
{
    let mut data: Vec<u8> = Vec::new();
    let mut i: usize = 0;
    while i < len - 4
        invariant
            4 <= len <= 1518,
            len == frame_len(ring@, off as int),
            i <= len - 4,
            off + 1518 <= usize::MAX,
            ring@.len() >= 65536,
            data@ == frame(ring@, off as int).take(i as int),
        decreases len - 4 - i,
    {
        data.push(ring[(off + 4 + i) % RX_RING]);
        assert(data@ =~= frame(ring@, off as int).take(i + 1));
        i = i + 1;
    }
    assert(frame(ring@, off as int).take(len - 4) =~= frame(ring@, off as int));
    data
}

impl Rtl8139 {
    /// The ports of the card lie within the port space.
    pub open spec fn wf(self) -> bool {
        self.io + 0x38 <= u16::MAX
    }

    /// A card that was just started.
    pub fn new(io: u16, mac: [u8; 6], tx_phys: [u64; 4]) -> (c: Rtl8139)
        requires
            io + 0x38 <= u16::MAX,
        ensures
            c.wf(),
            c.io == io,
            c.mac == mac,
            c.tx_phys == tx_phys,
            c.tx_slot == 0,
            c.rx_off == 0,
    {
        Rtl8139 { io, mac, tx_phys, tx_slot: 0, rx_off: 0 }
    }

    /// The card after it was given a packet of `len` bytes to send, and what is to be done
    /// for that.
    pub open spec fn sends(self, len: usize) -> (Rtl8139, Option<Sending>) {
        if len > 1792 {
            (self, None)
        } else {
            let slot = self.tx_slot as int % 4;
            let status = (self.io + 0x10 + slot * 4) as u16;
            (
                Rtl8139 {
                    tx_slot: if self.tx_slot == usize::MAX {
                        0
                    } else {
                        (self.tx_slot + 1) as usize
                    },
                    ..self
                },
                Some(
                    Sending {
                        slot: slot as usize,
                        status,
                        addr: PortOp::Long {
                            port: (self.io + 0x20 + slot * 4) as u16,
                            long: (self.tx_phys@[slot] % 0x1_0000_0000) as u32,
                        },
                        start: PortOp::Long { port: status, long: len as u32 },
                    },
                ),
            )
        }
    }

    /// Sends a packet of `len` bytes in the next slot. One that is too long is not
    /// sent.
    pub fn send(&mut self, len: usize) -> (r: Option<Sending>)
        requires
            old(self).wf(),
        ensures
            final(self).wf(),
            *final(self) == old(self).sends(len).0,
            r == old(self).sends(len).1,
            len > 1792 ==> r is None && *final(self) == *old(self),
            len <= 1792 ==> {
                let slot = old(self).tx_slot as int % 4;
                let status = (old(self).io + 0x10 + slot * 4) as u16;
                &&& r == Some(
                    Sending {
                        slot: slot as usize,
                        status,
                        addr: PortOp::Long {
                            port: (old(self).io + 0x20 + slot * 4) as u16,
                            long: (old(self).tx_phys@[slot] % 0x1_0000_0000) as u32,
                        },
                        start: PortOp::Long { port: status, long: len as u32 },
                    },
                )
                &&& *final(self) == (Rtl8139 {
                    tx_slot: if old(self).tx_slot == usize::MAX {
                        0
                    } else {
                        (old(self).tx_slot + 1) as usize
                    },
                    ..*old(self)
                })
            },
    {
        if len > TX_MAX {
            return None;
        }
        let slot: usize = self.tx_slot % TX_SLOTS;
        let status: u16 = self.io + TXSTAT0 + slot as u16 * 4;
        let addr = PortOp::Long {
            port: self.io + TXADDR0 + slot as u16 * 4,
            long: (self.tx_phys[slot] % 0x1_0000_0000) as u32,
        };
        let start = PortOp::Long { port: status, long: len as u32 };
        self.tx_slot = if self.tx_slot == usize::MAX {
            0
        } else {
            self.tx_slot + 1
        };
        Some(Sending { slot, status, addr, start })
    }

    /// Looks at the receive ring, where the card's write pointer is `cbr` and its
    /// read pointer `capr`.
    pub fn recv(&mut self, cbr: u16, capr: u16, ring: &[u8]) -> (r: Receiving)
        requires
            old(self).wf(),
            ring@.len() >= 65536,
            old(self).rx_off + 0x1_0006 <= usize::MAX,
        ensures
            final(self).wf(),
            ({
                let off = old(self).rx_off as int;
                if (capr + 16) % 65536 == cbr {
                    r is Empty && *final(self) == *old(self)
                } else {
                    let next = next_frame(ring@, off);
                    let op = PortOp::Word {
                        port: (old(self).io + 0x38) as u16,
                        word: read_pointer(next),
                    };
                    &&& *final(self) == (Rtl8139 { rx_off: next as usize, ..*old(self) })
                    &&& if is_good(ring@, off) {
                        r matches Receiving::Packet(data, o) && data@ == frame(ring@, off) && o
                            == op
                    } else {
                        r matches Receiving::Bad(o) && o == op
                    }
                }
            }),
            nothing_new(cbr, capr) <==> r is Empty,
    {
        if (capr as usize + 16) % RX_RING == cbr as usize % RX_RING {
            return Receiving::Empty;
        }
        let off: usize = self.rx_off;
        let status: u16 = word_at(ring, off);
        let len: usize = word_at(ring, off + 2) as usize;
        let next: usize = (off + 4 + len + 3) / 4 * 4;
        self.rx_off = next;
        let op = PortOp::Word { port: self.io + CAPR, word: pointer_before(next) };
        if status % 2 == 0 || len < 14 || len > 1518 {
            return Receiving::Bad(op);
        }
        let data: Vec<u8> = copy_frame(ring, off, len);
        Receiving::Packet(data, op)
    }
}

/// Whether a transmit slot is ours, by its status.
pub fn is_ours(status: u32) -> (r: bool)
    ensures
        r == (status & TXSTAT_OWN != 0),
        r == slot_is_ours(status),
{
    status & TXSTAT_OWN != 0
}

/// What powers the card on and resets it.
pub open spec fn reset_program(io: u16) -> Seq<PortOp> {
    seq![
        PortOp::Byte { port: (io + 0x52) as u16, byte: 0 },
        PortOp::Byte { port: (io + 0x37) as u16, byte: 0x10 },
        PortOp::WaitClear { port: (io + 0x37) as u16, mask: 0x10, tries: 100_000 },
    ]
}

/// What powers the card on and resets it.
pub fn reset(io: u16) -> (ops: Vec<PortOp>)
    requires
        io + 0x52 <= u16::MAX,
    ensures
        ops@ == reset_program(io),
        ops@ == seq![
            PortOp::Byte { port: (io + 0x52) as u16, byte: 0 },
            PortOp::Byte { port: (io + 0x37) as u16, byte: 0x10 },
            PortOp::WaitClear { port: (io + 0x37) as u16, mask: 0x10, tries: 100_000 },
        ],
{
    let ops: Vec<PortOp> = vec![
        PortOp::Byte { port: io + CONFIG1, byte: 0 },
        PortOp::Byte { port: io + CMD, byte: CMD_RST },
        PortOp::WaitClear { port: io + CMD, mask: CMD_RST, tries: 100_000 },
    ];
    ops
}

/// What starts the card once it is reset: all transmit slots are ours, the receive
/// ring lies at `rx_phys`, no interrupts, both directions on, every frame accepted,
/// and the read pointer sixteen bytes before the ring.
pub open spec fn start_program(io: u16, rx_phys: u64) -> Seq<PortOp> {
    seq![
        PortOp::Long { port: (io + 0x10) as u16, long: 0x2000 },
        PortOp::Long { port: (io + 0x14) as u16, long: 0x2000 },
        PortOp::Long { port: (io + 0x18) as u16, long: 0x2000 },
        PortOp::Long { port: (io + 0x1C) as u16, long: 0x2000 },
        PortOp::Long { port: (io + 0x30) as u16, long: (rx_phys % 0x1_0000_0000) as u32 },
        PortOp::Word { port: (io + 0x3C) as u16, word: 0 },
        PortOp::Byte { port: (io + 0x37) as u16, byte: 0x0C },
        PortOp::Long { port: (io + 0x44) as u16, long: 0x188F },
        PortOp::Long { port: (io + 0x40) as u16, long: 0x0300_0600 },
        PortOp::Word { port: (io + 0x38) as u16, word: 0xFFF0 },
    ]
}

/// What starts the card once it is reset.
pub fn init(io: u16, rx_phys: u64) -> (ops: Vec<PortOp>)
    requires
        io + 0x44 <= u16::MAX,
    ensures
        ops@ == start_program(io, rx_phys),
{
    let ops: Vec<PortOp> = vec![
        PortOp::Long { port: io + TXSTAT0, long: TXSTAT_OWN },
        PortOp::Long { port: io + TXSTAT0 + 4, long: TXSTAT_OWN },
        PortOp::Long { port: io + TXSTAT0 + 8, long: TXSTAT_OWN },
        PortOp::Long { port: io + TXSTAT0 + 12, long: TXSTAT_OWN },
        PortOp::Long { port: io + RXBUF, long: (rx_phys % 0x1_0000_0000) as u32 },
        PortOp::Word { port: io + IMR, word: 0 },
        PortOp::Byte { port: io + CMD, byte: 0x0C },
        PortOp::Long { port: io + RXCFG, long: 0x188F },
        PortOp::Long { port: io + TXCFG, long: 0x0300_0600 },
        PortOp::Word { port: io + CAPR, word: 0xFFF0 },
    ];
    ops
}

// ── Laws ────────────────────────────────────────────────────────────────────

/// The card wrote a frame at `off`: a good status, the length with the checksum's
/// four bytes, and the data.
pub open spec fn holds_frame(ring: Seq<u8>, off: int, data: Seq<u8>) -> bool {
    &&& at(ring, off) == 1
    &&& at(ring, off + 1) == 0
    &&& at(ring, off + 2) == (data.len() + 4) % 256
    &&& at(ring, off + 3) == (data.len() + 4) / 256
    &&& forall|i: int| 0 <= i < data.len() ==> #[trigger] at(ring, off + 4 + i) == data[i]
}

/// What the card wrote is what is received, also where it goes round the end of the
/// ring.
pub proof fn law_frame_received(ring: Seq<u8>, off: int, data: Seq<u8>)
    requires
        holds_frame(ring, off, data),
        10 <= data.len() <= 1514,
    ensures
        is_good(ring, off),
        frame(ring, off) == data,
        off + 8 + data.len() <= next_frame(ring, off) < off + 12 + data.len(),
{
    assert(frame(ring, off) =~= data);
}

/// After any frame the place in the ring is a multiple of four, and further on: a
/// damaged frame is never looked at twice.
pub proof fn law_reading_goes_on(ring: Seq<u8>, off: int)
    requires
        off >= 0,
    ensures
        next_frame(ring, off) % 4 == 0,
        next_frame(ring, off) > off,
{
}

/// The read pointer is sixteen bytes before the place, round the ring.
pub proof fn law_read_pointer(off: int)
    requires
        off >= 0,
    ensures
        (read_pointer(off) + 16) % 65536 == off % 65536,
{
}

/// The port that an operation acts on.
pub open spec fn port_of(op: PortOp) -> int {
    match op {
        PortOp::Byte { port, byte } => port as int,
        PortOp::Word { port, word } => port as int,
        PortOp::Long { port, long } => port as int,
        PortOp::WaitClear { port, mask, tries } => port as int,
    }
}

/// What an operation writes, if it does.
pub open spec fn written(op: PortOp) -> Option<int> {
    match op {
        PortOp::Byte { port, byte } => Some(byte as int),
        PortOp::Word { port, word } => Some(word as int),
        PortOp::Long { port, long } => Some(long as int),
        PortOp::WaitClear { port, mask, tries } => None,
    }
}

/// What a port holds after the first `n` operations, if it was written: the last value
/// counts.
pub open spec fn port_after(ops: Seq<PortOp>, n: int, port: int) -> Option<int>
    decreases n,
{
    if n <= 0 {
        None
    } else if port_of(ops[n - 1]) == port && written(ops[n - 1]) is Some {
        written(ops[n - 1])
    } else {
        port_after(ops, n - 1, port)
    }
}

/// What a port holds after some operations.
pub open spec fn port_holds(ops: Seq<PortOp>, port: int) -> Option<int> {
    port_after(ops, ops.len() as int, port)
}

/// Once started, the card has its receive ring at `rx_phys`, as far as 32 bits say it, of
/// 64 KB and without a gap at its end; it receives every frame and sends, and raises no
/// interrupts. All four transmit slots are ours, and nothing of the ring is read yet.
pub proof fn law_card_started(io: u16, rx_phys: u64, slot: int)
    requires
        io + 0x44 <= u16::MAX,
        0 <= slot < 4,
    ensures
        ({
            let ops = start_program(io, rx_phys);
            &&& port_holds(ops, io + 0x30) == Some(rx_phys as int % 0x1_0000_0000)
            &&& port_holds(ops, io + 0x37) == Some(0x04int + 0x08)
            &&& port_holds(ops, io + 0x44) == Some(0x0Fint + 0x80 + 3 * 0x800)
            &&& port_holds(ops, io + 0x3C) == Some(0int)
            &&& port_holds(ops, io + 0x40) == Some(0x0300_0600int)
            &&& port_holds(ops, io + 0x10 + 4 * slot) == Some(0x2000int)
            &&& port_holds(ops, io + 0x38) == Some(0x1_0000 - 16)
        }),
{
    reveal_with_fuel(port_after, 11);
    assert(slot == 0 || slot == 1 || slot == 2 || slot == 3);
}

/// Before anything else the card is powered on, reset, and waited for.
pub proof fn law_card_reset(io: u16)
    requires
        io + 0x52 <= u16::MAX,
    ensures
        ({
            let ops = reset_program(io);
            &&& port_holds(ops, io + 0x52) == Some(0int)
            &&& port_holds(ops, io + 0x37) == Some(0x10int)
            &&& ops.last() matches PortOp::WaitClear { port, mask, tries } && port == io + 0x37
                && mask == 0x10 && tries > 0
            &&& port_of(ops[0]) == io + 0x52
        }),
{
    reveal_with_fuel(port_after, 4);
}

/// A packet is sent from the page of its slot: the slot's address port gets the page, and
/// then the slot's status port the length. The slots are used in turn.
pub proof fn law_packet_sent(c: Rtl8139, len: usize, len2: usize)
    requires
        c.wf(),
        len <= 1792,
        len2 <= 1792,
    ensures
        ({
            let (d, r) = c.sends(len);
            let (_, r2) = d.sends(len2);
            let s = r->0;
            &&& r is Some && r2 is Some
            &&& s.slot < 4
            &&& s.status == c.io + 0x10 + 4 * s.slot
            &&& port_of(s.addr) == c.io + 0x20 + 4 * s.slot
            &&& written(s.addr) == Some(c.tx_phys@[s.slot as int] as int % 0x1_0000_0000)
            &&& s.addr is Long && s.start is Long
            &&& port_of(s.start) == s.status
            &&& written(s.start) == Some(len as int)
            &&& r2->0.slot == (s.slot + 1) % 4
            &&& d.io == c.io && d.mac == c.mac && d.tx_phys == c.tx_phys && d.rx_off == c.rx_off
        }),
        c.tx_slot == 0 ==> c.sends(len).1->0.slot == 0,
{
    lemma_next_slot(c.tx_slot);
    lemma_slot_ports(c, len);
    lemma_slot_ports(c.sends(len).0, len2);
}

proof fn lemma_next_slot(t: usize)
    ensures
        (if t == usize::MAX {
            0
        } else {
            t + 1
        }) % 4 == (t as int % 4 + 1) % 4,
{
    assert(usize::MAX == u32::MAX || usize::MAX == u64::MAX) by {
        vstd::layout::unsigned_int_max_values();
    }
}

proof fn lemma_slot_ports(c: Rtl8139, len: usize)
    requires
        c.wf(),
        len <= 1792,
    ensures
        ({
            let s = c.sends(len).1->0;
            &&& c.sends(len).1 is Some
            &&& s.slot == c.tx_slot as int % 4
            &&& s.status == c.io + 0x10 + 4 * s.slot
            &&& s.addr == (PortOp::Long {
                port: (c.io + 0x20 + 4 * s.slot) as u16,
                long: (c.tx_phys@[s.slot as int] % 0x1_0000_0000) as u32,
            })
            &&& s.start == (PortOp::Long { port: s.status, long: len as u32 })
            &&& c.io + 0x20 + 4 * s.slot <= u16::MAX
        }),
{
}

/// A packet that no slot takes is not sent, and the next one goes where it would have gone.
pub proof fn law_long_packet(c: Rtl8139, len: usize)
    requires
        len > 1792,
    ensures
        c.sends(len) == (c, None::<Sending>),
{
}

/// A frame is good exactly when the card says so in the lowest bit and its length is one
/// that a frame can have: at least a header, at most a full frame with its checksum.
pub proof fn law_good_frames(ring: Seq<u8>, off: int)
    ensures
        is_good(ring, off) <==> at(ring, off) % 2 == 1 && 14 <= at(ring, off + 2) + 256 * at(
            ring,
            off + 3,
        ) <= 1518,
        is_good(ring, off) ==> frame(ring, off).len() == at(ring, off + 2) + 256 * at(ring, off + 3)
            - 4,
{
}

/// The card has done with a transmit slot.
pub open spec fn slot_is_ours(status: u32) -> bool {
    status & TXSTAT_OWN != 0
}

/// The card has written nothing behind what was read.
pub open spec fn nothing_new(cbr: u16, capr: u16) -> bool {
    (capr + 16) % 65536 == cbr
}

/// A slot is the host's again when bit 13 of its status is set. There is nothing new just
/// when the card writes where the host has read to: once the host has told the card that it
/// read up to a place, a card that stands at that place has nothing, and any other has.
pub proof fn law_card_looked_at(status: u32, place: int, cbr: u16)
    requires
        0 <= place < 65536,
    ensures
        slot_is_ours(status) <==> (status / 0x2000) % 2 == 1,
        nothing_new(cbr, read_pointer(place)) <==> cbr == place,
{
    crate::bytes::lemma_word_bits(status);
}

} // verus!
