//! Virtio network card, legacy interface: a queue for each direction, of 64
//! descriptors.
use vstd::prelude::*;
use crate::bytes;
use crate::rtl8139::PortOp;
use crate::rtl8139;

verus! {

/// Descriptors in a queue.
pub const Q: usize = 64;

pub const DEV_FEAT: u16 = 0x00;

pub const DRV_FEAT: u16 = 0x04;

pub const Q_PFN: u16 = 0x08;

pub const Q_SIZE: u16 = 0x0C;

pub const Q_SEL: u16 = 0x0E;

pub const Q_NOTIFY: u16 = 0x10;

pub const DEV_STAT: u16 = 0x12;

pub const NET_MAC: u16 = 0x14;

/// The card writes the buffer.
pub const DESC_WRITE: u16 = 2;

/// A buffer of the queue.
#[derive(Clone, Copy, PartialEq, Eq, Structural, Debug)]
pub struct Desc {
    pub addr: u64,
    pub len: u32,
    pub flags: u16,
    pub next: u16,
}

impl Desc {
    /// The sixteen bytes of the descriptor.
    pub open spec fn image(self) -> Seq<u8> {
        bytes::le(self.addr as nat, 8) + bytes::le(self.len as nat, 4) + bytes::le(
            self.flags as nat,
            2,
        ) + bytes::le(self.next as nat, 2)
    }

    /// The sixteen bytes of the descriptor.
    pub fn to_bytes(&self) -> (v: Vec<u8>)
        ensures
            v@ == self.image(),
    {
        let mut v: Vec<u8> = Vec::new();
        bytes::push_le(&mut v, self.addr, 8);
        bytes::push_le(&mut v, self.len as u64, 4);
        bytes::push_le(&mut v, self.flags as u64, 2);
        bytes::push_le(&mut v, self.next as u64, 2);
        assert(v@ =~= self.image());
        v
    }
}

/// The header before each frame; all zeros for plain frames.
#[derive(Clone, Copy, PartialEq, Eq, Structural, Debug)]
pub struct NetHdr {
    pub flags: u8,
    pub gso_type: u8,
    pub hdr_len: u16,
    pub gso_size: u16,
    pub csum_start: u16,
    pub csum_offset: u16,
}

/// Bytes of the header.
pub const HDR_LEN: usize = 10;

impl NetHdr {
    /// The ten bytes of the header.
    pub open spec fn image(self) -> Seq<u8> {
        seq![self.flags, self.gso_type] + bytes::le(self.hdr_len as nat, 2) + bytes::le(
            self.gso_size as nat,
            2,
        ) + bytes::le(self.csum_start as nat, 2) + bytes::le(self.csum_offset as nat, 2)
    }

    /// The header of a plain frame.
    pub fn plain() -> (h: NetHdr)
        ensures
            h == (NetHdr {
                flags: 0,
                gso_type: 0,
                hdr_len: 0,
                gso_size: 0,
                csum_start: 0,
                csum_offset: 0,
            }),
    {
        NetHdr {
            flags: 0,
            gso_type: 0,
            hdr_len: 0,
            gso_size: 0,
            csum_start: 0,
            csum_offset: 0,
        }
    }

    /// The ten bytes of the header.
    pub fn to_bytes(&self) -> (v: Vec<u8>)
        ensures
            v@ == self.image(),
    {
        let mut v: Vec<u8> = Vec::new();
        v.push(self.flags);
        v.push(self.gso_type);
        bytes::push_le(&mut v, self.hdr_len as u64, 2);
        bytes::push_le(&mut v, self.gso_size as u64, 2);
        bytes::push_le(&mut v, self.csum_start as u64, 2);
        bytes::push_le(&mut v, self.csum_offset as u64, 2);
        assert(v@ =~= self.image());
        v
    }
}

/// A write to a queue's memory.
#[derive(Clone, Copy, PartialEq, Eq, Structural, Debug)]
pub enum QueueWrite {
    /// A descriptor.
    Desc { slot: usize, desc: Desc },
    /// An entry of the ring of available descriptors.
    Avail { place: usize, id: u16 },
    /// How many entries there are; the card sees them from then on.
    AvailCount(u16),
}

/// A queue: the next free descriptor, how many were made available, how many used
/// ones were seen, and the pages of the descriptors.
pub struct VQ {
    pub free_head: usize,
    pub avail_idx: u16,
    pub last_used: u16,
    pub bufs: [u64; 64],
}

/// One after another number, going round.
pub open spec fn wrapped_next(v: u16) -> u16 {
    if v == u16::MAX {
        0
    } else {
        (v + 1) as u16
    }
}

fn next16(v: u16) -> (r: u16)
    ensures
        r == wrapped_next(v),
{
    if v == u16::MAX {
        0
    } else {
        v + 1
    }
}

/// The writes that hand a descriptor to the card.
pub open spec fn handed_over(slot: int, desc: Desc, count: u16) -> Seq<QueueWrite> {
    seq![
        QueueWrite::Desc { slot: slot as usize, desc },
        QueueWrite::Avail { place: (count % 64) as usize, id: slot as u16 },
        QueueWrite::AvailCount(wrapped_next(count)),
    ]
}

/// A buffer that the card fills.
pub open spec fn receive_buffer(addr: u64) -> Desc {
    Desc { addr, len: 4096, flags: DESC_WRITE, next: 0 }
}

/// The writes that hand the first `n` receive buffers to the card.
pub open spec fn prefill(bufs: Seq<u64>, n: int) -> Seq<QueueWrite>
    decreases n,
{
    if n <= 0 {
        Seq::empty()
    } else {
        prefill(bufs, n - 1) + seq![
            QueueWrite::Desc { slot: (n - 1) as usize, desc: receive_buffer(bufs[n - 1]) },
            QueueWrite::Avail { place: (n - 1) as usize, id: (n - 1) as u16 },
        ]
    }
}

impl VQ {
    /// An empty queue.
    pub fn new() -> (q: VQ)
        ensures
            q.free_head == 0,
            q.avail_idx == 0,
            q.last_used == 0,
            q.bufs@ == Seq::new(64, |i: int| 0u64),
    {
        let q = VQ { free_head: 0, avail_idx: 0, last_used: 0, bufs: [0u64; 64] };
        assert(q.bufs@ =~= Seq::new(64, |i: int| 0u64));
        q
    }

    /// Fills an empty queue with receive buffers, one for each page.
    pub fn prefill_rx(&mut self, pages: &Vec<u64>) -> (w: Vec<QueueWrite>)
        requires
            pages@.len() <= 64,
        ensures
            w@ == prefill(pages@, pages@.len() as int) + seq![
                QueueWrite::AvailCount(pages@.len() as u16),
            ],
            final(self).free_head == pages@.len(),
            final(self).avail_idx == pages@.len(),
            final(self).last_used == old(self).last_used,
            forall|i: int| 0 <= i < pages@.len() ==> final(self).bufs@[i] == pages@[i],
            forall|i: int| pages@.len() <= i < 64 ==> final(self).bufs@[i] == old(self).bufs@[i],
    {
        let mut w: Vec<QueueWrite> = Vec::new();
        let n: usize = pages.len();
        let mut i: usize = 0;
        while i < n
            invariant
                i <= n <= 64,
                n == pages@.len(),
                w@ == prefill(pages@, i as int),
                self.last_used == old(self).last_used,
                forall|j: int| 0 <= j < i ==> self.bufs@[j] == pages@[j],
                forall|j: int| i <= j < 64 ==> self.bufs@[j] == old(self).bufs@[j],
            decreases n - i,
        {
            self.bufs[i] = pages[i];
            w.push(
                QueueWrite::Desc {
                    slot: i,
                    desc: Desc { addr: pages[i], len: 4096, flags: DESC_WRITE, next: 0 },
                },
            );
            w.push(QueueWrite::Avail { place: i, id: i as u16 });
            assert(w@ =~= prefill(pages@, i + 1));
            i = i + 1;
        }
        w.push(QueueWrite::AvailCount(n as u16));
        self.avail_idx = n as u16;
        self.free_head = n;
        w
    }

    /// Hands a buffer of `len` bytes to the card, to be sent.
    pub fn add_tx(&mut self, phys: u64, len: u32) -> (w: Vec<QueueWrite>)
        ensures
            w@ == handed_over(
                old(self).free_head as int % 64,
                Desc { addr: phys, len, flags: 0, next: 0 },
                old(self).avail_idx,
            ),
            *final(self) == (VQ {
                free_head: if old(self).free_head == usize::MAX {
                    0
                } else {
                    (old(self).free_head + 1) as usize
                },
                avail_idx: wrapped_next(old(self).avail_idx),
                ..*old(self)
            }),
    {
        let slot: usize = self.free_head % Q;
        let place: usize = self.avail_idx as usize % Q;
        let count: u16 = next16(self.avail_idx);
        let w: Vec<QueueWrite> = vec![
            QueueWrite::Desc { slot, desc: Desc { addr: phys, len, flags: 0, next: 0 } },
            QueueWrite::Avail { place, id: slot as u16 },
            QueueWrite::AvailCount(count),
        ];
        self.free_head = if self.free_head == usize::MAX {
            0
        } else {
            self.free_head + 1
        };
        self.avail_idx = count;
        w
    }

    /// The place in the used ring that is looked at next.
    pub fn used_place(&self) -> (r: usize)
        ensures
            r == self.last_used % 64,
            r == place_of(self.last_used),
    {
        self.last_used as usize % Q
    }

    /// Takes the next used buffer, where the card has used `host_idx` of them and
    /// the entry at the next place names a descriptor and a length.
    pub fn pop_used(&mut self, host_idx: u16, id: u32, len: u32) -> (r: Option<(u32, u32)>)
        ensures
            host_idx == old(self).last_used ==> r is None && *final(self) == *old(self),
            host_idx != old(self).last_used ==> r == Some((id, len)) && *final(self) == (VQ {
                last_used: wrapped_next(old(self).last_used),
                ..*old(self)
            }),
    {
        if host_idx == self.last_used {
            return None;
        }
        self.last_used = next16(self.last_used);
        Some((id, len))
    }

    /// Hands a receive buffer back to the card.
    pub fn recycle_rx(&mut self, slot: usize) -> (w: Vec<QueueWrite>)
        requires
            slot < Q,
        ensures
            w@ == handed_over(
                slot as int,
                receive_buffer(old(self).bufs@[slot as int]),
                old(self).avail_idx,
            ),
            *final(self) == (VQ { avail_idx: wrapped_next(old(self).avail_idx), ..*old(self) }),
    {
        let place: usize = self.avail_idx as usize % Q;
        let count: u16 = next16(self.avail_idx);
        let w: Vec<QueueWrite> = vec![
            QueueWrite::Desc {
                slot,
                desc: Desc { addr: self.bufs[slot], len: 4096, flags: DESC_WRITE, next: 0 },
            },
            QueueWrite::Avail { place, id: slot as u16 },
            QueueWrite::AvailCount(count),
        ];
        self.avail_idx = count;
        w
    }
}

/// The card: its ports, its address and its two queues.
pub struct VirtioNet {
    pub io: u16,
    pub mac: [u8; 6],
    pub rx: VQ,
    pub tx: VQ,
}

/// A packet to be sent: the page's contents, the writes to the transmit queue, and
/// the port that tells the card.
pub struct Sending {
    pub page: Vec<u8>,
    pub writes: Vec<QueueWrite>,
    pub notify: PortOp,
}

/// A frame that came in: where it lies, the writes that hand its buffer back, and
/// the port that tells the card.
pub struct Receiving {
    /// The frame's page and length, behind the header; `None` for an empty one.
    pub frame: Option<(u64, usize)>,
    pub writes: Vec<QueueWrite>,
    pub notify: PortOp,
}

impl VirtioNet {
    /// The ports of the card lie within the port space.
    pub open spec fn wf(self) -> bool {
        self.io + 0x10 <= u16::MAX
    }

    /// A card with empty queues.
    pub fn new(io: u16, mac: [u8; 6]) -> (c: VirtioNet)
        requires
            io + 0x10 <= u16::MAX,
        ensures
            c.wf(),
            c.io == io,
            c.mac == mac,
            c.rx.free_head == 0 && c.rx.avail_idx == 0 && c.rx.last_used == 0,
            c.rx.bufs@ == Seq::new(64, |i: int| 0u64),
            c.tx.free_head == 0 && c.tx.avail_idx == 0 && c.tx.last_used == 0,
            c.tx.bufs@ == Seq::new(64, |i: int| 0u64),
    {
        VirtioNet { io, mac, rx: VQ::new(), tx: VQ::new() }
    }

    /// What the page of a frame to be sent holds: ten zeros as its header, and the frame.
    pub open spec fn sent_page(data: Seq<u8>) -> Seq<u8> {
        Seq::new(10, |i: int| 0u8) + data
    }

    /// The writes that hand a frame of `n` bytes in a page at `phys` to the card.
    pub open spec fn sent_writes(self, phys: u64, n: int) -> Seq<QueueWrite> {
        handed_over(
            self.tx.free_head as int % 64,
            Desc { addr: phys, len: (n + 10) as u32, flags: 0, next: 0 },
            self.tx.avail_idx,
        )
    }

    /// What tells the card that a queue has changed.
    pub open spec fn notice(self, queue: u16) -> PortOp {
        PortOp::Word { port: (self.io + 0x10) as u16, word: queue }
    }

    /// Where the frame lies that the card put into the buffer `id`, of `len` bytes with its
    /// header, and how long it is.
    pub open spec fn frame_in(self, id: u32, len: u32) -> Option<(u64, usize)> {
        if len <= 10 {
            None
        } else {
            Some((self.rx.bufs@[id as int], (len - 10) as usize))
        }
    }

    /// The writes that hand the buffer `id` back to the card.
    pub open spec fn returned(self, id: u32) -> Seq<QueueWrite> {
        handed_over(id as int, receive_buffer(self.rx.bufs@[id as int]), self.rx.avail_idx)
    }

    /// Sends a frame, behind a plain header, from a page at `phys`.
    pub fn send(&mut self, phys: u64, data: &[u8]) -> (s: Sending)
        requires
            old(self).wf(),
            data@.len() + 10 <= 4096,
        ensures
            final(self).wf(),
            s.page@ == Self::sent_page(data@),
            s.writes@ == old(self).sent_writes(phys, data@.len() as int),
            s.notify == old(self).notice(1),
            s.page@ == Seq::new(10, |i: int| 0u8) + data@,
            s.writes@ == handed_over(
                old(self).tx.free_head as int % 64,
                Desc { addr: phys, len: (data@.len() + 10) as u32, flags: 0, next: 0 },
                old(self).tx.avail_idx,
            ),
            s.notify == (PortOp::Word { port: (old(self).io + 0x10) as u16, word: 1 }),
            *final(self) == (VirtioNet {
                tx: VQ {
                    free_head: if old(self).tx.free_head == usize::MAX {
                        0
                    } else {
                        (old(self).tx.free_head + 1) as usize
                    },
                    avail_idx: wrapped_next(old(self).tx.avail_idx),
                    ..old(self).tx
                },
                ..*old(self)
            }),
    {
        let mut page: Vec<u8> = NetHdr::plain().to_bytes();
        proof {
            lemma_plain_header();
        }
        let mut i: usize = 0;
        while i < data.len()
            invariant
                i <= data@.len(),
                page@ == Seq::new(10, |i: int| 0u8) + data@.take(i as int),
            decreases data@.len() - i,
        {
            page.push(data[i]);
            assert(page@ =~= Seq::new(10, |i: int| 0u8) + data@.take(i + 1));
            i = i + 1;
        }
        assert(data@.take(data@.len() as int) =~= data@);
        let writes: Vec<QueueWrite> = self.tx.add_tx(phys, (HDR_LEN + data.len()) as u32);
        Sending { page, writes, notify: PortOp::Word { port: self.io + Q_NOTIFY, word: 1 } }
    }

    /// Takes the next frame, where the card has filled `host_idx` buffers and the
    /// entry at the next place names a descriptor and a length.
    pub fn recv(&mut self, host_idx: u16, id: u32, len: u32) -> (r: Option<Receiving>)
        requires
            old(self).wf(),
            host_idx != old(self).rx.last_used ==> id < 64 && len <= 4096,
        ensures
            final(self).wf(),
            host_idx == old(self).rx.last_used ==> r is None && *final(self) == *old(self),
            host_idx != old(self).rx.last_used ==> {
                &&& r matches Some(x) && {
                    &&& x.frame == old(self).frame_in(id, len)
                    &&& x.writes@ == old(self).returned(id)
                    &&& x.notify == old(self).notice(0)
                    &&& x.frame == if len <= 10 {
                        None::<(u64, usize)>
                    } else {
                        Some((old(self).rx.bufs@[id as int], (len - 10) as usize))
                    }
                    &&& x.writes@ == handed_over(
                        id as int,
                        receive_buffer(old(self).rx.bufs@[id as int]),
                        old(self).rx.avail_idx,
                    )
                    &&& x.notify == (PortOp::Word { port: (old(self).io + 0x10) as u16, word: 0 })
                }
                &&& *final(self) == (VirtioNet {
                    rx: VQ {
                        last_used: wrapped_next(old(self).rx.last_used),
                        avail_idx: wrapped_next(old(self).rx.avail_idx),
                        ..old(self).rx
                    },
                    ..*old(self)
                })
            },
    {
        match self.rx.pop_used(host_idx, id, len) {
            None => None,
            Some((id, len)) => {
                let slot: usize = id as usize;
                let frame: Option<(u64, usize)> = if len as usize <= HDR_LEN {
                    None
                } else {
                    Some((self.rx.bufs[slot], len as usize - HDR_LEN))
                };
                let writes: Vec<QueueWrite> = self.rx.recycle_rx(slot);
                Some(
                    Receiving {
                        frame,
                        writes,
                        notify: PortOp::Word { port: self.io + Q_NOTIFY, word: 0 },
                    },
                )
            },
        }
    }
}

/// A plain header is ten zeros.
proof fn lemma_plain_header()
    ensures
        (NetHdr {
            flags: 0,
            gso_type: 0,
            hdr_len: 0,
            gso_size: 0,
            csum_start: 0,
            csum_offset: 0,
        }).image() == Seq::new(10, |i: int| 0u8),
        Seq::new(10, |i: int| 0u8) + Seq::<u8>::empty() == Seq::new(10, |i: int| 0u8),
{
    reveal_with_fuel(bytes::le, 3);
    let h = NetHdr {
        flags: 0,
        gso_type: 0,
        hdr_len: 0,
        gso_size: 0,
        csum_start: 0,
        csum_offset: 0,
    };
    assert(h.image() =~= Seq::new(10, |i: int| 0u8));
    assert(Seq::new(10, |i: int| 0u8) + Seq::<u8>::empty() =~= Seq::new(10, |i: int| 0u8));
}

/// The pages of a queue: descriptors and the available ring in the first, the used
/// ring in the second.
#[derive(Clone, Copy, PartialEq, Eq, Structural, Debug)]
pub struct QueueLayout {
    pub desc: u64,
    pub avail: u64,
    pub used: u64,
    /// The page number that the card is told.
    pub pfn: u32,
}

/// Where the parts of a queue lie in two pages at `base`.
pub open spec fn laid_out(base: u64) -> QueueLayout {
    QueueLayout {
        desc: base,
        avail: (base + 1024) as u64,
        used: (base + 4096) as u64,
        pfn: (base / 4096) as u32,
    }
}

/// Where the parts of a queue lie in two pages at `base`.
pub fn layout(base: u64) -> (l: QueueLayout)
    requires
        base + 4096 <= u64::MAX,
    ensures
        l == laid_out(base),
        l == (QueueLayout {
            desc: base,
            avail: (base + 1024) as u64,
            used: (base + 4096) as u64,
            pfn: (base / 4096) as u32,
        }),
{
    QueueLayout { desc: base, avail: base + 1024, used: base + 4096, pfn: (base / 4096) as u32 }
}

/// What brings the card up to the point where its features are read.
pub open spec fn begin_program(io: u16) -> Seq<PortOp> {
    seq![
        PortOp::Byte { port: (io + 0x12) as u16, byte: 0 },
        PortOp::Byte { port: (io + 0x12) as u16, byte: 1 },
        PortOp::Byte { port: (io + 0x12) as u16, byte: 3 },
    ]
}

/// What accepts the card's features and selects its first queue.
pub open spec fn accept_program(io: u16, features: u32) -> Seq<PortOp> {
    seq![
        PortOp::Long { port: (io + 0x04) as u16, long: features },
        PortOp::Word { port: (io + 0x0E) as u16, word: 0 },
    ]
}

/// What tells the card where its queues are and lets it run.
pub open spec fn init_program(io: u16, rx_pfn: u32, tx_pfn: u32) -> Seq<PortOp> {
    seq![
        PortOp::Word { port: (io + 0x0E) as u16, word: 0 },
        PortOp::Long { port: (io + 0x08) as u16, long: rx_pfn },
        PortOp::Word { port: (io + 0x0E) as u16, word: 1 },
        PortOp::Long { port: (io + 0x08) as u16, long: tx_pfn },
        PortOp::Byte { port: (io + 0x12) as u16, byte: 7 },
    ]
}

/// What brings the card up to the point where its features are read: reset,
/// acknowledged, driver present.
pub fn begin(io: u16) -> (ops: Vec<PortOp>)
    requires
        io + 0x12 <= u16::MAX,
    ensures
        ops@ == begin_program(io),
        ops@ == seq![
            PortOp::Byte { port: (io + 0x12) as u16, byte: 0 },
            PortOp::Byte { port: (io + 0x12) as u16, byte: 1 },
            PortOp::Byte { port: (io + 0x12) as u16, byte: 3 },
        ],
{
    let ops: Vec<PortOp> = vec![
        PortOp::Byte { port: io + DEV_STAT, byte: 0 },
        PortOp::Byte { port: io + DEV_STAT, byte: 1 },
        PortOp::Byte { port: io + DEV_STAT, byte: 3 },
    ];
    ops
}

/// What accepts the card's features and selects its first queue, so that its size
/// can be read.
pub fn accept(io: u16, features: u32) -> (ops: Vec<PortOp>)
    requires
        io + 0x0E <= u16::MAX,
    ensures
        ops@ == accept_program(io, features),
        ops@ == seq![
            PortOp::Long { port: (io + 0x04) as u16, long: features },
            PortOp::Word { port: (io + 0x0E) as u16, word: 0 },
        ],
{
    let ops: Vec<PortOp> = vec![
        PortOp::Long { port: io + DRV_FEAT, long: features },
        PortOp::Word { port: io + Q_SEL, word: 0 },
    ];
    ops
}

/// How many receive buffers a queue of the given size takes.
pub fn buffers(queue_size: u16) -> (n: usize)
    ensures
        n == if queue_size < 64 {
            queue_size as int
        } else {
            64
        },
        n == buffer_count(queue_size),
{
    if (queue_size as usize) < Q {
        queue_size as usize
    } else {
        Q
    }
}

/// What tells the card where its queues are, by their page numbers, and lets it
/// run.
pub fn init(io: u16, rx_pfn: u32, tx_pfn: u32) -> (ops: Vec<PortOp>)
    requires
        io + 0x12 <= u16::MAX,
    ensures
        ops@ == init_program(io, rx_pfn, tx_pfn),
        ops@ == seq![
            PortOp::Word { port: (io + 0x0E) as u16, word: 0 },
            PortOp::Long { port: (io + 0x08) as u16, long: rx_pfn },
            PortOp::Word { port: (io + 0x0E) as u16, word: 1 },
            PortOp::Long { port: (io + 0x08) as u16, long: tx_pfn },
            PortOp::Byte { port: (io + 0x12) as u16, byte: 7 },
        ],
{
    let ops: Vec<PortOp> = vec![
        PortOp::Word { port: io + Q_SEL, word: 0 },
        PortOp::Long { port: io + Q_PFN, long: rx_pfn },
        PortOp::Word { port: io + Q_SEL, word: 1 },
        PortOp::Long { port: io + Q_PFN, long: tx_pfn },
        PortOp::Byte { port: io + DEV_STAT, byte: 7 },
    ];
    ops
}

// ── Laws ────────────────────────────────────────────────────────────────────

/// The parts of a queue fit their pages: the descriptors and the available ring end
/// before the first page does, the used ring before the second.
pub proof fn law_queue_fits(base: int)
    ensures
        base + Q * 16 == base + 1024,
        base + 1024 + 4 + Q * 2 <= base + 4096,
        base + 4096 + 4 + Q * 8 <= base + 8192,
{
}

/// The used ring is read in turn: with each buffer that is taken one less is left,
/// and the next place of the ring is looked at.
pub proof fn law_used_in_turn(last: u16, host: u16)
    requires
        last != host,
    ensures
        (host + 0x1_0000 - wrapped_next(last)) % 0x1_0000 == (host + 0x1_0000 - last) % 0x1_0000
            - 1,
        wrapped_next(last) % 64 == (last % 64 + 1) % 64,
{
}

/// The descriptors lie in memory as the card expects them.
pub proof fn law_desc_layout(d: Desc)
    ensures
        d.image().len() == 16,
        d.image().take(8) == bytes::le(d.addr as nat, 8),
        d.image().subrange(8, 12) == bytes::le(d.len as nat, 4),
{
    bytes::law_le_value(d.addr as nat, 8);
    bytes::law_le_value(d.len as nat, 4);
    bytes::law_le_value(d.flags as nat, 2);
    bytes::law_le_value(d.next as nat, 2);
    assert(d.image().take(8) =~= bytes::le(d.addr as nat, 8));
    assert(d.image().subrange(8, 12) =~= bytes::le(d.len as nat, 4));
}

/// What the card was told: its status, the features it may use, the queue that is
/// selected, and the page of each of its two queues.
pub struct Told {
    pub status: int,
    pub features: int,
    pub selected: int,
    pub rx_page: int,
    pub tx_page: int,
}

impl Told {
    /// The card after an operation on its ports, the first of which is `io`.
    pub open spec fn op(self, io: int, op: PortOp) -> Told {
        let at = rtl8139::port_of(op) - io;
        match rtl8139::written(op) {
            None => self,
            Some(v) => if at == 0x12 {
                Told { status: v, ..self }
            } else if at == 0x04 {
                Told { features: v, ..self }
            } else if at == 0x0E {
                Told { selected: v, ..self }
            } else if at == 0x08 && self.selected == 0 {
                Told { rx_page: v, ..self }
            } else if at == 0x08 && self.selected == 1 {
                Told { tx_page: v, ..self }
            } else {
                self
            },
        }
    }

    /// The card after the first `n` operations.
    pub open spec fn ops(self, io: int, ops: Seq<PortOp>, n: int) -> Told
        decreases n,
    {
        if n <= 0 {
            self
        } else {
            self.ops(io, ops, n - 1).op(io, ops[n - 1])
        }
    }
}

/// The card is reset, then told that a driver sees it and knows it; it gets back the very
/// features that it offers; the receive queue is its first and the transmit queue its
/// second, each at its own page; and only then it is let run.
pub proof fn law_card_started(t: Told, io: u16, features: u32, rx_pfn: u32, tx_pfn: u32)
    requires
        io + 0x12 <= u16::MAX,
    ensures
        ({
            let a = t.ops(io as int, begin_program(io), 3);
            let b = a.ops(io as int, accept_program(io, features), 2);
            let c = b.ops(io as int, init_program(io, rx_pfn, tx_pfn), 5);
            let d = b.ops(io as int, init_program(io, rx_pfn, tx_pfn), 4);
            &&& t.ops(io as int, begin_program(io), 1).status == 0
            &&& t.ops(io as int, begin_program(io), 2).status == 1
            &&& a.status == 1 + 2
            &&& b.features == features
            &&& b.selected == 0
            &&& d.rx_page == rx_pfn && d.tx_page == tx_pfn && d.status == 1 + 2
            &&& c.rx_page == rx_pfn && c.tx_page == tx_pfn && c.status == 1 + 2 + 4
            &&& c.features == features
        }),
        begin_program(io).len() == 3,
        accept_program(io, features).len() == 2,
        init_program(io, rx_pfn, tx_pfn).len() == 5,
{
    reveal_with_fuel(Told::ops, 6);
}

/// The page that the card is told is the one at which the queue lies, and the parts lie in
/// it as the card expects them: the available ring behind 64 descriptors of sixteen bytes,
/// the used ring in the next page.
pub proof fn law_layout(base: u64)
    requires
        base % 4096 == 0,
        base < 0x1000_0000_0000,
    ensures
        ({
            let l = laid_out(base);
            &&& l.pfn * 4096 == base
            &&& l.desc == base
            &&& l.avail == base + 64 * 16
            &&& l.used == base + 4096
        }),
{
}

/// A queue's memory as the card sees it: the descriptors, the ring of available ones, and
/// how many were ever made available.
pub struct Shared {
    pub descs: Map<int, Desc>,
    pub avail: Map<int, int>,
    pub count: int,
}

impl Shared {
    pub open spec fn write(self, w: QueueWrite) -> Shared {
        match w {
            QueueWrite::Desc { slot, desc } => Shared {
                descs: self.descs.insert(slot as int, desc),
                ..self
            },
            QueueWrite::Avail { place, id } => Shared {
                avail: self.avail.insert(place as int, id as int),
                ..self
            },
            QueueWrite::AvailCount(n) => Shared { count: n as int, ..self },
        }
    }

    /// The memory after the first `n` writes.
    pub open spec fn writes(self, ws: Seq<QueueWrite>, n: int) -> Shared
        decreases n,
    {
        if n <= 0 {
            self
        } else {
            self.writes(ws, n - 1).write(ws[n - 1])
        }
    }

    /// The descriptor that the card takes when it has taken `k` before.
    pub open spec fn taken(self, k: int) -> Desc {
        self.descs[self.avail[k % 64]]
    }
}

/// A descriptor handed over is the next one that the card takes: the card sees it only
/// when it and its entry in the ring are in place.
pub proof fn law_handed_over(m: Shared, slot: int, desc: Desc, count: u16)
    requires
        0 <= slot < 64,
        m.count == count,
    ensures
        ({
            let ws = handed_over(slot, desc, count);
            let e = m.writes(ws, 3);
            &&& ws.len() == 3
            &&& m.writes(ws, 2).count == m.count
            &&& m.writes(ws, 2).taken(count as int) == desc
            &&& e.count == (m.count + 1) % 0x1_0000
            &&& e.taken(count as int) == desc
            &&& forall|k: int|
                (k - count) % 64 != 0 ==> #[trigger] e.avail[k % 64] == m.avail[k % 64]
        }),
{
    reveal_with_fuel(Shared::writes, 4);
}

/// The receive queue is filled with all pages, each as a buffer of 4096 bytes that the
/// card may write: the card takes them in order.
pub proof fn law_prefilled(m: Shared, pages: Seq<u64>, n: int, k: int)
    requires
        0 <= k < n <= pages.len(),
        n <= 64,
    ensures
        ({
            let e = m.writes(prefill(pages, n), 2 * n);
            &&& prefill(pages, n).len() == 2 * n
            &&& e.taken(k).addr == pages[k]
            &&& e.taken(k).len == 4096
            &&& e.taken(k).flags == 2
            &&& e.avail[k] == k
            &&& e.count == m.count
        }),
{
    lemma_prefilled(m, pages, n);
}

/// The first `n` pages can be taken by the card, in their order.
spec fn filled(e: Shared, pages: Seq<u64>, n: int) -> bool {
    forall|k: int|
        0 <= k < n ==> #[trigger] e.avail[k] == k && e.descs[k] == (Desc {
            addr: pages[k],
            len: 4096,
            flags: 2,
            next: 0,
        })
}

proof fn lemma_prefilled(m: Shared, pages: Seq<u64>, n: int)
    requires
        0 <= n <= pages.len(),
        n <= 64,
    ensures
        prefill(pages, n).len() == 2 * n,
        m.writes(prefill(pages, n), 2 * n).count == m.count,
        filled(m.writes(prefill(pages, n), 2 * n), pages, n),
    decreases n,
{
    if n > 0 {
        lemma_prefilled(m, pages, n - 1);
        let a = prefill(pages, n - 1);
        let b = prefill(pages, n);
        lemma_same_writes(m, a, b, 2 * n - 2);
        let d = m.writes(a, 2 * (n - 1));
        let e = m.writes(b, 2 * n);
        let w1 = QueueWrite::Desc { slot: (n - 1) as usize, desc: receive_buffer(pages[n - 1]) };
        let w2 = QueueWrite::Avail { place: (n - 1) as usize, id: (n - 1) as u16 };
        assert(b[2 * n - 2] == w1);
        assert(b[2 * n - 1] == w2);
        assert(m.writes(b, 2 * n - 1) == d.write(w1));
        assert(e == d.write(w1).write(w2));
        assert forall|k: int| 0 <= k < n implies #[trigger] e.avail[k] == k && e.descs[k] == (Desc {
            addr: pages[k],
            len: 4096,
            flags: 2,
            next: 0,
        }) by {
            if k < n - 1 {
                assert(d.avail[k] == k);
            }
        }
        assert(filled(e, pages, n));
    } else {
        assert(filled(m.writes(prefill(pages, n), 2 * n), pages, n));
    }
}

proof fn lemma_same_writes(m: Shared, a: Seq<QueueWrite>, b: Seq<QueueWrite>, n: int)
    requires
        0 <= n <= a.len(),
        n <= b.len(),
        forall|i: int| 0 <= i < n ==> a[i] == #[trigger] b[i],
    ensures
        m.writes(a, n) == m.writes(b, n),
    decreases n,
{
    if n > 0 {
        lemma_same_writes(m, a, b, n - 1);
        assert(a[n - 1] == b[n - 1]);
    }
}

/// A frame that is sent is the next thing that the card takes from its transmit queue: a
/// page that the card may only read, of ten zeros and the frame.
pub proof fn law_frame_sent(c: VirtioNet, m: Shared, phys: u64, data: Seq<u8>)
    requires
        c.wf(),
        m.count == c.tx.avail_idx,
        data.len() + 10 <= 4096,
    ensures
        ({
            let e = m.writes(c.sent_writes(phys, data.len() as int), 3);
            let d = e.taken(c.tx.avail_idx as int);
            let p = VirtioNet::sent_page(data);
            &&& e.count == (m.count + 1) % 0x1_0000
            &&& d.addr == phys
            &&& d.len == p.len()
            &&& d.flags == 0
            &&& p.skip(10) == data
            &&& forall|i: int| 0 <= i < 10 ==> #[trigger] p[i] == 0
        }),
{
    law_handed_over(
        m,
        c.tx.free_head as int % 64,
        Desc { addr: phys, len: (data.len() + 10) as u32, flags: 0, next: 0 },
        c.tx.avail_idx,
    );
    assert(VirtioNet::sent_page(data).skip(10) =~= data);
}

/// A frame that came in lies in the page of the buffer that the card names, behind ten
/// bytes of header; the buffer then goes back to the card as it was.
pub proof fn law_frame_taken(c: VirtioNet, m: Shared, id: u32, len: u32)
    requires
        c.wf(),
        m.count == c.rx.avail_idx,
        id < 64,
        len <= 4096,
    ensures
        len > 10 ==> (c.frame_in(id, len) matches Some((buf, n)) && buf == c.rx.bufs@[id as int] && n
            + 10 == len),
        len <= 10 ==> c.frame_in(id, len) is None,
        ({
            let e = m.writes(c.returned(id), 3);
            let d = e.taken(c.rx.avail_idx as int);
            &&& e.count == (m.count + 1) % 0x1_0000
            &&& d.addr == c.rx.bufs@[id as int]
            &&& d.len == 4096
            &&& d.flags == 2
        }),
{
    law_handed_over(
        m,
        id as int,
        receive_buffer(c.rx.bufs@[id as int]),
        c.rx.avail_idx,
    );
}

/// The card is told of a queue by its number at the port for that.
pub proof fn law_notice(c: VirtioNet, queue: u16)
    requires
        c.wf(),
    ensures
        rtl8139::port_of(c.notice(queue)) == c.io + 0x10,
        rtl8139::written(c.notice(queue)) == Some(queue as int),
{
}

/// The place in the used ring that is looked at next.
pub open spec fn place_of(last_used: u16) -> int {
    last_used as int % 64
}

/// How many buffers are laid out for a queue of a size.
pub open spec fn buffer_count(queue_size: u16) -> int {
    if queue_size < 64 {
        queue_size as int
    } else {
        64
    }
}

/// The places of the used ring are looked at one after the other, and after the last the
/// first again, also where the count itself starts again. There are as many buffers as the
/// queue takes, and no more than there are descriptors.
pub proof fn law_places_in_turn(last_used: u16, queue_size: u16)
    ensures
        0 <= place_of(last_used) < 64,
        place_of(wrapped_next(last_used)) == (place_of(last_used) + 1) % 64,
        place_of(0) == 0,
        buffer_count(queue_size) <= queue_size && buffer_count(queue_size) <= 64,
        buffer_count(queue_size) == queue_size || buffer_count(queue_size) == 64,
{
}

} // verus!
