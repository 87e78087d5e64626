use hepos::e1000::{self, E1000};
use hepos::nic;
use hepos::rtl8139::{self, PortOp, Rtl8139};
use hepos::virtio_net::{self, Desc, QueueWrite, VirtioNet, VQ};
use hepos::bytes;

#[test]
fn numbers_lowest_byte_first() {
    let mut v = vec![9];
    bytes::push_le(&mut v, 0x0102_0304, 4);
    assert_eq!(v, vec![9, 4, 3, 2, 1]);
    assert_eq!(bytes::read_le16(0x34, 0x12), 0x1234);
}

#[test]
fn hardware_address_from_registers() {
    assert_eq!(nic::mac_from_regs(0x1200_5452, 0x8000_5634), [0x52, 0x54, 0, 0x12, 0x34, 0x56]);
}

#[test]
fn e1000_sends_in_turn() {
    let mut c = E1000::new([0; 6], [0; 8]);
    for i in 0..20usize {
        let s = c.send(0x5000, 60).unwrap();
        assert_eq!(s.index, i % 8);
        assert_eq!(s.tail.value as usize, (i + 1) % 8);
        assert_eq!(s.tail.off, e1000::TDT);
        assert_eq!(s.desc.to_bytes(), vec![0, 0x50, 0, 0, 0, 0, 0, 0, 60, 0, 0, 9, 0, 0, 0, 0]);
    }
    assert!(c.send(0, 4097).is_none());
    assert!(c.send(0, 4096).is_some());
    assert!(e1000::is_sent(1));
    assert!(!e1000::is_sent(8));
}

#[test]
fn e1000_receives() {
    let mut c = E1000::new([0; 6], [10, 11, 12, 13, 14, 15, 16, 17]);
    assert_eq!(c.recv(0, 60), e1000::Receiving::Empty);
    let tail = |v| e1000::RegWrite { off: e1000::RDT, value: v };
    assert_eq!(c.recv(1, 13), e1000::Receiving::Skip { index: 0, tail: tail(1) });
    assert_eq!(
        c.recv(3, 14),
        e1000::Receiving::Packet { index: 1, buf: 11, len: 14, tail: tail(2) }
    );
    for _ in 0..5 {
        c.recv(1, 64);
    }
    assert_eq!(
        c.recv(1, 64),
        e1000::Receiving::Packet { index: 7, buf: 17, len: 64, tail: tail(0) }
    );
}

#[test]
fn e1000_start() {
    assert_eq!(e1000::reset(0x60), e1000::RegWrite { off: 0, value: 0x0400_0060 });
    assert!(e1000::in_reset(0x0400_0000));
    let w = e1000::init(0x1_0000_2000, 0x3000);
    assert_eq!(w.len(), 143);
    assert_eq!(w[0], e1000::RegWrite { off: 0, value: 0x60 });
    assert_eq!(w[128], e1000::RegWrite { off: 0x5200 + 127 * 4, value: 0 });
    assert_eq!(w[130], e1000::RegWrite { off: e1000::RDBAL, value: 0x2000 });
    assert_eq!(w[131], e1000::RegWrite { off: e1000::RDBAH, value: 1 });
    assert_eq!(w[135], e1000::RegWrite { off: e1000::RCTL, value: 0x0400_801A });
    assert_eq!(w[142], e1000::RegWrite { off: e1000::TCTL, value: 0x3F0FA });
    let r = e1000::rx_ring(&[1, 2, 3, 4, 5, 6, 7, 8]);
    assert_eq!(r[7].to_bytes(), vec![8, 0, 0, 0, 0, 0, 0, 0, 0, 0, 0, 0, 0, 0, 0, 0]);
    let t = e1000::tx_ring();
    assert_eq!(t.len(), 8);
    assert_eq!(t[3].to_bytes()[12], 1);
}

#[test]
fn rtl8139_sends_in_turn() {
    let mut c = Rtl8139::new(0xC000, [0; 6], [0x1000, 0x2000, 0x3000, 0x1_0000_4000]);
    assert!(c.send(1793).is_none());
    let s = c.send(1792).unwrap();
    assert_eq!((s.slot, s.status), (0, 0xC010));
    assert_eq!(s.addr, PortOp::Long { port: 0xC020, long: 0x1000 });
    assert_eq!(s.start, PortOp::Long { port: 0xC010, long: 1792 });
    c.send(1);
    c.send(1);
    let s = c.send(1).unwrap();
    assert_eq!(s.addr, PortOp::Long { port: 0xC02C, long: 0x4000 });
    assert_eq!(c.send(1).unwrap().slot, 0);
    assert!(rtl8139::is_ours(0x2000));
    assert!(!rtl8139::is_ours(0x8000));
}

fn put(ring: &mut Vec<u8>, at: usize, bytes: &[u8]) {
    for (i, b) in bytes.iter().enumerate() {
        ring[(at + i) % 65536] = *b;
    }
}

#[test]
fn rtl8139_receives() {
    let mut c = Rtl8139::new(0xC000, [0; 6], [0; 4]);
    let mut ring = vec![0u8; 65552];
    let data: Vec<u8> = (0..61).collect();
    put(&mut ring, 0, &[1, 0, 65, 0]);
    put(&mut ring, 4, &data);
    assert!(matches!(c.recv(0, 0xFFF0, &ring), rtl8139::Receiving::Empty));
    match c.recv(72, 0xFFF0, &ring) {
        rtl8139::Receiving::Packet(d, op) => {
            assert_eq!(d, data);
            assert_eq!(op, PortOp::Word { port: 0xC038, word: 72 - 16 });
        }
        _ => panic!(),
    }
    assert_eq!(c.rx_off, 72);
}

#[test]
fn rtl8139_receives_round_the_end() {
    let mut c = Rtl8139::new(0xC000, [0; 6], [0; 4]);
    c.rx_off = 65532;
    let mut ring = vec![0u8; 65552];
    let data: Vec<u8> = (100..160).collect();
    put(&mut ring, 65532, &[1, 0, 64, 0]);
    put(&mut ring, 65536, &data);
    match c.recv(100, 0, &ring) {
        rtl8139::Receiving::Packet(d, op) => {
            assert_eq!(d, data);
            assert_eq!(op, PortOp::Word { port: 0xC038, word: 48 });
        }
        _ => panic!(),
    }
    assert_eq!(c.rx_off, 65600);
}

#[test]
fn rtl8139_leaves_damaged_frames() {
    for hdr in [[0u8, 0, 64, 0], [1, 0, 13, 0], [1, 0, 0xEF, 5]] {
        let mut c = Rtl8139::new(0xC000, [0; 6], [0; 4]);
        let mut ring = vec![0u8; 65552];
        put(&mut ring, 0, &hdr);
        assert!(matches!(c.recv(100, 0, &ring), rtl8139::Receiving::Bad(_)));
        assert!(c.rx_off > 0 && c.rx_off % 4 == 0);
    }
}

#[test]
fn rtl8139_start() {
    let r = rtl8139::reset(0xC000);
    assert_eq!(r[1], PortOp::Byte { port: 0xC037, byte: 0x10 });
    let o = rtl8139::init(0xC000, 0x9000);
    assert_eq!(o.len(), 10);
    assert_eq!(o[3], PortOp::Long { port: 0xC01C, long: 0x2000 });
    assert_eq!(o[7], PortOp::Long { port: 0xC044, long: 0x188F });
    assert_eq!(o[9], PortOp::Word { port: 0xC038, word: 0xFFF0 });
}

#[test]
fn virtio_queue() {
    let mut q = VQ::new();
    let w = q.prefill_rx(&vec![0x1000, 0x2000]);
    assert_eq!(w.len(), 5);
    assert_eq!(
        w[2],
        QueueWrite::Desc { slot: 1, desc: Desc { addr: 0x2000, len: 4096, flags: 2, next: 0 } }
    );
    assert_eq!(w[4], QueueWrite::AvailCount(2));
    assert_eq!(q.pop_used(0, 1, 50), None);
    assert_eq!(q.used_place(), 0);
    assert_eq!(q.pop_used(1, 1, 50), Some((1, 50)));
    assert_eq!(q.used_place(), 1);
    let w = q.recycle_rx(1);
    assert_eq!(w[1], QueueWrite::Avail { place: 2, id: 1 });
    assert_eq!(w[2], QueueWrite::AvailCount(3));
    q.avail_idx = 0xFFFF;
    assert_eq!(q.recycle_rx(0)[2], QueueWrite::AvailCount(0));
}

#[test]
fn virtio_sends_behind_a_header() {
    let mut c = VirtioNet::new(0xC000, [0; 6]);
    let s = c.send(0x7000, &[1, 2, 3]);
    assert_eq!(s.page, vec![0, 0, 0, 0, 0, 0, 0, 0, 0, 0, 1, 2, 3]);
    assert_eq!(
        s.writes[0],
        QueueWrite::Desc { slot: 0, desc: Desc { addr: 0x7000, len: 13, flags: 0, next: 0 } }
    );
    assert_eq!(s.notify, PortOp::Word { port: 0xC010, word: 1 });
    assert_eq!(c.tx.free_head, 1);
}

#[test]
fn virtio_receives_behind_a_header() {
    let mut c = VirtioNet::new(0xC000, [0; 6]);
    c.rx.prefill_rx(&vec![0x1000, 0x2000]);
    assert!(c.recv(0, 0, 0).is_none());
    let r = c.recv(1, 1, 70).unwrap();
    assert_eq!(r.frame, Some((0x2000, 60)));
    assert_eq!(r.writes[1], QueueWrite::Avail { place: 2, id: 1 });
    assert_eq!(r.notify, PortOp::Word { port: 0xC010, word: 0 });
    let r = c.recv(2, 0, 10).unwrap();
    assert_eq!(r.frame, None);
}

#[test]
fn virtio_start() {
    assert_eq!(virtio_net::begin(0xC000)[2], PortOp::Byte { port: 0xC012, byte: 3 });
    assert_eq!(virtio_net::accept(0xC000, 5)[0], PortOp::Long { port: 0xC004, long: 5 });
    assert_eq!(virtio_net::buffers(256), 64);
    assert_eq!(virtio_net::buffers(16), 16);
    let o = virtio_net::init(0xC000, 9, 11);
    assert_eq!(o[1], PortOp::Long { port: 0xC008, long: 9 });
    assert_eq!(o[3], PortOp::Long { port: 0xC008, long: 11 });
    let l = virtio_net::layout(0x8000);
    assert_eq!((l.desc, l.avail, l.used, l.pfn), (0x8000, 0x8400, 0x9000, 8));
    let d = Desc { addr: 1, len: 2, flags: 3, next: 4 };
    assert_eq!(d.to_bytes(), vec![1, 0, 0, 0, 0, 0, 0, 0, 2, 0, 0, 0, 3, 0, 4, 0]);
    assert_eq!(virtio_net::NetHdr::plain().to_bytes(), vec![0; 10]);
}
