use hepos::mouse;
use hepos::mouse::MouseState;
use hepos::ps2::PortStep;
use hepos::xhci::{
    is_ready, layout, poll_mouse, ready, reset, start, take_report, Area, EventRing, HwOp, Init,
    InitError, InitEvent, InitStage, Page, Pages, Ring, Scan, ScanStage, Setup, SetupEvent, Trb,
    TrbWrite, Xhci,
};
use hepos::{acpi, apic, gdt, pci, serial, vmm, xhci};

#[test]
fn mouse_packet_moves_the_pointer() {
    let mut m = MouseState::new();
    assert_eq!((m.x, m.y), (640, 360));
    mouse::handle_byte(&mut m, 0x09);
    mouse::handle_byte(&mut m, 5);
    mouse::handle_byte(&mut m, 3);
    assert_eq!((m.x, m.y, m.buttons), (645, 357, 1));
    mouse::handle_byte(&mut m, 0x38);
    mouse::handle_byte(&mut m, 0xFF);
    mouse::handle_byte(&mut m, 0xFE);
    assert_eq!((m.x, m.y, m.buttons), (644, 359, 0));
}

#[test]
fn mouse_drops_a_stray_byte() {
    let mut m = MouseState::new();
    mouse::handle_byte(&mut m, 0x01);
    assert_eq!(m.cycle, 0);
    mouse::poll(&mut m, 0x01, 0x08);
    assert_eq!(m.cycle, 0);
    mouse::poll(&mut m, 0x21, 0x08);
    assert_eq!(m.cycle, 1);
    assert!(mouse::has_byte(1));
    assert!(!mouse::has_byte(0x20));
    m.cycle = 9;
    mouse::handle_byte(&mut m, 0x08);
    assert_eq!(m.cycle, 0);
}

#[test]
fn mouse_clamps() {
    let mut m = MouseState::new();
    m.x = -4;
    m.y = 9000;
    m.clamp(640, 480);
    assert_eq!((m.x, m.y), (0, 479));
    m.clamp(640, 480);
    assert_eq!((m.x, m.y), (0, 479));
}

#[test]
fn mouse_start_program() {
    let p = mouse::init();
    assert_eq!(p.len(), 24);
    assert_eq!(p[2], PortStep::Command(0xA8));
    assert_eq!(p[10], PortStep::DataKept { keep: 0xFF, set: 2 });
    assert_eq!(p[15], PortStep::Data(0xF6));
    assert_eq!(p[21], PortStep::Data(0xF4));
}

#[test]
fn timer_registers() {
    let s = apic::init(1 << 21, 0xFEE0_0800);
    assert_eq!(s.len(), 7);
    assert_eq!(s[0], apic::ApicStep::Port { port: 0x21, byte: 0xFF });
    assert_eq!(s[2], apic::ApicStep::Msr { msr: 0x1B, value: 0xFEE0_0C00 });
    assert_eq!(s[3], apic::ApicStep::Msr { msr: 0x80F, value: 0x1FF });
    assert_eq!(s[5], apic::ApicStep::Msr { msr: 0x832, value: 0x20020 });
    assert_eq!(apic::eoi(), apic::ApicStep::Msr { msr: 0x80B, value: 0 });
    assert_eq!(apic::timer_vector(), 0x20);
    assert!(apic::has_x2apic(1 << 21));
    assert!(!apic::has_x2apic(!(1 << 21)));
    assert_eq!(apic::start(1 << 21, 0xFEE0_0800).unwrap(), s);
    assert!(apic::start(!(1 << 21), 0xFEE0_0800).is_none());
}

#[test]
fn masking_the_timer_and_back() {
    assert_eq!(apic::mask_timer(0x20020), apic::ApicStep::Msr { msr: 0x832, value: 0x30020 });
    assert_eq!(apic::unmask_timer(0x30020), apic::ApicStep::Msr { msr: 0x832, value: 0x20020 });
}

#[test]
fn power_and_reset() {
    let w = acpi::shutdown();
    assert_eq!(w[0], acpi::PortWord { port: 0x604, value: 0x2000 });
    assert_eq!(w[2], acpi::PortWord { port: 0x4004, value: 0x3400 });
    assert_eq!(acpi::reboot(0x02), None);
    assert_eq!(acpi::reboot(0x01), Some((0x64, 0xFE)));
}

#[test]
fn serial_port() {
    let b = serial::init();
    assert_eq!(b.len(), 7);
    assert_eq!(b[1], serial::PortByte { port: 0x3FB, value: 0x80 });
    assert_eq!(b[6], serial::PortByte { port: 0x3FC, value: 0x0B });
    assert!(serial::can_send(0x20));
    assert!(!serial::can_send(0xDF));
    let p = serial::print("h\u{e9}");
    assert_eq!(p.iter().map(|b| b.value).collect::<Vec<u8>>(), vec![0x68, 0xC3, 0xA9]);
}

#[test]
fn segments() {
    let (e, r) = gdt::init(0x1234);
    assert_eq!(e[0].to_bytes(), [0; 8]);
    assert_eq!(e[1].to_bytes(), [0xFF, 0xFF, 0, 0, 0, 0x9A, 0x20, 0]);
    assert_eq!(e[2].to_bytes(), [0xFF, 0xFF, 0, 0, 0, 0x92, 0, 0]);
    assert_eq!(r, gdt::Gdtr { size: 23, offset: 0x1234 });
}

#[test]
fn direct_map() {
    let m = vmm::init(0xFFFF_8000_0000_0000);
    assert_eq!(vmm::phys_to_virt(&m, 0x1000), 0xFFFF_8000_0000_1000);
    assert_eq!(vmm::hhdm_offset(&m), 0xFFFF_8000_0000_0000);
}

fn device(vendor_id: u16, device_id: u16, class: u8, subclass: u8, prog_if: u8) -> pci::PciDevice {
    pci::PciDevice { bus: 0, dev: 0, func: 0, vendor_id, device_id, class, subclass, prog_if }
}

#[test]
fn devices_are_found() {
    let d = vec![
        device(0x8086, 0x1237, 6, 0, 0),
        device(0x8086, 0x100E, 2, 0, 0),
        device(0x10EC, 0x8139, 2, 0, 0),
        device(0x1AF4, 0x1000, 2, 0, 0),
        device(0x1B36, 0x000D, 0x0C, 3, 0x30),
        device(0x10EC, 0x8139, 2, 0, 0),
    ];
    assert_eq!(pci::find_device(&d, pci::Kind::E1000, 0), Some(1));
    assert_eq!(pci::find_device(&d, pci::Kind::Rtl8139, 0), Some(2));
    assert_eq!(pci::find_device(&d, pci::Kind::Rtl8139, 3), Some(5));
    assert_eq!(pci::find_device(&d, pci::Kind::VirtioNet, 0), Some(3));
    assert_eq!(pci::find_device(&d, pci::Kind::Xhci, 0), Some(4));
    assert_eq!(pci::find_device(&d, pci::Kind::E1000, 2), None);
    assert_eq!(pci::enable(0x0400, 6), 0x0406);
}

#[test]
fn base_addresses() {
    assert_eq!(pci::memory_bar(0xFEBC_000C, 0x1), 0x1_FEBC_0000);
    assert_eq!(pci::memory_bar(0xFEBC_0008, 0x1), 0xFEBC_0000);
    assert_eq!(pci::io_bar(0xC001), Some(0xC000));
    assert_eq!(pci::io_bar(0xC000), None);
}

fn trb(w3: u32) -> Trb {
    Trb { w0: 0, w1: 0, w2: 0, w3 }
}

#[test]
fn ring_goes_round_with_a_toggling_link() {
    let mut r = Ring::new(0x1_2000_0000);
    for i in 0..62 {
        let w = r.push(trb(0x420));
        assert_eq!(w, vec![TrbWrite { index: i, trb: trb(0x421) }]);
    }
    let w = r.push(trb(0x420));
    assert_eq!(w.len(), 2);
    assert_eq!(
        w[1],
        TrbWrite {
            index: 63,
            trb: Trb { w0: 0x2000_0000, w1: 1, w2: 0, w3: 0x1803 }
        }
    );
    assert_eq!((r.idx, r.cycle), (0, 0));
    assert_eq!(r.push(trb(0x421)), vec![TrbWrite { index: 0, trb: trb(0x420) }]);
    for _ in 0..61 {
        r.push(trb(0x420));
    }
    // the second time round the link still toggles
    assert_eq!(r.push(trb(0x420))[1].trb.w3, 0x1802);
    assert_eq!((r.idx, r.cycle), (0, 1));
}

#[test]
fn a_reader_sees_what_was_pushed_once() {
    let mut mem = vec![trb(0); 64];
    mem[63] = trb(0x1803);
    let mut r = Ring::new(0);
    let (mut pos, mut pcs) = (0usize, 1u32);
    for n in 0..200u32 {
        let t = Trb { w0: n, w1: 0, w2: 8, w3: 0x420 };
        assert_ne!(mem[pos].w3 & 1, pcs);
        for w in r.push(t) {
            mem[w.index] = w.trb;
        }
        assert_eq!(mem[pos].w0, n);
        assert_eq!(mem[pos].w3 & 1, pcs);
        pos += 1;
        if (mem[pos].w3 >> 10) & 0x3F == 6 && mem[pos].w3 & 1 == pcs {
            if mem[pos].w3 & 2 != 0 {
                pcs ^= 1;
            }
            pos = 0;
        }
    }
}

#[test]
fn event_ring() {
    let mut e = EventRing::new(0x1000);
    assert_eq!(e.dequeue(&trb(0)), None);
    assert_eq!(e.dequeue(&trb(1)), Some(0x1008));
    assert_eq!(e.dequeue(&trb(1)), Some(0x1018));
    for _ in 0..62 {
        e.dequeue(&trb(1));
    }
    assert_eq!((e.idx, e.cycle), (0, 0));
    assert_eq!(e.dequeue(&trb(1)), None);
    assert_eq!(e.dequeue(&trb(0)), Some(0x1008));
}

#[test]
fn controller_registers() {
    let l = layout(0x40, 0x2003, 0x101F, 0x0800_0140);
    assert_eq!((l.op, l.doorbell, l.runtime, l.max_slots, l.max_ports), (0x40, 0x2000, 0x1000, 0x40, 8));
    assert_eq!(ready(), HwOp::Wait { off: 4, mask: 0x800, set: false });
    assert_eq!(reset(0).len(), 3);
    let r = reset(5);
    assert_eq!(r[0], HwOp::Word { area: Area::Op, off: 0, word: 4 });
    assert_eq!(r[2], HwOp::Word { area: Area::Op, off: 0, word: 2 });
}

fn pages() -> Pages {
    Pages {
        cmd: 0x1000,
        evt: 0x2000,
        erst: 0x3000,
        dcbaa: 0x4000,
        dev_ctx: 0x5000,
        in_ctx: 0x6000,
        ep0: 0x7000,
        hid: 0x8000,
        hid_buf: 0x9000,
    }
}

#[test]
fn controller_start() {
    let s = start(&pages(), 32);
    assert_eq!(s.len(), 15);
    assert_eq!(s[3], HwOp::Long { area: Area::Page(Page::Erst), off: 0, long: 0x2000 });
    assert_eq!(s[9], HwOp::Word { area: Area::Op, off: 0x38, word: 32 });
    assert_eq!(s[11], HwOp::Long { area: Area::Op, off: 0x18, long: 0x1001 });
    assert_eq!(s[12], HwOp::Word { area: Area::Op, off: 0, word: 0xD });
}

#[test]
fn ports_are_searched() {
    let (mut s, ops) = Scan::begin(3);
    assert_eq!(ops, vec![HwOp::ReadPort(0)]);
    // no power, then no device
    let o = s.step(0x00FE_0000);
    assert_eq!(o[0], HwOp::Word { area: Area::Op, off: 0x400, word: 0x200 });
    assert_eq!(o[2], HwOp::ReadPort(0));
    assert_eq!(s.step(0x200), vec![HwOp::ReadPort(1)]);
    // a device
    assert_eq!(s.step(0x201), vec![HwOp::ReadPort(1)]);
    let o = s.step(0x0002_0201);
    assert_eq!(o[0], HwOp::Word { area: Area::Op, off: 0x410, word: 0x211 });
    assert_eq!(o[1], HwOp::Wait { off: 0x410, mask: 0x10, set: false });
    let o = s.step(0x0020_0E03);
    assert_eq!(o[0], HwOp::Word { area: Area::Op, off: 0x410, word: 0x0020_0E03 });
    assert_eq!(o[1], HwOp::ReadPort(2));
    assert_eq!((s.found, s.speed), (2, 3));
    // the second device is not taken
    s.step(0x201);
    assert_eq!(s.step(0x201), vec![]);
    assert_eq!((s.found, s.stage), (2, ScanStage::Done));
    assert_eq!(Scan::begin(0).0.stage, ScanStage::Done);
}

#[test]
fn unknown_speed_is_high_speed() {
    let (mut s, _) = Scan::begin(1);
    s.step(0x201);
    s.step(0x201);
    s.step(0x203);
    assert_eq!(s.speed, 3);
}

#[test]
fn device_setup() {
    let mut x = Xhci::new(pages(), 2, 3);
    let o = x.step(SetupEvent::Begin);
    assert_eq!(o[0], HwOp::Delay(200_000));
    assert_eq!(
        o[1],
        HwOp::Entry { page: Page::Cmd, write: TrbWrite { index: 0, trb: trb(0x2401) } }
    );
    assert_eq!(o[2], HwOp::Word { area: Area::Doorbell, off: 0, word: 0 });
    assert_eq!(o[3], HwOp::AwaitCommand);
    let o = x.step(SetupEvent::Command { code: 1, slot: 1 });
    assert_eq!(o[0], HwOp::Long { area: Area::Page(Page::Dcbaa), off: 8, long: 0x5000 });
    assert_eq!(o[2], HwOp::Word { area: Area::Page(Page::InCtx), off: 0x20, word: 0x0830_0000 });
    assert_eq!(o[3], HwOp::Word { area: Area::Page(Page::InCtx), off: 0x24, word: 0x2_0000 });
    assert_eq!(
        o[7],
        HwOp::Entry {
            page: Page::Cmd,
            write: TrbWrite {
                index: 1,
                trb: Trb { w0: 0x6000, w1: 0, w2: 0, w3: 0x0100_2C01 }
            }
        }
    );
    let o = x.step(SetupEvent::Command { code: 1, slot: 1 });
    assert_eq!(
        o[0],
        HwOp::Entry {
            page: Page::Ep0,
            write: TrbWrite {
                index: 0,
                trb: Trb { w0: 0x0001_0900, w1: 0, w2: 8, w3: 0x841 }
            }
        }
    );
    assert_eq!(o[2], HwOp::Word { area: Area::Doorbell, off: 4, word: 1 });
    assert_eq!(o[3], HwOp::AwaitTransfer);
    let o = x.step(SetupEvent::Transfer);
    assert_eq!(o[2], HwOp::Word { area: Area::Page(Page::InCtx), off: 0x20, word: 0x1830_0000 });
    let o = x.step(SetupEvent::Command { code: 1, slot: 0 });
    assert_eq!(x.setup, Setup::Ready);
    assert_eq!(o[1], HwOp::Word { area: Area::Doorbell, off: 4, word: 3 });
}

#[test]
fn device_setup_fails() {
    let mut x = Xhci::new(pages(), 1, 3);
    x.step(SetupEvent::Begin);
    assert_eq!(x.step(SetupEvent::Command { code: 0xFF, slot: 0 }), vec![]);
    assert_eq!(x.setup, Setup::Failed);
}

fn caps(ports: u32) -> InitEvent {
    InitEvent::Caps {
        cap_len: 0x40,
        dboff: 0x2003,
        rtsoff: 0x101F,
        hcsparams1: ports << 24 | 8,
        pages: pages(),
    }
}

fn command(code: u32) -> InitEvent {
    InitEvent::Device(SetupEvent::Command { code, slot: 1 })
}

/// A controller with two ports, started as far as the search of its ports.
fn searching() -> Init {
    let d = vec![device(0x8086, 0x1237, 6, 0, 0), device(0x1B36, 0x000D, 0x0C, 3, 0x30)];
    let mut s = xhci::init(&d);
    assert_eq!(s.stage, InitStage::Bars { index: 1 });
    assert!(s.step(InitEvent::Bars { bar0: 0xFEBC_0004, bar1: 1 }).is_empty());
    assert_eq!(s.stage, InitStage::Caps { base: 0x1_FEBC_0000 });
    assert_eq!(s.step(caps(2)), vec![ready()]);
    let ops = s.step(InitEvent::Register(1));
    assert_eq!(ops[..5], reset(1)[..]);
    assert_eq!(ops[5..20], start(&pages(), 8)[..]);
    assert_eq!(ops[20..], [HwOp::ReadPort(0)]);
    s
}

#[test]
fn the_controller_is_started() {
    let mut s = searching();
    // nothing on the first port, a device on the second
    s.step(InitEvent::Port(0x200));
    s.step(InitEvent::Port(0x200));
    s.step(InitEvent::Port(0x201));
    s.step(InitEvent::Port(0x201));
    assert!(s.driver().is_none());
    let ops = s.step(InitEvent::Port(0xC01));
    assert_eq!(ops[1], HwOp::Delay(200_000));
    assert_eq!(ops[ops.len() - 1], HwOp::AwaitCommand);
    s.step(command(1));
    s.step(command(1));
    s.step(InitEvent::Device(SetupEvent::Transfer));
    assert!(!is_ready(&s.driver()));
    let ops = s.step(command(1));
    assert_eq!(ops[1], HwOp::Word { area: Area::Doorbell, off: 4, word: 3 });
    assert!(is_ready(&s.driver()));
    let x = s.driver().unwrap();
    assert_eq!((x.port, x.speed, x.slot), (2, 3, 1));
}

#[test]
fn the_controller_is_not_started() {
    let none = xhci::init(&vec![device(0x8086, 0x1237, 6, 0, 0)]);
    assert_eq!(none.stage, InitStage::Failed(InitError::NoController));
    let d = vec![device(0x1B36, 0x000D, 0x0C, 3, 0x30)];
    let mut s = xhci::init(&d);
    s.step(InitEvent::Bars { bar0: 4, bar1: 0 });
    assert_eq!(s.stage, InitStage::Failed(InitError::NoBar));
    // no port at all
    let mut s = xhci::init(&d);
    s.step(InitEvent::Bars { bar0: 0xFEBC_0000, bar1: 0 });
    s.step(caps(0));
    assert_eq!(s.step(InitEvent::Register(0)).len(), 18);
    assert_eq!(s.stage, InitStage::Failed(InitError::NoDevice));
    // no device on any port
    let mut s = searching();
    for _ in 0..4 {
        s.step(InitEvent::Port(0x200));
    }
    assert_eq!(s.stage, InitStage::Failed(InitError::NoDevice));
    assert!(!is_ready(&s.driver()));
    // each of the three commands refused
    for granted in 0..3 {
        let mut s = searching();
        for sc in [0x201, 0x201, 0xC01, 0x200, 0x200] {
            s.step(InitEvent::Port(sc));
        }
        for i in 0..granted {
            s.step(command(1));
            if i == 1 {
                s.step(InitEvent::Device(SetupEvent::Transfer));
            }
        }
        assert!(s.step(command(5)).is_empty());
        assert_eq!(s.stage, InitStage::Failed(InitError::Refused));
        assert!(!is_ready(&s.driver()));
    }
}

#[test]
fn events_are_waited_for() {
    let mut x = Xhci::new(pages(), 1, 3);
    assert_eq!(x.wait_cmd(&trb(0)), (None, None));
    assert_eq!(x.wait_cmd(&trb(34 << 10 | 1)), (Some(0x2008), None));
    let t = Trb { w0: 0, w1: 0, w2: 1 << 24, w3: 5 << 24 | 33 << 10 | 1 };
    assert_eq!(x.wait_cmd(&t), (Some(0x2018), Some((1, 5))));
    assert_eq!(x.wait_xfer(&trb(33 << 10 | 1)), (Some(0x2028), false));
    assert_eq!(x.wait_xfer(&trb(32 << 10 | 1)), (Some(0x2038), true));
}

#[test]
fn a_report_moves_the_pointer() {
    let mut m = MouseState::new();
    take_report(&mut m, &[0, 0, 0, 0, 0, 0, 0, 0], 1280, 720);
    assert_eq!((m.x, m.y), (640, 360));
    take_report(&mut m, &[0xFF, 0x00, 0x40, 0xFF, 0x7F, 0, 0, 0], 1280, 720);
    assert_eq!((m.x, m.y, m.buttons), (640, 719, 7));
    take_report(&mut m, &[0, 0xFF, 0xFF, 0, 0, 0, 0, 0], u32::MAX, 720);
    assert_eq!(m.x, 131_071);
}

#[test]
fn polling_the_controller() {
    let mut m = MouseState::new();
    let report = [1, 0, 0x40, 0, 0x40, 0, 0, 0];
    let mut none = None;
    assert!(poll_mouse(&mut none, &trb(1), &report, 1280, 720, &mut m).is_none());
    assert!(!is_ready(&none));
    let mut x = Some(Xhci::new(pages(), 1, 3));
    assert!(is_ready(&x));
    let t = Trb { w0: 0, w1: 0, w2: 13 << 24, w3: 32 << 10 | 1 };
    let (erdp, ops) = poll_mouse(&mut x, &t, &report, 1280, 720, &mut m).unwrap();
    assert_eq!(erdp, 0x2008);
    assert_eq!(ops[0], HwOp::ClearReport);
    assert_eq!(ops.len(), 3);
    assert_eq!((m.x, m.y, m.buttons), (640, 360, 1));
    let bad = Trb { w0: 0, w1: 0, w2: 4 << 24, w3: 32 << 10 | 1 };
    let (_, ops) = poll_mouse(&mut x, &bad, &[7; 8], 1280, 720, &mut m).unwrap();
    assert!(ops.is_empty());
    assert_eq!(m.buttons, 1);
}
