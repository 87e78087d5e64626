use hepos::boot::{Boot, BootOp, Card, Event, Phase};
use hepos::protocol::Request;
use hepos::rtc::DateTime;

fn said(ops: &[BootOp]) -> String {
    ops.iter()
        .filter_map(|o| match o {
            BootOp::Say(s) => Some(s.clone()),
            _ => None,
        })
        .collect()
}

#[test]
fn boot_with_a_new_disk() {
    let mut b = Boot::new(1);
    let o = b.step(Event::Begin);
    assert!(matches!(o[0], BootOp::Serial));
    assert!(matches!(o.last(), Some(BootOp::FindDevices)));
    let o = b.step(Event::Devices(vec!["Network".to_string(), "NVMe".to_string()]));
    assert_eq!(said(&o), "PCI devices:\n  Network\n  NVMe\n");
    let o = b.step(Event::Disk(Some((131072, 512))));
    assert_eq!(said(&o), "NVMe ready\nNVMe: 64 MB  (512 byte blocks)\n");
    assert!(matches!(o[2], BootOp::TestDisk { fill: 0xAB }));
    assert_eq!(said(&b.step(Event::Tested(0xAB))), "NVMe R/W OK\n");
    let o = b.step(Event::Probed(false));
    assert_eq!(said(&o), "Formatting HepFS...\nHepFS formatted\n");
    assert!(matches!(&o[5], BootOp::Files(Request::Lookup { path }) if path == "/home"));
    let o = b.step(Event::Found(Some(4)));
    assert!(matches!(&o[0], BootOp::Files(Request::CreateFile { parent: 4, .. })));
    let o = b.step(Event::Made(9));
    let data = match &o[0] {
        BootOp::Files(Request::Write { ino: 9, data }) => data.clone(),
        _ => panic!(),
    };
    assert_eq!(said(&b.step(Event::Data(data))), "Read back: Hello from HepOS!\n");
    let o = b.step(Event::Names(vec!["home".to_string(), "etc".to_string()]));
    assert_eq!(said(&o), "/ contents:\n  home\n  etc\n");
    let o = b.step(Event::Found(None));
    assert!(matches!(&o[0], BootOp::Files(Request::CreateFile { parent: 1, name }) if name == "kernel.txt"));
    b.step(Event::Made(12));
    let t = DateTime { hour: 0, min: 0, sec: 0, day: 2, month: 1, year: 2026 };
    let o = b.step(Event::Clock(t));
    match &o[0] {
        BootOp::Files(Request::Write { ino: 12, data }) => {
            assert_eq!(data, b"HepOS v0.1 | 2026-01-02 | x86_64 exokernel\n")
        }
        _ => panic!(),
    }
    assert!(matches!(o[1], BootOp::StartCard(Card::Rtl8139)));
    let o = b.step(Event::CardUp(false));
    assert!(matches!(o[0], BootOp::StartCard(Card::E1000)));
    let o = b.step(Event::CardUp(true));
    assert!(matches!(o.last(), Some(BootOp::EnableInterrupts)));
    assert_eq!(b.phase, Phase::Done);
}

#[test]
fn boot_without_a_disk_or_a_card() {
    let mut b = Boot::new(1);
    b.step(Event::Begin);
    b.step(Event::Devices(vec![]));
    let o = b.step(Event::Disk(None));
    assert_eq!(said(&o), "No NVMe device found\n");
    b.step(Event::CardUp(false));
    b.step(Event::CardUp(false));
    assert_eq!(b.phase, Phase::Card(Card::Virtio));
    let o = b.step(Event::CardUp(false));
    assert_eq!(said(&o), "Network init\nInput init\nBoot complete\nAPIC init\n");
}

#[test]
fn an_old_manifest_and_a_bad_disk() {
    let mut b = Boot::new(1);
    b.step(Event::Begin);
    b.step(Event::Devices(vec![]));
    b.step(Event::Disk(Some((1, 512))));
    assert_eq!(said(&b.step(Event::Tested(0))), "NVMe R/W FAIL\n");
    assert_eq!(said(&b.step(Event::Probed(true))), "HepFS found\n");
    b.step(Event::Found(Some(4)));
    b.step(Event::Made(9));
    // what is no text is reported as a question mark
    assert_eq!(said(&b.step(Event::Data(vec![0xFF]))), "Read back: ?");
    b.step(Event::Names(vec![]));
    // an old manifest is written anew
    let o = b.step(Event::Found(Some(3)));
    assert_eq!(o.len(), 1);
    assert!(matches!(o[0], BootOp::Files(Request::Clock)));
    let t = DateTime { hour: 0, min: 0, sec: 0, day: 31, month: 12, year: 2027 };
    let o = b.step(Event::Clock(t));
    match &o[0] {
        BootOp::Files(Request::Write { ino: 3, data }) => {
            assert_eq!(data, b"HepOS v0.1 | 2027-12-31 | x86_64 exokernel\n")
        }
        _ => panic!(),
    }
    assert!(matches!(o[1], BootOp::StartCard(Card::Rtl8139)));
}
