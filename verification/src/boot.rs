//! The way from the boot loader to the running desktop: what is started in which
//! order, and what the outcome of one step means for the next.
use vstd::prelude::*;
use crate::apic::TIMER_VECTOR;
use crate::desktop::Desktop;
use crate::nav::HepfsNav;
use crate::protocol::Request;
use crate::rtc::DateTime;
use crate::session::{Session, EDITOR, TERMINAL};
use crate::terminal::Terminal;
use crate::{desktop, nav, protocol, rtc, session, terminal, text};

verus! {

/// The network cards that are tried, one after the other.
#[derive(Clone, Copy, PartialEq, Eq, Structural, Debug)]
pub enum Card {
    Rtl8139,
    E1000,
    Virtio,
}

/// One thing to do at boot.
pub enum BootOp {
    /// Bring up the serial port.
    Serial,
    /// Write to the serial port.
    Say(String),
    Gdt,
    Idt,
    /// Take over the memory map.
    Memory,
    Heap,
    /// Allocate and use something on the heap.
    HeapTest,
    /// Show the splash screen.
    Splash,
    /// Set up the desktop, the terminal and the navigator.
    Desktop,
    /// Look for devices on the PCI bus.
    FindDevices,
    /// Look for an NVMe controller.
    FindDisk,
    /// Fill block 0 with `fill`, read it back, and give its first byte.
    TestDisk { fill: u8 },
    /// Look for a file system.
    Probe,
    /// Make a file system.
    Format,
    /// A request to the file system or the clock.
    Files(Request),
    /// Hand the disk to the applications.
    KeepDisk,
    StartCard(Card),
    /// Announce this machine on the network.
    Announce,
    Keyboard,
    Mouse,
    Usb,
    /// Add the idle task and the desktop's task.
    Tasks,
    /// Install the timer's handler.
    TimerHandler { vector: u8 },
    /// Start the timer.
    Timer,
    EnableInterrupts,
}

/// One thing to do at boot, as contracts speak of it.
pub enum Op {
    Serial,
    Say(Seq<char>),
    Gdt,
    Idt,
    Memory,
    Heap,
    HeapTest,
    Splash,
    Desktop,
    FindDevices,
    FindDisk,
    TestDisk { fill: u8 },
    Probe,
    Format,
    Files(protocol::Ask),
    KeepDisk,
    StartCard(Card),
    Announce,
    Keyboard,
    Mouse,
    Usb,
    Tasks,
    TimerHandler { vector: u8 },
    Timer,
    EnableInterrupts,
}

impl View for BootOp {
    type V = Op;

    open spec fn view(&self) -> Op {
        match self {
            BootOp::Serial => Op::Serial,
            BootOp::Say(s) => Op::Say(s@),
            BootOp::Gdt => Op::Gdt,
            BootOp::Idt => Op::Idt,
            BootOp::Memory => Op::Memory,
            BootOp::Heap => Op::Heap,
            BootOp::HeapTest => Op::HeapTest,
            BootOp::Splash => Op::Splash,
            BootOp::Desktop => Op::Desktop,
            BootOp::FindDevices => Op::FindDevices,
            BootOp::FindDisk => Op::FindDisk,
            BootOp::TestDisk { fill } => Op::TestDisk { fill: *fill },
            BootOp::Probe => Op::Probe,
            BootOp::Format => Op::Format,
            BootOp::Files(r) => Op::Files(r@),
            BootOp::KeepDisk => Op::KeepDisk,
            BootOp::StartCard(c) => Op::StartCard(*c),
            BootOp::Announce => Op::Announce,
            BootOp::Keyboard => Op::Keyboard,
            BootOp::Mouse => Op::Mouse,
            BootOp::Usb => Op::Usb,
            BootOp::Tasks => Op::Tasks,
            BootOp::TimerHandler { vector } => Op::TimerHandler { vector: *vector },
            BootOp::Timer => Op::Timer,
            BootOp::EnableInterrupts => Op::EnableInterrupts,
        }
    }
}

/// How far the boot is.
#[derive(Clone, Copy, PartialEq, Eq, Structural, Debug)]
pub enum Phase {
    Start,
    Devices,
    Disk,
    Tested,
    Probed,
    Home,
    Hello,
    ReadBack,
    Root,
    Manifest,
    ManifestMade,
    ManifestDate { ino: u32 },
    Card(Card),
    Done,
}

/// The outcome of the last thing done.
pub enum Event {
    Begin,
    /// The names of the devices' classes.
    Devices(Vec<String>),
    /// The disk's blocks and their size; `None` without a disk.
    Disk(Option<(u64, u32)>),
    /// The first byte that was read back.
    Tested(u8),
    /// Whether there is a file system.
    Probed(bool),
    /// The inode of a directory or a file that was looked up.
    Found(Option<u32>),
    /// The inode of a file that was made.
    Made(u32),
    Data(Vec<u8>),
    Names(Vec<String>),
    Clock(DateTime),
    /// Whether the network card is up.
    CardUp(bool),
}

/// The outcome of the last thing done, as contracts speak of it.
pub enum Outcome {
    Begin,
    Devices(Seq<Seq<char>>),
    Disk(Option<(u64, u32)>),
    Tested(u8),
    Probed(bool),
    Found(Option<u32>),
    Made(u32),
    Data(Seq<u8>),
    Names(Seq<Seq<char>>),
    Clock(DateTime),
    CardUp(bool),
}

impl View for Event {
    type V = Outcome;

    open spec fn view(&self) -> Outcome {
        match self {
            Event::Begin => Outcome::Begin,
            Event::Devices(v) => Outcome::Devices(text::texts(v@)),
            Event::Disk(d) => Outcome::Disk(*d),
            Event::Tested(b) => Outcome::Tested(*b),
            Event::Probed(b) => Outcome::Probed(*b),
            Event::Found(r) => Outcome::Found(*r),
            Event::Made(ino) => Outcome::Made(*ino),
            Event::Data(d) => Outcome::Data(d@),
            Event::Names(v) => Outcome::Names(text::texts(v@)),
            Event::Clock(t) => Outcome::Clock(*t),
            Event::CardUp(b) => Outcome::CardUp(*b),
        }
    }
}

// ── What is said ────────────────────────────────────────────────────────────

/// The first `n` names, each on a line of its own, indented.
pub open spec fn name_lines(names: Seq<Seq<char>>, n: int) -> Seq<char>
    decreases n,
{
    if n <= 0 {
        Seq::empty()
    } else {
        name_lines(names, n - 1) + "  "@ + names[n - 1] + "\n"@
    }
}

/// The disk's size in megabytes and its block size.
pub open spec fn disk_line(count: nat, size: nat) -> Seq<char> {
    "NVMe: "@ + text::dec(count * size / 1024 / 1024) + " MB  ("@ + text::dec(size)
        + " byte blocks)\n"@
}

/// What `/kernel.txt` holds.
pub open spec fn manifest(t: DateTime) -> Seq<char> {
    "HepOS v0.1 | "@ + rtc::ascii(rtc::date_bytes(t)) + " | x86_64 exokernel\n"@
}

/// The greeting that is written to `/home/hello.txt`.
pub open spec fn hello() -> Seq<u8> {
    vstd::utf8::encode_utf8("Hello from HepOS!\n"@)
}

// ── The order of things ─────────────────────────────────────────────────────

/// Everything up to the search for devices.
pub open spec fn early() -> Seq<Op> {
    seq![
        Op::Serial,
        Op::Say("HepOS kmain\n"@),
        Op::Gdt,
        Op::Say("GDT loaded\n"@),
        Op::Idt,
        Op::Say("IDT loaded\n"@),
        Op::Memory,
        Op::Say("PMM init\n"@),
        Op::Heap,
        Op::Say("Heap init\n"@),
        Op::HeapTest,
        Op::Say("Heap smoke test OK\n"@),
        Op::Splash,
        Op::Desktop,
        Op::Say("Terminal init\n"@),
        Op::FindDevices,
    ]
}

/// Everything after the network card. The timer and the interrupts come last.
pub open spec fn late() -> Seq<Op> {
    seq![
        Op::Announce,
        Op::Say("Network init\n"@),
        Op::Keyboard,
        Op::Mouse,
        Op::Usb,
        Op::Say("Input init\n"@),
        Op::Say("Boot complete\n"@),
        Op::Tasks,
        Op::TimerHandler { vector: TIMER_VECTOR },
        Op::Timer,
        Op::Say("APIC init\n"@),
        Op::EnableInterrupts,
    ]
}

/// Whether the outcome is one of what the phase waits for.
pub open spec fn expects(phase: Phase, e: Outcome) -> bool {
    match phase {
        Phase::Start => e is Begin,
        Phase::Devices => e is Devices,
        Phase::Disk => e is Disk && (e->Disk_0 matches Some((count, size)) ==> count * size
            <= u64::MAX),
        Phase::Tested => e is Tested,
        Phase::Probed => e is Probed,
        Phase::Home => e matches Outcome::Found(r) && r is Some,
        Phase::Hello => e is Made,
        Phase::ReadBack => e is Data,
        Phase::Root => e is Names,
        Phase::Manifest => e is Found,
        Phase::ManifestMade => e is Made,
        Phase::ManifestDate { ino } => e is Clock,
        Phase::Card(c) => e is CardUp,
        Phase::Done => false,
    }
}

/// What is done next, and the phase that follows.
pub open spec fn next(phase: Phase, e: Outcome, root: u32) -> (Phase, Seq<Op>) {
    match phase {
        Phase::Start => (Phase::Devices, early()),
        Phase::Devices => (
            Phase::Disk,
            seq![
                Op::Say("PCI devices:\n"@ + name_lines(e->Devices_0, e->Devices_0.len() as int)),
                Op::FindDisk,
            ],
        ),
        Phase::Disk => match e->Disk_0 {
            None => (
                Phase::Card(Card::Rtl8139),
                seq![Op::Say("No NVMe device found\n"@), Op::StartCard(Card::Rtl8139)],
            ),
            Some((count, size)) => (
                Phase::Tested,
                seq![
                    Op::Say("NVMe ready\n"@),
                    Op::Say(disk_line(count as nat, size as nat)),
                    Op::TestDisk { fill: 0xAB },
                ],
            ),
        },
        Phase::Tested => (
            Phase::Probed,
            seq![
                Op::Say(
                    if e->Tested_0 == 0xAB {
                        "NVMe R/W OK\n"@
                    } else {
                        "NVMe R/W FAIL\n"@
                    },
                ),
                Op::Probe,
            ],
        ),
        Phase::Probed => (
            Phase::Home,
            (if e->Probed_0 {
                seq![Op::Say("HepFS found\n"@)]
            } else {
                seq![
                    Op::Say("Formatting HepFS...\n"@),
                    Op::Format,
                    Op::Say("HepFS formatted\n"@),
                ]
            }) + seq![
                Op::Files(protocol::Ask::CreateDir { parent: root, name: "home"@ }),
                Op::Files(protocol::Ask::CreateDir { parent: root, name: "etc"@ }),
                Op::Files(protocol::Ask::Lookup { path: "/home"@ }),
            ],
        ),
        Phase::Home => (
            Phase::Hello,
            seq![
                Op::Files(
                    protocol::Ask::CreateFile { parent: e->Found_0->0, name: "hello.txt"@ },
                ),
            ],
        ),
        Phase::Hello => (
            Phase::ReadBack,
            seq![
                Op::Files(protocol::Ask::Write { ino: e->Made_0, data: hello() }),
                Op::Files(protocol::Ask::Read { ino: e->Made_0 }),
            ],
        ),
        Phase::ReadBack => (
            Phase::Root,
            seq![
                Op::Say("Read back: "@),
                Op::Say(
                    if vstd::utf8::valid_utf8(e->Data_0) {
                        vstd::utf8::decode_utf8(e->Data_0)
                    } else {
                        "?"@
                    },
                ),
                Op::Files(protocol::Ask::Names { ino: root }),
            ],
        ),
        Phase::Root => (
            Phase::Manifest,
            seq![
                Op::Say("/ contents:\n"@ + name_lines(e->Names_0, e->Names_0.len() as int)),
                Op::KeepDisk,
                Op::Files(protocol::Ask::Lookup { path: "/kernel.txt"@ }),
            ],
        ),
        Phase::Manifest => match e->Found_0 {
            Some(ino) => (Phase::ManifestDate { ino }, seq![Op::Files(protocol::Ask::Clock)]),
            None => (
                Phase::ManifestMade,
                seq![
                    Op::Files(protocol::Ask::CreateFile { parent: root, name: "kernel.txt"@ }),
                ],
            ),
        },
        Phase::ManifestMade => (
            Phase::ManifestDate { ino: e->Made_0 },
            seq![Op::Files(protocol::Ask::Clock)],
        ),
        Phase::ManifestDate { ino } => (
            Phase::Card(Card::Rtl8139),
            seq![
                Op::Files(
                    protocol::Ask::Write {
                        ino,
                        data: vstd::utf8::encode_utf8(manifest(e->Clock_0)),
                    },
                ),
                Op::StartCard(Card::Rtl8139),
            ],
        ),
        Phase::Card(c) => if e->CardUp_0 || c == Card::Virtio {
            (Phase::Done, late())
        } else if c == Card::Rtl8139 {
            (Phase::Card(Card::E1000), seq![Op::StartCard(Card::E1000)])
        } else {
            (Phase::Card(Card::Virtio), seq![Op::StartCard(Card::Virtio)])
        },
        Phase::Done => (Phase::Done, seq![]),
    }
}

// ── The machine ─────────────────────────────────────────────────────────────

/// A boot under way.
pub struct Boot {
    pub phase: Phase,
    /// The inode of the root directory.
    pub root: u32,
}

fn say(s: &str) -> (op: BootOp)
    ensures
        op@ == Op::Say(s@),
{
    BootOp::Say(String::from_str(s))
}

/// What the operations stand for.
pub open spec fn meaning(ops: Seq<BootOp>) -> Seq<Op> {
    ops.map_values(|o: BootOp| o@)
}

fn push_names(s: &mut String, names: &Vec<String>)
    ensures
        final(s)@ == old(s)@ + name_lines(text::texts(names@), names@.len() as int),
{
    let ghost all = text::texts(names@);
    let mut i: usize = 0;
    assert(s@ =~= old(s)@ + name_lines(all, 0));
    while i < names.len()
        invariant
            i <= names@.len(),
            all == text::texts(names@),
            s@ == old(s)@ + name_lines(all, i as int),
        decreases names@.len() - i,
    {
        s.append("  ");
        s.append(names[i].as_str());
        s.append("\n");
        assert(all[i as int] == names@[i as int]@);
        assert(s@ =~= old(s)@ + name_lines(all, i + 1));
        i = i + 1;
    }
}

fn early_ops() -> (ops: Vec<BootOp>)
    ensures
        meaning(ops@) == early(),
{
    let ops: Vec<BootOp> = vec![
        BootOp::Serial,
        say("HepOS kmain\n"),
        BootOp::Gdt,
        say("GDT loaded\n"),
        BootOp::Idt,
        say("IDT loaded\n"),
        BootOp::Memory,
        say("PMM init\n"),
        BootOp::Heap,
        say("Heap init\n"),
        BootOp::HeapTest,
        say("Heap smoke test OK\n"),
        BootOp::Splash,
        BootOp::Desktop,
        say("Terminal init\n"),
        BootOp::FindDevices,
    ];
    assert(meaning(ops@) =~= early());
    ops
}

fn late_ops() -> (ops: Vec<BootOp>)
    ensures
        meaning(ops@) == late(),
{
    let ops: Vec<BootOp> = vec![
        BootOp::Announce,
        say("Network init\n"),
        BootOp::Keyboard,
        BootOp::Mouse,
        BootOp::Usb,
        say("Input init\n"),
        say("Boot complete\n"),
        BootOp::Tasks,
        BootOp::TimerHandler { vector: TIMER_VECTOR },
        BootOp::Timer,
        say("APIC init\n"),
        BootOp::EnableInterrupts,
    ];
    assert(meaning(ops@) =~= late());
    ops
}

fn probed_ops(found: bool, root: u32) -> (ops: Vec<BootOp>)
    ensures
        meaning(ops@) == next(Phase::Probed, Outcome::Probed(found), root).1,
{
    let mut ops: Vec<BootOp> = Vec::new();
    if found {
        ops.push(say("HepFS found\n"));
    } else {
        ops.push(say("Formatting HepFS...\n"));
        ops.push(BootOp::Format);
        ops.push(say("HepFS formatted\n"));
    }
    ops.push(
        BootOp::Files(Request::CreateDir { parent: root, name: String::from_str("home") }),
    );
    ops.push(BootOp::Files(Request::CreateDir { parent: root, name: String::from_str("etc") }));
    ops.push(BootOp::Files(Request::Lookup { path: String::from_str("/home") }));
    assert(meaning(ops@) =~= next(Phase::Probed, Outcome::Probed(found), root).1);
    ops
}

fn manifest_data(t: &DateTime) -> (data: Vec<u8>)
    ensures
        data@ == vstd::utf8::encode_utf8(manifest(*t)),
{
    let mut buf: [u8; 11] = [0u8; 11];
    let date: String = rtc::fmt_date(t, &mut buf);
    let mut s: String = String::from_str("HepOS v0.1 | ");
    s.append(date.as_str());
    s.append(" | x86_64 exokernel\n");
    assert(s@ =~= manifest(*t));
    text::bytes_of(s.as_str())
}

impl Boot {
    /// A boot that has not begun.
    pub fn new(root: u32) -> (b: Boot)
        ensures
            b.phase == Phase::Start,
            b.root == root,
    {
        Boot { phase: Phase::Start, root }
    }

    /// Takes the outcome of the last operation and gives what is to be done, in
    /// order. The outcome of the last of them is wanted next.
    pub fn step(&mut self, event: Event) -> (ops: Vec<BootOp>)
        requires
            expects(old(self).phase, event@),
        ensures
            final(self).root == old(self).root,
            (final(self).phase, meaning(ops@)) == next(old(self).phase, event@, old(self).root),
    {
        let ghost goal = next(self.phase, event@, self.root);
        let root: u32 = self.root;
        let (phase, ops): (Phase, Vec<BootOp>) = match (self.phase, event) {
            (Phase::Start, Event::Begin) => (Phase::Devices, early_ops()),
            (Phase::Devices, Event::Devices(names)) => {
                let mut s: String = String::from_str("PCI devices:\n");
                push_names(&mut s, &names);
                (Phase::Disk, vec![BootOp::Say(s), BootOp::FindDisk])
            },
            (Phase::Disk, Event::Disk(None)) => (
                Phase::Card(Card::Rtl8139),
                vec![say("No NVMe device found\n"), BootOp::StartCard(Card::Rtl8139)],
            ),
            (Phase::Disk, Event::Disk(Some((count, size)))) => {
                let mut s: String = String::from_str("NVMe: ");
                text::push_dec(&mut s, count * size as u64 / 1024 / 1024);
                s.append(" MB  (");
                text::push_dec(&mut s, size as u64);
                s.append(" byte blocks)\n");
                assert(s@ =~= disk_line(count as nat, size as nat));
                (
                    Phase::Tested,
                    vec![say("NVMe ready\n"), BootOp::Say(s), BootOp::TestDisk { fill: 0xAB }],
                )
            },
            (Phase::Tested, Event::Tested(b)) => {
                if b == 0xAB {
                    (Phase::Probed, vec![say("NVMe R/W OK\n"), BootOp::Probe])
                } else {
                    (Phase::Probed, vec![say("NVMe R/W FAIL\n"), BootOp::Probe])
                }
            },
            (Phase::Probed, Event::Probed(found)) => (Phase::Home, probed_ops(found, root)),
            (Phase::Home, Event::Found(Some(parent))) => (
                Phase::Hello,
                vec![
                    BootOp::Files(
                        Request::CreateFile { parent, name: String::from_str("hello.txt") },
                    ),
                ],
            ),
            (Phase::Hello, Event::Made(ino)) => (
                Phase::ReadBack,
                vec![
                    BootOp::Files(
                        Request::Write { ino, data: text::bytes_of("Hello from HepOS!\n") },
                    ),
                    BootOp::Files(Request::Read { ino }),
                ],
            ),
            (Phase::ReadBack, Event::Data(data)) => {
                let s: String = match text::checked_text(&data) {
                    Some(s) => s,
                    None => String::from_str("?"),
                };
                (
                    Phase::Root,
                    vec![
                        say("Read back: "),
                        BootOp::Say(s),
                        BootOp::Files(Request::Names { ino: root }),
                    ],
                )
            },
            (Phase::Root, Event::Names(names)) => {
                let mut s: String = String::from_str("/ contents:\n");
                push_names(&mut s, &names);
                (
                    Phase::Manifest,
                    vec![
                        BootOp::Say(s),
                        BootOp::KeepDisk,
                        BootOp::Files(Request::Lookup { path: String::from_str("/kernel.txt") }),
                    ],
                )
            },
            (Phase::Manifest, Event::Found(Some(ino))) => (
                Phase::ManifestDate { ino },
                vec![BootOp::Files(Request::Clock)],
            ),
            (Phase::Manifest, Event::Found(None)) => (
                Phase::ManifestMade,
                vec![
                    BootOp::Files(
                        Request::CreateFile { parent: root, name: String::from_str("kernel.txt") },
                    ),
                ],
            ),
            (Phase::ManifestMade, Event::Made(ino)) => (
                Phase::ManifestDate { ino },
                vec![BootOp::Files(Request::Clock)],
            ),
            (Phase::ManifestDate { ino }, Event::Clock(t)) => (
                Phase::Card(Card::Rtl8139),
                vec![
                    BootOp::Files(Request::Write { ino, data: manifest_data(&t) }),
                    BootOp::StartCard(Card::Rtl8139),
                ],
            ),
            (Phase::Card(c), Event::CardUp(up)) => {
                if up || c == Card::Virtio {
                    (Phase::Done, late_ops())
                } else if c == Card::Rtl8139 {
                    (Phase::Card(Card::E1000), vec![BootOp::StartCard(Card::E1000)])
                } else {
                    (Phase::Card(Card::Virtio), vec![BootOp::StartCard(Card::Virtio)])
                }
            },
            (_, _) => (Phase::Done, Vec::new()),
        };
        self.phase = phase;
        assert(meaning(ops@) =~= goal.1);
        ops
    }
}

// ── The first session ───────────────────────────────────────────────────────

/// A new window.
pub open spec fn new_window(
    id: usize,
    title: Seq<char>,
    x: i32,
    y: i32,
    w: usize,
    h: usize,
    minimized: bool,
) -> desktop::WindowState {
    desktop::WindowState {
        id,
        title,
        x,
        y,
        w,
        h,
        minimized,
        content: Seq::new((w * h) as nat, |i: int| 0x141414u32),
        drag_off_x: 0,
        drag_off_y: 0,
        dragging: false,
        resizing: false,
    }
}

/// The desktop at boot: four windows, the editor's hidden.
pub open spec fn first_desktop(fb_w: usize, fb_h: usize) -> desktop::DesktopState {
    desktop::DesktopState {
        windows: seq![
            new_window(0, "Welcome to HepOS"@, 20, 50, 300, 160, false),
            new_window(1, "HepFS"@, 340, 50, 260, 160, false),
            new_window(2, "Terminal"@, 20, 240, 580, 200, false),
            new_window(3, "Editor"@, 60, 40, 580, 380, true),
        ],
        focused: Some(3),
        next_id: 4,
        fb_w,
        fb_h,
        prev_btn: 0,
        last_x: 0,
        last_y: 0,
        dirty: true,
        start_open: false,
    }
}

/// The session at boot: the terminal has the keys.
pub open spec fn first_session(fb_w: usize, fb_h: usize, root: u32) -> session::SessionState {
    session::SessionState {
        desktop: first_desktop(fb_w, fb_h),
        terminal: terminal::TerminalState::fresh(root),
        editor: None,
        nav: nav::NavState::fresh(root),
        root,
        focused: Some(TERMINAL),
        mx: 400,
        my: 300,
        buttons: 0,
        prev_buttons: 0,
        typed: false,
    }
}

/// Sets up the desktop, the terminal and the navigator.
pub fn start_session(fb_w: usize, fb_h: usize, root: u32) -> (s: Session)
    requires
        fb_w <= i32::MAX,
        fb_h <= i32::MAX,
    ensures
        s.wf(),
        s@ == first_session(fb_w, fb_h, root),
{
    let mut d: Desktop = Desktop::new(fb_w, fb_h);
    d.add_window("Welcome to HepOS", 20, 50, 300, 160);
    d.add_window("HepFS", 340, 50, 260, 160);
    d.add_window("Terminal", 20, 240, 580, 200);
    d.add_window("Editor", 60, 40, 580, 380);
    let t: Terminal = terminal::init(&mut d, root);
    proof {
        let ws = d@.windows;
        reveal_with_fuel(desktop::index_of, 5);
        assert(ws[0].id == 0 && ws[1].id == 1 && ws[2].id == 2 && ws[3].id == 3);
        assert(ws.drop_first()[0] == ws[1]);
        assert(ws.drop_first().drop_first()[0] == ws[2]);
        assert(ws.drop_first().drop_first().drop_first()[0] == ws[3]);
        assert(desktop::index_of(ws, EDITOR) == Some(3int));
    }
    d.set_minimized(EDITOR, true);
    assert(d@.windows =~= first_desktop(fb_w, fb_h).windows);
    Session {
        desktop: d,
        terminal: t,
        editor: None,
        nav: HepfsNav::new(root),
        root,
        focused: Some(TERMINAL),
        mx: 400,
        my: 300,
        buttons: 0,
        prev_buttons: 0,
        typed: false,
    }
}

// ── Laws ────────────────────────────────────────────────────────────────────

/// How many steps are left at most.
pub open spec fn rank(p: Phase) -> int {
    match p {
        Phase::Start => 16,
        Phase::Devices => 15,
        Phase::Disk => 14,
        Phase::Tested => 13,
        Phase::Probed => 12,
        Phase::Home => 11,
        Phase::Hello => 10,
        Phase::ReadBack => 9,
        Phase::Root => 8,
        Phase::Manifest => 7,
        Phase::ManifestMade => 6,
        Phase::ManifestDate { ino } => 5,
        Phase::Card(Card::Rtl8139) => 4,
        Phase::Card(Card::E1000) => 3,
        Phase::Card(Card::Virtio) => 2,
        Phase::Done => 0,
    }
}

/// Every step brings the boot nearer to its end.
pub proof fn law_boot_ends(p: Phase, e: Outcome, root: u32)
    requires
        expects(p, e),
    ensures
        rank(next(p, e, root).0) < rank(p),
{
}

/// The timer and the interrupts start last: before the boot is done nothing
/// starts them, and then they come after every device.
pub proof fn law_timer_last(p: Phase, e: Outcome, root: u32, i: int)
    requires
        expects(p, e),
        0 <= i < next(p, e, root).1.len(),
    ensures
        next(p, e, root).0 != Phase::Done ==> !(next(p, e, root).1[i] is Timer || next(
            p,
            e,
            root,
        ).1[i] is EnableInterrupts || next(p, e, root).1[i] is Tasks),
        next(p, e, root).0 == Phase::Done && (next(p, e, root).1[i] is Keyboard || next(
            p,
            e,
            root,
        ).1[i] is Mouse || next(p, e, root).1[i] is Usb) ==> i < 7 && next(p, e, root).1[9]
            == Op::Timer,
        next(p, e, root).0 == Phase::Done ==> next(p, e, root).1.last() == Op::EnableInterrupts,
{
}

/// The desktop and the terminal are there before interrupts are enabled: they
/// are set up in the very first step.
pub proof fn law_desktop_first(root: u32)
    ensures
        next(Phase::Start, Outcome::Begin, root).1.contains(Op::Desktop),
        !next(Phase::Start, Outcome::Begin, root).1.contains(Op::EnableInterrupts),
{
    assert(early()[13] == Op::Desktop);
}

/// A card is tried only after those before it failed, and once one is up no other
/// is started.
pub proof fn law_cards_in_turn(c: Card, up: bool, root: u32)
    ensures
        ({
            let n = next(Phase::Card(c), Outcome::CardUp(up), root);
            &&& up ==> n.0 == Phase::Done && forall|k: Card| !n.1.contains(Op::StartCard(k))
            &&& !up && c == Card::Rtl8139 ==> n.1 == seq![Op::StartCard(Card::E1000)]
            &&& !up && c == Card::E1000 ==> n.1 == seq![Op::StartCard(Card::Virtio)]
        }),
{
}

/// `/kernel.txt` is written at every boot that finds a disk: to the file that is
/// there, or else to one that is made.
pub proof fn law_manifest_written(found: Option<u32>, made: u32, t: DateTime, root: u32)
    ensures
        ({
            let ino = match found {
                Some(old) => old,
                None => made,
            };
            let looked = next(Phase::Manifest, Outcome::Found(found), root);
            let ready = match found {
                Some(_) => looked,
                None => next(looked.0, Outcome::Made(made), root),
            };
            &&& found is None ==> looked.1 == seq![
                Op::Files(protocol::Ask::CreateFile { parent: root, name: "kernel.txt"@ }),
            ]
            &&& ready == (Phase::ManifestDate { ino }, seq![Op::Files(protocol::Ask::Clock)])
            &&& next(ready.0, Outcome::Clock(t), root).1[0] == Op::Files(
                protocol::Ask::Write { ino, data: vstd::utf8::encode_utf8(manifest(t)) },
            )
        }),
{
}

/// What was written to `/home/hello.txt` is what is reported when it is read
/// back whole.
pub proof fn law_read_back(root: u32)
    ensures
        next(Phase::ReadBack, Outcome::Data(hello()), root).1[1] == Op::Say(
            "Hello from HepOS!\n"@,
        ),
{
    vstd::utf8::encode_utf8_valid_utf8("Hello from HepOS!\n"@);
    vstd::utf8::encode_utf8_decode_utf8("Hello from HepOS!\n"@);
}

/// Whether both stand in a list, and the one nowhere behind the other.
pub open spec fn before(ops: Seq<Op>, a: Op, b: Op) -> bool {
    &&& ops.contains(a)
    &&& ops.contains(b)
    &&& forall|i: int, j: int|
        0 <= i < ops.len() && 0 <= j < ops.len() && #[trigger] ops[i] == a && #[trigger] ops[j] == b
            ==> i < j
}

/// Whether a thing is done, and the message is the next thing.
pub open spec fn followed(ops: Seq<Op>, a: Op, message: Seq<char>) -> bool {
    exists|i: int| 0 <= i < ops.len() - 1 && #[trigger] ops[i] == a && ops[i + 1] == Op::Say(message)
}

/// What one thing needs of another is there: the port before any message, the tables of
/// the processor before memory, memory before the heap, the heap before anything lives on
/// it, and the desktop last. Each message follows what it tells of.
pub proof fn law_first_things_first(root: u32)
    ensures
        ({
            let ops = next(Phase::Start, Outcome::Begin, root).1;
            &&& ops[0] == Op::Serial
            &&& before(ops, Op::Gdt, Op::Idt)
            &&& before(ops, Op::Idt, Op::Memory)
            &&& before(ops, Op::Memory, Op::Heap)
            &&& before(ops, Op::Heap, Op::HeapTest)
            &&& before(ops, Op::HeapTest, Op::Splash)
            &&& before(ops, Op::Splash, Op::Desktop)
            &&& before(ops, Op::Desktop, Op::FindDevices)
            &&& followed(ops, Op::Serial, "HepOS kmain\n"@)
            &&& followed(ops, Op::Gdt, "GDT loaded\n"@)
            &&& followed(ops, Op::Idt, "IDT loaded\n"@)
            &&& followed(ops, Op::Memory, "PMM init\n"@)
            &&& followed(ops, Op::Heap, "Heap init\n"@)
            &&& followed(ops, Op::HeapTest, "Heap smoke test OK\n"@)
            &&& followed(ops, Op::Desktop, "Terminal init\n"@)
            &&& ops.last() == Op::FindDevices
        }),
{
    let ops = early();
    assert(ops[0] == Op::Serial && ops[2] == Op::Gdt && ops[4] == Op::Idt && ops[6] == Op::Memory
        && ops[8] == Op::Heap && ops[10] == Op::HeapTest && ops[12] == Op::Splash && ops[13]
        == Op::Desktop && ops[15] == Op::FindDevices);
}

/// With the network card settled the boot comes to its end: this machine is announced,
/// then keyboard, mouse and USB are started, then the tasks are made, the timer gets its
/// handler, is started, and interrupts are let in.
pub proof fn law_last_things_last(c: Card, up: bool, root: u32)
    requires
        up || c == Card::Virtio,
    ensures
        ({
            let ops = next(Phase::Card(c), Outcome::CardUp(up), root).1;
            let handler = Op::TimerHandler { vector: 32 };
            &&& ops[0] == Op::Announce
            &&& before(ops, Op::Announce, Op::Keyboard)
            &&& before(ops, Op::Keyboard, Op::Mouse)
            &&& before(ops, Op::Mouse, Op::Usb)
            &&& before(ops, Op::Usb, Op::Tasks)
            &&& before(ops, Op::Tasks, handler)
            &&& before(ops, handler, Op::Timer)
            &&& before(ops, Op::Timer, Op::EnableInterrupts)
            &&& followed(ops, Op::Announce, "Network init\n"@)
            &&& followed(ops, Op::Usb, "Input init\n"@)
            &&& followed(ops, Op::Say("Input init\n"@), "Boot complete\n"@)
            &&& followed(ops, Op::Timer, "APIC init\n"@)
        }),
{
    let ops = late();
    assert(ops[0] == Op::Announce && ops[2] == Op::Keyboard && ops[3] == Op::Mouse && ops[4]
        == Op::Usb && ops[5] == Op::Say("Input init\n"@) && ops[7] == Op::Tasks && ops[8]
        == Op::TimerHandler { vector: 32 } && ops[9] == Op::Timer && ops[11]
        == Op::EnableInterrupts);
}

/// The names of a list stand one below the other, each indented by two spaces: with one
/// more name there is one more line, below the others.
pub proof fn law_names_listed(names: Seq<Seq<char>>, name: Seq<char>, root: u32)
    ensures
        next(Phase::Devices, Outcome::Devices(seq![]), root).1[0] == Op::Say("PCI devices:\n"@),
        next(Phase::Devices, Outcome::Devices(names.push(name)), root).1[0] == Op::Say(
            next(Phase::Devices, Outcome::Devices(names), root).1[0]->Say_0 + seq![' ', ' '] + name
                + seq!['\n'],
        ),
        next(Phase::Root, Outcome::Names(seq![]), root).1[0] == Op::Say("/ contents:\n"@),
        next(Phase::Root, Outcome::Names(names.push(name)), root).1[0] == Op::Say(
            next(Phase::Root, Outcome::Names(names), root).1[0]->Say_0 + seq![' ', ' '] + name
                + seq!['\n'],
        ),
{
    reveal_strlit("  ");
    reveal_strlit("\n");
    assert("  "@ =~= seq![' ', ' ']);
    assert("\n"@ =~= seq!['\n']);
    let n = names.len() as int;
    let l = name_lines(names, n);
    lemma_lines_prefix(names, name, n);
    reveal_with_fuel(name_lines, 2);
    assert("PCI devices:\n"@ + Seq::<char>::empty() =~= "PCI devices:\n"@);
    assert("/ contents:\n"@ + Seq::<char>::empty() =~= "/ contents:\n"@);
    let m = l + "  "@ + name + "\n"@;
    assert(name_lines(names.push(name), n + 1) == m);
    assert("PCI devices:\n"@ + m =~= "PCI devices:\n"@ + l + seq![' ', ' '] + name + seq!['\n']);
    assert("/ contents:\n"@ + m =~= "/ contents:\n"@ + l + seq![' ', ' '] + name + seq!['\n']);
}

proof fn lemma_lines_prefix(names: Seq<Seq<char>>, name: Seq<char>, n: int)
    requires
        0 <= n <= names.len(),
    ensures
        name_lines(names.push(name), n) == name_lines(names, n),
    decreases n,
{
    if n > 0 {
        lemma_lines_prefix(names, name, n - 1);
    }
}

/// Without a disk nothing is asked of a file system. With one, it is tested by a block
/// filled with a byte, and passes when that very byte is read back; then a file system is
/// looked for.
pub proof fn law_disk_tested(count: u64, size: u32, read: u8, root: u32)
    requires
        count * size <= u64::MAX,
    ensures
        ({
            let none = next(Phase::Disk, Outcome::Disk(None), root);
            let some = next(Phase::Disk, Outcome::Disk(Some((count, size))), root);
            let tested = next(some.0, Outcome::Tested(read), root);
            &&& none.0 == Phase::Card(Card::Rtl8139)
            &&& none.1 == seq![
                Op::Say("No NVMe device found\n"@),
                Op::StartCard(Card::Rtl8139),
            ]
            &&& some.1[0] == Op::Say("NVMe ready\n"@)
            &&& some.1.last() matches Op::TestDisk { fill } && tested.1 == seq![
                Op::Say(
                    if read == fill {
                        "NVMe R/W OK\n"@
                    } else {
                        "NVMe R/W FAIL\n"@
                    },
                ),
                Op::Probe,
            ] && fill != 0
            &&& expects(tested.0, Outcome::Probed(true))
        }),
{
}

/// The disk's size is told in whole megabytes, with that of a block.
pub proof fn law_disk_size(count: u64, size: u32, mb: nat, root: u32)
    requires
        count * size <= u64::MAX,
        mb * 1_048_576 <= count * size < (mb + 1) * 1_048_576,
    ensures
        next(Phase::Disk, Outcome::Disk(Some((count, size))), root).1[1] == Op::Say(
            "NVMe: "@ + text::dec(mb) + " MB  ("@ + text::dec(size as nat) + " byte blocks)\n"@,
        ),
{
    let b = (count as nat * size as nat) as nat;
    assert(b == count * size);
    assert(b / 1024 / 1024 == mb) by {
        assert(b / 1024 / 1024 == b / 1_048_576);
    }
}

/// A disk without a file system gets one, and one that has one keeps it; then there are
/// two directories in the root, and a greeting in the first of them, which is written and
/// read back.
pub proof fn law_files_made(found: bool, home: u32, made: u32, root: u32)
    ensures
        ({
            let probed = next(Phase::Probed, Outcome::Probed(found), root);
            let ops = probed.1;
            let n = ops.len() as int;
            let in_home = next(probed.0, Outcome::Found(Some(home)), root);
            let written = next(in_home.0, Outcome::Made(made), root);
            let bytes = vstd::utf8::encode_utf8("Hello from HepOS!\n"@);
            &&& ops.contains(Op::Format) <==> !found
            &&& found ==> ops[0] == Op::Say("HepFS found\n"@)
            &&& !found ==> ops[0] == Op::Say("Formatting HepFS...\n"@) && ops[1] == Op::Format
                && ops[2] == Op::Say("HepFS formatted\n"@)
            &&& ops[n - 3] == Op::Files(
                protocol::Ask::CreateDir { parent: root, name: "home"@ },
            )
            &&& ops[n - 2] == Op::Files(protocol::Ask::CreateDir { parent: root, name: "etc"@ })
            &&& ops[n - 1] == Op::Files(
                protocol::Ask::Lookup { path: text::join_path(seq!['/'], "home"@) },
            )
            &&& in_home.1 == seq![
                Op::Files(protocol::Ask::CreateFile { parent: home, name: "hello.txt"@ }),
            ]
            &&& written.1 == seq![
                Op::Files(protocol::Ask::Write { ino: made, data: bytes }),
                Op::Files(protocol::Ask::Read { ino: made }),
            ]
            &&& expects(written.0, Outcome::Data(bytes))
        }),
{
    reveal_strlit("home");
    reveal_strlit("/home");
    assert("/home"@ =~= seq!['/'] + "home"@);
    let ops = next(Phase::Probed, Outcome::Probed(found), root).1;
    assert(!found ==> ops[1] == Op::Format);
}

/// What was read back is shown; then the root is listed, the disk is handed on and the
/// manifest in the root is looked for.
pub proof fn law_disk_handed_on(data: Seq<u8>, names: Seq<Seq<char>>, root: u32)
    ensures
        ({
            let shown = next(Phase::ReadBack, Outcome::Data(data), root);
            let listed = next(shown.0, Outcome::Names(names), root);
            &&& shown.1[0] == Op::Say("Read back: "@)
            &&& !vstd::utf8::valid_utf8(data) ==> shown.1[1] == Op::Say("?"@)
            &&& shown.1.last() == Op::Files(protocol::Ask::Names { ino: root })
            &&& listed.1[1] == Op::KeepDisk
            &&& listed.1.last() == Op::Files(
                protocol::Ask::Lookup { path: text::join_path(seq!['/'], "kernel.txt"@) },
            )
            &&& expects(listed.0, Outcome::Found(None))
        }),
{
    reveal_strlit("kernel.txt");
    reveal_strlit("/kernel.txt");
    assert("/kernel.txt"@ =~= seq!['/'] + "kernel.txt"@);
}

/// The windows that the desktop begins with: the welcome, the files, the terminal and the
/// editor, whose numbers are the places the rest of the kernel knows them by. All fit on
/// the smallest screen, above its taskbar, and those that are shown do not overlap.
pub proof fn law_first_windows(fb_w: usize, fb_h: usize, root: u32)
    ensures
        ({
            let s = first_session(fb_w, fb_h, root);
            let ws = s.desktop.windows;
            &&& ws.len() == 4
            &&& ws[0].x == 20 && ws[0].y == 50 && ws[0].w == 300 && ws[0].h == 160
            &&& ws[1].x == 340 && ws[1].y == 50 && ws[1].w == 260 && ws[1].h == 160
            &&& ws[2].x == 20 && ws[2].y == 240 && ws[2].w == 580 && ws[2].h == 200
            &&& ws[3].x == 60 && ws[3].y == 40 && ws[3].w == 580 && ws[3].h == 380
            &&& s.mx == 400 && s.my == 300 && s.buttons == 0
            &&& ws[0].title == "Welcome to HepOS"@
            &&& ws[1].title == "HepFS"@
            &&& ws[2].title == "Terminal"@
            &&& ws[3].title == "Editor"@
            &&& forall|i: int| 0 <= i < 4 ==> (#[trigger] ws[i]).id == i
            &&& forall|i: int|
                0 <= i < 4 ==> 0 <= (#[trigger] ws[i]).x && ws[i].x + ws[i].w <= 640 && 0 <= ws[i].y
                    && ws[i].y + ws[i].h <= 480 - 32
            &&& forall|i: int, j: int|
                0 <= i < j < 3 ==> (#[trigger] ws[i]).x + ws[i].w <= (#[trigger] ws[j]).x || ws[i].y
                    + ws[i].h <= ws[j].y
            &&& forall|i: int| 0 <= i < 4 ==> ((#[trigger] ws[i]).minimized <==> i == 3)
            &&& s.focused matches Some(f) && ws[f as int].title == "Terminal"@
            &&& s.editor is None
            &&& s.nav.here.ino == root && s.nav.here.path == seq!['/'] && s.nav.back.len() == 0
                && s.nav.fwd.len() == 0
            &&& s.terminal.cwd_ino == root && s.terminal.cwd == seq!['/']
            &&& s.desktop.fb_w == fb_w && s.desktop.fb_h == fb_h && s.desktop.dirty
                && !s.desktop.start_open
        }),
{
    reveal_strlit("/");
    assert("/"@ =~= seq!['/']);
}

} // verus!
