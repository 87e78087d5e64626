//! The terminal: a line of input with a history, and the shell behind it.
//! Commands that need the disk, the clock or the network go on in steps: the
//! terminal asks, the kernel answers, and the terminal prints.
use vstd::prelude::*;
use crate::desktop::Desktop;
use crate::complete::Topic;
use crate::display::{Color, Display};
use crate::protocol::{
    DirEntry, NameEntry, NicRegs, PciConfig, PciLine, Reply, Request, RxState,
};
use crate::ps2::{KEY_DOWN, KEY_UP};
use crate::rtc::DateTime;
use crate::screen::{ScreenBuf, COLS, CURSOR, DIM, ERR, OK, TEXT};
use crate::shell::{Command, Words};
use crate::{
    complete, desktop, display, nic, pci, protocol, rtc, screen, shell, terminal_laws, text,
};

verus! {

/// Commands that the history keeps.
pub const HISTORY: usize = 50;

/// Where the network card's registers lie when it is started by hand.
pub const NIC_BAR: u64 = 0xFEBC_0000;

/// Why a name is being looked up.
pub enum Goal {
    Ls,
    Cd { name: String },
    Cat,
    Write { name: String, data: Vec<u8> },
    /// The file that is copied or moved.
    Copy { job: Job },
    /// The file that the copy goes to.
    Paste { job: Job, from: u32, data: Vec<u8> },
}

/// What `cp` or `mv` does.
pub struct Job {
    pub src: String,
    pub dst: String,
    /// Whether the file leaves its old place.
    pub moving: bool,
}

/// What `cp` or `mv` does, as contracts speak of it.
pub struct JobText {
    pub src: Seq<char>,
    pub dst: Seq<char>,
    pub moving: bool,
}

impl View for Job {
    type V = JobText;

    open spec fn view(&self) -> JobText {
        JobText { src: self.src@, dst: self.dst@, moving: self.moving }
    }
}

/// How far `cp` or `mv` has come: what it waits for.
pub enum Stage {
    /// Whether the source is a directory.
    Source { from: u32 },
    /// What the source holds.
    Read { from: u32 },
    /// Whether the destination is a directory.
    Target { ino: u32, data: Vec<u8> },
    /// The directory of a new destination.
    Place { data: Vec<u8> },
    /// The new destination.
    Create { data: Vec<u8> },
    /// The end of the writing.
    Write,
    /// The directory that a moved file leaves.
    Leave,
    /// The end of the old name.
    Remove,
}

/// How far `cp` or `mv` has come, as contracts speak of it.
pub enum At {
    Source { from: u32 },
    Read { from: u32 },
    Target { ino: u32, data: Seq<u8> },
    Place { data: Seq<u8> },
    Create { data: Seq<u8> },
    Write,
    Leave,
    Remove,
}

impl View for Stage {
    type V = At;

    open spec fn view(&self) -> At {
        match self {
            Stage::Source { from } => At::Source { from: *from },
            Stage::Read { from } => At::Read { from: *from },
            Stage::Target { ino, data } => At::Target { ino: *ino, data: data@ },
            Stage::Place { data } => At::Place { data: data@ },
            Stage::Create { data } => At::Create { data: data@ },
            Stage::Write => At::Write,
            Stage::Leave => At::Leave,
            Stage::Remove => At::Remove,
        }
    }
}

/// Why a name is being looked up, as contracts speak of it.
pub enum Aim {
    Ls,
    Cd { name: Seq<char> },
    Cat,
    Write { name: Seq<char>, data: Seq<u8> },
    Copy { job: JobText },
    Paste { job: JobText, from: u32, data: Seq<u8> },
}

impl View for Goal {
    type V = Aim;

    open spec fn view(&self) -> Aim {
        match self {
            Goal::Ls => Aim::Ls,
            Goal::Cd { name } => Aim::Cd { name: name@ },
            Goal::Cat => Aim::Cat,
            Goal::Write { name, data } => Aim::Write { name: name@, data: data@ },
            Goal::Copy { job } => Aim::Copy { job: job@ },
            Goal::Paste { job, from, data } => Aim::Paste { job: job@, from: *from, data: data@ },
        }
    }
}

/// What the terminal waits for.
pub enum Pending {
    /// Keys.
    Idle,
    /// The inode of a path.
    Resolve { goal: Goal },
    /// The names in the working directory.
    Search { goal: Goal, name: String },
    List,
    CdUp { path: String },
    CdKind { ino: u32, name: String },
    CatRead,
    Made,
    Touched,
    Rm,
    WriteCreate { data: Vec<u8> },
    Written,
    /// What `cp` or `mv` needs next.
    Copy { job: Job, at: Stage },
    /// The names that a word may be completed to.
    Complete,
    Date,
    Sysinfo,
    Mem,
    Ring,
    NicStart,
    Announced,
    Config,
    Regs,
    Devices,
    Address,
    Ping,
    Edit,
    /// The machine stops.
    Halt,
}

/// What the terminal waits for, as contracts speak of it.
pub enum Wait {
    Idle,
    Resolve { goal: Aim },
    Search { goal: Aim, name: Seq<char> },
    List,
    CdUp { path: Seq<char> },
    CdKind { ino: u32, name: Seq<char> },
    CatRead,
    Made,
    Touched,
    Rm,
    WriteCreate { data: Seq<u8> },
    Written,
    Copy { job: JobText, at: At },
    Complete,
    Date,
    Sysinfo,
    Mem,
    Ring,
    NicStart,
    Announced,
    Config,
    Regs,
    Devices,
    Address,
    Ping,
    Edit,
    Halt,
}

impl View for Pending {
    type V = Wait;

    open spec fn view(&self) -> Wait {
        match self {
            Pending::Idle => Wait::Idle,
            Pending::Resolve { goal } => Wait::Resolve { goal: goal@ },
            Pending::Search { goal, name } => Wait::Search { goal: goal@, name: name@ },
            Pending::List => Wait::List,
            Pending::CdUp { path } => Wait::CdUp { path: path@ },
            Pending::CdKind { ino, name } => Wait::CdKind { ino: *ino, name: name@ },
            Pending::CatRead => Wait::CatRead,
            Pending::Made => Wait::Made,
            Pending::Touched => Wait::Touched,
            Pending::Rm => Wait::Rm,
            Pending::WriteCreate { data } => Wait::WriteCreate { data: data@ },
            Pending::Written => Wait::Written,
            Pending::Copy { job, at } => Wait::Copy { job: job@, at: at@ },
            Pending::Complete => Wait::Complete,
            Pending::Date => Wait::Date,
            Pending::Sysinfo => Wait::Sysinfo,
            Pending::Mem => Wait::Mem,
            Pending::Ring => Wait::Ring,
            Pending::NicStart => Wait::NicStart,
            Pending::Announced => Wait::Announced,
            Pending::Config => Wait::Config,
            Pending::Regs => Wait::Regs,
            Pending::Devices => Wait::Devices,
            Pending::Address => Wait::Address,
            Pending::Ping => Wait::Ping,
            Pending::Edit => Wait::Edit,
            Pending::Halt => Wait::Halt,
        }
    }
}

/// The terminal.
pub struct Terminal {
    screen: ScreenBuf,
    dirty: bool,
    cmd_buf: String,
    behind: usize,
    prompt_row: usize,
    root_ino: u32,
    cwd_ino: u32,
    cwd_path: String,
    history: Vec<String>,
    history_idx: Option<usize>,
    pending: Pending,
}

/// What contracts say of the terminal.
pub struct TerminalState {
    pub screen: screen::Screen,
    pub dirty: bool,
    /// The line being typed.
    pub cmd: Seq<char>,
    /// How many of its characters stand behind the cursor.
    pub behind: int,
    pub prompt_row: int,
    pub root: u32,
    pub cwd_ino: u32,
    pub cwd: Seq<char>,
    pub history: Seq<Seq<char>>,
    pub history_idx: Option<usize>,
    pub wait: Wait,
}

/// What a key or an answer leads to: the terminal's new state and its request.
pub struct Step {
    pub t: TerminalState,
    pub ask: protocol::Ask,
}

// ── Lines of text ───────────────────────────────────────────────────────────

/// `XX:XX:XX:XX:XX:XX`.
pub open spec fn mac_text(mac: Seq<u8>) -> Seq<char> {
    text::hex(mac[0] as nat, 2) + ":"@ + text::hex(mac[1] as nat, 2) + ":"@ + text::hex(
        mac[2] as nat,
        2,
    ) + ":"@ + text::hex(mac[3] as nat, 2) + ":"@ + text::hex(mac[4] as nat, 2) + ":"@ + text::hex(
        mac[5] as nat,
        2,
    )
}

/// `a.b.c.d`.
pub open spec fn ip_text(ip: Seq<u8>) -> Seq<char> {
    text::dec(ip[0] as nat) + "."@ + text::dec(ip[1] as nat) + "."@ + text::dec(ip[2] as nat)
        + "."@ + text::dec(ip[3] as nat)
}

/// One receive descriptor.
pub open spec fn ring_line(i: int, s: RxState) -> Seq<char> {
    "  desc["@ + text::dec(i as nat) + "]: status="@ + text::hex(s.status as nat, 2) + " len="@
        + text::dec(s.len as nat) + "\n"@
}

/// One device.
pub open spec fn device_line(d: protocol::Device) -> Seq<char> {
    text::hex(d.bus as nat, 2) + ":"@ + text::hex(d.dev as nat, 2) + "."@ + text::dec(
        d.func as nat,
    ) + " "@ + text::hex(d.vendor_id as nat, 4) + ":"@ + text::hex(d.device_id as nat, 4) + " "@
        + d.class_name + "\n"@
}

/// The inode of the first entry of this name.
pub open spec fn find_ino(es: Seq<(u32, Seq<char>)>, name: Seq<char>) -> Option<u32>
    decreases es.len(),
{
    if es.len() == 0 {
        None
    } else if es[0].1 == name {
        Some(es[0].0)
    } else {
        find_ino(es.drop_first(), name)
    }
}

/// The names of some entries.
pub open spec fn names_in(es: Seq<(u32, Seq<char>)>) -> Seq<Seq<char>> {
    es.map_values(|e: (u32, Seq<char>)| e.1)
}

/// The history with a command added; only the last fifty stay.
pub open spec fn remember(history: Seq<Seq<char>>, cmd: Seq<char>) -> Seq<Seq<char>> {
    if cmd.len() == 0 {
        history
    } else if history.len() + 1 > HISTORY {
        history.push(cmd).drop_first()
    } else {
        history.push(cmd)
    }
}

/// The answer is one about the bus or the network.
pub open spec fn about_network(w: Wait) -> bool {
    match w {
        Wait::Ring => true,
        Wait::NicStart => true,
        Wait::Announced => true,
        Wait::Config => true,
        Wait::Regs => true,
        Wait::Devices => true,
        Wait::Address => true,
        Wait::Ping => true,
        _ => false,
    }
}

/// The answer is one about the machine, not about files or names.
pub open spec fn about_machine(w: Wait) -> bool {
    about_network(w) || w is Date || w is Sysinfo || w is Mem || w is Edit
}

/// ASCII without control characters, or only with the one that is never shown.
pub open spec fn printable(s: Seq<char>) -> bool {
    forall|i: int| 0 <= i < s.len() ==> ' ' <= #[trigger] s[i] <= '\u{7f}'
}

/// Printable text that fits on the line.
pub open spec fn is_plain(s: Seq<char>) -> bool {
    s.len() <= 28 && printable(s)
}

/// The line can hold `rest` behind `cmd`: each of its characters is one that a key
/// types, and there is room for all of them.
pub open spec fn can_hold(cmd: Seq<char>, rest: Seq<char>) -> bool {
    &&& forall|i: int| 0 <= i < rest.len() ==> ' ' <= #[trigger] rest[i] <= '\u{ff}'
    &&& vstd::utf8::encode_utf8(cmd + rest).len() <= 28
}

/// The keys of ASCII, and the arrows up and down.
pub open spec fn plain_key(b: u8) -> bool {
    b < 128 || b == KEY_UP || b == KEY_DOWN
}

/// Where a word waits to be completed, the names to choose from are printable.
pub open spec fn plain_answer(wait: Wait, a: protocol::Answer) -> bool {
    wait is Complete && a is Names ==> forall|i: int|
        0 <= i < a->Names_0.len() ==> printable((#[trigger] a->Names_0[i]).1)
}

// ── The terminal's behaviour ────────────────────────────────────────────────

impl TerminalState {
    pub open spec fn wf(self) -> bool {
        &&& self.screen.wf()
        &&& self.history.len() <= HISTORY
        &&& forall|i: int|
            0 <= i < self.history.len() ==> (#[trigger] self.history[i]).len() > 0 && shell::trim(
                self.history[i],
            ) == self.history[i]
        &&& self.history_idx matches Some(i) ==> i < self.history.len()
        &&& 0 <= self.behind <= self.cmd.len()
    }

    /// The line and the history hold ASCII without control characters, and no more
    /// of it than a line takes.
    pub open spec fn plain(self) -> bool {
        &&& is_plain(self.cmd)
        &&& forall|i: int| 0 <= i < self.history.len() ==> is_plain(#[trigger] self.history[i])
    }

    /// A terminal that was just opened.
    pub open spec fn fresh(root: u32) -> TerminalState {
        (TerminalState {
            screen: screen::Screen::empty(),
            dirty: true,
            cmd: ""@,
            behind: 0,
            prompt_row: 0,
            root,
            cwd_ino: root,
            cwd: "/"@,
            history: seq![],
            history_idx: None,
            wait: Wait::Idle,
        }).say("HepOS Terminal v0.1\n"@, OK).say("Type 'help' for commands\n\n"@, DIM).prompt()
    }

    /// Text printed.
    pub open spec fn say(self, s: Seq<char>, hex: u32) -> TerminalState {
        TerminalState { screen: self.screen.print(s, hex), dirty: true, ..self }
    }

    /// The prompt: the working directory and a dollar sign.
    pub open spec fn prompt(self) -> TerminalState {
        let t = self.say(self.cwd + " $ "@, CURSOR);
        TerminalState { prompt_row: t.screen.row, ..t }
    }

    /// The command is over: a new prompt.
    pub open spec fn done(self) -> Step {
        Step { t: TerminalState { wait: Wait::Idle, ..self.prompt() }, ask: protocol::Ask::Done }
    }

    /// The command goes on when the answer comes.
    pub open spec fn asks(self, wait: Wait, ask: protocol::Ask) -> Step {
        Step { t: TerminalState { wait, ..self }, ask }
    }

    /// A name looked up: from the root, or in the working directory.
    pub open spec fn resolve(self, goal: Aim, name: Seq<char>) -> Step {
        if name.len() > 0 && name[0] == '/' {
            self.asks(Wait::Resolve { goal }, protocol::Ask::Lookup { path: name })
        } else {
            self.asks(Wait::Search { goal, name }, protocol::Ask::Names { ino: self.cwd_ino })
        }
    }

    pub open spec fn help_line(self, t: complete::TopicText) -> TerminalState {
        self.say("  "@, DIM).say(t.name + t.args, TEXT).say(" - "@, DIM).say(t.desc, TEXT).say(
            "\n"@,
            TEXT,
        )
    }

    /// The first `n` commands explained.
    pub open spec fn help_lines(self, ts: Seq<complete::TopicText>, n: int) -> TerminalState
        decreases n,
    {
        if n <= 0 {
            self
        } else {
            self.help_lines(ts, n - 1).help_line(ts[n - 1])
        }
    }

    /// All commands explained.
    pub open spec fn help(self) -> TerminalState {
        self.say("Commands:\n"@, OK).help_lines(
            complete::topics(),
            complete::topics().len() as int,
        )
    }

    /// The first `n` commands of the history, numbered.
    pub open spec fn list_history(self, n: int) -> TerminalState
        decreases n,
    {
        if n <= 0 {
            self
        } else {
            self.list_history(n - 1).say(
                text::pad_left(text::dec(n as nat), 3) + "  "@,
                DIM,
            ).say(self.history[n - 1], TEXT).say("\n"@, TEXT)
        }
    }

    pub open spec fn fact(self, name: Seq<char>, value: Seq<char>) -> TerminalState {
        self.say(name, DIM).say(value, TEXT)
    }

    pub open spec fn sysinfo_head(self) -> TerminalState {
        self.say("=== HepOS Kernel Info ===\n"@, OK).fact("Kernel:    "@, "HepOS v0.1\n"@).fact(
            "Arch:      "@,
            "x86_64\n"@,
        ).fact("Type:      "@, "Exokernel (Rust)\n"@).fact(
            "Boot:      "@,
            "Limine v9 (BIOS)\n"@,
        ).fact("Language:  "@, "Rust (no_std + alloc)\n"@).fact(
            "Heap:      "@,
            "Bump allocator 1MB\n"@,
        ).fact("Sched:     "@, "Preemptive round-robin\n"@).fact(
            "APIC:      "@,
            "x2APIC (MSR-mode)\n"@,
        ).fact("FS:        "@, "HepFS (flat inode, 4KB blocks)\n"@).fact(
            "Display:   "@,
            "GOP framebuffer, software render\n"@,
        ).fact("Storage:   "@, "NVMe (custom driver)\n"@)
    }

    pub open spec fn sysinfo_tail(self, free: u64, total: u64) -> TerminalState {
        self.say("RAM:       "@, DIM).say(text::dec((free * 4 / 1024) as nat), TEXT).say(
            " MB free / "@,
            TEXT,
        ).say(text::dec((total * 4 / 1024) as nat), TEXT).say(" MB total\n"@, TEXT).say(
            "=========================\n"@,
            DIM,
        ).say("Source: github.com/The-Hep-Group/HepOS\n"@, DIM)
    }

    pub open spec fn memory(self, free: u64, total: u64) -> TerminalState {
        self.say("RAM: "@, DIM).say(text::dec((free * 4) as nat), TEXT).say(
            " KB free / "@,
            TEXT,
        ).say(text::dec((total * 4) as nat), TEXT).say(" KB total\n"@, TEXT)
    }

    /// `cd`: to the root, to the parent directory, or to a directory named.
    pub open spec fn change_dir(self, arg: Seq<char>) -> Step {
        if arg == "/"@ {
            (TerminalState { cwd_ino: self.root, cwd: "/"@, ..self }).done()
        } else if arg == ".."@ {
            self.asks(
                Wait::CdUp { path: shell::parent(self.cwd) },
                protocol::Ask::Lookup { path: shell::parent(self.cwd) },
            )
        } else {
            self.resolve(Aim::Cd { name: arg }, arg)
        }
    }

    /// `ping` of an address of four bytes with dots between them.
    pub open spec fn ping(self, arg: Seq<char>) -> Step {
        if arg.len() == 0 {
            self.say("usage: ping <ip>\n"@, ERR).done()
        } else if shell::dot_parts(arg).len() != 4 {
            self.say("ping: invalid IP address\n"@, ERR).done()
        } else {
            self.say("PING "@ + arg + "\n"@, DIM).asks(
                Wait::Ping,
                protocol::Ask::Ping {
                    ip: Seq::new(4, |i: int| shell::octet(shell::dot_parts(arg)[i]) as u8),
                },
            )
        }
    }

    /// `cp` or `mv` gives up.
    pub open spec fn refuses(self, job: JobText, why: Seq<char>) -> Step {
        self.say(
            (if job.moving {
                "mv: "@
            } else {
                "cp: "@
            }) + why,
            ERR,
        ).done()
    }

    /// `cp` and `mv`: the file is looked up.
    pub open spec fn copy(self, job: JobText) -> Step {
        if job.src.len() == 0 || job.dst.len() == 0 {
            self.say(
                if job.moving {
                    "usage: mv <src> <dst>\n"@
                } else {
                    "usage: cp <src> <dst>\n"@
                },
                ERR,
            ).done()
        } else {
            self.resolve(Aim::Copy { job }, job.src)
        }
    }

    /// The destination is new: it is made in the working directory, or, for a path
    /// from the root, in the path's directory.
    pub open spec fn places(self, job: JobText, data: Seq<u8>) -> Step {
        let name = shell::base(job.dst);
        if job.dst.len() == 0 || job.dst[0] != '/' {
            self.asks(
                Wait::Copy { job, at: At::Create { data } },
                protocol::Ask::CreateFile { parent: self.cwd_ino, name: job.dst },
            )
        } else if name.len() == 0 {
            self.refuses(job, "no such directory\n"@)
        } else if shell::parent(job.dst) == seq!['/'] {
            self.asks(
                Wait::Copy { job, at: At::Create { data } },
                protocol::Ask::CreateFile { parent: self.root, name },
            )
        } else {
            self.asks(
                Wait::Copy { job, at: At::Place { data } },
                protocol::Ask::Lookup { path: shell::parent(job.dst) },
            )
        }
    }

    /// The copy is written; a moved file leaves its directory.
    pub open spec fn pasted(self, job: JobText) -> Step {
        if !job.moving {
            self.say("copied\n"@, OK).done()
        } else if job.src.len() == 0 || job.src[0] != '/' {
            self.asks(
                Wait::Copy { job, at: At::Remove },
                protocol::Ask::Remove { parent: self.cwd_ino, name: job.src },
            )
        } else if shell::parent(job.src) == seq!['/'] {
            self.asks(
                Wait::Copy { job, at: At::Remove },
                protocol::Ask::Remove { parent: self.root, name: shell::base(job.src) },
            )
        } else {
            self.asks(
                Wait::Copy { job, at: At::Leave },
                protocol::Ask::Lookup { path: shell::parent(job.src) },
            )
        }
    }

    /// The answer is one that `cp` or `mv` waits for.
    pub open spec fn fits(at: At, a: protocol::Answer) -> bool {
        match at {
            At::Source { from } => a is Kind,
            At::Read { from } => a is Data,
            At::Target { ino, data } => a is Kind,
            At::Place { data } => a is Found,
            At::Create { data } => a is Created,
            At::Write => a is Done,
            At::Leave => a is Found,
            At::Remove => a is Removed,
        }
    }

    /// `cp` or `mv` after an answer. Directories are neither copied nor written over.
    pub open spec fn copies(self, job: JobText, at: At, a: protocol::Answer) -> Step {
        match at {
            At::Source { from } => if a->Kind_0 {
                self.refuses(job, "is a directory\n"@)
            } else {
                self.asks(
                    Wait::Copy { job, at: At::Read { from } },
                    protocol::Ask::Read { ino: from },
                )
            },
            At::Read { from } => self.resolve(Aim::Paste { job, from, data: a->Data_0 }, job.dst),
            At::Target { ino, data } => if a->Kind_0 {
                self.refuses(job, "is a directory\n"@)
            } else {
                self.asks(Wait::Copy { job, at: At::Write }, protocol::Ask::Write { ino, data })
            },
            At::Place { data } => match a->Found_0 {
                None => self.refuses(job, "no such directory\n"@),
                Some(parent) => self.asks(
                    Wait::Copy { job, at: At::Create { data } },
                    protocol::Ask::CreateFile { parent, name: shell::base(job.dst) },
                ),
            },
            At::Create { data } => self.asks(
                Wait::Copy { job, at: At::Write },
                protocol::Ask::Write { ino: a->Created_0, data },
            ),
            At::Write => self.pasted(job),
            At::Leave => match a->Found_0 {
                None => self.refuses(job, "source not removed\n"@),
                Some(parent) => self.asks(
                    Wait::Copy { job, at: At::Remove },
                    protocol::Ask::Remove { parent, name: shell::base(job.src) },
                ),
            },
            At::Remove => if a->Removed_0 {
                self.say("moved\n"@, OK).done()
            } else {
                self.refuses(job, "source not removed\n"@)
            },
        }
    }

    /// The command line `cmd` carried out, as far as it goes without an answer.
    pub open spec fn execute(self, cmd: Seq<char>) -> Step {
        let verb = shell::verb_of(cmd);
        let arg1 = shell::arg1_of(cmd);
        let arg2 = shell::arg2_of(cmd);
        match shell::command_of(verb) {
            Command::Empty => self.done(),
            Command::Help => self.help().done(),
            Command::Clear => (TerminalState { screen: screen::Screen::empty(), ..self }).done(),
            Command::Pwd => self.say(self.cwd, OK).say("\n"@, TEXT).done(),
            Command::Ls => if arg1.len() == 0 {
                self.asks(Wait::List, protocol::Ask::Listing { ino: self.cwd_ino })
            } else {
                self.resolve(Aim::Ls, arg1)
            },
            Command::Cd => self.change_dir(arg1),
            Command::Cat => if arg1.len() == 0 {
                self.say("usage: cat <file>\n"@, ERR).done()
            } else {
                self.resolve(Aim::Cat, arg1)
            },
            Command::Mkdir => if arg1.len() == 0 {
                self.say("usage: mkdir <name>\n"@, ERR).done()
            } else {
                self.asks(
                    Wait::Made,
                    protocol::Ask::CreateDir { parent: self.cwd_ino, name: arg1 },
                )
            },
            Command::Touch => if arg1.len() == 0 {
                self.say("usage: touch <name>\n"@, ERR).done()
            } else {
                self.asks(
                    Wait::Touched,
                    protocol::Ask::CreateFile { parent: self.cwd_ino, name: arg1 },
                )
            },
            Command::Rm => if arg1.len() == 0 {
                self.say("usage: rm <name>\n"@, ERR).done()
            } else {
                self.asks(Wait::Rm, protocol::Ask::Remove { parent: self.cwd_ino, name: arg1 })
            },
            Command::Write => if arg1.len() == 0 || arg2.len() == 0 {
                self.say("usage: write <file> <content>\n"@, ERR).done()
            } else {
                self.resolve(
                    Aim::Write { name: arg1, data: vstd::utf8::encode_utf8(arg2) },
                    arg1,
                )
            },
            Command::Cp => self.copy(JobText { src: arg1, dst: arg2, moving: false }),
            Command::Mv => self.copy(JobText { src: arg1, dst: arg2, moving: true }),
            Command::History => self.list_history(self.history.len() as int).done(),
            Command::Date => self.asks(Wait::Date, protocol::Ask::Clock),
            Command::Sysinfo => self.sysinfo_head().asks(Wait::Sysinfo, protocol::Ask::Memory),
            Command::Uname => self.say("HepOS"@, CURSOR).say(
                " v0.1  x86_64 exokernel  HepFS\n"@,
                TEXT,
            ).done(),
            Command::Mem => self.asks(Wait::Mem, protocol::Ask::Memory),
            Command::Netpoll => self.say("Scanning RX descriptors...\n"@, DIM).asks(
                Wait::Ring,
                protocol::Ask::RxRing,
            ),
            Command::Netstart => self.say("Starting e1000...\n"@, DIM).asks(
                Wait::NicStart,
                protocol::Ask::StartNic { bar: NIC_BAR },
            ),
            Command::Netdiag => self.asks(
                Wait::Config,
                protocol::Ask::PciConfig { bus: 0, dev: 3, func: 0 },
            ),
            Command::Lspci => self.asks(Wait::Devices, protocol::Ask::Devices),
            Command::Ifconfig => self.asks(Wait::Address, protocol::Ask::NicAddress),
            Command::Ping => self.ping(arg1),
            Command::Edit => if arg1.len() == 0 {
                self.say("usage: edit <file>\n"@, ERR).done()
            } else {
                self.asks(
                    Wait::Edit,
                    protocol::Ask::Edit { path: shell::absolute(self.cwd, arg1), name: arg1 },
                )
            },
            Command::Shutdown => self.say("Shutting down...\n"@, ERR).asks(
                Wait::Halt,
                protocol::Ask::Shutdown,
            ),
            Command::Reboot => self.say("Rebooting...\n"@, ERR).asks(
                Wait::Halt,
                protocol::Ask::Reboot,
            ),
            Command::Echo => self.say(
                if arg1.len() == 0 {
                    "\n"@
                } else {
                    text::byte_suffix(cmd, 5)
                },
                TEXT,
            ).say("\n"@, TEXT).done(),
            Command::Unknown => self.say(verb, ERR).say(
                ": command not found  (try 'help')\n"@,
                DIM,
            ).done(),
        }
    }

    /// A name was looked up.
    pub open spec fn resolved(self, goal: Aim, found: Option<u32>) -> Step {
        match goal {
            Aim::Ls => match found {
                None => self.say("ls: not found\n"@, ERR).done(),
                Some(ino) => self.asks(Wait::List, protocol::Ask::Listing { ino }),
            },
            Aim::Cd { name } => match found {
                None => self.say("cd: not found\n"@, ERR).done(),
                Some(ino) => self.asks(Wait::CdKind { ino, name }, protocol::Ask::Kind { ino }),
            },
            Aim::Cat => match found {
                None => self.say("cat: not found\n"@, ERR).done(),
                Some(ino) => self.asks(Wait::CatRead, protocol::Ask::Read { ino }),
            },
            Aim::Write { name, data } => match found {
                Some(ino) => self.asks(Wait::Written, protocol::Ask::Write { ino, data }),
                None => self.asks(
                    Wait::WriteCreate { data },
                    protocol::Ask::CreateFile { parent: self.cwd_ino, name },
                ),
            },
            Aim::Copy { job } => match found {
                None => self.refuses(job, "not found\n"@),
                Some(from) => self.asks(
                    Wait::Copy { job, at: At::Source { from } },
                    protocol::Ask::Kind { ino: from },
                ),
            },
            Aim::Paste { job, from, data } => match found {
                Some(ino) => if job.moving && ino == from {
                    self.refuses(job, "same file\n"@)
                } else {
                    self.asks(
                        Wait::Copy { job, at: At::Target { ino, data } },
                        protocol::Ask::Kind { ino },
                    )
                },
                None => self.places(job, data),
            },
        }
    }

    /// The first `n` entries of a directory: directories with a slash, files
    /// with their size.
    pub open spec fn list_entries(self, es: Seq<protocol::Entry>, n: int) -> TerminalState
        decreases n,
    {
        if n <= 0 {
            self
        } else {
            let e = es[n - 1];
            let t = self.list_entries(es, n - 1);
            if e.is_dir {
                t.say(e.name + "/\n"@, CURSOR)
            } else {
                t.say(e.name, TEXT).say("  ("@ + text::dec(e.size as nat) + " B)\n"@, DIM)
            }
        }
    }

    /// A directory listed.
    pub open spec fn listed(self, es: Seq<protocol::Entry>) -> TerminalState {
        if es.len() == 0 {
            self.say("(empty)\n"@, DIM)
        } else {
            self.list_entries(es, es.len() as int)
        }
    }

    /// A file shown, with a newline at its end.
    pub open spec fn shown(self, s: Seq<char>) -> TerminalState {
        let t = self.say(s, TEXT);
        if s.len() > 0 && s.last() == '\n' {
            t
        } else {
            t.say("\n"@, TEXT)
        }
    }

    pub open spec fn list_ring(self, ring: Seq<RxState>, n: int) -> TerminalState
        decreases n,
    {
        if n <= 0 {
            self
        } else {
            self.list_ring(ring, n - 1).say(ring_line(n - 1, ring[n - 1]), TEXT)
        }
    }

    pub open spec fn list_devices(self, ds: Seq<protocol::Device>, n: int) -> TerminalState
        decreases n,
    {
        if n <= 0 {
            self
        } else {
            self.list_devices(ds, n - 1).say(device_line(ds[n - 1]), TEXT)
        }
    }

    pub open spec fn config_shown(self, c: PciConfig) -> TerminalState {
        self.say(
            "00:03.0  VID:"@ + text::hex(c.vendor as nat, 4) + " DID:"@ + text::hex(
                c.device as nat,
                4,
            ) + "\n"@,
            TEXT,
        ).say("CMD: "@ + text::hex(c.command as nat, 4) + "\n"@, TEXT).say(
            "BAR0: "@ + text::hex(c.bar0 as nat, 8) + "  BAR1: "@ + text::hex(c.bar1 as nat, 8)
                + "\n"@,
            TEXT,
        ).say(
            "BAR phys: "@ + text::hex(pci::bar_address(c.bar0, c.bar1) as nat, 16) + "\n"@,
            TEXT,
        )
    }

    pub open spec fn regs_shown(self, r: NicRegs) -> TerminalState {
        self.say("CTRL:   "@ + text::hex(r.ctrl as nat, 8) + "\n"@, TEXT).say(
            "STATUS: "@ + text::hex(r.status as nat, 8) + "\n"@,
            TEXT,
        ).say(
            "RAL:    "@ + text::hex(r.ral as nat, 8) + "  RAH: "@ + text::hex(r.rah as nat, 8)
                + "\n"@,
            TEXT,
        ).say("MAC: "@ + mac_text(nic::mac_of(r.ral, r.rah)) + "\n"@, TEXT).say(
            "e1000::NIC is "@ + (if r.up {
                "SOME"@
            } else {
                "NONE"@
            }) + "\n"@,
            TEXT,
        ).say(
            "TCTL:"@ + text::hex(r.tctl as nat, 8) + " TDBAL:"@ + text::hex(r.tdbal as nat, 8)
                + " TDLEN:"@ + text::hex(r.tdlen as nat, 4) + " TDH:"@ + text::dec(r.tdh as nat)
                + " TDT:"@ + text::dec(r.tdt as nat) + "\n"@,
            TEXT,
        )
    }

    pub open spec fn address_shown(self, mac: Option<Seq<u8>>) -> TerminalState {
        let t = match mac {
            None => self.say("eth0: NIC not initialized\n"@, ERR).say(
                "      (check serial for e1000 init messages)\n"@,
                DIM,
            ),
            Some(m) => self,
        };
        let m = match mac {
            Some(m) => m,
            None => seq![0u8, 0u8, 0u8, 0u8, 0u8, 0u8],
        };
        t.say("eth0\n"@, OK).say("  MAC: "@, DIM).say(mac_text(m) + "\n"@, TEXT).say(
            "  IP:  "@,
            DIM,
        ).say(ip_text(nic::my_ip()) + "\n"@, TEXT).say("  GW:  "@, DIM).say(
            ip_text(nic::gateway_ip()) + "\n"@,
            TEXT,
        ).say("  Net: "@, DIM).say("255.255.255.0\n"@, TEXT)
    }

    /// The date and the time.
    pub open spec fn date_shown(self, t: rtc::DateTime) -> TerminalState {
        self.say(rtc::ascii(rtc::date_bytes(t)), TEXT).say("  "@, TEXT).say(
            rtc::ascii(rtc::time_bytes(t)),
            CURSOR,
        ).say("\n"@, TEXT)
    }

    /// The network card was started by hand; once it is up, it is announced.
    pub open spec fn nic_started(self, up: bool) -> Step {
        if up {
            self.say("NIC initialized! Try ping 10.0.2.2\n"@, OK).asks(
                Wait::Announced,
                protocol::Ask::Announce,
            )
        } else {
            self.say("NIC still None - check serial\n"@, ERR).done()
        }
    }

    /// The card's configuration shown; its registers come next, where it has an address.
    pub open spec fn configured(self, c: PciConfig) -> Step {
        let phys = pci::bar_address(c.bar0, c.bar1);
        if phys != 0 {
            self.config_shown(c).asks(Wait::Regs, protocol::Ask::NicRegs { phys })
        } else {
            self.config_shown(c).say(
                "BAR phys = 0, device not initialized by BIOS\n"@,
                ERR,
            ).done()
        }
    }

    /// The answer is one to what was asked, and its numbers can be reckoned with.
    pub open spec fn accepts(self, a: protocol::Answer) -> bool {
        match self.wait {
            Wait::Idle => false,
            Wait::Resolve { goal } => a is Found,
            Wait::Search { goal, name } => a is Names,
            Wait::List => a is Listing,
            Wait::CdUp { path } => a is Found,
            Wait::CdKind { ino, name } => a is Kind,
            Wait::CatRead => a is Data,
            Wait::Made => a is Done,
            Wait::Touched => a is Created,
            Wait::Rm => a is Removed,
            Wait::WriteCreate { data } => a is Created,
            Wait::Written => a is Done,
            Wait::Copy { job, at } => Self::fits(at, a),
            Wait::Complete => a is Names,
            Wait::Date => a is Clock,
            Wait::Sysinfo => a matches protocol::Answer::Pages { free, total } && free * 4
                <= u64::MAX && total * 4 <= u64::MAX,
            Wait::Mem => a matches protocol::Answer::Pages { free, total } && free * 4 <= u64::MAX
                && total * 4 <= u64::MAX,
            Wait::Ring => a is Ring,
            Wait::NicStart => a is NicUp,
            Wait::Announced => a is Done,
            Wait::Config => a is Config,
            Wait::Regs => a is Regs,
            Wait::Devices => a is Devices,
            Wait::Address => a matches protocol::Answer::Mac(m) && (m is Some ==> m->0.len() == 6),
            Wait::Ping => a is Text,
            Wait::Edit => a is Done,
            Wait::Halt => false,
        }
    }

    /// The terminal after an answer.
    pub open spec fn answered(self, a: protocol::Answer) -> Step {
        let t = TerminalState { wait: Wait::Idle, ..self };
        match self.wait {
            Wait::Idle => t.done(),
            Wait::Resolve { goal } => t.resolved(goal, a->Found_0),
            Wait::Search { goal, name } => t.resolved(goal, find_ino(a->Names_0, name)),
            Wait::List => t.listed(a->Listing_0).done(),
            Wait::CdUp { path } => (TerminalState {
                cwd_ino: match a->Found_0 {
                    Some(ino) => ino,
                    None => t.root,
                },
                cwd: path,
                ..t
            }).done(),
            Wait::CdKind { ino, name } => if a->Kind_0 {
                (TerminalState {
                    cwd_ino: ino,
                    cwd: shell::absolute(t.cwd, name),
                    ..t
                }).done()
            } else {
                t.say("cd: not a directory\n"@, ERR).done()
            },
            Wait::CatRead => t.shown(text::utf8_lossy(a->Data_0)).done(),
            Wait::Made => t.say("created\n"@, OK).done(),
            Wait::Touched => t.say("created\n"@, OK).done(),
            Wait::Rm => if a->Removed_0 {
                t.say("removed\n"@, OK).done()
            } else {
                t.say("rm: failed (not found or dir not empty)\n"@, ERR).done()
            },
            Wait::WriteCreate { data } => t.asks(
                Wait::Written,
                protocol::Ask::Write { ino: a->Created_0, data },
            ),
            Wait::Written => t.say("written\n"@, OK).done(),
            Wait::Copy { job, at } => t.copies(job, at, a),
            Wait::Complete => {
                let word = complete::behind_last(t.cmd, ' ');
                Step {
                    t: t.completed(word, complete::options(names_in(a->Names_0), word)),
                    ask: protocol::Ask::Done,
                }
            },
            Wait::Date => t.date_shown(a->Clock_0).done(),
            Wait::Sysinfo => t.sysinfo_tail(a->free, a->total).done(),
            Wait::Mem => t.memory(a->free, a->total).done(),
            Wait::Ring => match a->Ring_0 {
                Some(ring) => t.list_ring(ring, ring.len() as int).done(),
                None => t.say("NIC is None - run netstart first\n"@, ERR).done(),
            },
            Wait::NicStart => t.nic_started(a->NicUp_0),
            Wait::Announced => t.done(),
            Wait::Config => t.configured(a->Config_0),
            Wait::Regs => t.regs_shown(a->Regs_0).done(),
            Wait::Devices => t.list_devices(
                a->Devices_0,
                a->Devices_0.len() as int,
            ).done(),
            Wait::Address => t.address_shown(a->Mac_0).done(),
            Wait::Ping => t.say(a->Text_0, TEXT).say("\n"@, TEXT).done(),
            Wait::Edit => t.say("Editor opened  Ctrl+S=save  Ctrl+Q=close\n"@, OK).done(),
            Wait::Halt => t.done(),
        }
    }

    // ── Keys ────────────────────────────────────────────────────────────────
    /// The typed line replaced by the bytes of `new`: what shows of it on the
    /// cursor's row is erased.
    pub open spec fn replaced(self, new: Seq<char>) -> TerminalState {
        let n = if self.cmd.len() < self.screen.col {
            self.cmd.len() as int
        } else {
            self.screen.col
        };
        let bytes = vstd::utf8::encode_utf8(new);
        TerminalState {
            screen: self.screen.erase(n).put_all(bytes, display::rgb(TEXT as int)),
            cmd: bytes.map_values(|b: u8| b as char),
            behind: 0,
            ..self
        }
    }

    /// The previous command of the history.
    pub open spec fn earlier(self) -> TerminalState {
        if self.history.len() == 0 {
            self
        } else {
            let i: usize = match self.history_idx {
                None => (self.history.len() - 1) as usize,
                Some(i) => if i == 0 {
                    0usize
                } else {
                    (i - 1) as usize
                },
            };
            (TerminalState { history_idx: Some(i), ..self }).replaced(self.history[i as int])
        }
    }

    /// The next command of the history; behind the last one, an empty line.
    pub open spec fn later(self) -> TerminalState {
        match self.history_idx {
            None => self,
            Some(i) => if i + 1 >= self.history.len() {
                (TerminalState { history_idx: None, ..self }).replaced(""@)
            } else {
                (TerminalState { history_idx: Some((i + 1) as usize), ..self }).replaced(
                    self.history[i + 1],
                )
            },
        }
    }

    /// The line taken as a command.
    pub open spec fn entered(self) -> Step {
        let cmd = shell::trim(self.cmd);
        (TerminalState {
            screen: self.screen.put(10, display::rgb(TEXT as int)),
            cmd: ""@,
            behind: 0,
            history_idx: None,
            history: remember(self.history, cmd),
            ..self
        }).execute(cmd)
    }

    /// What stands behind the cursor.
    pub open spec fn rest(self) -> Seq<char> {
        self.cmd.skip(self.cmd.len() - self.behind)
    }

    /// A character typed at the cursor: the line takes twenty-eight bytes.
    pub open spec fn typed(self, b: u8) -> TerminalState {
        let color = display::rgb(TEXT as int);
        if b < 32 || vstd::utf8::encode_utf8(self.cmd).len() >= 28 {
            self
        } else if self.behind == 0 {
            TerminalState {
                cmd: self.cmd.push(b as char),
                screen: self.screen.put(b, color),
                ..self
            }
        } else {
            let s = self.screen.put(b, color).print(self.rest(), TEXT);
            TerminalState {
                cmd: self.cmd.take(self.cmd.len() - self.behind).push(b as char) + self.rest(),
                screen: s.at(s.place() - self.behind),
                ..self
            }
        }
    }

    /// The character before the cursor removed.
    pub open spec fn rubbed(self) -> TerminalState {
        let k = self.cmd.len() - self.behind;
        if k == 0 {
            self
        } else if self.behind == 0 {
            TerminalState { cmd: self.cmd.drop_last(), screen: self.screen.rub_out(), ..self }
        } else {
            let s = self.screen.at(self.screen.place() - 1).print(self.rest() + " "@, TEXT);
            TerminalState {
                cmd: self.cmd.take(k - 1) + self.rest(),
                screen: s.at(s.place() - self.behind - 1),
                ..self
            }
        }
    }

    /// The cursor at the start of the line.
    pub open spec fn at_start(self) -> TerminalState {
        TerminalState {
            screen: self.screen.at(self.screen.place() - (self.cmd.len() - self.behind)),
            behind: self.cmd.len() as int,
            ..self
        }
    }

    /// The cursor at the end of the line.
    pub open spec fn at_end(self) -> TerminalState {
        if self.behind == 0 {
            self
        } else {
            TerminalState {
                screen: self.screen.at(self.screen.place() + self.behind),
                behind: 0,
                ..self
            }
        }
    }

    /// Characters typed one after another.
    pub open spec fn typed_all(self, s: Seq<char>) -> TerminalState
        decreases s.len(),
    {
        if s.len() == 0 {
            self
        } else {
            self.typed_all(s.drop_last()).typed(s.last() as u8)
        }
    }

    /// The word that was begun completed. A single option is typed to its end, with
    /// a space behind it, unless the line cannot hold it; several are printed on a line
    /// of their own, and the prompt and the line are shown again.
    pub open spec fn completed(self, word: Seq<char>, options: Seq<Seq<char>>) -> TerminalState {
        let t = if options.len() == 0 {
            self
        } else if options.len() == 1 {
            let rest = options[0].skip(word.len() as int);
            if can_hold(self.cmd, rest) {
                self.typed_all(rest + " "@)
            } else {
                self
            }
        } else {
            self.say("\n"@, TEXT).say(
                complete::joined(options, options.len() as int),
                TEXT,
            ).say("\n"@, TEXT).prompt().say(self.cmd, TEXT)
        };
        TerminalState { dirty: true, ..t }
    }

    /// The tab key: the first word is completed to a command, any other to a name in
    /// the working directory.
    pub open spec fn tab(self) -> Step {
        if self.cmd.contains(' ') {
            self.asks(Wait::Complete, protocol::Ask::Names { ino: self.cwd_ino })
        } else {
            Step {
                t: self.completed(
                    self.cmd,
                    complete::options(complete::command_names(), self.cmd),
                ),
                ask: protocol::Ask::Done,
            }
        }
    }

    /// The terminal after the key `b`, while it waits for keys. All but the keys that
    /// edit the line take the cursor to its end first.
    pub open spec fn key(self, b: u8) -> Step {
        let e = self.at_end();
        let s = if b == 10 {
            e.entered()
        } else if b == 9 {
            e.tab()
        } else {
            let t = if b == 8 {
                self.rubbed()
            } else if b == 1 {
                self.at_start()
            } else if b == 5 {
                e
            } else if b == 3 {
                (TerminalState { cmd: ""@, ..e }).say("^C\n"@, ERR).prompt()
            } else if b == 0x0C || b == 0x0B {
                (TerminalState { screen: screen::Screen::empty(), ..e }).prompt()
            } else if b == KEY_UP || b == 0x10 {
                e.earlier()
            } else if b == KEY_DOWN || b == 0x0E {
                e.later()
            } else {
                self.typed(b)
            };
            Step { t, ask: protocol::Ask::Done }
        };
        Step { t: TerminalState { dirty: true, ..s.t }, ..s }
    }

    /// `echo` prints its line from the sixth byte on, which must not cut a
    /// character in two.
    pub open spec fn can_enter(self) -> bool {
        let cmd = shell::trim(self.cmd);
        shell::command_of(shell::verb_of(cmd)) == Command::Echo && shell::arg1_of(cmd).len() > 0
            ==> vstd::utf8::is_char_boundary(vstd::utf8::encode_utf8(cmd), 5)
    }
}

// ── The terminal itself ─────────────────────────────────────────────────────

impl View for Terminal {
    type V = TerminalState;

    closed spec fn view(&self) -> TerminalState {
        TerminalState {
            screen: self.screen@,
            dirty: self.dirty,
            cmd: self.cmd_buf@,
            behind: self.behind as int,
            prompt_row: self.prompt_row as int,
            root: self.root_ino,
            cwd_ino: self.cwd_ino,
            cwd: self.cwd_path@,
            history: self.history@.map_values(|s: String| s@),
            history_idx: self.history_idx,
            wait: self.pending@,
        }
    }
}

fn copied(s: &String) -> (r: String)
    ensures
        r@ == s@,
{
    String::from_str(s.as_str())
}

fn is_empty(s: &String) -> (r: bool)
    ensures
        r == (s@.len() == 0),
{
    let v: Vec<char> = text::chars_of(s.as_str());
    v.len() == 0
}

fn mac_string(mac: &[u8; 6]) -> (s: String)
    ensures
        s@ == mac_text(mac@),
{
    let mut s: String = String::new();
    text::push_hex(&mut s, mac[0] as u64, 2);
    s.append(":");
    text::push_hex(&mut s, mac[1] as u64, 2);
    s.append(":");
    text::push_hex(&mut s, mac[2] as u64, 2);
    s.append(":");
    text::push_hex(&mut s, mac[3] as u64, 2);
    s.append(":");
    text::push_hex(&mut s, mac[4] as u64, 2);
    s.append(":");
    text::push_hex(&mut s, mac[5] as u64, 2);
    assert(s@ =~= mac_text(mac@));
    s
}

fn ip_string(a: u8, b: u8, c: u8, d: u8) -> (s: String)
    ensures
        s@ == ip_text(seq![a, b, c, d]),
{
    let mut s: String = String::new();
    text::push_dec(&mut s, a as u64);
    s.append(".");
    text::push_dec(&mut s, b as u64);
    s.append(".");
    text::push_dec(&mut s, c as u64);
    s.append(".");
    text::push_dec(&mut s, d as u64);
    assert(s@ =~= ip_text(seq![a, b, c, d]));
    s
}

/// The inode of the first entry of a name.
pub fn find_entry(es: &Vec<NameEntry>, name: &str) -> (r: Option<u32>)
    ensures
        r == find_ino(es@.map_values(|e: NameEntry| e@), name@),
{
    let ghost all = es@.map_values(|e: NameEntry| e@);
    let mut i: usize = 0;
    assert(all.skip(0) =~= all);
    while i < es.len()
        invariant
            i <= es@.len(),
            all == es@.map_values(|e: NameEntry| e@),
            find_ino(all, name@) == find_ino(all.skip(i as int), name@),
        decreases es@.len() - i,
    {
        assert(all.skip(i as int)[0] == es@[i as int]@);
        assert(all.skip(i as int).drop_first() =~= all.skip(i + 1));
        if text::same_text(es[i].name.as_str(), name) {
            return Some(es[i].ino);
        }
        i = i + 1;
    }
    None
}

/// Whether a control key takes the cursor to the end of the line.
fn ends_line(b: u8) -> (r: bool)
    ensures
        r == (b == 3 || b == 5 || b == 9 || b == 10 || b == 0x0B || b == 0x0C || b == 0x0E || b
            == 0x10),
{
    b == 3 || b == 5 || b == 9 || b == 10 || b == 0x0B || b == 0x0C || b == 0x0E || b == 0x10
}

fn fits(at: &Stage, reply: &Reply) -> (r: bool)
    ensures
        r == TerminalState::fits(at@, reply@),
{
    match (at, reply) {
        (Stage::Source { .. }, Reply::Kind(_)) => true,
        (Stage::Read { .. }, Reply::Data(_)) => true,
        (Stage::Target { .. }, Reply::Kind(_)) => true,
        (Stage::Place { .. }, Reply::Found(_)) => true,
        (Stage::Create { .. }, Reply::Created(_)) => true,
        (Stage::Write, Reply::Done) => true,
        (Stage::Leave, Reply::Found(_)) => true,
        (Stage::Remove, Reply::Removed(_)) => true,
        _ => false,
    }
}

fn has_room(cmd: &str, rest: &str) -> (r: bool)
    ensures
        r == can_hold(cmd@, rest@),
{
    let v: Vec<char> = text::chars_of(rest);
    let mut i: usize = 0;
    while i < v.len()
        invariant
            v@ == rest@,
            i <= v@.len(),
            forall|j: int| 0 <= j < i ==> ' ' <= #[trigger] rest@[j] <= '\u{ff}',
        decreases v@.len() - i,
    {
        if v[i] < ' ' || v[i] > '\u{ff}' {
            assert(!(' ' <= rest@[i as int] <= '\u{ff}'));
            return false;
        }
        i = i + 1;
    }
    let mut line: String = String::from_str(cmd);
    line.append(rest);
    line.as_str().as_bytes().len() <= 28
}

fn entry_names(es: &Vec<NameEntry>) -> (v: Vec<String>)
    ensures
        text::texts(v@) == names_in(es@.map_values(|e: NameEntry| e@)),
{
    let ghost all = names_in(es@.map_values(|e: NameEntry| e@));
    let mut v: Vec<String> = Vec::new();
    let mut i: usize = 0;
    assert(text::texts(v@) =~= all.take(0));
    while i < es.len()
        invariant
            i <= es@.len(),
            all == names_in(es@.map_values(|e: NameEntry| e@)),
            text::texts(v@) == all.take(i as int),
        decreases es@.len() - i,
    {
        let ghost before = text::texts(v@);
        v.push(copied(&es[i].name));
        assert(all[i as int] == es@[i as int].name@);
        assert(text::texts(v@) =~= before.push(all[i as int]));
        assert(text::texts(v@) =~= all.take(i + 1));
        i = i + 1;
    }
    assert(all.take(all.len() as int) =~= all);
    v
}

impl Terminal {
    pub open spec fn wf(self) -> bool {
        self@.wf()
    }

    /// A terminal at the root directory, with its greeting and a prompt.
    pub fn new(root_ino: u32) -> (t: Terminal)
        ensures
            t.wf(),
            t@.plain(),
            t@ == TerminalState::fresh(root_ino),
    {
        let mut t = Terminal {
            screen: ScreenBuf::new(),
            dirty: true,
            cmd_buf: String::from_str(""),
            behind: 0,
            prompt_row: 0,
            root_ino,
            cwd_ino: root_ino,
            cwd_path: String::from_str("/"),
            history: Vec::new(),
            history_idx: None,
            pending: Pending::Idle,
        };
        assert(t@.history =~= Seq::<Seq<char>>::empty());
        proof {
            reveal_strlit("");
        }
        t.say("HepOS Terminal v0.1\n", OK);
        t.say("Type 'help' for commands\n\n", DIM);
        t.show_prompt();
        t
    }

    /// Whether the terminal waits for keys.
    pub fn is_idle(&self) -> (r: bool)
        ensures
            r == (self@.wait is Idle),
    {
        match &self.pending {
            Pending::Idle => true,
            _ => false,
        }
    }

    /// Whether an answer is one to what was asked.
    pub fn accepts(&self, reply: &Reply) -> (r: bool)
        ensures
            r == self@.accepts(reply@),
    {
        match (&self.pending, reply) {
            (Pending::Resolve { .. }, Reply::Found(_)) => true,
            (Pending::Search { .. }, Reply::Names(_)) => true,
            (Pending::List, Reply::Listing(_)) => true,
            (Pending::CdUp { .. }, Reply::Found(_)) => true,
            (Pending::CdKind { .. }, Reply::Kind(_)) => true,
            (Pending::CatRead, Reply::Data(_)) => true,
            (Pending::Made, Reply::Done) => true,
            (Pending::Touched, Reply::Created(_)) => true,
            (Pending::Rm, Reply::Removed(_)) => true,
            (Pending::WriteCreate { .. }, Reply::Created(_)) => true,
            (Pending::Written, Reply::Done) => true,
            (Pending::Copy { at, .. }, reply) => fits(at, reply),
            (Pending::Complete, Reply::Names(_)) => true,
            (Pending::Date, Reply::Clock(_)) => true,
            (Pending::Sysinfo, Reply::Pages { free, total }) => *free <= u64::MAX / 4 && *total
                <= u64::MAX / 4,
            (Pending::Mem, Reply::Pages { free, total }) => *free <= u64::MAX / 4 && *total
                <= u64::MAX / 4,
            (Pending::Ring, Reply::Ring(_)) => true,
            (Pending::NicStart, Reply::NicUp(_)) => true,
            (Pending::Announced, Reply::Done) => true,
            (Pending::Config, Reply::Config(_)) => true,
            (Pending::Regs, Reply::Regs(_)) => true,
            (Pending::Devices, Reply::Devices(_)) => true,
            (Pending::Address, Reply::Mac(_)) => true,
            (Pending::Ping, Reply::Text(_)) => true,
            (Pending::Edit, Reply::Done) => true,
            _ => false,
        }
    }

    /// Whether the terminal changed since it was last drawn.
    pub fn is_dirty(&self) -> (r: bool)
        ensures
            r == self@.dirty,
    {
        self.dirty
    }

    /// Marks the terminal as drawn, or to be drawn.
    pub fn set_dirty(&mut self, dirty: bool)
        ensures
            final(self)@ == (TerminalState { dirty, ..old(self)@ }),
    {
        self.dirty = dirty;
    }

    /// Whether Enter may be handled now.
    pub fn can_enter(&self) -> (r: bool)
        ensures
            r == self@.can_enter(),
    {
        let cmd: String = shell::trimmed(self.cmd_buf.as_str());
        let w: Words = shell::split_words(cmd.as_str());
        match shell::parse_command(w.verb.as_str()) {
            Command::Echo => is_empty(&w.arg1) || cmd.as_str().is_char_boundary(5),
            _ => true,
        }
    }

    fn say(&mut self, s: &str, hex: u32)
        requires
            old(self).wf(),
        ensures
            final(self).wf(),
            final(self)@ == old(self)@.say(s@, hex),
    {
        self.screen.print(s, hex);
        self.dirty = true;
    }

    fn say_dec(&mut self, n: u64)
        requires
            old(self).wf(),
        ensures
            final(self).wf(),
            final(self)@ == old(self)@.say(text::dec(n as nat), TEXT),
    {
        let mut s: String = String::new();
        text::push_dec(&mut s, n);
        assert(s@ =~= text::dec(n as nat));
        self.say(s.as_str(), TEXT);
    }

    fn show_prompt(&mut self)
        requires
            old(self).wf(),
        ensures
            final(self).wf(),
            final(self)@ == old(self)@.prompt(),
    {
        let mut p: String = copied(&self.cwd_path);
        p.append(" $ ");
        self.say(p.as_str(), CURSOR);
        self.prompt_row = self.screen.row();
    }

    fn finish(&mut self) -> (r: Request)
        requires
            old(self).wf(),
        ensures
            final(self).wf(),
            (Step { t: final(self)@, ask: r@ }) == old(self)@.done(),
    {
        self.show_prompt();
        self.pending = Pending::Idle;
        Request::Done
    }

    fn fail(&mut self, s: &str) -> (r: Request)
        requires
            old(self).wf(),
        ensures
            final(self).wf(),
            (Step { t: final(self)@, ask: r@ }) == old(self)@.say(s@, ERR).done(),
    {
        self.say(s, ERR);
        self.finish()
    }

    fn ask(&mut self, pending: Pending, request: Request) -> (r: Request)
        requires
            old(self).wf(),
        ensures
            final(self).wf(),
            (Step { t: final(self)@, ask: r@ }) == old(self)@.asks(pending@, request@),
    {
        self.pending = pending;
        request
    }

    fn resolve(&mut self, goal: Goal, name: &str) -> (r: Request)
        requires
            old(self).wf(),
        ensures
            final(self).wf(),
            (Step { t: final(self)@, ask: r@ }) == old(self)@.resolve(goal@, name@),
    {
        if shell::starts_with_slash(name) {
            self.ask(Pending::Resolve { goal }, Request::Lookup { path: String::from_str(name) })
        } else {
            let ino: u32 = self.cwd_ino;
            self.ask(
                Pending::Search { goal, name: String::from_str(name) },
                Request::Names { ino },
            )
        }
    }

    fn help_line(&mut self, t: &Topic)
        requires
            old(self).wf(),
        ensures
            final(self).wf(),
            final(self)@ == old(self)@.help_line(t@),
    {
        let mut usage: String = copied(&t.name);
        usage.append(t.args.as_str());
        self.say("  ", DIM);
        self.say(usage.as_str(), TEXT);
        self.say(" - ", DIM);
        self.say(t.desc.as_str(), TEXT);
        self.say("\n", TEXT);
    }

    fn help(&mut self)
        requires
            old(self).wf(),
        ensures
            final(self).wf(),
            final(self)@ == old(self)@.help(),
    {
        self.say("Commands:\n", OK);
        let ghost start = self@;
        let ts: Vec<Topic> = complete::all_topics();
        let ghost all = ts@.map_values(|t: Topic| t@);
        let mut i: usize = 0;
        while i < ts.len()
            invariant
                self.wf(),
                i <= ts@.len(),
                all == ts@.map_values(|t: Topic| t@),
                self@ == start.help_lines(all, i as int),
            decreases ts@.len() - i,
        {
            assert(all[i as int] == ts@[i as int]@);
            self.help_line(&ts[i]);
            i = i + 1;
        }
    }

    fn list_history(&mut self)
        requires
            old(self).wf(),
        ensures
            final(self).wf(),
            final(self)@ == old(self)@.list_history(old(self)@.history.len() as int),
    {
        let mut i: usize = 0;
        while i < self.history.len()
            invariant
                self.wf(),
                self@.history == old(self)@.history,
                i <= self@.history.len() <= HISTORY,
                self@ == old(self)@.list_history(i as int),
            decreases self@.history.len() - i,
        {
            let mut n: String = String::new();
            text::push_dec_padded(&mut n, i as u64 + 1, 3);
            n.append("  ");
            assert(n@ =~= text::pad_left(text::dec((i + 1) as nat), 3) + "  "@);
            let h: String = copied(&self.history[i]);
            assert(h@ == old(self)@.history[i as int]);
            self.say(n.as_str(), DIM);
            self.say(h.as_str(), TEXT);
            self.say("\n", TEXT);
            i = i + 1;
        }
    }

    fn fact(&mut self, name: &str, value: &str)
        requires
            old(self).wf(),
        ensures
            final(self).wf(),
            final(self)@ == old(self)@.fact(name@, value@),
    {
        self.say(name, DIM);
        self.say(value, TEXT);
    }

    fn sysinfo_head(&mut self)
        requires
            old(self).wf(),
        ensures
            final(self).wf(),
            final(self)@ == old(self)@.sysinfo_head(),
    {
        self.say("=== HepOS Kernel Info ===\n", OK);
        self.fact("Kernel:    ", "HepOS v0.1\n");
        self.fact("Arch:      ", "x86_64\n");
        self.fact("Type:      ", "Exokernel (Rust)\n");
        self.fact("Boot:      ", "Limine v9 (BIOS)\n");
        self.fact("Language:  ", "Rust (no_std + alloc)\n");
        self.fact("Heap:      ", "Bump allocator 1MB\n");
        self.fact("Sched:     ", "Preemptive round-robin\n");
        self.fact("APIC:      ", "x2APIC (MSR-mode)\n");
        self.fact("FS:        ", "HepFS (flat inode, 4KB blocks)\n");
        self.fact("Display:   ", "GOP framebuffer, software render\n");
        self.fact("Storage:   ", "NVMe (custom driver)\n");
    }

    fn sysinfo_tail(&mut self, free: u64, total: u64)
        requires
            old(self).wf(),
            free * 4 <= u64::MAX,
            total * 4 <= u64::MAX,
        ensures
            final(self).wf(),
            final(self)@ == old(self)@.sysinfo_tail(free, total),
    {
        self.say("RAM:       ", DIM);
        self.say_dec(free * 4 / 1024);
        self.say(" MB free / ", TEXT);
        self.say_dec(total * 4 / 1024);
        self.say(" MB total\n", TEXT);
        self.say("=========================\n", DIM);
        self.say("Source: github.com/The-Hep-Group/HepOS\n", DIM);
    }

    fn memory(&mut self, free: u64, total: u64)
        requires
            old(self).wf(),
            free * 4 <= u64::MAX,
            total * 4 <= u64::MAX,
        ensures
            final(self).wf(),
            final(self)@ == old(self)@.memory(free, total),
    {
        self.say("RAM: ", DIM);
        self.say_dec(free * 4);
        self.say(" KB free / ", TEXT);
        self.say_dec(total * 4);
        self.say(" KB total\n", TEXT);
    }

    fn execute(&mut self, cmd: &str) -> (r: Request)
        requires
            old(self).wf(),
            shell::command_of(shell::verb_of(cmd@)) == Command::Echo && shell::arg1_of(cmd@).len()
                > 0 ==> vstd::utf8::is_char_boundary(vstd::utf8::encode_utf8(cmd@), 5),
        ensures
            final(self).wf(),
            (Step { t: final(self)@, ask: r@ }) == old(self)@.execute(cmd@),
    {
        let w: Words = shell::split_words(cmd);
        let cwd: u32 = self.cwd_ino;
        match shell::parse_command(w.verb.as_str()) {
            Command::Empty => self.finish(),
            Command::Help => {
                self.help();
                self.finish()
            },
            Command::Clear => {
                self.screen.clear();
                self.finish()
            },
            Command::Pwd => {
                let p: String = copied(&self.cwd_path);
                self.say(p.as_str(), OK);
                self.say("\n", TEXT);
                self.finish()
            },
            Command::Ls => {
                if is_empty(&w.arg1) {
                    self.ask(Pending::List, Request::Listing { ino: cwd })
                } else {
                    self.resolve(Goal::Ls, w.arg1.as_str())
                }
            },
            Command::Cd => self.change_dir(w.arg1),
            Command::Cat => {
                if is_empty(&w.arg1) {
                    self.fail("usage: cat <file>\n")
                } else {
                    self.resolve(Goal::Cat, w.arg1.as_str())
                }
            },
            Command::Mkdir => {
                if is_empty(&w.arg1) {
                    self.fail("usage: mkdir <name>\n")
                } else {
                    self.ask(Pending::Made, Request::CreateDir { parent: cwd, name: w.arg1 })
                }
            },
            Command::Touch => {
                if is_empty(&w.arg1) {
                    self.fail("usage: touch <name>\n")
                } else {
                    self.ask(Pending::Touched, Request::CreateFile { parent: cwd, name: w.arg1 })
                }
            },
            Command::Rm => {
                if is_empty(&w.arg1) {
                    self.fail("usage: rm <name>\n")
                } else {
                    self.ask(Pending::Rm, Request::Remove { parent: cwd, name: w.arg1 })
                }
            },
            Command::Write => {
                if is_empty(&w.arg1) || is_empty(&w.arg2) {
                    self.fail("usage: write <file> <content>\n")
                } else {
                    let data: Vec<u8> = text::bytes_of(w.arg2.as_str());
                    self.resolve(
                        Goal::Write { name: copied(&w.arg1), data },
                        w.arg1.as_str(),
                    )
                }
            },
            Command::Cp => self.copy(Job { src: w.arg1, dst: w.arg2, moving: false }),
            Command::Mv => self.copy(Job { src: w.arg1, dst: w.arg2, moving: true }),
            Command::History => {
                self.list_history();
                self.finish()
            },
            Command::Date => self.ask(Pending::Date, Request::Clock),
            Command::Sysinfo => {
                self.sysinfo_head();
                self.ask(Pending::Sysinfo, Request::Memory)
            },
            Command::Uname => {
                self.say("HepOS", CURSOR);
                self.say(" v0.1  x86_64 exokernel  HepFS\n", TEXT);
                self.finish()
            },
            Command::Mem => self.ask(Pending::Mem, Request::Memory),
            Command::Netpoll => {
                self.say("Scanning RX descriptors...\n", DIM);
                self.ask(Pending::Ring, Request::RxRing)
            },
            Command::Netstart => {
                self.say("Starting e1000...\n", DIM);
                self.ask(Pending::NicStart, Request::StartNic { bar: NIC_BAR })
            },
            Command::Netdiag => self.ask(
                Pending::Config,
                Request::PciConfig { bus: 0, dev: 3, func: 0 },
            ),
            Command::Lspci => self.ask(Pending::Devices, Request::Devices),
            Command::Ifconfig => self.ask(Pending::Address, Request::NicAddress),
            Command::Ping => self.ping(w.arg1),
            Command::Edit => {
                if is_empty(&w.arg1) {
                    self.fail("usage: edit <file>\n")
                } else {
                    let path: String = shell::absolute_path(self.cwd_path.as_str(), w.arg1.as_str());
                    self.ask(Pending::Edit, Request::Edit { path, name: w.arg1 })
                }
            },
            Command::Shutdown => {
                self.say("Shutting down...\n", ERR);
                self.ask(Pending::Halt, Request::Shutdown)
            },
            Command::Reboot => {
                self.say("Rebooting...\n", ERR);
                self.ask(Pending::Halt, Request::Reboot)
            },
            Command::Echo => {
                if is_empty(&w.arg1) {
                    self.say("\n", TEXT);
                } else {
                    let s: String = text::drop_bytes(cmd, 5);
                    self.say(s.as_str(), TEXT);
                }
                self.say("\n", TEXT);
                self.finish()
            },
            Command::Unknown => {
                self.say(w.verb.as_str(), ERR);
                self.say(": command not found  (try 'help')\n", DIM);
                self.finish()
            },
        }
    }

    fn refuse(&mut self, job: &Job, why: &str) -> (r: Request)
        requires
            old(self).wf(),
        ensures
            final(self).wf(),
            (Step { t: final(self)@, ask: r@ }) == old(self)@.refuses(job@, why@),
    {
        let mut s: String = if job.moving {
            String::from_str("mv: ")
        } else {
            String::from_str("cp: ")
        };
        s.append(why);
        self.fail(s.as_str())
    }

    fn copy(&mut self, job: Job) -> (r: Request)
        requires
            old(self).wf(),
        ensures
            final(self).wf(),
            (Step { t: final(self)@, ask: r@ }) == old(self)@.copy(job@),
    {
        if is_empty(&job.src) || is_empty(&job.dst) {
            if job.moving {
                self.fail("usage: mv <src> <dst>\n")
            } else {
                self.fail("usage: cp <src> <dst>\n")
            }
        } else {
            let src: String = copied(&job.src);
            self.resolve(Goal::Copy { job }, src.as_str())
        }
    }

    fn place(&mut self, job: Job, data: Vec<u8>) -> (r: Request)
        requires
            old(self).wf(),
        ensures
            final(self).wf(),
            (Step { t: final(self)@, ask: r@ }) == old(self)@.places(job@, data@),
    {
        if !shell::starts_with_slash(job.dst.as_str()) {
            let parent: u32 = self.cwd_ino;
            let name: String = copied(&job.dst);
            return self.ask(
                Pending::Copy { job, at: Stage::Create { data } },
                Request::CreateFile { parent, name },
            );
        }
        let name: String = shell::base_name(job.dst.as_str());
        let path: String = shell::parent_path(job.dst.as_str());
        if is_empty(&name) {
            self.refuse(&job, "no such directory\n")
        } else {
            match shell::directory(path.as_str(), None, self.root_ino) {
                Some(parent) => self.ask(
                    Pending::Copy { job, at: Stage::Create { data } },
                    Request::CreateFile { parent, name },
                ),
                None => self.ask(
                    Pending::Copy { job, at: Stage::Place { data } },
                    Request::Lookup { path },
                ),
            }
        }
    }

    fn pasted(&mut self, job: Job) -> (r: Request)
        requires
            old(self).wf(),
        ensures
            final(self).wf(),
            (Step { t: final(self)@, ask: r@ }) == old(self)@.pasted(job@),
    {
        if !job.moving {
            self.say("copied\n", OK);
            self.finish()
        } else if !shell::starts_with_slash(job.src.as_str()) {
            let parent: u32 = self.cwd_ino;
            let name: String = copied(&job.src);
            self.ask(Pending::Copy { job, at: Stage::Remove }, Request::Remove { parent, name })
        } else {
            let name: String = shell::base_name(job.src.as_str());
            let path: String = shell::parent_path(job.src.as_str());
            match shell::directory(path.as_str(), None, self.root_ino) {
                Some(parent) => self.ask(
                    Pending::Copy { job, at: Stage::Remove },
                    Request::Remove { parent, name },
                ),
                None => self.ask(
                    Pending::Copy { job, at: Stage::Leave },
                    Request::Lookup { path },
                ),
            }
        }
    }

    fn copy_on(&mut self, job: Job, at: Stage, reply: Reply) -> (r: Request)
        requires
            old(self).wf(),
            TerminalState::fits(at@, reply@),
        ensures
            final(self).wf(),
            (Step { t: final(self)@, ask: r@ }) == old(self)@.copies(job@, at@, reply@),
    {
        match (at, reply) {
            (Stage::Source { from }, Reply::Kind(is_dir)) => {
                if is_dir {
                    self.refuse(&job, "is a directory\n")
                } else {
                    self.ask(
                        Pending::Copy { job, at: Stage::Read { from } },
                        Request::Read { ino: from },
                    )
                }
            },
            (Stage::Read { from }, Reply::Data(data)) => {
                let dst: String = copied(&job.dst);
                self.resolve(Goal::Paste { job, from, data }, dst.as_str())
            },
            (Stage::Target { ino, data }, Reply::Kind(is_dir)) => {
                if is_dir {
                    self.refuse(&job, "is a directory\n")
                } else {
                    self.ask(Pending::Copy { job, at: Stage::Write }, Request::Write { ino, data })
                }
            },
            (Stage::Place { data }, Reply::Found(found)) => match found {
                None => self.refuse(&job, "no such directory\n"),
                Some(parent) => {
                    let name: String = shell::base_name(job.dst.as_str());
                    self.ask(
                        Pending::Copy { job, at: Stage::Create { data } },
                        Request::CreateFile { parent, name },
                    )
                },
            },
            (Stage::Create { data }, Reply::Created(ino)) => self.ask(
                Pending::Copy { job, at: Stage::Write },
                Request::Write { ino, data },
            ),
            (Stage::Write, Reply::Done) => self.pasted(job),
            (Stage::Leave, Reply::Found(found)) => match found {
                None => self.refuse(&job, "source not removed\n"),
                Some(parent) => {
                    let name: String = shell::base_name(job.src.as_str());
                    self.ask(
                        Pending::Copy { job, at: Stage::Remove },
                        Request::Remove { parent, name },
                    )
                },
            },
            (Stage::Remove, Reply::Removed(ok)) => {
                if ok {
                    self.say("moved\n", OK);
                    self.finish()
                } else {
                    self.refuse(&job, "source not removed\n")
                }
            },
            (_, _) => self.finish(),
        }
    }

    fn change_dir(&mut self, arg: String) -> (r: Request)
        requires
            old(self).wf(),
        ensures
            final(self).wf(),
            (Step { t: final(self)@, ask: r@ }) == old(self)@.change_dir(arg@),
    {
        if text::same_text(arg.as_str(), "/") {
            self.cwd_ino = self.root_ino;
            self.cwd_path = String::from_str("/");
            self.finish()
        } else if text::same_text(arg.as_str(), "..") {
            let path: String = shell::parent_path(self.cwd_path.as_str());
            self.ask(Pending::CdUp { path: copied(&path) }, Request::Lookup { path })
        } else {
            self.resolve(Goal::Cd { name: copied(&arg) }, arg.as_str())
        }
    }

    fn ping(&mut self, arg: String) -> (r: Request)
        requires
            old(self).wf(),
        ensures
            final(self).wf(),
            (Step { t: final(self)@, ask: r@ }) == old(self)@.ping(arg@),
    {
        if is_empty(&arg) {
            self.fail("usage: ping <ip>\n")
        } else {
            match shell::parse_ip(arg.as_str()) {
                None => self.fail("ping: invalid IP address\n"),
                Some(ip) => {
                    let mut s: String = String::from_str("PING ");
                    s.append(arg.as_str());
                    s.append("\n");
                    self.say(s.as_str(), DIM);
                    self.ask(Pending::Ping, Request::Ping { ip })
                },
            }
        }
    }

    fn list_entries(&mut self, es: &Vec<DirEntry>)
        requires
            old(self).wf(),
        ensures
            final(self).wf(),
            final(self)@ == old(self)@.listed(es@.map_values(|e: DirEntry| e@)),
    {
        let ghost all = es@.map_values(|e: DirEntry| e@);
        if es.len() == 0 {
            self.say("(empty)\n", DIM);
        } else {
            let mut i: usize = 0;
            while i < es.len()
                invariant
                    self.wf(),
                    i <= es@.len(),
                    all == es@.map_values(|e: DirEntry| e@),
                    self@ == old(self)@.list_entries(all, i as int),
                decreases es@.len() - i,
            {
                assert(all[i as int] == es@[i as int]@);
                if es[i].is_dir {
                    let mut s: String = copied(&es[i].name);
                    s.append("/\n");
                    self.say(s.as_str(), CURSOR);
                } else {
                    self.say(es[i].name.as_str(), TEXT);
                    let mut s: String = String::from_str("  (");
                    text::push_dec(&mut s, es[i].size);
                    s.append(" B)\n");
                    self.say(s.as_str(), DIM);
                }
                i = i + 1;
            }
        }
    }

    /// Prints a file's text, with a newline at its end.
    pub fn show_file(&mut self, s: &str)
        requires
            old(self).wf(),
        ensures
            final(self).wf(),
            final(self)@ == old(self)@.shown(s@),
    {
        self.say(s, TEXT);
        let v: Vec<char> = text::chars_of(s);
        if !(v.len() > 0 && v[v.len() - 1] == '\n') {
            self.say("\n", TEXT);
        }
    }

    fn list_ring(&mut self, ring: &Vec<RxState>)
        requires
            old(self).wf(),
        ensures
            final(self).wf(),
            final(self)@ == old(self)@.list_ring(ring@, ring@.len() as int),
    {
        let mut i: usize = 0;
        while i < ring.len()
            invariant
                self.wf(),
                i <= ring@.len(),
                self@ == old(self)@.list_ring(ring@, i as int),
            decreases ring@.len() - i,
        {
            let mut s: String = String::from_str("  desc[");
            text::push_dec(&mut s, i as u64);
            s.append("]: status=");
            text::push_hex(&mut s, ring[i].status as u64, 2);
            s.append(" len=");
            text::push_dec(&mut s, ring[i].len as u64);
            s.append("\n");
            assert(s@ =~= ring_line(i as int, ring@[i as int]));
            self.say(s.as_str(), TEXT);
            i = i + 1;
        }
    }

    fn list_devices(&mut self, ds: &Vec<PciLine>)
        requires
            old(self).wf(),
        ensures
            final(self).wf(),
            final(self)@ == old(self)@.list_devices(
                ds@.map_values(|d: PciLine| d@),
                ds@.len() as int,
            ),
    {
        let ghost all = ds@.map_values(|d: PciLine| d@);
        let mut i: usize = 0;
        while i < ds.len()
            invariant
                self.wf(),
                i <= ds@.len(),
                all == ds@.map_values(|d: PciLine| d@),
                self@ == old(self)@.list_devices(all, i as int),
            decreases ds@.len() - i,
        {
            let d: &PciLine = &ds[i];
            let mut s: String = String::new();
            text::push_hex(&mut s, d.bus as u64, 2);
            s.append(":");
            text::push_hex(&mut s, d.dev as u64, 2);
            s.append(".");
            text::push_dec(&mut s, d.func as u64);
            s.append(" ");
            text::push_hex(&mut s, d.vendor_id as u64, 4);
            s.append(":");
            text::push_hex(&mut s, d.device_id as u64, 4);
            s.append(" ");
            s.append(d.class_name.as_str());
            s.append("\n");
            assert(all[i as int] == d@);
            assert(s@ =~= device_line(d@));
            self.say(s.as_str(), TEXT);
            i = i + 1;
        }
    }

    fn show_config(&mut self, c: &PciConfig)
        requires
            old(self).wf(),
        ensures
            final(self).wf(),
            final(self)@ == old(self)@.config_shown(*c),
    {
        let mut s: String = String::from_str("00:03.0  VID:");
        text::push_hex(&mut s, c.vendor as u64, 4);
        s.append(" DID:");
        text::push_hex(&mut s, c.device as u64, 4);
        s.append("\n");
        self.say(s.as_str(), TEXT);
        let mut s: String = String::from_str("CMD: ");
        text::push_hex(&mut s, c.command as u64, 4);
        s.append("\n");
        self.say(s.as_str(), TEXT);
        let mut s: String = String::from_str("BAR0: ");
        text::push_hex(&mut s, c.bar0 as u64, 8);
        s.append("  BAR1: ");
        text::push_hex(&mut s, c.bar1 as u64, 8);
        s.append("\n");
        self.say(s.as_str(), TEXT);
        let mut s: String = String::from_str("BAR phys: ");
        text::push_hex(&mut s, pci::memory_bar(c.bar0, c.bar1), 16);
        s.append("\n");
        self.say(s.as_str(), TEXT);
    }

    fn show_regs(&mut self, r: &NicRegs)
        requires
            old(self).wf(),
        ensures
            final(self).wf(),
            final(self)@ == old(self)@.regs_shown(*r),
    {
        let mut s: String = String::from_str("CTRL:   ");
        text::push_hex(&mut s, r.ctrl as u64, 8);
        s.append("\n");
        self.say(s.as_str(), TEXT);
        let mut s: String = String::from_str("STATUS: ");
        text::push_hex(&mut s, r.status as u64, 8);
        s.append("\n");
        self.say(s.as_str(), TEXT);
        let mut s: String = String::from_str("RAL:    ");
        text::push_hex(&mut s, r.ral as u64, 8);
        s.append("  RAH: ");
        text::push_hex(&mut s, r.rah as u64, 8);
        s.append("\n");
        self.say(s.as_str(), TEXT);
        let mac: [u8; 6] = nic::mac_from_regs(r.ral, r.rah);
        let mut s: String = String::from_str("MAC: ");
        s.append(mac_string(&mac).as_str());
        s.append("\n");
        self.say(s.as_str(), TEXT);
        let mut s: String = String::from_str("e1000::NIC is ");
        if r.up {
            s.append("SOME");
        } else {
            s.append("NONE");
        }
        s.append("\n");
        self.say(s.as_str(), TEXT);
        let mut s: String = String::from_str("TCTL:");
        text::push_hex(&mut s, r.tctl as u64, 8);
        s.append(" TDBAL:");
        text::push_hex(&mut s, r.tdbal as u64, 8);
        s.append(" TDLEN:");
        text::push_hex(&mut s, r.tdlen as u64, 4);
        s.append(" TDH:");
        text::push_dec(&mut s, r.tdh as u64);
        s.append(" TDT:");
        text::push_dec(&mut s, r.tdt as u64);
        s.append("\n");
        self.say(s.as_str(), TEXT);
    }

    fn show_address(&mut self, mac: Option<[u8; 6]>)
        requires
            old(self).wf(),
        ensures
            final(self).wf(),
            final(self)@ == old(self)@.address_shown(
                match mac {
                    Some(m) => Some(m@),
                    None => None,
                },
            ),
    {
        let m: [u8; 6] = match mac {
            Some(m) => m,
            None => {
                self.say("eth0: NIC not initialized\n", ERR);
                self.say("      (check serial for e1000 init messages)\n", DIM);
                [0u8; 6]
            },
        };
        assert(mac is None ==> m@ =~= seq![0u8, 0u8, 0u8, 0u8, 0u8, 0u8]);
        self.say("eth0\n", OK);
        self.say("  MAC: ", DIM);
        let mut s: String = mac_string(&m);
        s.append("\n");
        self.say(s.as_str(), TEXT);
        self.say("  IP:  ", DIM);
        let mut s: String = ip_string(10, 0, 2, 15);
        s.append("\n");
        self.say(s.as_str(), TEXT);
        self.say("  GW:  ", DIM);
        let mut s: String = ip_string(10, 0, 2, 2);
        s.append("\n");
        self.say(s.as_str(), TEXT);
        self.say("  Net: ", DIM);
        self.say("255.255.255.0\n", TEXT);
    }

    fn resolved(&mut self, goal: Goal, found: Option<u32>) -> (r: Request)
        requires
            old(self).wf(),
        ensures
            final(self).wf(),
            (Step { t: final(self)@, ask: r@ }) == old(self)@.resolved(goal@, found),
    {
        let cwd: u32 = self.cwd_ino;
        match goal {
            Goal::Ls => match found {
                None => self.fail("ls: not found\n"),
                Some(ino) => self.ask(Pending::List, Request::Listing { ino }),
            },
            Goal::Cd { name } => match found {
                None => self.fail("cd: not found\n"),
                Some(ino) => self.ask(Pending::CdKind { ino, name }, Request::Kind { ino }),
            },
            Goal::Cat => match found {
                None => self.fail("cat: not found\n"),
                Some(ino) => self.ask(Pending::CatRead, Request::Read { ino }),
            },
            Goal::Write { name, data } => match found {
                Some(ino) => self.ask(Pending::Written, Request::Write { ino, data }),
                None => self.ask(
                    Pending::WriteCreate { data },
                    Request::CreateFile { parent: cwd, name },
                ),
            },
            Goal::Copy { job } => match found {
                None => self.refuse(&job, "not found\n"),
                Some(from) => self.ask(
                    Pending::Copy { job, at: Stage::Source { from } },
                    Request::Kind { ino: from },
                ),
            },
            Goal::Paste { job, from, data } => match found {
                Some(ino) => if job.moving && ino == from {
                    self.refuse(&job, "same file\n")
                } else {
                    self.ask(
                        Pending::Copy { job, at: Stage::Target { ino, data } },
                        Request::Kind { ino },
                    )
                },
                None => self.place(job, data),
            },
        }
    }

    /// Takes the answer to the last request. A file that holds the UTF-8 form of
    /// a text is shown as that text.
    pub fn on_reply(&mut self, reply: Reply) -> (r: Request)
        requires
            old(self).wf(),
            old(self)@.accepts(reply@),
        ensures
            final(self).wf(),
            (Step { t: final(self)@, ask: r@ }) == old(self)@.answered(reply@),
            forall|s: Seq<char>|
                old(self)@.wait is CatRead && reply@ == protocol::Answer::Data(
                    #[trigger] vstd::utf8::encode_utf8(s),
                ) ==> final(self)@ == (TerminalState {
                    wait: Wait::Idle,
                    ..old(self)@
                }).shown(s).done().t,
            old(self)@.plain() && plain_answer(old(self)@.wait, reply@) ==> final(self)@.plain(),
    {
        proof {
            if self@.plain() && plain_answer(self@.wait, reply@) {
                terminal_laws::law_answers_stay_plain(self@, reply@);
            }
        }
        broadcast use vstd::utf8::encode_utf8_valid_utf8;
        broadcast use vstd::utf8::encode_utf8_decode_utf8;

        let mut pending: Pending = Pending::Idle;
        std::mem::swap(&mut pending, &mut self.pending);
        match (pending, reply) {
            (Pending::Resolve { goal }, Reply::Found(found)) => self.resolved(goal, found),
            (Pending::Search { goal, name }, Reply::Names(es)) => {
                let found: Option<u32> = find_entry(&es, name.as_str());
                self.resolved(goal, found)
            },
            (Pending::List, Reply::Listing(es)) => {
                self.list_entries(&es);
                self.finish()
            },
            (Pending::CdUp { path }, Reply::Found(found)) => {
                self.cwd_ino = match found {
                    Some(ino) => ino,
                    None => self.root_ino,
                };
                self.cwd_path = path;
                self.finish()
            },
            (Pending::CdKind { ino, name }, Reply::Kind(is_dir)) => {
                if is_dir {
                    self.cwd_ino = ino;
                    self.cwd_path = shell::absolute_path(
                        self.cwd_path.as_str(),
                        name.as_str(),
                    );
                    self.finish()
                } else {
                    self.fail("cd: not a directory\n")
                }
            },
            (Pending::CatRead, Reply::Data(data)) => {
                let s: String = text::lossy_text(&data);
                self.show_file(s.as_str());
                self.finish()
            },
            (Pending::Made, Reply::Done) => {
                self.say("created\n", OK);
                self.finish()
            },
            (Pending::Touched, Reply::Created(_)) => {
                self.say("created\n", OK);
                self.finish()
            },
            (Pending::Rm, Reply::Removed(ok)) => {
                if ok {
                    self.say("removed\n", OK);
                    self.finish()
                } else {
                    self.fail("rm: failed (not found or dir not empty)\n")
                }
            },
            (Pending::WriteCreate { data }, Reply::Created(ino)) => self.ask(
                Pending::Written,
                Request::Write { ino, data },
            ),
            (Pending::Written, Reply::Done) => {
                self.say("written\n", OK);
                self.finish()
            },
            (Pending::Copy { job, at }, reply) => self.copy_on(job, at, reply),
            (Pending::Complete, Reply::Names(es)) => {
                self.complete_name(&es);
                Request::Done
            },
            (pending, reply) => self.report(pending, reply),
        }
    }

    fn show_date(&mut self, t: &DateTime) -> (r: Request)
        requires
            old(self).wf(),
        ensures
            final(self).wf(),
            (Step { t: final(self)@, ask: r@ }) == old(self)@.date_shown(*t).done(),
    {
        let mut tb: [u8; 6] = [0u8; 6];
        let mut db: [u8; 11] = [0u8; 11];
        let time: String = rtc::fmt_time(t, &mut tb);
        let date: String = rtc::fmt_date(t, &mut db);
        self.say(date.as_str(), TEXT);
        self.say("  ", TEXT);
        self.say(time.as_str(), CURSOR);
        self.say("\n", TEXT);
        self.finish()
    }

    fn nic_started(&mut self, up: bool) -> (r: Request)
        requires
            old(self).wf(),
        ensures
            final(self).wf(),
            (Step { t: final(self)@, ask: r@ }) == old(self)@.nic_started(up),
    {
        if up {
            self.say("NIC initialized! Try ping 10.0.2.2\n", OK);
            self.ask(Pending::Announced, Request::Announce)
        } else {
            self.fail("NIC still None - check serial\n")
        }
    }

    fn configured(&mut self, c: &PciConfig) -> (r: Request)
        requires
            old(self).wf(),
        ensures
            final(self).wf(),
            (Step { t: final(self)@, ask: r@ }) == old(self)@.configured(*c),
    {
        self.show_config(c);
        let phys: u64 = pci::memory_bar(c.bar0, c.bar1);
        if phys != 0 {
            self.ask(Pending::Regs, Request::NicRegs { phys })
        } else {
            self.fail("BAR phys = 0, device not initialized by BIOS\n")
        }
    }

    /// Takes an answer about the machine.
    fn report(&mut self, pending: Pending, reply: Reply) -> (r: Request)
        requires
            old(self).wf(),
            old(self)@.wait is Idle,
            about_machine(pending@),
            (TerminalState { wait: pending@, ..old(self)@ }).accepts(reply@),
        ensures
            final(self).wf(),
            (Step { t: final(self)@, ask: r@ }) == (TerminalState {
                wait: pending@,
                ..old(self)@
            }).answered(reply@),
    {
        match (pending, reply) {
            (Pending::Date, Reply::Clock(t)) => self.show_date(&t),
            (Pending::Sysinfo, Reply::Pages { free, total }) => {
                self.sysinfo_tail(free, total);
                self.finish()
            },
            (Pending::Mem, Reply::Pages { free, total }) => {
                self.memory(free, total);
                self.finish()
            },
            (Pending::Edit, Reply::Done) => {
                self.say("Editor opened  Ctrl+S=save  Ctrl+Q=close\n", OK);
                self.finish()
            },
            (pending, reply) => self.net_report(pending, reply),
        }
    }

    /// Takes an answer about the bus or the network.
    #[verifier::rlimit(20)]
    fn net_report(&mut self, pending: Pending, reply: Reply) -> (r: Request)
        requires
            old(self).wf(),
            old(self)@.wait is Idle,
            about_network(pending@),
            (TerminalState { wait: pending@, ..old(self)@ }).accepts(reply@),
        ensures
            final(self).wf(),
            (Step { t: final(self)@, ask: r@ }) == (TerminalState {
                wait: pending@,
                ..old(self)@
            }).answered(reply@),
    {
        match (pending, reply) {
            (Pending::Ring, Reply::Ring(ring)) => match ring {
                Some(ring) => {
                    self.list_ring(&ring);
                    self.finish()
                },
                None => self.fail("NIC is None - run netstart first\n"),
            },
            (Pending::NicStart, Reply::NicUp(up)) => self.nic_started(up),
            (Pending::Config, Reply::Config(c)) => self.configured(&c),
            (Pending::Regs, Reply::Regs(regs)) => {
                self.show_regs(&regs);
                self.finish()
            },
            (Pending::Devices, Reply::Devices(ds)) => {
                self.list_devices(&ds);
                self.finish()
            },
            (Pending::Address, Reply::Mac(mac)) => {
                self.show_address(mac);
                self.finish()
            },
            (Pending::Ping, Reply::Text(s)) => {
                self.say(s.as_str(), TEXT);
                self.say("\n", TEXT);
                self.finish()
            },
            (_, _) => self.finish(),
        }
    }

    fn replace_input(&mut self, new: &str)
        requires
            old(self).wf(),
        ensures
            final(self).wf(),
            final(self)@ == old(self)@.replaced(new@),
    {
        let typed: Vec<char> = text::chars_of(self.cmd_buf.as_str());
        let col: usize = self.screen.col();
        let n: usize = if typed.len() < col {
            typed.len()
        } else {
            col
        };
        self.screen.erase(n);
        let bytes: Vec<u8> = text::bytes_of(new);
        let color: Color = Color::from_hex(TEXT);
        let ghost start = self.screen@;
        let mut cmd: String = String::new();
        let mut i: usize = 0;
        assert(cmd@ =~= bytes@.take(0).map_values(|b: u8| b as char));
        while i < bytes.len()
            invariant
                self.screen.wf(),
                i <= bytes@.len(),
                color == display::rgb(TEXT as int),
                cmd@ == bytes@.take(i as int).map_values(|b: u8| b as char),
                self.screen@ == start.put_all(bytes@.take(i as int), color),
                self@ == (TerminalState { screen: self.screen@, ..old(self)@ }),
            decreases bytes@.len() - i,
        {
            proof {
                assert(bytes@.take(i + 1).drop_last() =~= bytes@.take(i as int));
            }
            cmd.push(bytes[i] as char);
            self.screen.put_char(bytes[i], color);
            assert(cmd@ =~= bytes@.take(i + 1).map_values(|b: u8| b as char));
            i = i + 1;
        }
        assert(bytes@.take(bytes@.len() as int) =~= bytes@);
        self.cmd_buf = cmd;
        self.behind = 0;
    }

    fn type_char(&mut self, b: u8)
        requires
            old(self).wf(),
        ensures
            final(self).wf(),
            final(self)@ == old(self)@.typed(b),
    {
        if b >= 32 && self.cmd_buf.as_str().as_bytes().len() < COLS - 2 {
            self.screen.put_char(b, Color::from_hex(TEXT));
            if self.behind == 0 {
                self.cmd_buf.push(b as char);
            } else {
                let v: Vec<char> = text::chars_of(self.cmd_buf.as_str());
                let k: usize = v.len() - self.behind;
                let rest: String = text::string_of(&v, k, v.len());
                let mut cmd: String = text::string_of(&v, 0, k);
                cmd.push(b as char);
                cmd.append(rest.as_str());
                assert(rest@ =~= old(self)@.rest());
                assert(cmd@ =~= old(self)@.typed(b).cmd);
                self.cmd_buf = cmd;
                self.screen.print(rest.as_str(), TEXT);
                self.screen.move_back(self.behind);
            }
        }
    }

    fn rub_out(&mut self)
        requires
            old(self).wf(),
        ensures
            final(self).wf(),
            final(self)@ == old(self)@.rubbed(),
    {
        let v: Vec<char> = text::chars_of(self.cmd_buf.as_str());
        let k: usize = v.len() - self.behind;
        if k > 0 {
            if self.behind == 0 {
                self.cmd_buf = text::string_of(&v, 0, k - 1);
                assert(self.cmd_buf@ =~= old(self)@.cmd.drop_last());
                self.screen.rub_out();
            } else {
                let mut rest: String = text::string_of(&v, k, v.len());
                let mut cmd: String = text::string_of(&v, 0, k - 1);
                cmd.append(rest.as_str());
                assert(rest@ =~= old(self)@.rest());
                assert(cmd@ =~= old(self)@.rubbed().cmd);
                rest.append(" ");
                self.cmd_buf = cmd;
                self.screen.move_back(1);
                self.screen.print(rest.as_str(), TEXT);
                self.screen.move_back(self.behind + 1);
            }
        }
    }

    fn to_start(&mut self)
        requires
            old(self).wf(),
        ensures
            final(self).wf(),
            final(self)@ == old(self)@.at_start(),
    {
        let v: Vec<char> = text::chars_of(self.cmd_buf.as_str());
        self.screen.move_back(v.len() - self.behind);
        self.behind = v.len();
    }

    fn to_end(&mut self)
        requires
            old(self).wf(),
        ensures
            final(self).wf(),
            final(self)@ == old(self)@.at_end(),
    {
        if self.behind > 0 {
            self.screen.move_on(self.behind);
            self.behind = 0;
        }
    }

    fn type_all(&mut self, s: &str)
        requires
            old(self).wf(),
        ensures
            final(self).wf(),
            final(self)@ == old(self)@.typed_all(s@),
    {
        let v: Vec<char> = text::chars_of(s);
        let mut i: usize = 0;
        assert(s@.take(0) =~= Seq::<char>::empty());
        while i < v.len()
            invariant
                self.wf(),
                v@ == s@,
                i <= v@.len(),
                self@ == old(self)@.typed_all(s@.take(i as int)),
            decreases v@.len() - i,
        {
            assert(s@.take(i + 1).drop_last() =~= s@.take(i as int));
            self.type_char(v[i] as u8);
            i = i + 1;
        }
        assert(s@.take(s@.len() as int) =~= s@);
    }

    fn complete(&mut self, word: &String, options: &Vec<String>)
        requires
            old(self).wf(),
            forall|i: int|
                0 <= i < options@.len() ==> complete::begins(
                    #[trigger] text::texts(options@)[i],
                    word@,
                ),
        ensures
            final(self).wf(),
            final(self)@ == old(self)@.completed(word@, text::texts(options@)),
    {
        let ghost all = text::texts(options@);
        if options.len() == 1 {
            let v: Vec<char> = text::chars_of(options[0].as_str());
            let w: Vec<char> = text::chars_of(word.as_str());
            assert(all[0] == options@[0]@);
            let mut rest: String = text::string_of(&v, w.len(), v.len());
            assert(rest@ =~= all[0].skip(word@.len() as int));
            if has_room(self.cmd_buf.as_str(), rest.as_str()) {
                rest.append(" ");
                self.type_all(rest.as_str());
            }
        } else if options.len() > 1 {
            let list: String = complete::join(options);
            let line: String = copied(&self.cmd_buf);
            self.say("\n", TEXT);
            self.say(list.as_str(), TEXT);
            self.say("\n", TEXT);
            self.show_prompt();
            self.say(line.as_str(), TEXT);
        }
        self.dirty = true;
    }

    fn complete_name(&mut self, es: &Vec<NameEntry>)
        requires
            old(self).wf(),
        ensures
            final(self).wf(),
            ({
                let word = complete::behind_last(old(self)@.cmd, ' ');
                final(self)@ == old(self)@.completed(
                    word,
                    complete::options(names_in(es@.map_values(|e: NameEntry| e@)), word),
                )
            }),
    {
        let word: String = complete::tail_behind(self.cmd_buf.as_str(), ' ');
        let names: Vec<String> = entry_names(es);
        let options: Vec<String> = complete::options_of(&names, word.as_str());
        self.complete(&word, &options);
    }

    fn tab(&mut self) -> (r: Request)
        requires
            old(self).wf(),
            old(self)@.wait is Idle,
        ensures
            final(self).wf(),
            (Step { t: final(self)@, ask: r@ }) == old(self)@.tab(),
    {
        if complete::has_char(self.cmd_buf.as_str(), ' ') {
            let ino: u32 = self.cwd_ino;
            self.ask(Pending::Complete, Request::Names { ino })
        } else {
            let word: String = copied(&self.cmd_buf);
            let options: Vec<String> = complete::command_options(word.as_str());
            self.complete(&word, &options);
            Request::Done
        }
    }

    fn earlier(&mut self)
        requires
            old(self).wf(),
        ensures
            final(self).wf(),
            final(self)@ == old(self)@.earlier(),
    {
        assert(self@.history.len() == self.history@.len());
        if self.history.len() > 0 {
            let i: usize = match self.history_idx {
                None => self.history.len() - 1,
                Some(i) => if i == 0 {
                    0
                } else {
                    i - 1
                },
            };
            self.history_idx = Some(i);
            let h: String = copied(&self.history[i]);
            assert(h@ == old(self)@.history[i as int]);
            self.replace_input(h.as_str());
        }
    }

    fn later(&mut self)
        requires
            old(self).wf(),
        ensures
            final(self).wf(),
            final(self)@ == old(self)@.later(),
    {
        assert(self@.history.len() == self.history@.len());
        match self.history_idx {
            None => {},
            Some(i) => {
                if i + 1 >= self.history.len() {
                    self.history_idx = None;
                    self.replace_input("");
                } else {
                    self.history_idx = Some(i + 1);
                    let h: String = copied(&self.history[i + 1]);
                    assert(h@ == old(self)@.history[i + 1]);
                    self.replace_input(h.as_str());
                }
            },
        }
    }

    fn enter(&mut self) -> (r: Request)
        requires
            old(self).wf(),
            old(self)@.can_enter(),
        ensures
            final(self).wf(),
            (Step { t: final(self)@, ask: r@ }) == old(self)@.entered(),
    {
        self.screen.put_char(10, Color::from_hex(TEXT));
        let cmd: String = shell::trimmed(self.cmd_buf.as_str());
        self.cmd_buf = String::from_str("");
        self.behind = 0;
        self.history_idx = None;
        assert(self@.history =~= old(self)@.history);
        if !is_empty(&cmd) {
            self.history.push(copied(&cmd));
            assert(self@.history =~= old(self)@.history.push(cmd@));
            proof {
                shell::law_trim_idempotent(old(self)@.cmd);
            }
            if self.history.len() > HISTORY {
                self.history.remove(0);
                assert(self@.history =~= old(self)@.history.push(cmd@).drop_first());
            }
        }
        assert(self@.history == remember(old(self)@.history, cmd@));
        self.execute(cmd.as_str())
    }

    /// Handles a key. What the command on the line needs from the rest of the
    /// kernel is the result.
    pub fn on_key(&mut self, c: char) -> (r: Request)
        requires
            old(self).wf(),
            old(self)@.wait is Idle,
            c as u8 == 10 ==> old(self)@.can_enter(),
        ensures
            final(self).wf(),
            (Step { t: final(self)@, ask: r@ }) == old(self)@.key(c as u8),
            final(self)@.dirty,
            old(self)@.plain() && plain_key(c as u8) ==> final(self)@.plain(),
    {
        proof {
            if self@.plain() && plain_key(c as u8) {
                terminal_laws::law_keys_stay_plain(self@, c as u8);
            }
        }
        let b: u8 = c as u8;
        let mut r: Request = Request::Done;
        if b == 8 {
            self.rub_out();
        } else if b == 1 {
            self.to_start();
        } else if b >= 32 && b != KEY_UP && b != KEY_DOWN {
            self.type_char(b);
        } else {
            r = self.end_key(b);
        }
        self.dirty = true;
        r
    }

    /// A key that takes the cursor to the end of the line first.
    fn end_key(&mut self, b: u8) -> (r: Request)
        requires
            old(self).wf(),
            old(self)@.wait is Idle,
            b < 32 || b == KEY_UP || b == KEY_DOWN,
            b != 8 && b != 1,
            b == 10 ==> old(self)@.can_enter(),
        ensures
            final(self).wf(),
            ({
                let s = old(self)@.key(b);
                &&& r@ == s.ask
                &&& s.t == (TerminalState { dirty: true, ..final(self)@ })
            }),
    {
        if b < 32 && !ends_line(b) {
            return Request::Done;
        }
        self.to_end();
        if b == 10 {
            self.enter()
        } else if b == 9 {
            self.tab()
        } else {
            if b == 3 {
                self.cmd_buf = String::from_str("");
                self.say("^C\n", ERR);
                self.show_prompt();
            } else if b == 0x0C || b == 0x0B {
                self.screen.clear();
                self.show_prompt();
            } else if b == KEY_UP || b == 0x10 {
                self.earlier();
            } else if b == KEY_DOWN || b == 0x0E {
                self.later();
            }
            Request::Done
        }
    }

    /// Draws the terminal into a window's content area.
    pub fn render(&self, display: &mut Display, wx: usize, wy: usize, ww: usize, wh: usize)
        requires
            self.wf(),
            wx + ww <= usize::MAX,
            wy + wh <= usize::MAX,
            wx + 571 <= usize::MAX,
            wy + 22 <= usize::MAX,
        ensures
            final(display)@ == old(display)@ + self@.screen.drawing(
                wx as int,
                wy as int,
                ww as int,
                wh as int,
            ),
    {
        self.screen.render(display, wx, wy, ww, wh);
    }
}

/// Opens a terminal, and has the desktop drawn again.
pub fn init(desktop: &mut Desktop, root_ino: u32) -> (t: Terminal)
    ensures
        t.wf(),
        t@ == TerminalState::fresh(root_ino),
        final(desktop)@ == (desktop::DesktopState { dirty: true, ..old(desktop)@ }),
{
    desktop.set_dirty(true);
    Terminal::new(root_ino)
}

} // verus!
