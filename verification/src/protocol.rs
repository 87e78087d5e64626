//! What the shell asks of the rest of the kernel, and the answers.
use vstd::prelude::*;
use crate::rtc::DateTime;

verus! {

/// A name in a directory.
pub struct NameEntry {
    pub ino: u32,
    pub name: String,
}

/// A name in a directory, with what it stands for.
pub struct DirEntry {
    pub name: String,
    pub is_dir: bool,
    pub size: u64,
}

/// A device as `lspci` lists it.
pub struct PciLine {
    pub bus: u8,
    pub dev: u8,
    pub func: u8,
    pub vendor_id: u16,
    pub device_id: u16,
    pub class_name: String,
}

/// One receive descriptor of the network card.
#[derive(Clone, Copy, PartialEq, Eq, Structural, Debug)]
pub struct RxState {
    pub status: u8,
    pub len: u16,
}

/// The head of a device's configuration space.
#[derive(Clone, Copy, PartialEq, Eq, Structural, Debug)]
pub struct PciConfig {
    pub vendor: u16,
    pub device: u16,
    pub command: u16,
    pub bar0: u32,
    pub bar1: u32,
}

/// Registers of the network card.
#[derive(Clone, Copy, PartialEq, Eq, Structural, Debug)]
pub struct NicRegs {
    pub ctrl: u32,
    pub status: u32,
    pub ral: u32,
    pub rah: u32,
    /// Whether the driver is up.
    pub up: bool,
    pub tctl: u32,
    pub tdbal: u32,
    pub tdlen: u32,
    pub tdh: u32,
    pub tdt: u32,
}

/// What the shell asks for.
pub enum Request {
    /// Nothing: the shell waits for keys.
    Done,
    /// The inode of a path.
    Lookup { path: String },
    /// The names in a directory.
    Names { ino: u32 },
    /// The names in a directory, with kind and size.
    Listing { ino: u32 },
    /// Whether an inode is a directory.
    Kind { ino: u32 },
    /// The bytes of a file.
    Read { ino: u32 },
    CreateDir { parent: u32, name: String },
    CreateFile { parent: u32, name: String },
    Remove { parent: u32, name: String },
    Write { ino: u32, data: Vec<u8> },
    /// The date and time.
    Clock,
    /// Free and total pages of memory.
    Memory,
    /// The receive descriptors of the network card.
    RxRing,
    /// Start the network card at a physical address.
    StartNic { bar: u64 },
    /// Announce this machine on the network.
    Announce,
    /// The configuration space of a device.
    PciConfig { bus: u8, dev: u8, func: u8 },
    /// The registers of the network card at a physical address.
    NicRegs { phys: u64 },
    /// The devices on the bus.
    Devices,
    /// The hardware address of the network card.
    NicAddress,
    Ping { ip: [u8; 4] },
    /// Open a file in the editor, whose window is named after `name`.
    Edit { path: String, name: String },
    Shutdown,
    Reboot,
}

/// An answer.
pub enum Reply {
    Done,
    /// To `Lookup`.
    Found(Option<u32>),
    /// To `Names`.
    Names(Vec<NameEntry>),
    /// To `Listing`.
    Listing(Vec<DirEntry>),
    /// To `Kind`: whether it is a directory.
    Kind(bool),
    /// To `Read`.
    Data(Vec<u8>),
    /// To `CreateFile` on the way to a write: the new inode.
    Created(u32),
    /// To `Remove`: whether it was removed.
    Removed(bool),
    /// To `Clock`.
    Clock(DateTime),
    /// To `Memory`.
    Pages { free: u64, total: u64 },
    /// To `RxRing`; `None` without a card.
    Ring(Option<Vec<RxState>>),
    /// To `StartNic`: whether the card is up.
    NicUp(bool),
    /// To `PciConfig`.
    Config(PciConfig),
    /// To `NicRegs`.
    Regs(NicRegs),
    /// To `Devices`.
    Devices(Vec<PciLine>),
    /// To `NicAddress`; `None` without a card.
    Mac(Option<[u8; 6]>),
    /// To `Ping`: the outcome in words.
    Text(String),
}

/// A directory entry, as contracts speak of it.
pub struct Entry {
    pub name: Seq<char>,
    pub is_dir: bool,
    pub size: u64,
}

/// A device, as contracts speak of it.
pub struct Device {
    pub bus: u8,
    pub dev: u8,
    pub func: u8,
    pub vendor_id: u16,
    pub device_id: u16,
    pub class_name: Seq<char>,
}

/// A request, as contracts speak of it.
pub enum Ask {
    Done,
    Lookup { path: Seq<char> },
    Names { ino: u32 },
    Listing { ino: u32 },
    Kind { ino: u32 },
    Read { ino: u32 },
    CreateDir { parent: u32, name: Seq<char> },
    CreateFile { parent: u32, name: Seq<char> },
    Remove { parent: u32, name: Seq<char> },
    Write { ino: u32, data: Seq<u8> },
    Clock,
    Memory,
    RxRing,
    StartNic { bar: u64 },
    Announce,
    PciConfig { bus: u8, dev: u8, func: u8 },
    NicRegs { phys: u64 },
    Devices,
    NicAddress,
    Ping { ip: Seq<u8> },
    Edit { path: Seq<char>, name: Seq<char> },
    Shutdown,
    Reboot,
}

/// An answer, as contracts speak of it.
pub enum Answer {
    Done,
    Found(Option<u32>),
    Names(Seq<(u32, Seq<char>)>),
    Listing(Seq<Entry>),
    Kind(bool),
    Data(Seq<u8>),
    Created(u32),
    Removed(bool),
    Clock(DateTime),
    Pages { free: u64, total: u64 },
    Ring(Option<Seq<RxState>>),
    NicUp(bool),
    Config(PciConfig),
    Regs(NicRegs),
    Devices(Seq<Device>),
    Mac(Option<Seq<u8>>),
    Text(Seq<char>),
}

impl View for NameEntry {
    type V = (u32, Seq<char>);

    open spec fn view(&self) -> (u32, Seq<char>) {
        (self.ino, self.name@)
    }
}

impl View for DirEntry {
    type V = Entry;

    open spec fn view(&self) -> Entry {
        Entry { name: self.name@, is_dir: self.is_dir, size: self.size }
    }
}

impl View for PciLine {
    type V = Device;

    open spec fn view(&self) -> Device {
        Device {
            bus: self.bus,
            dev: self.dev,
            func: self.func,
            vendor_id: self.vendor_id,
            device_id: self.device_id,
            class_name: self.class_name@,
        }
    }
}

impl View for Request {
    type V = Ask;

    open spec fn view(&self) -> Ask {
        match self {
            Request::Done => Ask::Done,
            Request::Lookup { path } => Ask::Lookup { path: path@ },
            Request::Names { ino } => Ask::Names { ino: *ino },
            Request::Listing { ino } => Ask::Listing { ino: *ino },
            Request::Kind { ino } => Ask::Kind { ino: *ino },
            Request::Read { ino } => Ask::Read { ino: *ino },
            Request::CreateDir { parent, name } => Ask::CreateDir {
                parent: *parent,
                name: name@,
            },
            Request::CreateFile { parent, name } => Ask::CreateFile {
                parent: *parent,
                name: name@,
            },
            Request::Remove { parent, name } => Ask::Remove { parent: *parent, name: name@ },
            Request::Write { ino, data } => Ask::Write { ino: *ino, data: data@ },
            Request::Clock => Ask::Clock,
            Request::Memory => Ask::Memory,
            Request::RxRing => Ask::RxRing,
            Request::StartNic { bar } => Ask::StartNic { bar: *bar },
            Request::Announce => Ask::Announce,
            Request::PciConfig { bus, dev, func } => Ask::PciConfig {
                bus: *bus,
                dev: *dev,
                func: *func,
            },
            Request::NicRegs { phys } => Ask::NicRegs { phys: *phys },
            Request::Devices => Ask::Devices,
            Request::NicAddress => Ask::NicAddress,
            Request::Ping { ip } => Ask::Ping { ip: ip@ },
            Request::Edit { path, name } => Ask::Edit { path: path@, name: name@ },
            Request::Shutdown => Ask::Shutdown,
            Request::Reboot => Ask::Reboot,
        }
    }
}

impl View for Reply {
    type V = Answer;

    open spec fn view(&self) -> Answer {
        match self {
            Reply::Done => Answer::Done,
            Reply::Found(r) => Answer::Found(*r),
            Reply::Names(v) => Answer::Names(v@.map_values(|e: NameEntry| e@)),
            Reply::Listing(v) => Answer::Listing(v@.map_values(|e: DirEntry| e@)),
            Reply::Kind(d) => Answer::Kind(*d),
            Reply::Data(d) => Answer::Data(d@),
            Reply::Created(ino) => Answer::Created(*ino),
            Reply::Removed(ok) => Answer::Removed(*ok),
            Reply::Clock(t) => Answer::Clock(*t),
            Reply::Pages { free, total } => Answer::Pages { free: *free, total: *total },
            Reply::Ring(r) => Answer::Ring(
                match r {
                    Some(v) => Some(v@),
                    None => None,
                },
            ),
            Reply::NicUp(up) => Answer::NicUp(*up),
            Reply::Config(c) => Answer::Config(*c),
            Reply::Regs(r) => Answer::Regs(*r),
            Reply::Devices(v) => Answer::Devices(v@.map_values(|d: PciLine| d@)),
            Reply::Mac(m) => Answer::Mac(
                match m {
                    Some(b) => Some(b@),
                    None => None,
                },
            ),
            Reply::Text(t) => Answer::Text(t@),
        }
    }
}

} // verus!
