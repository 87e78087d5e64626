//! PCI devices and base address registers.
use vstd::prelude::*;

verus! {

/// A device found on the bus.
#[derive(Clone, Copy, PartialEq, Eq, Structural, Debug)]
pub struct PciDevice {
    pub bus: u8,
    pub dev: u8,
    pub func: u8,
    pub vendor_id: u16,
    pub device_id: u16,
    pub class: u8,
    pub subclass: u8,
    pub prog_if: u8,
}

/// The physical address in a memory base address register: a 64-bit register
/// takes its upper half from the next one; the low four bits are flags.
pub open spec fn bar_address(bar0: u32, bar1: u32) -> u64 {
    if bar0 & 6 == 4 {
        ((bar1 as u64) << 32) | ((bar0 & !0xFu32) as u64)
    } else {
        (bar0 & !0xFu32) as u64
    }
}

/// The physical address in a memory base address register.
pub fn memory_bar(bar0: u32, bar1: u32) -> (r: u64)
    ensures
        r == bar_address(bar0, bar1),
{
    if bar0 & 6 == 4 {
        ((bar1 as u64) << 32) | ((bar0 & !0xFu32) as u64)
    } else {
        (bar0 & !0xFu32) as u64
    }
}

/// The port in an I/O base address register, or `None` for a memory register.
pub open spec fn port_in(bar0: u32) -> Option<u16> {
    if bar0 & 1 == 0 {
        None
    } else {
        Some((bar0 & !3u32) as u16)
    }
}

/// The port in an I/O base address register, or `None` for a memory register.
pub fn io_bar(bar0: u32) -> (r: Option<u16>)
    ensures
        r == port_in(bar0),
        r is Some <==> bar0 & 1 != 0,
        r matches Some(io) ==> io == (bar0 & !3u32) as u16,
{
    if bar0 & 1 == 0 {
        None
    } else {
        Some((bar0 & !3u32) as u16)
    }
}

/// The devices that there are drivers for.
#[derive(Clone, Copy, PartialEq, Eq, Structural, Debug)]
pub enum Kind {
    E1000,
    Rtl8139,
    VirtioNet,
    Xhci,
}

/// The device numbers of the e1000 family.
pub open spec fn is_e1000_id(id: u16) -> bool {
    id == 0x100E || id == 0x100F || id == 0x1010 || id == 0x1011 || id == 0x1026 || id == 0x1027
        || id == 0x1028 || id == 0x1075 || id == 0x1076 || id == 0x1077 || id == 0x1078 || id
        == 0x1079 || id == 0x107A || id == 0x107B
}

/// The driver of this kind serves the device.
pub open spec fn serves(kind: Kind, d: PciDevice) -> bool {
    match kind {
        Kind::E1000 => d.vendor_id == 0x8086 && is_e1000_id(d.device_id),
        Kind::Rtl8139 => d.vendor_id == 0x10EC && d.device_id == 0x8139,
        Kind::VirtioNet => d.class == 0x02 && d.subclass == 0x00 && d.vendor_id == 0x1AF4,
        Kind::Xhci => d.class == 0x0C && d.subclass == 0x03 && d.prog_if == 0x30,
    }
}

/// Whether the driver of a kind serves a device.
pub fn is_served(kind: Kind, d: &PciDevice) -> (r: bool)
    ensures
        r == serves(kind, *d),
{
    match kind {
        Kind::E1000 => {
            let id: u16 = d.device_id;
            d.vendor_id == 0x8086 && (id == 0x100E || id == 0x100F || id == 0x1010 || id == 0x1011
                || id == 0x1026 || id == 0x1027 || id == 0x1028 || id == 0x1075 || id == 0x1076
                || id == 0x1077 || id == 0x1078 || id == 0x1079 || id == 0x107A || id == 0x107B)
        },
        Kind::Rtl8139 => d.vendor_id == 0x10EC && d.device_id == 0x8139,
        Kind::VirtioNet => d.class == 0x02 && d.subclass == 0x00 && d.vendor_id == 0x1AF4,
        Kind::Xhci => d.class == 0x0C && d.subclass == 0x03 && d.prog_if == 0x30,
    }
}

/// The first device from place `from` on that the driver of a kind serves.
pub fn find_device(devices: &Vec<PciDevice>, kind: Kind, from: usize) -> (r: Option<usize>)
    ensures
        match r {
            Some(i) => {
                &&& from <= i < devices@.len()
                &&& serves(kind, devices@[i as int])
                &&& forall|j: int| from <= j < i ==> !serves(kind, #[trigger] devices@[j])
            },
            None => forall|j: int|
                from <= j < devices@.len() ==> !serves(kind, #[trigger] devices@[j]),
        },
{
    let mut i: usize = from;
    while i < devices.len()
        invariant
            from <= i,
            forall|j: int|
                from <= j < i && j < devices@.len() ==> !serves(kind, #[trigger] devices@[j]),
        decreases devices@.len() - i,
    {
        if is_served(kind, &devices[i]) {
            return Some(i);
        }
        i = i + 1;
    }
    None
}

/// What is written to a device's command register to switch on the uses that
/// `bits` stand for.
pub open spec fn enabled(command: u16, bits: u16) -> u32 {
    (command | bits) as u32
}

/// What is written to a device's command register to switch on the uses that
/// `bits` stand for.
pub fn enable(command: u16, bits: u16) -> (r: u32)
    ensures
        r == enabled(command, bits),
        r == (command | bits) as u32,
{
    (command | bits) as u32
}

/// The address from a memory register has no flag bits: it is 16-byte aligned.
pub proof fn law_bar_aligned(bar0: u32, bar1: u32)
    ensures
        bar_address(bar0, bar1) & 0xF == 0,
{
    let hi = bar1 as u64;
    let lo = (bar0 & !0xFu32) as u64;
    assert(lo & 0xF == 0) by (bit_vector)
        requires
            lo == (bar0 & !0xFu32) as u64,
    ;
    assert(((hi << 32) | lo) & 0xF == 0) by (bit_vector)
        requires
            lo & 0xF == 0,
    ;
}

/// The address in a memory register is its value without the low four bits; a register of
/// 64 bits, as its two type bits say, takes the next one as the upper half.
pub proof fn law_bar_value(bar0: u32, bar1: u32)
    ensures
        (bar0 / 2) % 4 == 2 ==> bar_address(bar0, bar1) == bar1 * 0x1_0000_0000 + bar0 / 16 * 16,
        (bar0 / 2) % 4 != 2 ==> bar_address(bar0, bar1) == bar0 / 16 * 16,
{
    let lo = (bar0 & !0xFu32) as u64;
    let hi = bar1 as u64;
    assert((bar0 & 6 == 4) == ((bar0 / 2) % 4 == 2) && (bar0 & !0xFu32) == bar0 / 16 * 16)
        by (bit_vector);
    assert((hi << 32) | lo == hi * 0x1_0000_0000 + lo) by (bit_vector)
        requires
            hi <= 0xFFFF_FFFF,
            lo <= 0xFFFF_FFFF,
    ;
}

/// The port in an I/O register is its value without the low two bits, of which the lowest
/// tells it from a memory register.
pub proof fn law_port_value(bar0: u32)
    ensures
        port_in(bar0) is Some <==> bar0 % 2 == 1,
        bar0 % 2 == 1 && bar0 < 0x1_0000 ==> port_in(bar0) == Some((bar0 / 4 * 4) as u16),
{
    assert((bar0 & 1 != 0) == (bar0 % 2 == 1) && (bar0 & !3u32) == bar0 / 4 * 4) by (bit_vector);
}

/// Switching uses on leaves those that were on: a bit is set if it was, or if it is asked
/// for.
pub proof fn law_enabled(command: u16, bits: u16, bit: u16)
    ensures
        enabled(command, bits) as u16 & bit == (command & bit) | (bits & bit),
        enabled(command, bits) < 0x1_0000,
{
    let r = (command | bits) as u32;
    assert(((command | bits) as u32) as u16 & bit == (command & bit) | (bits & bit)) by (bit_vector);
}

/// Each kind of device is known by its numbers: the e1000 family by Intel's number and
/// three stretches of device numbers, the RTL8139 by its two numbers, the others by what
/// they are.
pub proof fn law_devices_known(d: PciDevice)
    ensures
        serves(Kind::E1000, d) <==> d.vendor_id == 0x8086 && (0x100E <= d.device_id <= 0x1011
            || 0x1026 <= d.device_id <= 0x1028 || 0x1075 <= d.device_id <= 0x107B),
        serves(Kind::Rtl8139, d) <==> d.vendor_id == 0x10EC && d.device_id == 0x8139,
        serves(Kind::VirtioNet, d) <==> d.vendor_id == 0x1AF4 && d.class == 2 && d.subclass == 0,
        serves(Kind::Xhci, d) <==> d.class == 12 && d.subclass == 3 && d.prog_if == 48,
{
}

} // verus!
