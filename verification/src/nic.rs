//! What the network drivers share.
use vstd::prelude::*;

verus! {

/// This machine's address.
pub open spec fn my_ip() -> Seq<u8> {
    seq![10u8, 0u8, 2u8, 15u8]
}

/// The gateway's address.
pub open spec fn gateway_ip() -> Seq<u8> {
    seq![10u8, 0u8, 2u8, 2u8]
}

/// The hardware address in a pair of receive address registers: the low register
/// holds the first four bytes, the high one the last two, lowest byte first.
pub open spec fn mac_of(ral: u32, rah: u32) -> Seq<u8> {
    seq![
        (ral % 256) as u8,
        ((ral / 0x100) % 256) as u8,
        ((ral / 0x10000) % 256) as u8,
        (ral / 0x1000000) as u8,
        (rah % 256) as u8,
        ((rah / 0x100) % 256) as u8,
    ]
}

/// The hardware address in a pair of receive address registers.
pub fn mac_from_regs(ral: u32, rah: u32) -> (mac: [u8; 6])
    ensures
        mac@ == mac_of(ral, rah),
{
    let mac: [u8; 6] = [
        (ral % 256) as u8,
        ((ral / 0x100) % 256) as u8,
        ((ral / 0x10000) % 256) as u8,
        (ral / 0x1000000) as u8,
        (rah % 256) as u8,
        ((rah / 0x100) % 256) as u8,
    ];
    assert(mac@ =~= mac_of(ral, rah));
    mac
}

/// The six bytes of the hardware address lie in the two registers lowest first: the first
/// four make up the low register, the other two the lower half of the high one.
pub proof fn law_mac_in_registers(ral: u32, rah: u32)
    ensures
        ({
            let m = mac_of(ral, rah);
            &&& m.len() == 6
            &&& m[0] + 0x100 * m[1] + 0x1_0000 * m[2] + 0x100_0000 * m[3] == ral
            &&& m[4] + 0x100 * m[5] == rah % 0x1_0000
        }),
{
}

/// The machine and its gateway are two hosts of one network of 256.
pub proof fn law_same_network()
    ensures
        my_ip().len() == 4 && gateway_ip().len() == 4,
        my_ip().take(3) == gateway_ip().take(3),
        my_ip().take(3) == seq![10u8, 0u8, 2u8],
        my_ip()[3] == 15 && gateway_ip()[3] == 2,
{
    assert(my_ip().take(3) =~= seq![10u8, 0u8, 2u8]);
    assert(gateway_ip().take(3) =~= seq![10u8, 0u8, 2u8]);
}

} // verus!
