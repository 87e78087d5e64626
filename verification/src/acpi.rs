//! Power off and reset.
use vstd::prelude::*;

verus! {

/// A word written to a port.
#[derive(Clone, Copy, PartialEq, Eq, Structural, Debug)]
pub struct PortWord {
    pub port: u16,
    pub value: u16,
}

/// What is written to power the machine off.
pub open spec fn off_words() -> Seq<PortWord> {
    seq![
        PortWord { port: 0x604, value: 0x2000 },
        PortWord { port: 0xB004, value: 0x2000 },
        PortWord { port: 0x4004, value: 0x3400 },
    ]
}

/// What resets the machine, where the keyboard controller has this status.
pub open spec fn reset_write(status: u8) -> Option<(u16, u8)> {
    if status & 0x02 != 0 {
        None
    } else {
        Some((0x64u16, 0xFEu8))
    }
}

/// What is written to power the machine off; after that it is halted. The first
/// port is that of current QEMU, the others those of older QEMU and Bochs, and
/// of VirtualBox.
pub fn shutdown() -> (words: [PortWord; 3])
    ensures
        words@ == off_words(),
        words@ == seq![
            PortWord { port: 0x604, value: 0x2000 },
            PortWord { port: 0xB004, value: 0x2000 },
            PortWord { port: 0x4004, value: 0x3400 },
        ],
{
    let words: [PortWord; 3] = [
        PortWord { port: 0x604, value: 0x2000 },
        PortWord { port: 0xB004, value: 0x2000 },
        PortWord { port: 0x4004, value: 0x3400 },
    ];
    assert(words@ =~= seq![
        PortWord { port: 0x604, value: 0x2000 },
        PortWord { port: 0xB004, value: 0x2000 },
        PortWord { port: 0x4004, value: 0x3400 },
    ]);
    words
}

/// What resets the machine through the keyboard controller: the command port and
/// the command, or `None` while the controller's status says that it is busy.
pub fn reboot(status: u8) -> (r: Option<(u16, u8)>)
    ensures
        r == reset_write(status),
        r == if status & 0x02 != 0 {
            None::<(u16, u8)>
        } else {
            Some((0x64u16, 0xFEu8))
        },
{
    if status & 0x02 != 0 {
        None
    } else {
        Some((0x64, 0xFE))
    }
}

/// Each machine is powered off at its own port, by the bit that puts it to sleep; for two
/// of them the kind of sleep is zero, for the third it is five.
pub proof fn law_powers_off(i: int)
    requires
        0 <= i < 3,
    ensures
        off_words().len() == 3,
        (off_words()[i].value / 0x2000) % 2 == 1,
        off_words()[0].port == 0x604 && (off_words()[0].value / 0x400) % 8 == 0,
        off_words()[1].port == 0xB004 && (off_words()[1].value / 0x400) % 8 == 0,
        off_words()[2].port == 0x4004 && (off_words()[2].value / 0x400) % 8 == 5,
{
}

/// The machine is reset by the command 0xFE to the keyboard controller, once that takes a
/// byte: not while bit 1 of its status is set.
pub proof fn law_resets(status: u8)
    ensures
        (status / 2) % 2 == 1 ==> reset_write(status) is None,
        (status / 2) % 2 == 0 ==> reset_write(status) == Some(
            (crate::ps2::CMD_PORT, 0xFEu8),
        ),
{
    assert((status & 0x02 != 0) == ((status / 2) % 2 == 1)) by (bit_vector);
}

} // verus!
