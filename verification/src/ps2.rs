//! PS/2 keyboard: scancode set 1 with extended codes, shift, caps lock and
//! control, decoded into a circular buffer of key codes.
use vstd::prelude::*;

verus! {

pub const DATA_PORT: u16 = 0x60;

pub const STATUS_PORT: u16 = 0x64;

pub const CMD_PORT: u16 = 0x64;

/// Status bit: the controller holds a byte for the host.
pub const STATUS_OUTPUT: u8 = 0x01;

/// Status bit: the controller has not yet taken the host's last byte.
pub const STATUS_INPUT: u8 = 0x02;

// Keys without an ASCII code.
pub const KEY_UP: u8 = 0x80;

pub const KEY_DOWN: u8 = 0x81;

pub const KEY_LEFT: u8 = 0x82;

pub const KEY_RIGHT: u8 = 0x83;

pub const KEY_HOME: u8 = 0x84;

pub const KEY_END: u8 = 0x85;

pub const KEY_DEL: u8 = 0x86;

pub const KEY_PGUP: u8 = 0x87;

pub const KEY_PGDN: u8 = 0x88;

pub const KEY_F2: u8 = 0x89;

pub const KEY_F10: u8 = 0x8A;

pub const KEY_CTRL_HOME: u8 = 0x8B;

pub const KEY_CTRL_END: u8 = 0x8C;

pub const KEY_ESC: u8 = 0x1B;

/// Slots of the key buffer; one of them always stays free.
pub const BUF_SIZE: usize = 64;

/// A circular buffer of decoded keys.
pub struct KeyBuf {
    buf: [u8; 64],
    head: usize,
    tail: usize,
}

impl View for KeyBuf {
    type V = Seq<u8>;

    /// The waiting keys, oldest first.
    closed spec fn view(&self) -> Seq<u8> {
        Seq::new(self.count(), |i: int| self.buf@[(self.head + i) % 64])
    }
}

impl KeyBuf {
    spec fn count(&self) -> nat {
        ((self.tail + 64 - self.head) % 64) as nat
    }

    #[verifier::type_invariant]
    spec fn inv(self) -> bool {
        self.head < 64 && self.tail < 64
    }

    pub fn new() -> (k: KeyBuf)
        ensures
            k@ == Seq::<u8>::empty(),
    {
        let k = KeyBuf { buf: [0; 64], head: 0, tail: 0 };
        assert(k@ =~= Seq::<u8>::empty());
        k
    }

    /// Appends a key; a full buffer drops it.
    pub fn push(&mut self, c: u8)
        ensures
            final(self)@ == if old(self)@.len() < BUF_SIZE - 1 {
                old(self)@.push(c)
            } else {
                old(self)@
            },
    {
        proof {
            use_type_invariant(&*self);
        }
        let next: usize = (self.tail + 1) % BUF_SIZE;
        if next != self.head {
            self.buf[self.tail] = c;
            self.tail = next;
            proof {
                assert(self.count() == old(self).count() + 1);
                assert(self@ =~= old(self)@.push(c));
            }
        } else {
            assert(old(self)@.len() == 63);
        }
    }

    /// Takes the oldest key.
    pub fn pop(&mut self) -> (r: Option<u8>)
        ensures
            old(self)@.len() == 0 ==> r is None && final(self)@ == old(self)@,
            old(self)@.len() > 0 ==> r == Some(old(self)@[0]) && final(self)@
                == old(self)@.drop_first(),
            (r, final(self)@) == next_key(old(self)@),
    {
        proof {
            use_type_invariant(&*self);
        }
        if self.head == self.tail {
            return None;
        }
        let c: u8 = self.buf[self.head];
        self.head = (self.head + 1) % BUF_SIZE;
        proof {
            assert(self.count() == old(self).count() - 1);
            assert(self@ =~= old(self)@.drop_first());
        }
        Some(c)
    }

    /// The buffer never holds more than it has room for.
    pub proof fn law_bounded(&self)
        ensures
            self@.len() <= BUF_SIZE - 1,
    {
    }
}

/// What the decoder remembers between scancodes.
#[derive(Clone, Copy, PartialEq, Eq, Structural, Debug)]
pub struct Modifiers {
    pub shift: bool,
    pub caps: bool,
    pub ctrl: bool,
    /// The last byte was the prefix `0xE0`.
    pub extended: bool,
}

/// The keyboard: the decoder's state and the keys that wait to be read.
pub struct Keyboard {
    pub keys: KeyBuf,
    pub mods: Modifiers,
}

/// US QWERTY, scancode set 1, no modifier: the key of each make code, or 0.
pub open spec fn plain_map() -> Seq<u8> {
    seq![
        0, 0, 0x31, 0x32, 0x33, 0x34, 0x35, 0x36,
        0x37, 0x38, 0x39, 0x30, 0x2D, 0x3D, 0x08, 0x09,
        0x71, 0x77, 0x65, 0x72, 0x74, 0x79, 0x75, 0x69,
        0x6F, 0x70, 0x5B, 0x5D, 0x0A, 0, 0x61, 0x73,
        0x64, 0x66, 0x67, 0x68, 0x6A, 0x6B, 0x6C, 0x3B,
        0x27, 0x60, 0, 0x5C, 0x7A, 0x78, 0x63, 0x76,
        0x62, 0x6E, 0x6D, 0x2C, 0x2E, 0x2F, 0, 0x2A,
        0, 0x20,
    ]
}

/// The same with shift held: `!@#$%^&*()_+`, the capitals, `{}|:"<>?~`.
pub open spec fn shift_map() -> Seq<u8> {
    seq![
        0, 0, 0x21, 0x40, 0x23, 0x24, 0x25, 0x5E,
        0x26, 0x2A, 0x28, 0x29, 0x5F, 0x2B, 0x08, 0x09,
        0x51, 0x57, 0x45, 0x52, 0x54, 0x59, 0x55, 0x49,
        0x4F, 0x50, 0x7B, 0x7D, 0x0A, 0, 0x41, 0x53,
        0x44, 0x46, 0x47, 0x48, 0x4A, 0x4B, 0x4C, 0x3A,
        0x22, 0x7E, 0, 0x7C, 0x5A, 0x58, 0x43, 0x56,
        0x42, 0x4E, 0x4D, 0x3C, 0x3E, 0x3F, 0, 0x2A,
        0, 0x20,
    ]
}

/// Whether a key of the unmodified map is a letter.
pub open spec fn is_letter(c: u8) -> bool {
    0x61 <= c <= 0x7A
}

/// The key that the make code `sc` of the main block gives, or 0.
pub open spec fn block_key(m: Modifiers, sc: u8) -> u8 {
    if sc >= 58 {
        0
    } else {
        let plain = plain_map()[sc as int];
        if is_letter(plain) && m.ctrl {
            (plain - 0x60) as u8
        } else if is_letter(plain) && (m.shift != m.caps) {
            (plain - 0x20) as u8
        } else if is_letter(plain) {
            plain
        } else if m.shift {
            shift_map()[sc as int]
        } else {
            plain
        }
    }
}

/// The key that the make code `sc` gives behind the prefix `0xE0`, or 0.
pub open spec fn extended_key(m: Modifiers, sc: u8) -> u8 {
    if sc == 0x48 {
        KEY_UP
    } else if sc == 0x50 {
        KEY_DOWN
    } else if sc == 0x4B {
        KEY_LEFT
    } else if sc == 0x4D {
        KEY_RIGHT
    } else if sc == 0x47 {
        if m.ctrl {
            KEY_CTRL_HOME
        } else {
            KEY_HOME
        }
    } else if sc == 0x4F {
        if m.ctrl {
            KEY_CTRL_END
        } else {
            KEY_END
        }
    } else if sc == 0x53 {
        KEY_DEL
    } else if sc == 0x49 {
        KEY_PGUP
    } else if sc == 0x51 {
        KEY_PGDN
    } else {
        block_key(m, sc)
    }
}

/// The key that the make code `sc` gives without a prefix, or 0.
pub open spec fn main_key(m: Modifiers, sc: u8) -> u8 {
    if sc == 0x01 {
        KEY_ESC
    } else if sc == 0x3C {
        KEY_F2
    } else if sc == 0x44 {
        KEY_F10
    } else {
        block_key(m, sc)
    }
}

/// The modifiers after the byte `sc`: `0xE0` announces an extended code, and
/// the shift, control and caps lock keys act when pressed or released.
pub open spec fn next_modifiers(m: Modifiers, sc: u8) -> Modifiers {
    if sc == 0xE0 {
        Modifiers { extended: true, ..m }
    } else {
        Modifiers {
            shift: if !m.extended && (sc == 0x2A || sc == 0x36) {
                true
            } else if !m.extended && (sc == 0xAA || sc == 0xB6) {
                false
            } else {
                m.shift
            },
            caps: if !m.extended && sc == 0x3A {
                !m.caps
            } else {
                m.caps
            },
            ctrl: if sc == 0x1D {
                true
            } else if sc == 0x9D {
                false
            } else {
                m.ctrl
            },
            extended: false,
        }
    }
}

/// The key that the byte `sc` gives, or 0 for none. Releases give none.
pub open spec fn key_of(m: Modifiers, sc: u8) -> u8 {
    if sc >= 0x80 {
        0
    } else if m.extended {
        extended_key(m, sc)
    } else {
        main_key(m, sc)
    }
}

/// The queue after the key `c`, where 0 stands for none.
pub open spec fn queue_after(q: Seq<u8>, c: u8) -> Seq<u8> {
    if c != 0 && q.len() < BUF_SIZE - 1 {
        q.push(c)
    } else {
        q
    }
}

fn plain(sc: usize) -> (c: u8)
    requires
        sc < 58,
    ensures
        c == plain_map()[sc as int],
{
    let map: [u8; 58] = [
        0, 0, 0x31, 0x32, 0x33, 0x34, 0x35, 0x36,
        0x37, 0x38, 0x39, 0x30, 0x2D, 0x3D, 0x08, 0x09,
        0x71, 0x77, 0x65, 0x72, 0x74, 0x79, 0x75, 0x69,
        0x6F, 0x70, 0x5B, 0x5D, 0x0A, 0, 0x61, 0x73,
        0x64, 0x66, 0x67, 0x68, 0x6A, 0x6B, 0x6C, 0x3B,
        0x27, 0x60, 0, 0x5C, 0x7A, 0x78, 0x63, 0x76,
        0x62, 0x6E, 0x6D, 0x2C, 0x2E, 0x2F, 0, 0x2A,
        0, 0x20,
    ];
    assert(map@ =~= plain_map());
    map[sc]
}

fn shifted(sc: usize) -> (c: u8)
    requires
        sc < 58,
    ensures
        c == shift_map()[sc as int],
{
    let map: [u8; 58] = [
        0, 0, 0x21, 0x40, 0x23, 0x24, 0x25, 0x5E,
        0x26, 0x2A, 0x28, 0x29, 0x5F, 0x2B, 0x08, 0x09,
        0x51, 0x57, 0x45, 0x52, 0x54, 0x59, 0x55, 0x49,
        0x4F, 0x50, 0x7B, 0x7D, 0x0A, 0, 0x41, 0x53,
        0x44, 0x46, 0x47, 0x48, 0x4A, 0x4B, 0x4C, 0x3A,
        0x22, 0x7E, 0, 0x7C, 0x5A, 0x58, 0x43, 0x56,
        0x42, 0x4E, 0x4D, 0x3C, 0x3E, 0x3F, 0, 0x2A,
        0, 0x20,
    ];
    assert(map@ =~= shift_map());
    map[sc]
}

fn decode_block(m: Modifiers, sc: u8) -> (c: u8)
    ensures
        c == block_key(m, sc),
{
    if sc >= 58 {
        return 0;
    }
    let c: u8 = plain(sc as usize);
    if 0x61 <= c && c <= 0x7A {
        if m.ctrl {
            c - 0x60
        } else if m.shift != m.caps {
            c - 0x20
        } else {
            c
        }
    } else if m.shift {
        shifted(sc as usize)
    } else {
        c
    }
}

fn decode(m: Modifiers, sc: u8) -> (c: u8)
    ensures
        c == key_of(m, sc),
{
    if sc >= 0x80 {
        0
    } else if m.extended {
        match sc {
            0x48 => KEY_UP,
            0x50 => KEY_DOWN,
            0x4B => KEY_LEFT,
            0x4D => KEY_RIGHT,
            0x47 => if m.ctrl {
                KEY_CTRL_HOME
            } else {
                KEY_HOME
            },
            0x4F => if m.ctrl {
                KEY_CTRL_END
            } else {
                KEY_END
            },
            0x53 => KEY_DEL,
            0x49 => KEY_PGUP,
            0x51 => KEY_PGDN,
            _ => decode_block(m, sc),
        }
    } else {
        match sc {
            0x01 => KEY_ESC,
            0x3C => KEY_F2,
            0x44 => KEY_F10,
            _ => decode_block(m, sc),
        }
    }
}

impl Keyboard {
    pub fn new() -> (k: Keyboard)
        ensures
            k.keys@ == Seq::<u8>::empty(),
            k.mods == (Modifiers { shift: false, caps: false, ctrl: false, extended: false }),
    {
        Keyboard {
            keys: KeyBuf::new(),
            mods: Modifiers { shift: false, caps: false, ctrl: false, extended: false },
        }
    }
}

/// Takes one byte from the keyboard: updates the modifiers and queues the key
/// that the byte completes, if any.
pub fn handle_scancode(kb: &mut Keyboard, sc: u8)
    ensures
        final(kb).mods == next_modifiers(old(kb).mods, sc),
        final(kb).keys@ == queue_after(old(kb).keys@, key_of(old(kb).mods, sc)),
{
    let m: Modifiers = kb.mods;
    let c: u8 = decode(m, sc);
    if sc == 0xE0 {
        kb.mods.extended = true;
    } else {
        if !m.extended {
            if sc == 0x2A || sc == 0x36 {
                kb.mods.shift = true;
            } else if sc == 0xAA || sc == 0xB6 {
                kb.mods.shift = false;
            } else if sc == 0x3A {
                kb.mods.caps = !m.caps;
            }
        }
        if sc == 0x1D {
            kb.mods.ctrl = true;
        } else if sc == 0x9D {
            kb.mods.ctrl = false;
        }
        kb.mods.extended = false;
    }
    if c != 0 {
        kb.keys.push(c);
    }
}

/// Takes the oldest waiting key, if there is one.
pub fn read_char(kb: &mut Keyboard) -> (r: Option<char>)
    ensures
        final(kb).mods == old(kb).mods,
        old(kb).keys@.len() == 0 ==> r is None && final(kb).keys@ == old(kb).keys@,
        old(kb).keys@.len() > 0 ==> r == Some(old(kb).keys@[0] as char) && final(kb).keys@
            == old(kb).keys@.drop_first(),
        (
            match r {
                Some(c) => Some(c as u8),
                None => None::<u8>,
            },
            final(kb).keys@,
        ) == next_key(old(kb).keys@),
{
    match kb.keys.pop() {
        Some(b) => Some(b as char),
        None => None,
    }
}

/// Takes the oldest waiting key of a keyboard that has one.
pub fn read_char_blocking(kb: &mut Keyboard) -> (c: char)
    requires
        old(kb).keys@.len() > 0,
    ensures
        c == old(kb).keys@[0] as char,
        final(kb).keys@ == old(kb).keys@.drop_first(),
        final(kb).mods == old(kb).mods,
        (Some(c as u8), final(kb).keys@) == next_key(old(kb).keys@),
{
    match read_char(kb) {
        Some(c) => c,
        None => ' ',
    }
}

/// Whether the status byte says that a byte waits to be read.
pub fn wait_read(status: u8) -> (ready: bool)
    ensures
        ready == (status & STATUS_OUTPUT != 0),
        ready == can_read(status),
{
    status & STATUS_OUTPUT != 0
}

/// Whether the status byte says that a byte may be written.
pub fn wait_write(status: u8) -> (ready: bool)
    ensures
        ready == (status & STATUS_INPUT == 0),
        ready == can_write(status),
{
    status & STATUS_INPUT == 0
}

/// Handles one look at the controller: `data` counts only where `status` says
/// that a byte waits.
pub fn poll(kb: &mut Keyboard, status: u8, data: u8)
    ensures
        status & STATUS_OUTPUT == 0 ==> final(kb).mods == old(kb).mods && final(kb).keys@
            == old(kb).keys@,
        status & STATUS_OUTPUT != 0 ==> final(kb).mods == next_modifiers(old(kb).mods, data)
            && final(kb).keys@ == queue_after(old(kb).keys@, key_of(old(kb).mods, data)),
        !can_read(status) ==> final(kb).mods == old(kb).mods && final(kb).keys@ == old(kb).keys@,
        can_read(status) ==> final(kb).mods == next_modifiers(old(kb).mods, data),
{
    if wait_read(status) {
        handle_scancode(kb, data);
    }
}

/// One step of a controller program. `Read` and `TimedRead` keep the byte that
/// came, and `DataKept` writes it back changed.
#[derive(Clone, Copy, PartialEq, Eq, Structural, Debug)]
pub enum PortStep {
    /// Read the data port until the status says it is empty, at most `max`
    /// times; 0 stands for no limit.
    Drain { max: u32 },
    /// Wait until the controller takes a byte.
    WaitWrite,
    /// Wait until the controller holds a byte.
    WaitRead,
    /// Write the command port.
    Command(u8),
    /// Write the data port.
    Data(u8),
    /// Write `(kept & keep) | set` to the data port.
    DataKept { keep: u8, set: u8 },
    /// Read the data port and keep the byte.
    Read,
    /// Keep the first byte that comes within `tries` looks, else 0.
    TimedRead { tries: u32 },
}

/// The program that starts the keyboard.
pub open spec fn keyboard_program() -> Seq<PortStep> {
    seq![
        // flush, then disable both ports
        PortStep::Drain { max: 0 },
        PortStep::WaitWrite, PortStep::Command(0xAD),
        PortStep::WaitWrite, PortStep::Command(0xA7),
        // configuration byte: clear bit 0 and bit 6 (translation off)
        PortStep::WaitWrite, PortStep::Command(0x20),
        PortStep::WaitRead, PortStep::Read,
        PortStep::WaitWrite, PortStep::Command(0x60),
        PortStep::WaitWrite, PortStep::DataKept { keep: 0xBE, set: 0 },
        // enable the first port
        PortStep::WaitWrite, PortStep::Command(0xAE),
        // reset: acknowledge, then the result of the self-test
        PortStep::WaitWrite, PortStep::Data(0xFF),
        PortStep::WaitRead, PortStep::Read,
        PortStep::WaitRead, PortStep::Read,
        // scancode set 1
        PortStep::WaitWrite, PortStep::Data(0xF0),
        PortStep::WaitRead, PortStep::Read,
        PortStep::WaitWrite, PortStep::Data(0x01),
        PortStep::WaitRead, PortStep::Read,
        // enable scanning
        PortStep::WaitWrite, PortStep::Data(0xF4),
        PortStep::WaitRead, PortStep::Read,
    ]
}

/// The program that starts the keyboard.
pub fn init() -> (steps: Vec<PortStep>)
    ensures
        steps@ == keyboard_program(),
{
    let steps: Vec<PortStep> = vec![
        PortStep::Drain { max: 0 },
        PortStep::WaitWrite, PortStep::Command(0xAD),
        PortStep::WaitWrite, PortStep::Command(0xA7),
        PortStep::WaitWrite, PortStep::Command(0x20),
        PortStep::WaitRead, PortStep::Read,
        PortStep::WaitWrite, PortStep::Command(0x60),
        PortStep::WaitWrite, PortStep::DataKept { keep: 0xBE, set: 0 },
        PortStep::WaitWrite, PortStep::Command(0xAE),
        PortStep::WaitWrite, PortStep::Data(0xFF),
        PortStep::WaitRead, PortStep::Read,
        PortStep::WaitRead, PortStep::Read,
        PortStep::WaitWrite, PortStep::Data(0xF0),
        PortStep::WaitRead, PortStep::Read,
        PortStep::WaitWrite, PortStep::Data(0x01),
        PortStep::WaitRead, PortStep::Read,
        PortStep::WaitWrite, PortStep::Data(0xF4),
        PortStep::WaitRead, PortStep::Read,
    ];
    assert(steps@ =~= keyboard_program());
    steps
}

/// A key that is released leaves nothing in the queue.
pub proof fn law_release_is_silent(m: Modifiers, sc: u8, q: Seq<u8>)
    requires
        sc & 0x80 != 0,
    ensures
        queue_after(q, key_of(m, sc)) == q,
{
    assert(sc & 0x80 != 0 ==> sc >= 0x80) by (bit_vector);
}

/// Keys come out in the order they were typed: as long as the buffer has room,
/// two keys queued one after the other are the last two of the queue, in order.
pub proof fn law_typing_order(q: Seq<u8>, a: u8, b: u8)
    requires
        a != 0,
        b != 0,
        q.len() + 2 <= BUF_SIZE - 1,
    ensures
        queue_after(queue_after(q, a), b) == q + seq![a, b],
{
    assert(q.push(a).push(b) =~= q + seq![a, b]);
}

/// Pressing and releasing shift (or control) leaves the modifiers as they were
/// before, if the key was up.
pub proof fn law_tap_restores(m: Modifiers)
    requires
        !m.extended,
        !m.shift,
        !m.ctrl,
    ensures
        next_modifiers(next_modifiers(m, 0x2A), 0xAA) == m,
        next_modifiers(next_modifiers(m, 0x36), 0xB6) == m,
        next_modifiers(next_modifiers(m, 0x1D), 0x9D) == m,
{
}

/// Without modifiers and prefix, the main block types the unmodified map.
pub proof fn law_plain_typing(m: Modifiers, sc: u8)
    requires
        !m.shift,
        !m.caps,
        !m.ctrl,
        !m.extended,
        1 < sc < 58,
    ensures
        key_of(m, sc) == plain_map()[sc as int],
{
}

// ── What the keys are for ───────────────────────────────────────────────────

/// The key at place `i` of a row of keys types the `i`-th of these characters; the row's
/// first key has the make code `first`.
pub open spec fn row_types(m: Modifiers, first: int, chars: Seq<char>) -> bool {
    forall|i: int|
        0 <= i < chars.len() ==> key_of(m, (first + i) as u8) as char == #[trigger] chars[i]
}

/// No modifier is held, no lock is on and no prefix came.
pub open spec fn unmodified(m: Modifiers) -> bool {
    !m.shift && !m.caps && !m.ctrl && !m.extended
}

proof fn lemma_row(m: Modifiers, first: int, chars: Seq<char>)
    requires
        chars.len() <= 12,
        forall|i: int|
            #![trigger chars[i]]
            0 <= i < chars.len() && (i == 0 || i == 1 || i == 2 || i == 3 || i == 4 || i == 5 || i
                == 6 || i == 7 || i == 8 || i == 9 || i == 10 || i == 11) ==> key_of(
                m,
                (first + i) as u8,
            ) as char == chars[i],
    ensures
        row_types(m, first, chars),
{
}

/// The four rows of a US keyboard type what is printed on their keys, from left to right;
/// backspace, tab, enter and the space bar type theirs.
pub proof fn law_us_keyboard(m: Modifiers)
    requires
        unmodified(m),
    ensures
        row_types(m, 0x02, "1234567890-="@),
        row_types(m, 0x10, "qwertyuiop[]"@),
        row_types(m, 0x1E, "asdfghjkl;'`"@),
        row_types(m, 0x2C, "zxcvbnm,./"@),
        key_of(m, 0x2B) as char == '\\',
        key_of(m, 0x37) as char == '*',
        key_of(m, 0x39) as char == ' ',
        key_of(m, 0x0E) as char == '\u{8}',
        key_of(m, 0x0F) as char == '\t',
        key_of(m, 0x1C) as char == '\n',
        key_of(m, 0x01) as char == '\u{1b}',
{
    reveal_strlit("1234567890-=");
    reveal_strlit("qwertyuiop[]");
    reveal_strlit("asdfghjkl;'`");
    reveal_strlit("zxcvbnm,./");
    lemma_row(m, 0x02, "1234567890-="@);
    lemma_row(m, 0x10, "qwertyuiop[]"@);
    lemma_row(m, 0x1E, "asdfghjkl;'`"@);
    lemma_row(m, 0x2C, "zxcvbnm,./"@);
}

/// With shift held the same rows type the capitals and the upper signs.
pub proof fn law_us_keyboard_shifted(m: Modifiers)
    requires
        m.shift,
        !m.caps,
        !m.ctrl,
        !m.extended,
    ensures
        row_types(m, 0x02, "!@#$%^&*()_+"@),
        row_types(m, 0x10, "QWERTYUIOP{}"@),
        row_types(m, 0x1E, "ASDFGHJKL:\"~"@),
        row_types(m, 0x2C, "ZXCVBNM<>?"@),
        key_of(m, 0x2B) as char == '|',
        key_of(m, 0x37) as char == '*',
        key_of(m, 0x39) as char == ' ',
        key_of(m, 0x0E) as char == '\u{8}',
        key_of(m, 0x0F) as char == '\t',
        key_of(m, 0x1C) as char == '\n',
{
    reveal_strlit("!@#$%^&*()_+");
    reveal_strlit("QWERTYUIOP{}");
    reveal_strlit("ASDFGHJKL:\"~");
    reveal_strlit("ZXCVBNM<>?");
    lemma_row(m, 0x02, "!@#$%^&*()_+"@);
    lemma_row(m, 0x10, "QWERTYUIOP{}"@);
    lemma_row(m, 0x1E, "ASDFGHJKL:\"~"@);
    lemma_row(m, 0x2C, "ZXCVBNM<>?"@);
}

/// Caps lock exchanges small letters and capitals, with shift or without, and leaves all
/// other keys alone.
pub proof fn law_caps_lock(m: Modifiers, sc: u8)
    requires
        !m.caps,
        !m.ctrl,
        !m.extended,
    ensures
        ({
            let off = key_of(m, sc) as char;
            let on = key_of(Modifiers { caps: true, ..m }, sc) as char;
            &&& 'a' <= off <= 'z' ==> on as int == off as int - 32
            &&& 'A' <= off <= 'Z' ==> on as int == off as int + 32
            &&& !('a' <= off <= 'z') && !('A' <= off <= 'Z') ==> on == off
        }),
{
    if sc < 58 {
        lemma_shift_signs(sc);
    }
}

/// The keys without a letter have none with shift either.
proof fn lemma_shift_signs(sc: u8)
    requires
        sc < 58,
    ensures
        !is_letter(plain_map()[sc as int]) ==> !(0x41 <= shift_map()[sc as int] <= 0x5A) && !(0x61
            <= shift_map()[sc as int] <= 0x7A) && !(0x41 <= plain_map()[sc as int] <= 0x5A),
{
}

/// Control with a letter gives the letter's number in the alphabet, whatever else is
/// held; with any other key it changes nothing.
pub proof fn law_control(m: Modifiers, sc: u8)
    requires
        unmodified(m),
    ensures
        ({
            let c = key_of(m, sc) as char;
            &&& 'a' <= c <= 'z' ==> forall|shift: bool, caps: bool|
                #![trigger key_of(Modifiers { shift, caps, ctrl: true, extended: false }, sc)]
                key_of(Modifiers { shift, caps, ctrl: true, extended: false }, sc) == c as int
                    - 'a' as int + 1
            &&& !('a' <= c <= 'z') ==> key_of(Modifiers { ctrl: true, ..m }, sc) == key_of(m, sc)
        }),
{
}

/// Behind the prefix come the keys without a character: the arrows, home, end, delete and
/// the two page keys; home and end count apart with control. Without it come escape and
/// two of the function keys.
pub proof fn law_named_keys(m: Modifiers)
    requires
        !m.extended,
    ensures
        ({
            let p = next_modifiers(m, 0xE0);
            &&& key_of(p, 0x48) == KEY_UP
            &&& key_of(p, 0x50) == KEY_DOWN
            &&& key_of(p, 0x4B) == KEY_LEFT
            &&& key_of(p, 0x4D) == KEY_RIGHT
            &&& key_of(p, 0x53) == KEY_DEL
            &&& key_of(p, 0x49) == KEY_PGUP
            &&& key_of(p, 0x51) == KEY_PGDN
            &&& !m.ctrl ==> key_of(p, 0x47) == KEY_HOME && key_of(p, 0x4F) == KEY_END
            &&& m.ctrl ==> key_of(p, 0x47) == KEY_CTRL_HOME && key_of(p, 0x4F) == KEY_CTRL_END
        }),
        key_of(m, 0x01) == KEY_ESC,
        key_of(m, 0x3C) == KEY_F2,
        key_of(m, 0x44) == KEY_F10,
{
}

/// The named keys are told apart from each other and from every character of ASCII but
/// escape, which has its own.
pub proof fn law_named_keys_differ(i: int, j: int)
    requires
        0 <= i < j < 13,
    ensures
        ({
            let keys = seq![
                KEY_UP, KEY_DOWN, KEY_LEFT, KEY_RIGHT, KEY_HOME, KEY_END, KEY_DEL, KEY_PGUP,
                KEY_PGDN, KEY_F2, KEY_F10, KEY_CTRL_HOME, KEY_CTRL_END,
            ];
            keys[i] != keys[j] && keys[i] >= 0x80 && keys[j] >= 0x80
        }),
        KEY_ESC == 0x1B,
{
}

/// Each modifier follows its own keys and no others: either shift key holds shift from
/// its press to its release, control holds from its press to its release, and caps lock
/// turns at every press. A prefix lasts for one byte, and shift and caps lock do not act
/// behind it.
pub proof fn law_modifiers_follow(m: Modifiers, sc: u8)
    ensures
        ({
            let n = next_modifiers(m, sc);
            &&& !m.extended && (sc == 0x2A || sc == 0x36) ==> n.shift
            &&& !m.extended && (sc == 0xAA || sc == 0xB6) ==> !n.shift
            &&& m.extended || (sc != 0x2A && sc != 0x36 && sc != 0xAA && sc != 0xB6) ==> n.shift
                == m.shift
            &&& !m.extended && sc == 0x3A ==> n.caps != m.caps
            &&& m.extended || sc != 0x3A ==> n.caps == m.caps
            &&& sc == 0x1D ==> n.ctrl
            &&& sc == 0x9D ==> !n.ctrl
            &&& sc != 0x1D && sc != 0x9D ==> n.ctrl == m.ctrl
            &&& n.extended <==> sc == 0xE0
        }),
{
}

/// A key is lost only when the buffer is full: then the keys that wait stay as they are.
pub proof fn law_full_buffer(q: Seq<u8>, c: u8)
    requires
        q.len() == 63,
    ensures
        queue_after(q, c) == q,
{
}

/// The controller of the keyboard and the mouse, and what the two devices were told.
pub struct Controller {
    pub keyboard_on: bool,
    pub mouse_on: bool,
    pub config: u8,
    /// The byte that was read last.
    pub kept: u8,
    /// The command that waits for its byte, or 0.
    pub open: u8,
    /// The bytes that went to the keyboard.
    pub to_keyboard: Seq<u8>,
    /// The bytes that went to the mouse.
    pub to_mouse: Seq<u8>,
}

impl Controller {
    /// A byte at the data port: it belongs to the command before it, or to the keyboard.
    pub open spec fn data(self, b: u8) -> Controller {
        if self.open == 0x60 {
            Controller { config: b, open: 0, ..self }
        } else if self.open == 0xD4 {
            Controller { to_mouse: self.to_mouse.push(b), open: 0, ..self }
        } else {
            Controller { to_keyboard: self.to_keyboard.push(b), ..self }
        }
    }

    /// The controller after a step. A byte that is read behind the command 0x20 is the
    /// configuration; any other comes from a device, and may be anything.
    pub open spec fn step(self, p: PortStep, other: u8) -> Controller {
        match p {
            PortStep::Command(c) => if c == 0xAD {
                Controller { keyboard_on: false, ..self }
            } else if c == 0xAE {
                Controller { keyboard_on: true, ..self }
            } else if c == 0xA7 {
                Controller { mouse_on: false, ..self }
            } else if c == 0xA8 {
                Controller { mouse_on: true, ..self }
            } else {
                Controller { open: c, ..self }
            },
            PortStep::Data(b) => self.data(b),
            PortStep::DataKept { keep, set } => self.data((self.kept & keep) | set),
            PortStep::Read => if self.open == 0x20 {
                Controller { kept: self.config, open: 0, ..self }
            } else {
                Controller { kept: other, ..self }
            },
            PortStep::TimedRead { tries } => if self.open == 0x20 {
                Controller { kept: self.config, open: 0, ..self }
            } else {
                Controller { kept: other, ..self }
            },
            _ => self,
        }
    }

    /// The controller after the first `n` steps of a program, where the devices answer
    /// with `others`.
    pub open spec fn run_to(
        self,
        ps: Seq<PortStep>,
        n: int,
        others: spec_fn(int) -> u8,
    ) -> Controller
        decreases n,
    {
        if n <= 0 {
            self
        } else {
            self.run_to(ps, n - 1, others).step(ps[n - 1], others(n - 1))
        }
    }

    /// The controller after a program.
    pub open spec fn run(self, ps: Seq<PortStep>, others: spec_fn(int) -> u8) -> Controller {
        self.run_to(ps, ps.len() as int, others)
    }
}

/// Every byte of a program is written only when the controller can take one, and read only
/// when it holds one: the step before it waits for that.
pub open spec fn waits_first(ps: Seq<PortStep>) -> bool {
    forall|i: int|
        0 <= i < ps.len() ==> {
            &&& (#[trigger] ps[i] is Command || ps[i] is Data || ps[i] is DataKept) ==> i > 0
                && ps[i - 1] is WaitWrite
            &&& ps[i] is Read ==> i > 0 && ps[i - 1] is WaitRead
        }
}

/// The program that starts the keyboard leaves its port on and that of the mouse off. Of
/// the configuration it clears the keyboard's interrupt and the translation of codes, and
/// nothing else. The keyboard is reset, set to the first set of codes and told to report,
/// in this order; nothing goes to the mouse. No byte is written or read unasked.
pub proof fn law_keyboard_started(c: Controller, others: spec_fn(int) -> u8)
    requires
        c.open == 0,
    ensures
        ({
            let d = c.run(keyboard_program(), others);
            &&& d.keyboard_on
            &&& !d.mouse_on
            &&& d.config == c.config & 0xBE
            &&& d.to_keyboard == c.to_keyboard + seq![0xFFu8, 0xF0u8, 0x01u8, 0xF4u8]
            &&& d.to_mouse == c.to_mouse
        }),
        waits_first(keyboard_program()),
        keyboard_program()[0] == (PortStep::Drain { max: 0 }),
{
    lemma_configured(c, others);
    lemma_keyboard_told(c, others);
}

/// The first half of the program: the ports and the configuration.
proof fn lemma_configured(c: Controller, others: spec_fn(int) -> u8)
    requires
        c.open == 0,
    ensures
        ({
            let m = c.run_to(keyboard_program(), 15, others);
            &&& m.keyboard_on && !m.mouse_on
            &&& m.config == c.config & 0xBE
            &&& m.to_keyboard == c.to_keyboard
            &&& m.to_mouse == c.to_mouse
            &&& m.open == 0
        }),
{
    reveal_with_fuel(Controller::run_to, 16);
    let config = c.config;
    assert((config & 0xBE) | 0 == config & 0xBE) by (bit_vector);
}

/// The second half: what is said to the keyboard.
proof fn lemma_keyboard_told(c: Controller, others: spec_fn(int) -> u8)
    requires
        c.run_to(keyboard_program(), 15, others).open == 0,
    ensures
        ({
            let m = c.run_to(keyboard_program(), 15, others);
            let d = c.run(keyboard_program(), others);
            &&& d.keyboard_on == m.keyboard_on && d.mouse_on == m.mouse_on
            &&& d.config == m.config
            &&& d.to_keyboard == m.to_keyboard + seq![0xFFu8, 0xF0u8, 0x01u8, 0xF4u8]
            &&& d.to_mouse == m.to_mouse
        }),
{
    reveal_with_fuel(Controller::run_to, 20);
    let m = c.run_to(keyboard_program(), 15, others);
    let d = c.run(keyboard_program(), others);
    assert(keyboard_program().len() == 33);
    assert(d.to_keyboard =~= m.to_keyboard + seq![0xFFu8, 0xF0u8, 0x01u8, 0xF4u8]);
}

// ── Reading keys ────────────────────────────────────────────────────────────

/// The controller holds a byte for the host.
pub open spec fn can_read(status: u8) -> bool {
    status & STATUS_OUTPUT != 0
}

/// The controller takes a byte.
pub open spec fn can_write(status: u8) -> bool {
    status & STATUS_INPUT == 0
}

/// The key that comes next, and the buffer without it.
pub open spec fn next_key(q: Seq<u8>) -> (Option<u8>, Seq<u8>) {
    if q.len() == 0 {
        (None, q)
    } else {
        (Some(q[0]), q.drop_first())
    }
}

/// Keys come out in the order in which they went in, none of them twice, and an empty
/// buffer gives none. A key that goes in does not change which one comes next.
pub proof fn law_keys_in_order(first: u8, rest: Seq<u8>, q: Seq<u8>, k: u8)
    ensures
        next_key(seq![first] + rest) == (Some(first), rest),
        next_key(Seq::<u8>::empty()).0 is None,
        q.len() > 0 ==> next_key(q.push(k)).0 == next_key(q).0 && next_key(q.push(k)).1 == next_key(
            q,
        ).1.push(k),
        q.len() == 0 ==> next_key(q.push(k)) == (Some(k), q),
{
    assert((seq![first] + rest).drop_first() =~= rest);
    if q.len() > 0 {
        assert(q.push(k).drop_first() =~= q.drop_first().push(k));
    } else {
        assert(q.push(k).drop_first() =~= q);
    }
}

/// The lowest bit of the status says that there is a byte to read, and the next one that
/// the controller has not taken the last byte yet.
pub proof fn law_status_bits(status: u8)
    ensures
        can_read(status) <==> status % 2 == 1,
        can_write(status) <==> (status / 2) % 2 == 0,
{
    crate::bytes::lemma_byte_bits(status);
}

} // verus!
