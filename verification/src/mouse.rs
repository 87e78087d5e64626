//! PS/2 mouse: packets of three bytes that move a pointer.
use vstd::prelude::*;
use crate::ps2::{Controller, PortStep};
use crate::ps2;

verus! {

/// Status bit: the byte comes from the mouse.
pub const STATUS_MOUSE: u8 = 0x20;

/// The pointer, and the packet that is coming in.
pub struct MouseState {
    pub x: i32,
    pub y: i32,
    pub buttons: u8,
    /// How many bytes of the packet are there.
    pub cycle: u8,
    pub packet: [u8; 3],
}

/// What contracts say of the mouse.
pub struct Mouse {
    pub x: int,
    pub y: int,
    pub buttons: u8,
    pub cycle: u8,
    pub packet: Seq<u8>,
}

impl View for MouseState {
    type V = Mouse;

    open spec fn view(&self) -> Mouse {
        Mouse {
            x: self.x as int,
            y: self.y as int,
            buttons: self.buttons,
            cycle: self.cycle,
            packet: self.packet@,
        }
    }
}

/// A movement: nine bits, of which the flags hold the sign.
pub open spec fn movement(low: u8, negative: bool) -> int {
    low - if negative {
        256int
    } else {
        0
    }
}

impl Mouse {
    /// Between two packets, or in one.
    pub open spec fn wf(self) -> bool {
        self.cycle <= 2 && self.packet.len() == 3
    }

    /// The pointer lies where 32 bits can say.
    pub open spec fn fits(self) -> bool {
        i32::MIN <= self.x <= i32::MAX && i32::MIN <= self.y <= i32::MAX
    }

    /// The packet applied; up on the mouse is up on the screen.
    pub open spec fn moved(self) -> Mouse {
        let flags = self.packet[0];
        Mouse {
            x: self.x + movement(self.packet[1], flags & 0x10 != 0),
            y: self.y - movement(self.packet[2], flags & 0x20 != 0),
            buttons: flags & 0x07,
            ..self
        }
    }

    /// The mouse after a byte. A packet's first byte has bit 3 set: any other is
    /// dropped there.
    pub open spec fn byte(self, b: u8) -> Mouse {
        if self.cycle == 0 {
            if b & 0x08 == 0 {
                self
            } else {
                Mouse { packet: self.packet.update(0, b), cycle: 1, ..self }
            }
        } else if self.cycle == 1 {
            Mouse { packet: self.packet.update(1, b), cycle: 2, ..self }
        } else if self.cycle == 2 {
            (Mouse { packet: self.packet.update(2, b), cycle: 0, ..self }).moved()
        } else {
            Mouse { cycle: 0, ..self }
        }
    }
}

/// A number brought into the range `0 .. n`.
pub open spec fn clamped(v: int, n: int) -> int {
    if v < 0 {
        0
    } else if v > n - 1 {
        n - 1
    } else {
        v
    }
}

fn clamp_to(v: i32, n: i32) -> (r: i32)
    requires
        n >= 1,
    ensures
        r == clamped(v as int, n as int),
{
    if v < 0 {
        0
    } else if v > n - 1 {
        n - 1
    } else {
        v
    }
}

impl MouseState {
    /// A pointer in the middle of a screen of 1280 by 720.
    pub fn new() -> (m: MouseState)
        ensures
            m@.wf(),
            m@ == (Mouse { x: 640, y: 360, buttons: 0, cycle: 0, packet: seq![0u8, 0u8, 0u8] }),
            m@ == Mouse::fresh(),
    {
        let m = MouseState { x: 640, y: 360, buttons: 0, cycle: 0, packet: [0u8; 3] };
        assert(m.packet@ =~= seq![0u8, 0u8, 0u8]);
        m
    }

    /// Keeps the pointer on a screen of `w` by `h` pixels.
    pub fn clamp(&mut self, w: i32, h: i32)
        requires
            w >= 1,
            h >= 1,
        ensures
            final(self)@ == (Mouse {
                x: clamped(old(self)@.x, w as int),
                y: clamped(old(self)@.y, h as int),
                ..old(self)@
            }),
            final(self)@ == old(self)@.kept(w as int, h as int),
    {
        self.x = clamp_to(self.x, w);
        self.y = clamp_to(self.y, h);
    }
}

/// Takes a byte from the mouse.
pub fn handle_byte(m: &mut MouseState, b: u8)
    requires
        old(m)@.byte(b).fits(),
    ensures
        final(m)@ == old(m)@.byte(b),
{
    if m.cycle == 0 {
        if b & 0x08 != 0 {
            m.packet[0] = b;
            m.cycle = 1;
        }
    } else if m.cycle == 1 {
        m.packet[1] = b;
        m.cycle = 2;
    } else if m.cycle == 2 {
        m.packet[2] = b;
        m.cycle = 0;
        let flags: u8 = m.packet[0];
        let dx: i32 = m.packet[1] as i32 - if flags & 0x10 != 0 {
            256
        } else {
            0
        };
        let dy: i32 = m.packet[2] as i32 - if flags & 0x20 != 0 {
            256
        } else {
            0
        };
        m.x = m.x + dx;
        m.y = m.y - dy;
        m.buttons = flags & 0x07;
    } else {
        m.cycle = 0;
    }
}

/// Whether the controller holds a byte, by its status.
pub fn has_byte(status: u8) -> (r: bool)
    ensures
        r == (status & 0x01 != 0),
        r == holds_byte(status),
{
    status & 0x01 != 0
}

/// Takes a byte from the controller: one of the keyboard is dropped.
pub fn poll(m: &mut MouseState, status: u8, data: u8)
    requires
        status & 0x20 != 0 ==> old(m)@.byte(data).fits(),
    ensures
        final(m)@ == if status & 0x20 != 0 {
            old(m)@.byte(data)
        } else {
            old(m)@
        },
        final(m)@ == old(m)@.polled(status, data),
{
    if status & STATUS_MOUSE != 0 {
        handle_byte(m, data);
    }
}

/// A byte sent to the mouse.
pub open spec fn to_mouse(b: u8) -> Seq<PortStep> {
    seq![
        PortStep::WaitWrite,
        PortStep::Command(0xD4),
        PortStep::WaitWrite,
        PortStep::Data(b),
        PortStep::TimedRead { tries: 100_000 },
        PortStep::Drain { max: 256 },
    ]
}

/// The program that starts the mouse: the port and its clock are enabled, then
/// the mouse is set to its defaults and told to report. A mouse that does not
/// answer is not waited for.
pub open spec fn mouse_program() -> Seq<PortStep> {
    seq![
        PortStep::Drain { max: 256 },
        PortStep::WaitWrite,
        PortStep::Command(0xA8),
        PortStep::Drain { max: 256 },
        PortStep::WaitWrite,
        PortStep::Command(0x20),
        PortStep::TimedRead { tries: 100_000 },
        PortStep::WaitWrite,
        PortStep::Command(0x60),
        PortStep::WaitWrite,
        PortStep::DataKept { keep: 0xFF, set: 0x02 },
        PortStep::Drain { max: 256 },
    ] + to_mouse(0xF6) + to_mouse(0xF4)
}

/// The program that starts the mouse.
pub fn init() -> (steps: Vec<PortStep>)
    ensures
        steps@ == mouse_program(),
{
    let steps: Vec<PortStep> = vec![
        PortStep::Drain { max: 256 },
        PortStep::WaitWrite,
        PortStep::Command(0xA8),
        PortStep::Drain { max: 256 },
        PortStep::WaitWrite,
        PortStep::Command(0x20),
        PortStep::TimedRead { tries: 100_000 },
        PortStep::WaitWrite,
        PortStep::Command(0x60),
        PortStep::WaitWrite,
        PortStep::DataKept { keep: 0xFF, set: 0x02 },
        PortStep::Drain { max: 256 },
        PortStep::WaitWrite,
        PortStep::Command(0xD4),
        PortStep::WaitWrite,
        PortStep::Data(0xF6),
        PortStep::TimedRead { tries: 100_000 },
        PortStep::Drain { max: 256 },
        PortStep::WaitWrite,
        PortStep::Command(0xD4),
        PortStep::WaitWrite,
        PortStep::Data(0xF4),
        PortStep::TimedRead { tries: 100_000 },
        PortStep::Drain { max: 256 },
    ];
    assert(steps@ =~= mouse_program());
    steps
}

/// A whole packet moves the pointer by its two movements, sets the buttons, and
/// leaves the mouse ready for the next one.
pub proof fn law_packet(m: Mouse, flags: u8, dx: u8, dy: u8)
    requires
        m.wf(),
        m.cycle == 0,
        flags & 0x08 != 0,
    ensures
        ({
            let t = m.byte(flags).byte(dx).byte(dy);
            &&& t.wf()
            &&& t.cycle == 0
            &&& t.x == m.x + movement(dx, flags & 0x10 != 0)
            &&& t.y == m.y - movement(dy, flags & 0x20 != 0)
            &&& t.buttons == flags & 0x07
        }),
{
}

/// Every byte keeps the mouse in order, and only a packet's last byte moves the
/// pointer or changes the buttons.
pub proof fn law_byte(m: Mouse, b: u8)
    requires
        m.wf(),
    ensures
        m.byte(b).wf(),
        m.cycle != 2 ==> m.byte(b).x == m.x && m.byte(b).y == m.y && m.byte(b).buttons == m.buttons,
{
}

/// A stray byte between packets is dropped, so that the mouse falls back into
/// step.
pub proof fn law_resync(m: Mouse, b: u8)
    requires
        m.wf(),
        m.cycle == 0,
        b & 0x08 == 0,
    ensures
        m.byte(b) == m,
{
}

/// A clamped pointer lies on the screen, and stays where it is when clamped again.
pub proof fn law_clamp(v: int, n: int)
    requires
        n >= 1,
    ensures
        0 <= clamped(v, n) < n,
        clamped(clamped(v, n), n) == clamped(v, n),
        0 <= v < n ==> clamped(v, n) == v,
{
}

/// The pointer goes right by the packet's second byte and up by its third, each reckoned
/// 256 less where its sign bit is set in the first; up is towards smaller rows. The three
/// low bits of the first byte are the buttons. What the mouse held before in its packet
/// does not count.
pub proof fn law_pointer_follows(m: Mouse, flags: u8, right: u8, up: u8)
    requires
        m.wf(),
        m.cycle == 0,
        flags & 0x08 != 0,
    ensures
        ({
            let t = m.byte(flags).byte(right).byte(up);
            &&& flags & 0x10 == 0 ==> t.x == m.x + right
            &&& flags & 0x10 != 0 ==> t.x == m.x + right - 256
            &&& flags & 0x20 == 0 ==> t.y == m.y - up
            &&& flags & 0x20 != 0 ==> t.y == m.y - up + 256
            &&& t.buttons & 1 == flags & 1
            &&& t.buttons & 2 == flags & 2
            &&& t.buttons & 4 == flags & 4
            &&& t.buttons < 8
        }),
{
    assert(flags & 7 < 8 && (flags & 7) & 1 == flags & 1 && (flags & 7) & 2 == flags & 2 && (flags
        & 7) & 4 == flags & 4) by (bit_vector);
}

/// A packet and the one that takes it back leave the pointer where it was.
pub proof fn law_packets_cancel(m: Mouse, f: u8, g: u8, right: u8, up: u8)
    requires
        m.wf(),
        m.cycle == 0,
        f & 0x08 != 0 && g & 0x08 != 0,
        f & 0x10 == 0 && f & 0x20 == 0,
        g & 0x10 != 0 && g & 0x20 != 0,
        right > 0 && up > 0,
    ensures
        ({
            let t = m.byte(f).byte(right).byte(up).byte(g).byte((256 - right) as u8).byte(
                (256 - up) as u8,
            );
            t.x == m.x && t.y == m.y
        }),
{
}

/// The pointer is taken to the nearest place on the screen.
pub proof fn law_clamp_nearest(v: int, n: int, at: int)
    requires
        n >= 1,
        0 <= at < n,
    ensures
        v < 0 ==> clamped(v, n) == 0,
        v >= n ==> clamped(v, n) == n - 1,
        v <= clamped(v, n) <= at || at <= clamped(v, n) <= v || (v <= at && v == clamped(v, n)) || (
        at <= v && v == clamped(v, n)),
{
}

/// The program that starts the mouse turns its port on and leaves the keyboard's as it
/// was. Of the configuration it sets the mouse's interrupt and nothing else. The mouse is
/// set to its defaults and then told to report; nothing goes to the keyboard.
pub proof fn law_mouse_started(c: Controller, others: spec_fn(int) -> u8)
    requires
        c.open == 0,
    ensures
        ({
            let d = c.run(mouse_program(), others);
            &&& d.mouse_on
            &&& d.keyboard_on == c.keyboard_on
            &&& d.config == c.config | 0x02
            &&& d.to_mouse == c.to_mouse + seq![0xF6u8, 0xF4u8]
            &&& d.to_keyboard == c.to_keyboard
        }),
        ps2::waits_first(mouse_program()),
{
    reveal_with_fuel(Controller::run_to, 25);
    let config = c.config;
    assert((config & 0xFF) | 0x02 == config | 0x02) by (bit_vector);
    let d = c.run(mouse_program(), others);
    assert(d.to_mouse =~= c.to_mouse + seq![0xF6u8, 0xF4u8]);
}

impl Mouse {
    /// The pointer at the start.
    pub open spec fn fresh() -> Mouse {
        Mouse { x: 640, y: 360, buttons: 0, cycle: 0, packet: seq![0u8, 0u8, 0u8] }
    }

    /// The mouse after the controller was looked at, with the status and the byte it showed.
    pub open spec fn polled(self, status: u8, data: u8) -> Mouse {
        if status & 0x20 != 0 {
            self.byte(data)
        } else {
            self
        }
    }

    /// The mouse kept on a screen.
    pub open spec fn kept(self, w: int, h: int) -> Mouse {
        Mouse { x: clamped(self.x, w), y: clamped(self.y, h), ..self }
    }
}

/// The controller holds a byte for the host.
pub open spec fn holds_byte(status: u8) -> bool {
    status & 0x01 != 0
}

/// A byte that the status marks as the mouse's is taken as the next of a packet, and any
/// other is left alone. The pointer starts in the middle of a screen of 1280 by 720, with
/// no button held and no packet begun; keeping it on a screen moves it no further than
/// needed and changes nothing else.
pub proof fn law_bytes_polled(m: Mouse, status: u8, data: u8, w: int, h: int)
    requires
        w >= 1,
        h >= 1,
    ensures
        (status / 0x20) % 2 == 1 ==> m.polled(status, data) == m.byte(data),
        (status / 0x20) % 2 == 0 ==> m.polled(status, data) == m,
        holds_byte(status) <==> status % 2 == 1,
        Mouse::fresh().x * 2 == 1280 && Mouse::fresh().y * 2 == 720,
        Mouse::fresh().buttons == 0 && Mouse::fresh().cycle == 0,
        0 <= m.x < w && 0 <= m.y < h ==> m.kept(w, h) == m,
        0 <= m.kept(w, h).x < w && 0 <= m.kept(w, h).y < h,
        m.x < 0 ==> m.kept(w, h).x == 0,
        m.x >= w ==> m.kept(w, h).x == w - 1,
        m.y < 0 ==> m.kept(w, h).y == 0,
        m.y >= h ==> m.kept(w, h).y == h - 1,
        m.kept(w, h).buttons == m.buttons && m.kept(w, h).cycle == m.cycle && m.kept(w, h).packet
            == m.packet,
{
    crate::bytes::lemma_byte_bits(status);
}

} // verus!
