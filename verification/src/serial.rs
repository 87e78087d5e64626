//! The first serial port.
use vstd::prelude::*;

verus! {

/// Base of the first serial port.
pub const COM1: u16 = 0x3F8;

/// A byte written to a port.
#[derive(Clone, Copy, PartialEq, Eq, Structural, Debug)]
pub struct PortByte {
    pub port: u16,
    pub value: u8,
}

/// What brings the port up: 38400 baud, 8 bits, no parity, one stop bit, with
/// its buffer on.
pub open spec fn bring_up() -> Seq<PortByte> {
    seq![
        PortByte { port: 0x3F9, value: 0x00 },
        PortByte { port: 0x3FB, value: 0x80 },
        PortByte { port: 0x3F8, value: 0x03 },
        PortByte { port: 0x3F9, value: 0x00 },
        PortByte { port: 0x3FB, value: 0x03 },
        PortByte { port: 0x3FA, value: 0xC7 },
        PortByte { port: 0x3FC, value: 0x0B },
    ]
}

/// What is written to bring the port up.
pub fn init() -> (bytes: Vec<PortByte>)
    ensures
        bytes@ == bring_up(),
{
    let bytes: Vec<PortByte> = vec![
        PortByte { port: COM1 + 1, value: 0x00 },
        PortByte { port: COM1 + 3, value: 0x80 },
        PortByte { port: COM1, value: 0x03 },
        PortByte { port: COM1 + 1, value: 0x00 },
        PortByte { port: COM1 + 3, value: 0x03 },
        PortByte { port: COM1 + 2, value: 0xC7 },
        PortByte { port: COM1 + 4, value: 0x0B },
    ];
    assert(bytes@ =~= bring_up());
    bytes
}

/// Whether the port takes a byte, by its line status.
pub fn can_send(line_status: u8) -> (r: bool)
    ensures
        r == (line_status & 0x20 != 0),
        r == is_free(line_status),
{
    line_status & 0x20 != 0
}

/// What is written, in order, to print a text.
pub open spec fn sending(s: Seq<char>) -> Seq<PortByte> {
    vstd::utf8::encode_utf8(s).map_values(|b: u8| PortByte { port: 0x3F8, value: b })
}

/// What is written, in order, to print a text: its UTF-8 bytes.
pub fn print(s: &str) -> (bytes: Vec<PortByte>)
    ensures
        bytes@ == sending(s@),
        bytes@ == vstd::utf8::encode_utf8(s@).map_values(
            |b: u8| PortByte { port: 0x3F8, value: b },
        ),
{
    let raw: Vec<u8> = crate::text::bytes_of(s);
    let mut bytes: Vec<PortByte> = Vec::new();
    let mut i: usize = 0;
    while i < raw.len()
        invariant
            i <= raw@.len(),
            bytes@ == raw@.take(i as int).map_values(|b: u8| PortByte { port: 0x3F8, value: b }),
        decreases raw@.len() - i,
    {
        bytes.push(PortByte { port: COM1, value: raw[i] });
        assert(bytes@ =~= raw@.take(i + 1).map_values(
            |b: u8| PortByte { port: 0x3F8, value: b },
        ));
        i = i + 1;
    }
    assert(raw@.take(raw@.len() as int) =~= raw@);
    bytes
}

/// The port's registers: which two registers the first two places stand for depends on the
/// top bit of the line control.
pub struct Uart {
    pub divisor_low: int,
    pub divisor_high: int,
    pub interrupts: int,
    pub line: int,
    pub buffer: int,
    pub modem: int,
    pub sent: Seq<int>,
}

impl Uart {
    pub open spec fn write(self, b: PortByte) -> Uart {
        let at = b.port - 0x3F8;
        let v = b.value as int;
        if at == 0 && self.line >= 128 {
            Uart { divisor_low: v, ..self }
        } else if at == 0 {
            Uart { sent: self.sent.push(v), ..self }
        } else if at == 1 && self.line >= 128 {
            Uart { divisor_high: v, ..self }
        } else if at == 1 {
            Uart { interrupts: v, ..self }
        } else if at == 2 {
            Uart { buffer: v, ..self }
        } else if at == 3 {
            Uart { line: v, ..self }
        } else if at == 4 {
            Uart { modem: v, ..self }
        } else {
            self
        }
    }

    /// The port after the first `n` bytes.
    pub open spec fn writes(self, bs: Seq<PortByte>, n: int) -> Uart
        decreases n,
    {
        if n <= 0 {
            self
        } else {
            self.writes(bs, n - 1).write(bs[n - 1])
        }
    }
}

/// Once up, the port runs at 115200 / 3 baud with eight bits, no parity and one stop bit,
/// its buffer on and its interrupts off; nothing was sent meanwhile.
pub proof fn law_port_up(u: Uart)
    requires
        u.line < 128,
    ensures
        ({
            let v = u.writes(bring_up(), bring_up().len() as int);
            &&& v.divisor_low + 256 * v.divisor_high == 3
            &&& v.line == 3
            &&& v.interrupts == 0
            &&& v.buffer % 2 == 1
            &&& v.modem % 4 == 3
            &&& v.sent == u.sent
        }),
{
    reveal_with_fuel(Uart::writes, 8);
}

/// What is printed is sent byte by byte, in order, and nothing else is written.
pub proof fn law_text_sent(u: Uart, s: Seq<char>)
    requires
        u.line < 128,
    ensures
        ({
            let v = u.writes(sending(s), sending(s).len() as int);
            &&& v.sent == u.sent + vstd::utf8::encode_utf8(s).map_values(|b: u8| b as int)
            &&& v.line == u.line && v.divisor_low == u.divisor_low && v.interrupts == u.interrupts
        }),
{
    lemma_sent(u, vstd::utf8::encode_utf8(s), vstd::utf8::encode_utf8(s).len() as int);
    let e = vstd::utf8::encode_utf8(s);
    assert(e.take(e.len() as int) =~= e);
}

proof fn lemma_sent(u: Uart, e: Seq<u8>, n: int)
    requires
        u.line < 128,
        0 <= n <= e.len(),
    ensures
        ({
            let v = u.writes(e.map_values(|b: u8| PortByte { port: 0x3F8, value: b }), n);
            v == (Uart { sent: u.sent + e.take(n).map_values(|b: u8| b as int), ..u })
        }),
    decreases n,
{
    if n > 0 {
        lemma_sent(u, e, n - 1);
        assert(u.sent + e.take(n).map_values(|b: u8| b as int) =~= (u.sent + e.take(
            n - 1,
        ).map_values(|b: u8| b as int)).push(e[n - 1] as int));
    } else {
        assert(u.sent + e.take(0).map_values(|b: u8| b as int) =~= u.sent);
    }
}

/// The port takes a byte.
pub open spec fn is_free(line_status: u8) -> bool {
    line_status & 0x20 != 0
}

/// The port takes a byte when bit 5 of its line status is set.
pub proof fn law_port_free(line_status: u8)
    ensures
        is_free(line_status) <==> (line_status / 32) % 2 == 1,
{
    crate::bytes::lemma_byte_bits(line_status);
}

} // verus!
