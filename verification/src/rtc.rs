//! The CMOS real-time clock: decoding its registers and formatting the time.
use vstd::prelude::*;

verus! {

pub const CMOS_SELECT: u16 = 0x70;

pub const CMOS_DATA: u16 = 0x71;

pub const REG_SECONDS: u8 = 0x00;

pub const REG_MINUTES: u8 = 0x02;

pub const REG_HOURS: u8 = 0x04;

pub const REG_DAY: u8 = 0x07;

pub const REG_MONTH: u8 = 0x08;

pub const REG_YEAR: u8 = 0x09;

pub const REG_STATUS_A: u8 = 0x0A;

/// A date and a time of day.
#[derive(Clone, Copy, PartialEq, Eq, Structural, Debug)]
pub struct DateTime {
    pub hour: u8,
    pub min: u8,
    pub sec: u8,
    pub day: u8,
    pub month: u8,
    pub year: u16,
}

/// The clock registers as they are read, in binary-coded decimal.
#[derive(Clone, Copy, PartialEq, Eq, Structural, Debug)]
pub struct ClockRegs {
    pub sec: u8,
    pub min: u8,
    pub hour: u8,
    pub day: u8,
    pub month: u8,
    pub year: u8,
}

/// The number that a binary-coded decimal byte stands for.
pub open spec fn bcd_value(v: u8) -> int {
    (v / 16) * 10 + v % 16
}

/// Decodes binary-coded decimal.
pub fn bcd(v: u8) -> (r: u8)
    ensures
        r == bcd_value(v),
{
    (v % 16) + (v / 16) * 10
}

/// Whether status register A says that the clock is being updated.
pub fn updating(status_a: u8) -> (r: bool)
    ensures
        r == (status_a & 0x80 != 0),
        r == in_update(status_a),
{
    status_a & 0x80 != 0
}

/// The date and time that the registers show; the year counts from 2000.
pub open spec fn read_out(r: ClockRegs) -> DateTime {
    DateTime {
        hour: bcd_value(r.hour) as u8,
        min: bcd_value(r.min) as u8,
        sec: bcd_value(r.sec) as u8,
        day: bcd_value(r.day) as u8,
        month: bcd_value(r.month) as u8,
        year: (2000 + bcd_value(r.year)) as u16,
    }
}

/// The date and time that the registers show; the year counts from 2000.
pub fn now(regs: &ClockRegs) -> (t: DateTime)
    ensures
        t == read_out(*regs),
        t.hour == bcd_value(regs.hour),
        t.min == bcd_value(regs.min),
        t.sec == bcd_value(regs.sec),
        t.day == bcd_value(regs.day),
        t.month == bcd_value(regs.month),
        t.year == 2000 + bcd_value(regs.year),
{
    DateTime {
        hour: bcd(regs.hour),
        min: bcd(regs.min),
        sec: bcd(regs.sec),
        day: bcd(regs.day),
        month: bcd(regs.month),
        year: 2000 + bcd(regs.year) as u16,
    }
}

/// The bytes of `HH:MM`.
pub open spec fn time_bytes(t: DateTime) -> Seq<u8> {
    seq![
        (48 + t.hour / 10) as u8,
        (48 + t.hour % 10) as u8,
        58u8,
        (48 + t.min / 10) as u8,
        (48 + t.min % 10) as u8,
    ]
}

/// The bytes of `YYYY-MM-DD`.
pub open spec fn date_bytes(t: DateTime) -> Seq<u8> {
    seq![
        (48 + t.year / 1000) as u8,
        (48 + (t.year / 100) % 10) as u8,
        (48 + (t.year / 10) % 10) as u8,
        (48 + t.year % 10) as u8,
        45u8,
        (48 + t.month / 10) as u8,
        (48 + t.month % 10) as u8,
        45u8,
        (48 + t.day / 10) as u8,
        (48 + t.day % 10) as u8,
    ]
}

/// ASCII bytes as text.
pub open spec fn ascii(b: Seq<u8>) -> Seq<char> {
    b.map_values(|c: u8| c as char)
}

/// The text of the first `n` bytes of a buffer.
pub fn ascii_text(buf: &[u8], n: usize) -> (s: String)
    requires
        n <= buf@.len(),
    ensures
        s@ == ascii(buf@.take(n as int)),
{
    let mut s: String = String::new();
    let mut i: usize = 0;
    assert(s@ =~= ascii(buf@.take(0)));
    while i < n
        invariant
            i <= n <= buf@.len(),
            s@ == ascii(buf@.take(i as int)),
        decreases n - i,
    {
        s.push(buf[i] as char);
        assert(s@ =~= ascii(buf@.take(i + 1)));
        i = i + 1;
    }
    s
}

/// Formats the time of day as `HH:MM` into a buffer, zero-terminated, and gives
/// it as text.
pub fn fmt_time(t: &DateTime, buf: &mut [u8; 6]) -> (s: String)
    ensures
        final(buf)@ == time_bytes(*t).push(0),
        s@ == ascii(time_bytes(*t)),
{
    buf[0] = 48 + t.hour / 10;
    buf[1] = 48 + t.hour % 10;
    buf[2] = 58;
    buf[3] = 48 + t.min / 10;
    buf[4] = 48 + t.min % 10;
    buf[5] = 0;
    assert(buf@ =~= time_bytes(*t).push(0));
    let s: String = ascii_text(buf.as_slice(), 5);
    assert(buf@.take(5) =~= time_bytes(*t));
    s
}

/// Formats the date as `YYYY-MM-DD` into a buffer, zero-terminated, and gives it
/// as text.
pub fn fmt_date(t: &DateTime, buf: &mut [u8; 11]) -> (s: String)
    ensures
        final(buf)@ == date_bytes(*t).push(0),
        s@ == ascii(date_bytes(*t)),
{
    let y: u16 = t.year;
    buf[0] = 48 + (y / 1000) as u8;
    buf[1] = 48 + ((y / 100) % 10) as u8;
    buf[2] = 48 + ((y / 10) % 10) as u8;
    buf[3] = 48 + (y % 10) as u8;
    buf[4] = 45;
    buf[5] = 48 + t.month / 10;
    buf[6] = 48 + t.month % 10;
    buf[7] = 45;
    buf[8] = 48 + t.day / 10;
    buf[9] = 48 + t.day % 10;
    buf[10] = 0;
    assert(buf@ =~= date_bytes(*t).push(0));
    let s: String = ascii_text(buf.as_slice(), 10);
    assert(buf@.take(10) =~= date_bytes(*t));
    s
}

/// A byte of two decimal digits decodes to the number they spell.
pub proof fn law_bcd_digits(tens: u8, ones: u8)
    requires
        tens < 10,
        ones < 10,
    ensures
        bcd_value((tens * 16 + ones) as u8) == tens * 10 + ones,
{
}

/// The number that two decimal digits in ASCII stand for.
pub open spec fn two_digits(a: u8, b: u8) -> int {
    (a - 48) * 10 + (b - 48)
}

/// The time reads as hours and minutes with a colon between them, the date as year, month
/// and day with dashes: reading the digits back gives the numbers.
pub proof fn law_reads_back(t: DateTime)
    requires
        t.hour < 100 && t.min < 100 && t.month < 100 && t.day < 100 && t.year < 10000,
    ensures
        ({
            let s = time_bytes(t);
            s.len() == 5 && two_digits(s[0], s[1]) == t.hour && s[2] as char == ':' && two_digits(
                s[3],
                s[4],
            ) == t.min
        }),
        ({
            let s = date_bytes(t);
            s.len() == 10 && two_digits(s[0], s[1]) * 100 + two_digits(s[2], s[3]) == t.year && s[4] as char
                == '-' && two_digits(s[5], s[6]) == t.month && s[7] as char == '-' && two_digits(
                s[8],
                s[9],
            ) == t.day
        }),
        forall|i: int| 0 <= i < 5 && i != 2 ==> '0' <= #[trigger] time_bytes(t)[i] as char <= '9',
        forall|i: int|
            0 <= i < 10 && i != 4 && i != 7 ==> '0' <= #[trigger] date_bytes(t)[i] as char <= '9',
{
}

/// The clock shows the date and time that the two digits in each of its registers spell,
/// in this century.
pub proof fn law_clock_read(r: ClockRegs)
    ensures
        read_out(r).year == 2000 + 10 * (r.year / 16) + r.year % 16,
        read_out(r).hour == 10 * (r.hour / 16) + r.hour % 16,
        read_out(r).min == 10 * (r.min / 16) + r.min % 16,
        read_out(r).sec == 10 * (r.sec / 16) + r.sec % 16,
        read_out(r).day == 10 * (r.day / 16) + r.day % 16,
        read_out(r).month == 10 * (r.month / 16) + r.month % 16,
{
}

/// The clock is changing its registers.
pub open spec fn in_update(status_a: u8) -> bool {
    status_a & 0x80 != 0
}

/// The clock is changing its registers while the highest bit of its status is set.
pub proof fn law_update_seen(status_a: u8)
    ensures
        in_update(status_a) <==> status_a >= 128,
{
    crate::bytes::lemma_byte_bits(status_a);
}

} // verus!
