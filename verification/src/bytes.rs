//! Numbers in memory, lowest byte first.
use vstd::prelude::*;

verus! {

/// The `n` bytes of a number, lowest first.
pub open spec fn le(v: nat, n: nat) -> Seq<u8>
    decreases n,
{
    if n == 0 {
        Seq::empty()
    } else {
        seq![(v % 256) as u8] + le(v / 256, (n - 1) as nat)
    }
}

/// The number that some bytes stand for, lowest first.
pub open spec fn value(b: Seq<u8>) -> nat
    decreases b.len(),
{
    if b.len() == 0 {
        0
    } else {
        b[0] as nat + 256 * value(b.drop_first())
    }
}

/// Appends the `n` bytes of a number, lowest first.
pub fn push_le(out: &mut Vec<u8>, v: u64, n: usize)
    ensures
        final(out)@ == old(out)@ + le(v as nat, n as nat),
    decreases n,
{
    if n > 0 {
        out.push((v % 256) as u8);
        let ghost mid = out@;
        push_le(out, v / 256, n - 1);
        assert(out@ =~= old(out)@ + le(v as nat, n as nat));
    } else {
        assert(out@ =~= old(out)@ + le(v as nat, 0));
    }
}

/// The number in two bytes, lowest first.
pub fn read_le16(lo: u8, hi: u8) -> (r: u16)
    ensures
        r == lo + 256 * hi,
        r == two_bytes(lo, hi),
{
    lo as u16 + 256 * hi as u16
}

/// Reading a number's bytes back gives the number, as far as they hold it.
pub proof fn law_le_value(v: nat, n: nat)
    ensures
        le(v, n).len() == n,
        value(le(v, n)) == v % (vstd::arithmetic::power::pow(256, n) as nat),
    decreases n,
{
    vstd::arithmetic::power::lemma_pow_positive(256, n);
    if n == 0 {
        vstd::arithmetic::power::lemma_pow0(256);
    } else {
        let m = (n - 1) as nat;
        law_le_value(v / 256, m);
        let p = vstd::arithmetic::power::pow(256, m);
        vstd::arithmetic::power::lemma_pow_positive(256, m);
        assert(vstd::arithmetic::power::pow(256, n) == 256 * p) by {
            reveal(vstd::arithmetic::power::pow);
        }
        assert(le(v, n).drop_first() =~= le(v / 256, m));
        vstd::arithmetic::div_mod::lemma_mod_breakdown(v as int, 256, p);
    }
}

/// How many numbers one, two, four and eight bytes hold.
pub proof fn lemma_powers()
    ensures
        vstd::arithmetic::power::pow(256, 1) == 0x100,
        vstd::arithmetic::power::pow(256, 2) == 0x1_0000,
        vstd::arithmetic::power::pow(256, 4) == 0x1_0000_0000,
        vstd::arithmetic::power::pow(256, 8) == 0x1_0000_0000_0000_0000,
{
    reveal(vstd::arithmetic::power::pow);
    reveal_with_fuel(vstd::arithmetic::power::pow, 9);
}

/// A number that fits its bytes is read back from them.
pub proof fn law_read_back(v: nat, n: nat)
    requires
        (n == 2 && v < 0x1_0000) || (n == 4 && v < 0x1_0000_0000) || (n == 8 && v
            < 0x1_0000_0000_0000_0000),
    ensures
        le(v, n).len() == n,
        value(le(v, n)) == v,
{
    law_le_value(v, n);
    lemma_powers();
    vstd::arithmetic::div_mod::lemma_small_mod(v, vstd::arithmetic::power::pow(256, n) as nat);
}

/// The lowest byte comes first: in two bytes the second counts 256.
pub proof fn law_two_bytes(v: nat)
    requires
        v < 0x1_0000,
    ensures
        le(v, 2).len() == 2,
        le(v, 2)[0] == v % 256,
        le(v, 2)[1] == v / 256,
{
    reveal_with_fuel(le, 3);
}

/// Some bits of a byte, by what they count.
pub proof fn lemma_byte_bits(v: u8)
    ensures
        (v & 0x01 != 0) == (v % 2 == 1),
        (v & 0x02 == 0) == ((v / 2) % 2 == 0),
        (v & 0x20 != 0) == ((v / 0x20) % 2 == 1),
        (v & 0x80 != 0) == (v >= 0x80),
{
    assert((v & 0x01 != 0) == (v % 2 == 1) && (v & 0x02 == 0) == ((v / 2) % 2 == 0) && (v & 0x20
        != 0) == ((v / 0x20) % 2 == 1) && (v & 0x80 != 0) == (v >= 0x80)) by (bit_vector);
}

/// Some bits of four bytes, by what they count.
pub proof fn lemma_word_bits(v: u32)
    ensures
        (v & 0x2000 != 0) == ((v / 0x2000) % 2 == 1),
        (v & 0x20_0000 != 0) == ((v / 0x20_0000) % 2 == 1),
        (v & 0x0400_0000 != 0) == ((v / 0x0400_0000) % 2 == 1),
{
    assert((v & 0x2000 != 0) == ((v / 0x2000) % 2 == 1) && (v & 0x20_0000 != 0) == ((v / 0x20_0000)
        % 2 == 1) && (v & 0x0400_0000 != 0) == ((v / 0x0400_0000) % 2 == 1)) by (bit_vector);
}

/// A low bit put on an address that has room for it, and the low bits of one cut off.
pub proof fn lemma_long_bits(v: u64)
    ensures
        v % 64 == 0 ==> v | 1 == v + 1,
        v % 16 == 0 ==> v | 8 == v + 8,
        v & !0xFFFu64 == v / 4096 * 4096,
{
    assert((v % 64 == 0 ==> v | 1 == v + 1) && (v % 16 == 0 ==> v | 8 == v + 8) && v & !0xFFFu64 == v
        / 4096 * 4096) by (bit_vector);
}

/// The number in two bytes, lowest first.
pub open spec fn two_bytes(lo: u8, hi: u8) -> int {
    lo + 256 * hi
}

/// Two bytes that a number was written in read as that number.
pub proof fn law_two_bytes_read(v: nat)
    requires
        v < 0x1_0000,
    ensures
        two_bytes(le(v, 2)[0], le(v, 2)[1]) == v,
{
    law_two_bytes(v);
}

} // verus!
