//! Text building blocks: decimal and hexadecimal numerals, padding, and the
//! byte-wise slicing that labels and path bars use.
use vstd::prelude::*;
use vstd::utf8::*;

verus! {

/// The texts of some strings.
pub open spec fn texts(v: Seq<String>) -> Seq<Seq<char>> {
    v.map_values(|s: String| s@)
}

/// `String::push` of the standard library: appends one character.
pub assume_specification[ String::push ](s: &mut String, ch: char)
    ensures
        final(s)@ == old(s)@.push(ch),
;

/// What the standard library makes of bytes as text.
pub uninterp spec fn utf8_lossy(bytes: Seq<u8>) -> Seq<char>;

/// `String::from_utf8_lossy` of the standard library: the text of the bytes,
/// where what is not valid UTF-8 is replaced; valid UTF-8 is decoded as it is.
#[verifier::external_body]
pub(crate) fn lossy_text(bytes: &Vec<u8>) -> (s: String)
    ensures
        s@ == utf8_lossy(bytes@),
        valid_utf8(bytes@) ==> s@ == decode_utf8(bytes@),
{
    String::from_utf8_lossy(bytes).into_owned()
}

/// `std::str::from_utf8` of the standard library: the text of bytes that are
/// valid UTF-8, and an error for all others.
#[verifier::external_body]
pub(crate) fn checked_text(bytes: &Vec<u8>) -> (s: Option<String>)
    ensures
        s is Some <==> valid_utf8(bytes@),
        s matches Some(t) ==> t@ == decode_utf8(bytes@),
{
    match std::str::from_utf8(bytes) {
        Ok(t) => Some(String::from(t)),
        Err(_) => None,
    }
}

/// The decimal digit `n` as a character.
pub open spec fn digit(n: nat) -> char {
    (48 + n) as char
}

/// The decimal numeral of `n`, without leading zeros.
pub open spec fn dec(n: nat) -> Seq<char>
    decreases n,
{
    if n < 10 {
        seq![digit(n)]
    } else {
        dec(n / 10).push(digit(n % 10))
    }
}

/// The decimal numeral of `n` in ASCII bytes.
pub open spec fn dec_bytes(n: nat) -> Seq<u8>
    decreases n,
{
    if n < 10 {
        seq![(48 + n) as u8]
    } else {
        dec_bytes(n / 10).push((48 + n % 10) as u8)
    }
}

/// The number that a decimal numeral stands for.
pub open spec fn dec_value(s: Seq<char>) -> int
    decreases s.len(),
{
    if s.len() == 0 {
        0
    } else {
        dec_value(s.drop_last()) * 10 + (s.last() as int - 48)
    }
}

/// The upper-case hexadecimal digit `n`.
pub open spec fn hex_digit(n: nat) -> char {
    if n < 10 {
        (48 + n) as char
    } else {
        (55 + n) as char
    }
}

/// The hexadecimal numeral of `n`, filled with zeros to `width` digits.
pub open spec fn hex(n: nat, width: nat) -> Seq<char>
    decreases n, width,
{
    if n < 16 && width <= 1 {
        seq![hex_digit(n)]
    } else {
        hex(n / 16, if width == 0 { 0 } else { (width - 1) as nat }).push(hex_digit(n % 16))
    }
}

/// `n` spaces.
pub open spec fn spaces(n: nat) -> Seq<char> {
    Seq::new(n, |i: int| ' ')
}

/// `s` filled with spaces on the left to `width` characters.
pub open spec fn pad_left(s: Seq<char>, width: nat) -> Seq<char> {
    if s.len() < width {
        spaces((width - s.len()) as nat) + s
    } else {
        s
    }
}

/// The characters of the first `n` bytes of the UTF-8 form of `s`.
pub open spec fn byte_prefix(s: Seq<char>, n: int) -> Seq<char> {
    decode_utf8(encode_utf8(s).subrange(0, n))
}

/// The characters of the UTF-8 form of `s` from byte `n` on.
pub open spec fn byte_suffix(s: Seq<char>, n: int) -> Seq<char> {
    decode_utf8(encode_utf8(s).subrange(n, encode_utf8(s).len() as int))
}

/// `s` without the slashes it begins with.
pub open spec fn trim_slashes(s: Seq<char>) -> Seq<char>
    decreases s.len(),
{
    if s.len() > 0 && s[0] == '/' {
        trim_slashes(s.drop_first())
    } else {
        s
    }
}

/// The child `name` of the directory whose path is `dir`.
pub open spec fn join_path(dir: Seq<char>, name: Seq<char>) -> Seq<char> {
    if dir == seq!['/'] {
        seq!['/'] + name
    } else {
        dir + seq!['/'] + name
    }
}

/// The UTF-8 form of two texts put together is that of the one, then that of the other.
pub proof fn lemma_encode_concat(a: Seq<char>, b: Seq<char>)
    ensures
        encode_utf8(a + b) == encode_utf8(a) + encode_utf8(b),
    decreases a.len(),
{
    if a.len() == 0 {
        assert(a + b =~= b);
        assert(encode_utf8(a) =~= Seq::<u8>::empty());
        assert(encode_utf8(a) + encode_utf8(b) =~= encode_utf8(b));
    } else {
        assert((a + b).drop_first() =~= a.drop_first() + b);
        lemma_encode_concat(a.drop_first(), b);
        let h = vstd::utf8::encode_scalar(a[0] as u32);
        assert(encode_utf8(a + b) =~= h + (encode_utf8(a.drop_first()) + encode_utf8(b)));
    }
}

/// Reading a decimal numeral back gives the number it was made from.
pub proof fn law_dec_value(n: nat)
    ensures
        dec_value(dec(n)) == n,
    decreases n,
{
    if n < 10 {
        assert(dec(n).drop_last() =~= Seq::<char>::empty());
        assert(dec_value(dec(n).drop_last()) == 0);
        assert(dec(n).last() as int == 48 + n);
    } else {
        law_dec_value(n / 10);
        assert(dec(n).drop_last() =~= dec(n / 10));
        assert(dec(n).last() as int == 48 + n % 10);
    }
}

/// The byte numeral spells the same digits as the character numeral.
pub proof fn lemma_dec_bytes(n: nat)
    ensures
        dec_bytes(n).len() == dec(n).len(),
        dec(n).len() > 0,
        forall|i: int| 0 <= i < dec(n).len() ==> #[trigger] dec_bytes(n)[i] as char == dec(n)[i],
        forall|i: int| 0 <= i < dec(n).len() ==> 48 <= #[trigger] dec_bytes(n)[i] <= 57,
    decreases n,
{
    if n >= 10 {
        lemma_dec_bytes(n / 10);
    }
}

/// A number below `10^k` has at most `k` digits.
pub proof fn lemma_dec_len(n: nat, k: nat, bound: nat)
    requires
        k > 0,
        bound == vstd::arithmetic::power::pow(10, k),
        n < bound,
    ensures
        dec(n).len() <= k,
    decreases k,
{
    reveal(vstd::arithmetic::power::pow);
    if n >= 10 {
        if k == 1 {
            assert(vstd::arithmetic::power::pow(10, 1) == 10) by {
                reveal_with_fuel(vstd::arithmetic::power::pow, 2);
            }
        }
        let b = vstd::arithmetic::power::pow(10, (k - 1) as nat) as nat;
        vstd::arithmetic::power::lemma_pow_positive(10, (k - 1) as nat);
        assert(bound == 10 * b);
        assert(n / 10 < b);
        lemma_dec_len(n / 10, (k - 1) as nat, b);
    }
}

/// Appends the decimal numeral of `n`.
pub fn push_dec(s: &mut String, n: u64)
    ensures
        final(s)@ == old(s)@ + dec(n as nat),
    decreases n,
{
    if n >= 10 {
        push_dec(s, n / 10);
    }
    let d: u8 = 48 + (n % 10) as u8;
    s.push(d as char);
}

/// The number of digits in the decimal numeral of `n`.
pub fn dec_len(n: u64) -> (k: usize)
    ensures
        k == dec(n as nat).len(),
        1 <= k <= 20,
{
    let mut k: usize = 1;
    let mut m: u64 = n;
    proof {
        assert(vstd::arithmetic::power::pow(10, 20) == 100000000000000000000) by {
            reveal_with_fuel(vstd::arithmetic::power::pow, 21);
        }
        lemma_dec_len(n as nat, 20, 100000000000000000000);
        lemma_dec_bytes(n as nat);
    }
    while m >= 10
        invariant
            k >= 1,
            dec(n as nat).len() == dec(m as nat).len() + k - 1,
            dec(n as nat).len() <= 20,
        decreases m,
    {
        proof {
            lemma_dec_bytes(m as nat / 10);
        }
        m = m / 10;
        k = k + 1;
    }
    k
}

/// Appends the decimal numeral of `n`, filled with spaces on the left to `width`.
pub fn push_dec_padded(s: &mut String, n: u64, width: usize)
    ensures
        final(s)@ == old(s)@ + pad_left(dec(n as nat), width as nat),
{
    let k: usize = dec_len(n);
    let mut i: usize = k;
    while i < width
        invariant
            k == dec(n as nat).len(),
            i >= k,
            k <= width ==> i <= width,
            k > width ==> i == k,
            s@ == old(s)@ + spaces((i - k) as nat),
        decreases width - i,
    {
        proof {
            assert(spaces((i - k) as nat).push(' ') =~= spaces((i + 1 - k) as nat));
        }
        s.push(' ');
        i = i + 1;
    }
    push_dec(s, n);
    proof {
        if k < width {
            assert(s@ =~= old(s)@ + pad_left(dec(n as nat), width as nat));
        } else {
            assert(spaces(0) =~= Seq::<char>::empty());
            assert(s@ =~= old(s)@ + pad_left(dec(n as nat), width as nat));
        }
    }
}

/// Appends the hexadecimal numeral of `n`, filled with zeros to `width` digits.
pub fn push_hex(s: &mut String, n: u64, width: usize)
    ensures
        final(s)@ == old(s)@ + hex(n as nat, width as nat),
    decreases n, width,
{
    if n >= 16 || width > 1 {
        let rest: usize = if width == 0 {
            0
        } else {
            width - 1
        };
        push_hex(s, n / 16, rest);
    }
    let d: u8 = (n % 16) as u8;
    if d < 10 {
        s.push((48 + d) as char);
    } else {
        s.push((55 + d) as char);
    }
}

/// The characters of a string, one by one.
pub fn chars_of(s: &str) -> (v: Vec<char>)
    ensures
        v@ == s@,
{
    let mut v: Vec<char> = Vec::new();
    for c in it: s.chars()
        invariant
            v@ == it.seq().take(it.index() as int),
    {
        v.push(c);
    }
    assert(v@ == s@);
    v
}

/// The bytes of the UTF-8 form of a text.
pub fn bytes_of(s: &str) -> (v: Vec<u8>)
    ensures
        v@ == encode_utf8(s@),
{
    let b: &[u8] = s.as_bytes();
    let mut v: Vec<u8> = Vec::new();
    let mut i: usize = 0;
    while i < b.len()
        invariant
            i <= b@.len(),
            v@ == b@.take(i as int),
        decreases b@.len() - i,
    {
        v.push(b[i]);
        assert(v@ =~= b@.take(i + 1));
        i = i + 1;
    }
    assert(b@.take(b@.len() as int) =~= b@);
    v
}

/// The string made of the characters `v[from..to]`.
pub fn string_of(v: &Vec<char>, from: usize, to: usize) -> (s: String)
    requires
        from <= to <= v@.len(),
    ensures
        s@ == v@.subrange(from as int, to as int),
{
    let mut s: String = String::new();
    let mut i: usize = from;
    while i < to
        invariant
            from <= i <= to <= v@.len(),
            s@ == v@.subrange(from as int, i as int),
        decreases to - i,
    {
        s.push(v[i]);
        proof {
            assert(v@.subrange(from as int, i as int).push(v@[i as int]) =~= v@.subrange(
                from as int,
                i + 1,
            ));
        }
        i = i + 1;
    }
    s
}

/// The first `n` bytes of `s` as a string.
pub fn take_bytes(s: &str, n: usize) -> (r: String)
    requires
        is_char_boundary(encode_utf8(s@), n as int),
    ensures
        r@ == byte_prefix(s@, n as int),
{
    let (head, tail) = s.split_at(n);
    proof {
        encode_utf8_decode_utf8(head@);
    }
    String::from_str(head)
}

/// The string `s` from byte `n` on.
pub fn drop_bytes(s: &str, n: usize) -> (r: String)
    requires
        is_char_boundary(encode_utf8(s@), n as int),
    ensures
        r@ == byte_suffix(s@, n as int),
{
    let (head, tail) = s.split_at(n);
    proof {
        encode_utf8_decode_utf8(tail@);
    }
    String::from_str(tail)
}

/// `s` without the slashes it begins with.
pub fn without_leading_slashes(s: &str) -> (r: String)
    ensures
        r@ == trim_slashes(s@),
{
    let v: Vec<char> = chars_of(s);
    let mut i: usize = 0;
    assert(s@.subrange(0, s@.len() as int) =~= s@);
    while i < v.len() && v[i] == '/'
        invariant
            i <= v@.len(),
            v@ == s@,
            trim_slashes(s@) == trim_slashes(s@.subrange(i as int, s@.len() as int)),
        decreases v@.len() - i,
    {
        proof {
            assert(s@.subrange(i as int, s@.len() as int).drop_first() =~= s@.subrange(
                i + 1,
                s@.len() as int,
            ));
        }
        i = i + 1;
    }
    string_of(&v, i, v.len())
}

/// The path of the child `name` of the directory `dir`.
pub fn child_path(dir: &str, name: &str) -> (r: String)
    ensures
        r@ == join_path(dir@, name@),
{
    let d: Vec<char> = chars_of(dir);
    let mut r: String = String::new();
    if d.len() == 1 && d[0] == '/' {
        assert(dir@ =~= seq!['/']);
        r.push('/');
        r.append(name);
    } else {
        assert(dir@ != seq!['/']) by {
            assert(dir@.len() != 1 || dir@[0] != '/');
        }
        r.append(dir);
        r.push('/');
        r.append(name);
    }
    proof {
        assert(r@ =~= join_path(dir@, name@));
    }
    r
}

/// Whether two strings have the same characters.
pub fn same_text(a: &str, b: &str) -> (r: bool)
    ensures
        r == (a@ == b@),
{
    let x: Vec<char> = chars_of(a);
    let y: Vec<char> = chars_of(b);
    if x.len() != y.len() {
        return false;
    }
    let mut i: usize = 0;
    while i < x.len()
        invariant
            i <= x@.len(),
            x@.len() == y@.len(),
            x@ == a@,
            y@ == b@,
            forall|j: int| 0 <= j < i ==> a@[j] == b@[j],
        decreases x@.len() - i,
    {
        if x[i] != y[i] {
            return false;
        }
        i = i + 1;
    }
    assert(a@ =~= b@);
    true
}

/// The value of a hexadecimal digit.
pub open spec fn hex_digit_value(c: char) -> int {
    if '0' <= c && c <= '9' {
        c as int - '0' as int
    } else {
        c as int - 'A' as int + 10
    }
}

/// The number that a hexadecimal numeral stands for.
pub open spec fn hex_value(s: Seq<char>) -> int
    decreases s.len(),
{
    if s.len() == 0 {
        0
    } else {
        hex_value(s.drop_last()) * 16 + hex_digit_value(s.last())
    }
}

/// Reading a hexadecimal numeral back gives the number it was made from; it has as many
/// digits as were wanted, or more where the number needs them, and all are digits.
pub proof fn law_hex_value(n: nat, width: nat)
    ensures
        hex_value(hex(n, width)) == n,
        hex(n, width).len() >= width,
        forall|i: int|
            0 <= i < hex(n, width).len() ==> ('0' <= #[trigger] hex(n, width)[i] && hex(n, width)[i]
                <= '9' || 'A' <= hex(n, width)[i] && hex(n, width)[i] <= 'F'),
        n == 0 && width > 0 ==> hex(n, width).len() == width,
    decreases n, width,
{
    let h = hex(n, width);
    if n < 16 && width <= 1 {
        assert(h.drop_last() =~= Seq::<char>::empty());
        assert(hex_value(h.drop_last()) == 0);
    } else {
        let w = if width == 0 {
            0
        } else {
            (width - 1) as nat
        };
        law_hex_value(n / 16, w);
        assert(h.drop_last() =~= hex(n / 16, w));
    }
}

/// A number fits into the digits that were asked for when it is less than that power of
/// sixteen: two digits hold a byte, four hold two.
pub proof fn law_hex_width(n: nat)
    ensures
        n < 0x100 ==> hex(n, 2).len() == 2,
        n < 0x1_0000 ==> hex(n, 4).len() == 4,
{
    reveal_with_fuel(hex, 5);
}

/// A text that is filled on the left keeps its characters at the end, with spaces before
/// them, and is as long as was wanted unless it is longer itself.
pub proof fn law_padded(s: Seq<char>, width: nat)
    ensures
        s.is_suffix_of(pad_left(s, width)),
        pad_left(s, width).len() == (if s.len() < width {
            width
        } else {
            s.len()
        }),
        forall|i: int|
            0 <= i < pad_left(s, width).len() - s.len() ==> #[trigger] pad_left(s, width)[i] == ' ',
{
    let p = pad_left(s, width);
    assert(p.subrange(p.len() - s.len(), p.len() as int) =~= s);
}

/// A child's path is its directory's with one slash and its name behind it.
pub proof fn law_joined(dir: Seq<char>, name: Seq<char>)
    requires
        dir.len() > 0,
    ensures
        name.is_suffix_of(join_path(dir, name)),
        dir.is_prefix_of(join_path(dir, name)),
        join_path(dir, name)[join_path(dir, name).len() - name.len() - 1] == '/',
        dir.len() > 1 ==> join_path(dir, name).len() == dir.len() + 1 + name.len(),
        dir == seq!['/'] ==> join_path(dir, name) == dir + name,
{
    let p = join_path(dir, name);
    assert(p.subrange(p.len() - name.len(), p.len() as int) =~= name);
    if dir != seq!['/'] {
        assert(p.subrange(0, dir.len() as int) =~= dir);
        if dir.len() == 1 {
            assert(p[p.len() - name.len() - 1] == '/');
        }
    } else {
        assert(p.subrange(0, dir.len() as int) =~= dir);
    }
}

} // verus!
