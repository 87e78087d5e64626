//! Short texts for windows: file sizes and memory counts.
use vstd::prelude::*;
use crate::text;

verus! {

/// The tenths of a unit that `rest` of 1024 parts make, rounded down.
pub open spec fn tenths(rest: nat) -> nat {
    rest * 10 / 1024
}

/// A byte count in bytes, or in kilobytes or megabytes with one decimal. From ten
/// million megabytes on the decimal is left out: twelve characters hold the rest.
pub open spec fn size_text(bytes: nat) -> Seq<char> {
    if bytes < 1024 {
        text::dec(bytes) + " B"@
    } else if bytes < 1024 * 1024 {
        text::dec(bytes / 1024) + "."@ + text::dec(tenths(bytes % 1024)) + " KB"@
    } else if bytes / 1024 / 1024 < 10_000_000 {
        text::dec(bytes / 1024 / 1024) + "."@ + text::dec(tenths(bytes / 1024 % 1024)) + " MB"@
    } else {
        text::dec(bytes / 1024 / 1024) + " MB"@
    }
}

/// The low bytes of the first `n` characters of `s`, and zeros after its end.
pub open spec fn zero_padded(s: Seq<char>, n: nat) -> Seq<u8> {
    Seq::new(
        n,
        |i: int|
            if i < s.len() {
                s[i] as u8
            } else {
                0
            },
    )
}

fn write_num(n: u64, tenth: Option<u64>, suffix: &str) -> (buf: [u8; 12])
    ensures
        buf@ == zero_padded(
            text::dec(n as nat) + (match tenth {
                Some(t) => "."@ + text::dec(t as nat),
                None => Seq::<char>::empty(),
            }) + suffix@,
            12,
        ),
{
    let mut s: String = String::new();
    text::push_dec(&mut s, n);
    match tenth {
        Some(t) => {
            s.append(".");
            text::push_dec(&mut s, t);
        },
        None => {},
    }
    s.append(suffix);
    let ghost full = text::dec(n as nat) + (match tenth {
        Some(t) => "."@ + text::dec(t as nat),
        None => Seq::<char>::empty(),
    }) + suffix@;
    assert(s@ =~= full);
    let v: Vec<char> = text::chars_of(s.as_str());
    let mut buf: [u8; 12] = [0u8; 12];
    let mut i: usize = 0;
    while i < 12 && i < v.len()
        invariant
            v@ == full,
            i <= 12,
            i <= full.len(),
            forall|j: int| 0 <= j < i ==> buf@[j] == full[j] as u8,
            forall|j: int| i <= j < 12 ==> buf@[j] == 0,
        decreases 12 - i,
    {
        buf[i] = v[i] as u8;
        i = i + 1;
    }
    assert(buf@ =~= zero_padded(full, 12));
    buf
}

/// Formats a byte count as a compact text such as `1.2 KB`, with zeros after it.
pub fn fmt_size(bytes: u64) -> (buf: [u8; 12])
    requires
        bytes / 1024 / 1024 < 100_000_000,
    ensures
        buf@ == zero_padded(size_text(bytes as nat), 12),
{
    if bytes < 1024 {
        let buf: [u8; 12] = write_num(bytes, None, " B");
        assert(text::dec(bytes as nat) + Seq::<char>::empty() + " B"@ =~= size_text(bytes as nat));
        buf
    } else if bytes < 1024 * 1024 {
        let t: u64 = bytes % 1024 * 10 / 1024;
        let buf: [u8; 12] = write_num(bytes / 1024, Some(t), " KB");
        assert(text::dec(bytes as nat / 1024) + ("."@ + text::dec(t as nat)) + " KB"@
            =~= size_text(bytes as nat));
        buf
    } else if bytes / 1024 / 1024 < 10_000_000 {
        let t: u64 = bytes / 1024 % 1024 * 10 / 1024;
        let buf: [u8; 12] = write_num(bytes / 1024 / 1024, Some(t), " MB");
        assert(text::dec(bytes as nat / 1024 / 1024) + ("."@ + text::dec(t as nat)) + " MB"@
            =~= size_text(bytes as nat));
        buf
    } else {
        let buf: [u8; 12] = write_num(bytes / 1024 / 1024, None, " MB");
        assert(text::dec(bytes as nat / 1024 / 1024) + Seq::<char>::empty() + " MB"@
            =~= size_text(bytes as nat));
        buf
    }
}

/// The bytes of a buffer before its first zero.
pub open spec fn until_zero(b: Seq<u8>) -> Seq<u8>
    decreases b.len(),
{
    if b.len() == 0 || b[0] == 0 {
        Seq::empty()
    } else {
        seq![b[0]] + until_zero(b.drop_first())
    }
}

/// The length of the text in a buffer that zeros end.
pub fn text_len(buf: &[u8; 12]) -> (n: usize)
    ensures
        n <= 12,
        until_zero(buf@) == buf@.take(n as int),
{
    let mut n: usize = 0;
    assert(buf@.skip(0) =~= buf@);
    assert(buf@.take(0) + until_zero(buf@) =~= until_zero(buf@));
    while n < 12 && buf[n] != 0
        invariant
            n <= 12,
            until_zero(buf@) == buf@.take(n as int) + until_zero(buf@.skip(n as int)),
        decreases 12 - n,
    {
        proof {
            let r = buf@.skip(n as int);
            assert(r.drop_first() =~= buf@.skip(n + 1));
            assert(buf@.take(n as int) + (seq![r[0]] + until_zero(r.drop_first())) =~= buf@.take(
                n + 1,
            ) + until_zero(r.drop_first()));
        }
        n = n + 1;
    }
    assert(buf@.take(n as int) + Seq::<u8>::empty() =~= buf@.take(n as int));
    n
}

/// How much memory is free.
pub open spec fn mem_text(free_mb: nat, total_mb: nat) -> Seq<char> {
    "RAM: "@ + text::dec(free_mb) + " MB free / "@ + text::dec(total_mb) + " MB total"@
}

/// The first 64 characters of a text.
pub open spec fn first_64(s: Seq<char>) -> Seq<char> {
    if s.len() > 64 {
        s.take(64)
    } else {
        s
    }
}

/// Says in a buffer, as far as it goes, how much memory is free, and gives that
/// as text.
pub fn fmt_mem(free_mb: u64, total_mb: u64, buf: &mut [u8; 64]) -> (s: String)
    ensures
        s@ == first_64(mem_text(free_mb as nat, total_mb as nat)),
        forall|i: int| 0 <= i < s@.len() ==> final(buf)@[i] == s@[i] as u8,
        forall|i: int| s@.len() <= i < 64 ==> final(buf)@[i] == old(buf)@[i],
{
    let mut s: String = String::from_str("RAM: ");
    text::push_dec(&mut s, free_mb);
    s.append(" MB free / ");
    text::push_dec(&mut s, total_mb);
    s.append(" MB total");
    let ghost full = s@;
    assert(full =~= mem_text(free_mb as nat, total_mb as nat));
    let v: Vec<char> = text::chars_of(s.as_str());
    let n: usize = if v.len() > 64 {
        64
    } else {
        v.len()
    };
    let mut i: usize = 0;
    while i < n
        invariant
            v@ == full,
            i <= n <= 64,
            n <= full.len(),
            forall|j: int| 0 <= j < i ==> buf@[j] == full[j] as u8,
            forall|j: int| i <= j < 64 ==> buf@[j] == old(buf)@[j],
        decreases n - i,
    {
        buf[i] = v[i] as u8;
        i = i + 1;
    }
    let r: String = text::string_of(&v, 0, n);
    assert(r@ =~= first_64(full));
    r
}

/// What is written when the kernel panics.
pub open spec fn panic_text(
    location: Option<(Seq<char>, nat)>,
    message: Option<Seq<char>>,
) -> Seq<char> {
    "\n\n*** KERNEL PANIC ***\n"@ + (match location {
        Some((file, line)) => file + ":"@ + text::dec(line) + "\n"@,
        None => Seq::empty(),
    }) + (match message {
        Some(m) => m + "\n"@,
        None => "(no message)\n"@,
    })
}

/// What is written when the kernel panics at a line of a file.
pub fn panic_report(location: Option<(&str, u32)>, message: Option<&str>) -> (s: String)
    ensures
        s@ == panic_text(
            match location {
                Some((file, line)) => Some((file@, line as nat)),
                None => None,
            },
            match message {
                Some(m) => Some(m@),
                None => None,
            },
        ),
{
    let mut s: String = String::from_str("\n\n*** KERNEL PANIC ***\n");
    match location {
        Some((file, line)) => {
            s.append(file);
            s.append(":");
            text::push_dec(&mut s, line as u64);
            s.append("\n");
        },
        None => {},
    }
    match message {
        Some(m) => {
            s.append(m);
            s.append("\n");
        },
        None => {
            s.append("(no message)\n");
        },
    }
    assert(s@ =~= panic_text(
        match location {
            Some((file, line)) => Some((file@, line as nat)),
            None => None,
        },
        match message {
            Some(m) => Some(m@),
            None => None,
        },
    ));
    s
}

/// The unit of a byte count.
pub open spec fn unit(bytes: nat) -> Seq<char> {
    if bytes < 1024 {
        " B"@
    } else if bytes < 1024 * 1024 {
        " KB"@
    } else {
        " MB"@
    }
}

/// A number below ten to the power `n` has at most `n` digits.
pub proof fn lemma_digits(v: nat, n: nat)
    requires
        v < vstd::arithmetic::power::pow(10, n),
        n > 0,
    ensures
        1 <= text::dec(v).len() <= n,
    decreases n,
{
    reveal_with_fuel(text::dec, 2);
    vstd::arithmetic::power::lemma_pow1(10);
    if v >= 10 {
        if n == 1 {
        } else {
            reveal_with_fuel(vstd::arithmetic::power::pow, 2);
            assert(v / 10 < vstd::arithmetic::power::pow(10, (n - 1) as nat));
            lemma_digits(v / 10, (n - 1) as nat);
        }
    }
}

/// A number other than zero does not begin with a zero.
pub proof fn lemma_first_digit(v: nat)
    requires
        v > 0,
    ensures
        text::dec(v).len() > 0,
        text::dec(v)[0] != '0',
    decreases v,
{
    reveal_with_fuel(text::dec, 2);
    if v >= 10 {
        lemma_first_digit(v / 10);
    }
}

/// Every count that can be formatted is shown whole: the text fits into the
/// buffer, begins with no needless zero, ends with its unit, and only zero bytes
/// follow it.
pub proof fn law_size_fits(bytes: nat)
    requires
        bytes / 1024 / 1024 < 100_000_000,
    ensures
        unit(bytes).len() < size_text(bytes).len() <= 12,
        unit(bytes).is_suffix_of(size_text(bytes)),
        bytes > 0 ==> size_text(bytes)[0] != '0',
        forall|i: int|
            0 <= i < 12 ==> zero_padded(size_text(bytes), 12)[i] == (if i < size_text(bytes).len() {
                size_text(bytes)[i] as u8
            } else {
                0
            }),
{
    reveal_strlit(" B");
    reveal_strlit(" KB");
    reveal_strlit(" MB");
    reveal_strlit(".");
    let n = bytes / 1024 / 1024;
    assert(vstd::arithmetic::power::pow(10, 1) == 10 && vstd::arithmetic::power::pow(10, 4) == 10_000
        && vstd::arithmetic::power::pow(10, 7) == 10_000_000 && vstd::arithmetic::power::pow(10, 8)
        == 100_000_000) by {
        reveal_with_fuel(vstd::arithmetic::power::pow, 9);
    }
    if bytes > 0 {
        lemma_first_digit(
            if bytes < 1024 {
                bytes
            } else if bytes < 1024 * 1024 {
                bytes / 1024
            } else {
                n
            },
        );
    }
    if bytes < 1024 {
        lemma_digits(bytes, 4);
    } else if bytes < 1024 * 1024 {
        lemma_digits(bytes / 1024, 4);
        lemma_digits(tenths(bytes % 1024), 1);
    } else if n < 10_000_000 {
        lemma_digits(n, 7);
        lemma_digits(tenths(bytes / 1024 % 1024), 1);
    } else {
        lemma_digits(n, 8);
    }
}

/// The number before the unit says how much it is: the bytes themselves below a kilobyte,
/// and from there on the tenths of the unit that are full, of kilobytes, or of megabytes
/// in whole kilobytes.
pub proof fn law_size_value(bytes: nat, whole: nat, tenth: nat)
    requires
        tenth < 10,
    ensures
        bytes < 1024 ==> size_text(bytes) == text::dec(bytes) + seq![' ', 'B'],
        1024 <= bytes < 1_048_576 && (10 * whole + tenth) * 1024 <= 10 * bytes < (10 * whole + tenth
            + 1) * 1024 ==> size_text(bytes) == text::dec(whole) + seq!['.'] + text::dec(tenth)
            + seq![' ', 'K', 'B'],
        1_048_576 <= bytes < 10_000_000 * 1_048_576 && (10 * whole + tenth) * 1024 <= 10 * (bytes
            / 1024) < (10 * whole + tenth + 1) * 1024 ==> size_text(bytes) == text::dec(whole)
            + seq!['.'] + text::dec(tenth) + seq![' ', 'M', 'B'],
        10_000_000 * 1_048_576 <= bytes && whole * 1_048_576 <= bytes < (whole + 1) * 1_048_576
            ==> size_text(bytes) == text::dec(whole) + seq![' ', 'M', 'B'],
{
    reveal_strlit(" B");
    reveal_strlit(" KB");
    reveal_strlit(" MB");
    reveal_strlit(".");
    assert(" B"@ =~= seq![' ', 'B']);
    assert(" KB"@ =~= seq![' ', 'K', 'B']);
    assert(" MB"@ =~= seq![' ', 'M', 'B']);
    assert("."@ =~= seq!['.']);
    let k = bytes / 1024;
    assert(k / 1024 == bytes / 1_048_576);
}

/// The free memory stands before the total.
pub proof fn law_memory_told(free_mb: nat, total_mb: nat)
    ensures
        mem_text(free_mb, total_mb) == "RAM: "@ + text::dec(free_mb) + " MB free / "@ + text::dec(
            total_mb,
        ) + " MB total"@,
        mem_text(free_mb, total_mb).len() <= 64 ==> first_64(mem_text(free_mb, total_mb))
            == mem_text(free_mb, total_mb),
        first_64(mem_text(free_mb, total_mb)).is_prefix_of(mem_text(free_mb, total_mb)),
{
}

/// A panic is told with its place and its message, in this order, each on a line of its
/// own; without a message that is said.
pub proof fn law_panic_told(file: Seq<char>, line: nat, message: Seq<char>)
    ensures
        panic_text(Some((file, line)), Some(message)) == "\n\n*** KERNEL PANIC ***\n"@ + (file
            + seq![':'] + text::dec(line) + seq!['\n']) + message + seq!['\n'],
        panic_text(None, None) == "\n\n*** KERNEL PANIC ***\n"@ + "(no message)\n"@,
{
    reveal_strlit(":");
    reveal_strlit("\n");
    assert(":"@ =~= seq![':']);
    assert("\n"@ =~= seq!['\n']);
    let head = "\n\n*** KERNEL PANIC ***\n"@;
    assert(panic_text(None, None) =~= head + "(no message)\n"@);
    assert(panic_text(Some((file, line)), Some(message)) =~= head + (file + seq![':'] + text::dec(
        line,
    ) + seq!['\n']) + message + seq!['\n']);
}

} // verus!
