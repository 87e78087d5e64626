use hepos::labels::{fmt_mem, fmt_size, panic_report, text_len};
use hepos::rtc::{bcd, fmt_date, fmt_time, now, updating, ClockRegs, DateTime};
use hepos::shell::{
    absolute_path, parent_path, parse_command, parse_ip, parse_octet, split_words, trimmed,
    Command,
};
use hepos::text;

fn size(bytes: u64) -> String {
    let b = fmt_size(bytes);
    String::from_utf8(b[..text_len(&b)].to_vec()).unwrap()
}

#[test]
fn sizes() {
    assert_eq!(size(0), "0 B");
    assert_eq!(size(1023), "1023 B");
    assert_eq!(size(1024), "1.0 KB");
    assert_eq!(size(1229), "1.2 KB");
    assert_eq!(size(1_048_575), "1023.9 KB");
    assert_eq!(size(1_048_576), "1.0 MB");
    assert_eq!(size(3 * 1_048_576 + 524_288), "3.5 MB");
    assert_eq!(size(9_999_999 * 1_048_576 + 524_288), "9999999.5 MB");
    assert_eq!(size(10_000_000 * 1_048_576), "10000000 MB");
    assert_eq!(size(12_345_678 * 1_048_576), "12345678 MB");
}

#[test]
fn memory_counts() {
    let mut b = [0u8; 64];
    assert_eq!(fmt_mem(100, 256, &mut b), "RAM: 100 MB free / 256 MB total");
    assert_eq!(&b[..5], b"RAM: ");
    assert_eq!(b[31], 0);
    let s = fmt_mem(u64::MAX, u64::MAX, &mut b);
    assert_eq!(s.len(), 64);
    assert!(s.ends_with(" MB tota"));
}

#[test]
fn panic_reports() {
    assert_eq!(
        panic_report(Some(("src/main.rs", 42)), Some("oops")),
        "\n\n*** KERNEL PANIC ***\nsrc/main.rs:42\noops\n"
    );
    assert_eq!(panic_report(None, None), "\n\n*** KERNEL PANIC ***\n(no message)\n");
    assert_eq!(
        panic_report(Some(("f", 0)), None),
        "\n\n*** KERNEL PANIC ***\nf:0\n(no message)\n"
    );
}

#[test]
fn clock() {
    assert_eq!(bcd(0x59), 59);
    assert!(updating(0x80));
    assert!(!updating(0x7F));
    let t = now(&ClockRegs { sec: 0x30, min: 0x05, hour: 0x23, day: 0x09, month: 0x12, year: 0x26 });
    assert_eq!(t, DateTime { hour: 23, min: 5, sec: 30, day: 9, month: 12, year: 2026 });
    let mut tb = [0u8; 6];
    let mut db = [0u8; 11];
    assert_eq!(fmt_time(&t, &mut tb), "23:05");
    assert_eq!(&tb, b"23:05\0");
    assert_eq!(fmt_date(&t, &mut db), "2026-12-09");
    assert_eq!(&db, b"2026-12-09\0");
}

#[test]
fn numerals() {
    let mut s = String::new();
    text::push_dec(&mut s, 0);
    text::push_dec(&mut s, u64::MAX);
    assert_eq!(s, "018446744073709551615");
    let mut s = String::new();
    text::push_dec_padded(&mut s, 7, 3);
    text::push_dec_padded(&mut s, 1234, 3);
    assert_eq!(s, "  71234");
    let mut s = String::new();
    text::push_hex(&mut s, 0xAB, 4);
    text::push_hex(&mut s, 0x1234, 2);
    assert_eq!(s, "00AB1234");
    assert_eq!(text::dec_len(0), 1);
    assert_eq!(text::dec_len(1000), 4);
}

#[test]
fn pieces_of_text() {
    assert_eq!(text::take_bytes("h\u{e9}llo", 3), "h\u{e9}");
    assert_eq!(text::drop_bytes("h\u{e9}llo", 3), "llo");
    assert_eq!(text::without_leading_slashes("//a/b"), "a/b");
    assert_eq!(text::child_path("/", "a"), "/a");
    assert_eq!(text::child_path("/x", "a"), "/x/a");
    assert!(text::same_text("ab", "ab"));
    assert!(!text::same_text("ab", "abc"));
    assert_eq!(text::bytes_of("\u{e9}"), vec![0xC3, 0xA9]);
    assert_eq!(text::chars_of("a\u{e9}"), vec!['a', '\u{e9}']);
}

#[test]
fn command_lines() {
    let w = split_words("write f some more words");
    assert_eq!((w.verb.as_str(), w.arg1.as_str(), w.arg2.as_str()), ("write", "f", "some more words"));
    let w = split_words("ls");
    assert_eq!((w.verb.as_str(), w.arg1.as_str(), w.arg2.as_str()), ("ls", "", ""));
    let w = split_words("a  b");
    assert_eq!((w.verb.as_str(), w.arg1.as_str(), w.arg2.as_str()), ("a", "", "b"));
    assert_eq!(trimmed("  x y\t\n"), "x y");
    assert_eq!(parse_command(""), Command::Empty);
    assert_eq!(parse_command("netdiag"), Command::Netdiag);
    assert_eq!(parse_command("echoing"), Command::Echo);
    assert_eq!(parse_command("Echo"), Command::Unknown);
}

#[test]
fn paths() {
    assert_eq!(parent_path("/a/b"), "/a");
    assert_eq!(parent_path("/a/b/"), "/a");
    assert_eq!(parent_path("/a"), "/");
    assert_eq!(parent_path("/"), "/");
    assert_eq!(parent_path(&text::child_path("/a/b", "c")), "/a/b");
    assert_eq!(absolute_path("/d", "x"), "/d/x");
    assert_eq!(absolute_path("/d", "/x"), "/x");
}

#[test]
fn addresses() {
    assert_eq!(parse_ip("10.0.2.2"), Some([10, 0, 2, 2]));
    assert_eq!(parse_ip("1.2.3"), None);
    assert_eq!(parse_ip("1.2.3.4.5"), None);
    assert_eq!(parse_ip("256.x..+7"), Some([0, 0, 0, 7]));
    assert_eq!(parse_octet("255"), 255);
    assert_eq!(parse_octet("-1"), 0);
}
