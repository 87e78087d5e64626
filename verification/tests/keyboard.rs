use hepos::ps2::{
    handle_scancode, init, poll, read_char, read_char_blocking, wait_read, wait_write, KeyBuf,
    Keyboard, PortStep, KEY_F10, KEY_F2, KEY_UP,
};

#[test]
fn plain_shift_and_caps() {
    let mut k = Keyboard::new();
    handle_scancode(&mut k, 0x1E);
    handle_scancode(&mut k, 0x9E);
    handle_scancode(&mut k, 0x2A);
    handle_scancode(&mut k, 0x1E);
    handle_scancode(&mut k, 0xAA);
    handle_scancode(&mut k, 0x1E);
    assert_eq!(read_char(&mut k), Some('a'));
    assert_eq!(read_char(&mut k), Some('A'));
    assert_eq!(read_char(&mut k), Some('a'));
    assert_eq!(read_char(&mut k), None);
}

#[test]
fn control_and_special_keys() {
    let mut k = Keyboard::new();
    handle_scancode(&mut k, 0x1D);
    handle_scancode(&mut k, 0x1F);
    handle_scancode(&mut k, 0x9D);
    assert_eq!(read_char(&mut k), Some('\u{13}'));
    handle_scancode(&mut k, 0x01);
    assert_eq!(read_char(&mut k), Some('\u{1b}'));
    handle_scancode(&mut k, 0x3C);
    assert_eq!(read_char(&mut k), Some(KEY_F2 as char));
    handle_scancode(&mut k, 0x44);
    assert_eq!(read_char(&mut k), Some(KEY_F10 as char));
    handle_scancode(&mut k, 0xE0);
    handle_scancode(&mut k, 0x48);
    assert_eq!(read_char(&mut k), Some(KEY_UP as char));
    handle_scancode(&mut k, 0xE0);
    handle_scancode(&mut k, 0xC8);
    assert_eq!(read_char(&mut k), None);
}

#[test]
fn keys_come_in_order_and_overflow_is_dropped() {
    let mut b = KeyBuf::new();
    for i in 0..100u8 {
        b.push(i + 1);
    }
    for i in 0..63u8 {
        assert_eq!(b.pop(), Some(i + 1));
    }
    assert_eq!(b.pop(), None);
}

#[test]
fn polling_takes_a_byte_only_when_there_is_one() {
    let mut k = Keyboard::new();
    poll(&mut k, 0x00, 0x1E);
    assert_eq!(read_char(&mut k), None);
    poll(&mut k, 0x01, 0x1E);
    assert_eq!(read_char_blocking(&mut k), 'a');
    assert!(wait_read(0x01));
    assert!(!wait_read(0x02));
    assert!(wait_write(0x01));
    assert!(!wait_write(0x02));
}

#[test]
fn start_program() {
    let p = init();
    assert_eq!(p[0], PortStep::Drain { max: 0 });
    assert_eq!(p[2], PortStep::Command(0xAD));
    assert_eq!(p[4], PortStep::Command(0xA7));
    assert_eq!(p.last(), Some(&PortStep::Read));
}
