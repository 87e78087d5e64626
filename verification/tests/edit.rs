use hepos::display::{Display, DrawOp};
use hepos::editor::{open, save_target, Editor, EditorAction, SaveTarget};
use hepos::ps2::{
    KEY_CTRL_END, KEY_CTRL_HOME, KEY_DEL, KEY_DOWN, KEY_END, KEY_F10, KEY_F2, KEY_HOME, KEY_LEFT,
    KEY_PGDN, KEY_RIGHT, KEY_UP,
};
use hepos::shell::directory;

fn keys(e: &mut Editor, s: &str) {
    for c in s.chars() {
        assert_eq!(e.on_key(c), EditorAction::Stay);
    }
}

fn key(e: &mut Editor, k: u8) {
    e.on_key(k as char);
}

#[test]
fn opens_and_gives_back() {
    for text in ["", "a", "a\n", "a\nb", "\n\n", "x\n\ny\n"] {
        let e = Editor::new("/f", text.as_bytes());
        assert_eq!(e.contents(), text.as_bytes());
        assert!(!e.modified);
        assert!(e.open);
    }
}

#[test]
fn typing() {
    let mut e = Editor::new("/f", b"world");
    keys(&mut e, "hello ");
    assert_eq!(e.contents(), b"hello world");
    assert!(e.modified);
    keys(&mut e, "\n");
    assert_eq!(e.contents(), b"hello \nworld");
    keys(&mut e, "\t");
    assert_eq!(e.contents(), b"hello \n    world");
}

#[test]
fn erasing() {
    let mut e = Editor::new("/f", b"ab\ncd");
    key(&mut e, KEY_DOWN);
    keys(&mut e, "\u{8}");
    assert_eq!(e.contents(), b"abcd");
    keys(&mut e, "\u{8}");
    assert_eq!(e.contents(), b"acd");
    key(&mut e, KEY_DEL);
    assert_eq!(e.contents(), b"ad");
    key(&mut e, KEY_HOME);
    keys(&mut e, "\u{8}");
    assert_eq!(e.contents(), b"ad");
    key(&mut e, KEY_END);
    key(&mut e, KEY_DEL);
    assert_eq!(e.contents(), b"ad");
}

#[test]
fn moving_keeps_the_text() {
    let mut e = Editor::new("/f", b"one\ntwo\nthree");
    for k in [KEY_UP, KEY_LEFT, KEY_RIGHT, KEY_DOWN, KEY_END, KEY_HOME, KEY_CTRL_END, KEY_CTRL_HOME, KEY_PGDN] {
        key(&mut e, k);
    }
    assert_eq!(e.contents(), b"one\ntwo\nthree");
    assert!(!e.modified);
    key(&mut e, KEY_CTRL_END);
    keys(&mut e, "!");
    assert_eq!(e.contents(), b"one\ntwo\nthree!");
    key(&mut e, KEY_CTRL_HOME);
    keys(&mut e, ">");
    assert_eq!(e.contents(), b">one\ntwo\nthree!");
}

#[test]
fn closing_warns_once() {
    let mut e = Editor::new("/f", b"");
    key(&mut e, KEY_F10);
    assert!(!e.open);
    let mut e = Editor::new("/f", b"");
    keys(&mut e, "x");
    key(&mut e, KEY_F10);
    assert!(e.open);
    keys(&mut e, "\u{1b}");
    assert!(!e.is_open());
}

#[test]
fn saving() {
    let mut e = Editor::new("/dir/f", b"");
    keys(&mut e, "hi");
    assert_eq!(e.on_key(KEY_F2 as char), EditorAction::Save);
    assert_eq!(e.on_key('\u{13}'), EditorAction::Save);
    assert!(e.save(false).is_none());
    assert_eq!(e.status_msg, "ERROR: no NVMe controller");
    let r = e.save(true).unwrap();
    assert_eq!((r.path.as_str(), r.data.as_slice()), ("/dir/f", &b"hi"[..]));
    e.no_directory();
    assert_eq!(e.status_msg, "ERROR: no such directory");
    assert!(e.modified);
    e.saved(2);
    assert_eq!(e.status_msg, "Saved /dir/f (2 bytes)");
    assert!(!e.modified);
    assert!(matches!(save_target("/x", Some(4)), SaveTarget::Existing(4)));
    let place = |path: &str| match save_target(path, None) {
        SaveTarget::Create { dir, name } => (dir, name),
        SaveTarget::Existing(_) => unreachable!(),
    };
    let pair = |d: &str, n: &str| (d.to_string(), n.to_string());
    assert_eq!(place("/dir/f"), pair("/dir", "f"));
    assert_eq!(place("/home/user/notes.txt"), pair("/home/user", "notes.txt"));
    assert_eq!(place("/f"), pair("/", "f"));
    assert_eq!(place("f"), pair("/", "f"));
    assert_eq!(directory("/", None, 7), Some(7));
    assert_eq!(directory("/dir", Some(3), 7), Some(3));
    assert_eq!(directory("/dir", None, 7), None);
}

#[test]
fn opening_what_is_not_there() {
    let e = open("/new", None);
    assert_eq!(e.path, "/new");
    assert_eq!(e.contents(), b"");
    assert_eq!(open("/old", Some(vec![b'q'])).contents(), b"q");
}

#[test]
fn the_cursor_is_shown() {
    let text: Vec<u8> = (0..100u8).flat_map(|i| vec![b'a' + i % 26, b'\n']).collect();
    let mut e = Editor::new("/f", &text);
    key(&mut e, KEY_CTRL_END);
    let mut d = Display::new();
    e.render(&mut d, 10, 20, 580, 380);
    let shown: String = d
        .ops
        .iter()
        .filter_map(|o| match o {
            DrawOp::Text { text, .. } => Some(text.clone()),
            _ => None,
        })
        .collect();
    assert!(shown.contains("101"));
    assert_eq!(e.extent(), (101, 0));
}
