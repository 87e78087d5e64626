use hepos::boot::start_session;
use hepos::desktop::{Desktop, Window};
use hepos::display::{Color, Display, DrawOp};
use hepos::frame::Scene;
use hepos::nav::{target_of_row, zone, HepfsNav, RowTarget, Zone};
use hepos::panels::{
    can_show_listing, can_show_path, render_hepfs_window, render_pointer, render_splash,
    render_welcome_window,
};
use hepos::protocol::{DirEntry, Request};
use hepos::session::{KeyAction, Pick, Picked, Session, EDITOR, ESC, TERMINAL};

fn texts(d: &Display) -> Vec<String> {
    d.ops
        .iter()
        .filter_map(|o| match o {
            DrawOp::Text { text, .. } => Some(text.clone()),
            _ => None,
        })
        .collect()
}

fn desk() -> Desktop {
    let mut d = Desktop::new(640, 480);
    d.add_window("one", 20, 50, 100, 100);
    d.add_window("two", 60, 90, 100, 100);
    d
}

#[test]
fn window_hits() {
    let w = Window::new(0, "w", 100, 100, 50, 40);
    assert_eq!((w.outer_x(), w.outer_y(), w.outer_w(), w.outer_h()), (99, 77, 52, 64));
    assert!(w.content_hit(100, 100));
    assert!(!w.content_hit(150, 100));
    assert!(w.title_hit(99, 77));
    assert!(!w.title_hit(99, 100));
    assert!(w.close_hit(140, 85));
    assert!(!w.close_hit(147, 85));
}

#[test]
fn a_click_raises_a_window() {
    let mut d = desk();
    assert_eq!(d.focus(), Some(1));
    d.update_mouse(30, 60, 1);
    assert_eq!(d.focus(), Some(0));
    assert_eq!(d.window(1).id, 0);
    assert_eq!(d.find(0), Some(1));
    d.bring_to_front(1);
    assert_eq!(d.window(1).id, 1);
    d.bring_to_front(9);
    assert_eq!(d.focus(), Some(1));
}

#[test]
fn dragging_stays_on_the_screen() {
    let mut d = desk();
    d.update_mouse(30, 40, 1);
    d.update_mouse(1000, 1000, 1);
    let w = d.window(d.find(0).unwrap());
    assert_eq!((w.x, w.y), (540, 447));
    d.update_mouse(40, 60, 1);
    let w = d.window(d.find(0).unwrap());
    assert_eq!((w.x, w.y), (30, 70));
    d.update_mouse(40, 60, 0);
    d.update_mouse(90, 90, 0);
    let w = d.window(d.find(0).unwrap());
    assert_eq!((w.x, w.y), (30, 70));
}

fn click(d: &mut Desktop, x: i32, y: i32) {
    d.update_mouse(x, y, 0);
    d.update_mouse(x, y, 1);
    d.update_mouse(x, y, 0);
}

fn bar(d: &Desktop) -> Vec<String> {
    let mut out = Display::new();
    d.draw_taskbar(&mut out, "12:34");
    texts(&out)
}

#[test]
fn closing_and_the_taskbar() {
    let mut d = desk();
    assert_eq!(bar(&d), vec!["Start", "one", "two", "12:34"]);
    // the focused window's button hides it, and its button goes
    click(&mut d, 2 * 120 + 10, 470);
    assert!(d.window(d.find(1).unwrap()).minimized);
    assert_eq!(bar(&d), vec!["Start", "one", "12:34"]);
    // another button gives its window the focus
    click(&mut d, 120 + 10, 470);
    assert_eq!(d.focus(), Some(0));
    assert!(!d.window(d.find(0).unwrap()).minimized);
    // there is no second button now
    click(&mut d, 2 * 120 + 10, 470);
    assert_eq!(d.focus(), Some(0));
    // the close button hides a window too
    click(&mut d, 20 + 100 - 10, 50 - 12);
    assert!(d.window(d.find(0).unwrap()).minimized);
    assert_eq!(bar(&d), vec!["Start", "12:34"]);
}

#[test]
fn the_start_menu() {
    let mut d = desk();
    d.set_minimized(1, true);
    let mut out = Display::new();
    d.draw_start_menu(&mut out);
    assert!(out.ops.is_empty());
    click(&mut d, 10, 470);
    assert!(d.start_open);
    d.draw_start_menu(&mut out);
    assert_eq!(texts(&out), vec!["one", "two", "--"]);
    assert!(matches!(out.ops[0], DrawOp::Rect { x: 0, y: 408, w: 160, h: 40, .. }));
    // the second row is the second program
    click(&mut d, 50, 408 + 25);
    assert!(!d.start_open);
    assert!(!d.window(d.find(1).unwrap()).minimized);
    assert_eq!(d.focus(), Some(1));
    // the button opens and closes, and a click elsewhere closes
    click(&mut d, 10, 470);
    click(&mut d, 10, 470);
    assert!(!d.start_open);
    click(&mut d, 10, 470);
    click(&mut d, 400, 300);
    assert!(!d.start_open);
    // the menu lies above the windows
    let mut d = desk();
    d.add_window("three", 0, 300, 300, 140);
    d.bring_to_front(0);
    click(&mut d, 10, 470);
    click(&mut d, 5, 448 - 60 + 5);
    assert_eq!(d.focus(), Some(0));
    // a screen without room for it
    let mut d = Desktop::new(640, 60);
    d.add_window("one", 0, 22, 10, 10);
    d.add_window("two", 0, 22, 10, 10);
    click(&mut d, 10, 50);
    assert!(!d.start_open);
}

#[test]
fn resizing() {
    let mut d = Desktop::new(640, 480);
    d.add_window("w", 100, 100, 200, 150);
    let size = |d: &Desktop| (d.window(0).x, d.window(0).y, d.window(0).w, d.window(0).h);
    assert!(d.window(0).handle_hit(299, 249) && d.window(0).handle_hit(288, 238));
    assert!(!d.window(0).handle_hit(287, 249) && !d.window(0).handle_hit(300, 249));
    d.update_mouse(295, 245, 1);
    d.update_mouse(325, 265, 1);
    assert_eq!(size(&d), (100, 100, 230, 170));
    assert_eq!(d.window(0).content.len(), 230 * 170);
    d.update_mouse(0, 0, 1);
    assert_eq!(size(&d), (100, 100, 120, 60));
    // over the edge of the screen and the taskbar, as far as the pointer goes
    d.update_mouse(700, 500, 1);
    assert_eq!(size(&d), (100, 100, 605, 405));
    d.update_mouse(635, 443, 1);
    assert_eq!(size(&d), (100, 100, 540, 348));
    d.update_mouse(635, 443, 0);
    d.update_mouse(200, 200, 0);
    assert_eq!(size(&d), (100, 100, 540, 348));
    assert!(!d.window(0).resizing);
    let mut out = Display::new();
    d.draw_handle(&mut out, d.window(0));
    assert!(matches!(out.ops[0], DrawOp::Pixel { x: 636, y: 444, .. }));
    assert_eq!(out.ops.len(), 3);
}

#[test]
fn a_still_pointer_asks_for_nothing() {
    let mut d = desk();
    d.update_mouse(5, 5, 0);
    d.set_dirty(false);
    d.update_mouse(5, 5, 0);
    assert!(!d.is_dirty());
    d.update_mouse(6, 5, 0);
    assert!(d.is_dirty());
}

#[test]
fn hits_and_rects() {
    let mut d = desk();
    assert_eq!(d.hit(70, 100), Some(1));
    assert_eq!(d.hit(30, 60), Some(0));
    assert_eq!(d.hit(400, 400), None);
    assert_eq!(d.window_rect("two"), Some((60, 90, 100, 100)));
    d.set_minimized(1, true);
    assert_eq!(d.window_rect("two"), None);
    assert_eq!(d.hit(70, 100), Some(0));
    d.set_title(0, "three");
    assert_eq!(d.window_rect("three"), Some((20, 50, 100, 100)));
    assert_eq!(d.count(), 2);
    assert_eq!(d.size(), (640, 480));
    assert!(d.windows_fit() && d.taskbar_fits());
    assert!(!Desktop::new(10, 10).taskbar_fits());
}

#[test]
fn drawing_the_desktop() {
    let d = desk();
    let mut out = Display::new();
    d.render(&mut out, "12:34", 10, 20);
    assert!(matches!(out.ops[0], DrawOp::Clear { .. }));
    let t = texts(&out);
    assert!(t.iter().any(|s| s == "one"));
    assert!(t.iter().any(|s| s == "12:34"));
    assert!(matches!(out.ops.last(), Some(DrawOp::Rect { x: 10, y: 16, w: 1, h: 9, .. })));
}

#[test]
fn colours() {
    assert_eq!(Color::from_hex(0x0C8EFF), Color { r: 0x0C, g: 0x8E, b: 0xFF });
}

#[test]
fn navigating() {
    let mut n = HepfsNav::new(1);
    n.go_back();
    assert_eq!(n.path, "/");
    n.enter(5, "home");
    n.enter(6, "sub");
    assert_eq!((n.ino, n.path.as_str()), (6, "/home/sub"));
    assert_eq!(n.path_of("x"), "/home/sub/x");
    n.go_back();
    assert_eq!((n.ino, n.path.as_str()), (5, "/home"));
    n.go_forward();
    assert_eq!((n.ino, n.path.as_str()), (6, "/home/sub"));
    n.go_back();
    n.enter(9, "other");
    n.go_forward();
    assert_eq!((n.ino, n.path.as_str()), (9, "/home/other"));
    n.go_back();
    n.go_back();
    assert_eq!((n.ino, n.path.as_str()), (1, "/"));
}

#[test]
fn zones_of_the_list() {
    assert_eq!(zone(21, 21), Zone::Back);
    assert_eq!(zone(22, 0), Zone::Forward);
    assert_eq!(zone(44, 0), Zone::Bar);
    assert_eq!(zone(0, 22), Zone::Row(0));
    assert_eq!(zone(0, 36), Zone::Row(0));
    assert_eq!(zone(0, 37), Zone::Row(1));
    assert_eq!(target_of_row(true, 0), RowTarget::Entry(0));
    assert_eq!(target_of_row(false, 0), RowTarget::Up);
    assert_eq!(target_of_row(false, 3), RowTarget::Entry(2));
}

fn entry(name: &str, is_dir: bool, size: u64) -> DirEntry {
    DirEntry { name: name.to_string(), is_dir, size }
}

#[test]
fn the_hepfs_window() {
    let mut n = HepfsNav::new(1);
    let mut d = Display::new();
    let l = Some(vec![entry("docs", true, 0), entry("a.txt", false, 2048)]);
    assert!(can_show_listing(&l) && can_show_path(&n, 260));
    render_hepfs_window(&mut d, &n, 1, &l, 340, 50, 260, 160);
    assert_eq!(texts(&d), vec!["<", ">", "/", "d", "docs", "f", "a.txt", "2.0 KB"]);
    match d.ops.last() {
        Some(DrawOp::Text { x, y, .. }) => assert_eq!((*x, *y), (340 + 260 - 58, 89)),
        _ => panic!(),
    }
    let mut d = Display::new();
    render_hepfs_window(&mut d, &n, 1, &Some(vec![]), 0, 0, 260, 160);
    assert_eq!(texts(&d), vec!["<", ">", "/", "(empty)"]);
    let mut d = Display::new();
    n.enter(4, "d");
    render_hepfs_window(&mut d, &n, 1, &None, 0, 0, 260, 160);
    assert_eq!(texts(&d), vec!["<", ">", "/d", "d", "..", "No NVMe"]);
    assert!(!can_show_listing(&Some(vec![entry("big", false, u64::MAX)])));
}

#[test]
fn a_long_list_and_a_long_path() {
    let mut n = HepfsNav::new(1);
    n.enter(2, "a-long-directory-name");
    let l: Vec<DirEntry> = (0..20).map(|i| entry(&format!("e{}", i), true, 0)).collect();
    let mut d = Display::new();
    render_hepfs_window(&mut d, &n, 1, &Some(l), 0, 0, 100, 80);
    let t = texts(&d);
    // (100 - 46) / 9 characters of the path, and two rows under the way up
    assert_eq!(t[2], "y-name");
    assert_eq!(t[3..], ["d", "..", "d", "e0", "d", "e1", "d", "e2"]);
}

#[test]
fn the_welcome_window_and_the_splash() {
    let mut d = Display::new();
    render_welcome_window(&mut d, 25600, 65536, true, 20, 50, 300, 160);
    let t = texts(&d);
    assert_eq!(t[2], "RAM: 100 MB free / 256 MB total");
    assert_eq!(t[3], "NVMe: OK");
    let mut d = Display::new();
    render_splash(&mut d, 640, 480, 25600, 65536);
    assert_eq!(texts(&d)[0], "HepOS");
    match d.ops.last() {
        Some(DrawOp::Text { x, y, .. }) => assert_eq!((*x, *y), (320 - 31 * 9 / 2, 312)),
        _ => panic!(),
    }
    let mut d = Display::new();
    render_pointer(&mut d, 3, 100, true);
    assert!(matches!(
        d.ops[0],
        DrawOp::Rect { x: 0, y: 100, w: 13, h: 1, color: Color { r: 255, g: 255, b: 0 } }
    ));
}

fn session() -> Session {
    start_session(640, 480, 1)
}

#[test]
fn the_first_session() {
    let s = session();
    assert_eq!(s.desktop.count(), 4);
    assert_eq!(s.focused, Some(TERMINAL));
    assert!(s.desktop.window(s.desktop.find(EDITOR).unwrap()).minimized);
    assert_eq!(s.desktop.window_rect("HepFS"), Some((340, 50, 260, 160)));
    assert!(s.wants_frame());
}

#[test]
fn keys_go_to_the_terminal() {
    let mut s = session();
    s.begin_frame(10, 10, 0);
    assert!(s.takes_key('p'));
    for c in "pwd\n".chars() {
        assert!(matches!(s.key(c), KeyAction::Shell(Request::Done)));
    }
    s.end_keys();
    assert!(s.typed && s.desktop.is_dirty());
}

#[test]
fn escape_and_the_pointer() {
    let mut s = session();
    s.begin_frame(100, 100, 0);
    assert!(matches!(s.key(ESC), KeyAction::Nothing));
    assert_eq!(s.focused, None);
    s.key('w');
    s.key('w');
    s.key('d');
    s.key('s');
    s.key('a');
    s.key('a');
    assert_eq!((s.mx, s.my), (94, 94));
    s.key('x');
    // a click on the welcome window gives it the keys
    s.key(' ');
    assert_eq!(s.focused, Some(0));
    s.key(ESC);
    s.mx = 630;
    s.my = 470;
    s.key(' ');
    assert_eq!(s.focused, Some(TERMINAL));
}

#[test]
fn the_editor_takes_and_gives_the_keys() {
    let mut s = session();
    s.edit_named("/d/f", "f", Some(b"x".to_vec()));
    assert_eq!(s.focused, Some(EDITOR));
    assert_eq!(s.desktop.window_rect("Editor: f"), Some((60, 40, 580, 380)));
    assert_eq!(s.desktop.focus(), Some(EDITOR));
    assert!(matches!(s.key('y'), KeyAction::Nothing));
    assert!(matches!(s.key('\u{13}'), KeyAction::Save));
    assert_eq!(s.editor.as_ref().unwrap().contents(), b"yx");
    s.key(ESC);
    assert_eq!(s.focused, Some(EDITOR));
    s.key(ESC);
    assert_eq!(s.focused, Some(TERMINAL));
    assert!(s.desktop.window(s.desktop.find(EDITOR).unwrap()).minimized);
}

#[test]
fn clicks_in_the_hepfs_window() {
    let mut s = session();
    s.begin_frame(350, 50 + 24, 1);
    assert_eq!(s.pointer(), Some(Pick { dir: 1, index: 0 }));
    assert_eq!(s.focused, Some(1));
    assert!(s
        .picked(Some(Picked { ino: 8, name: "home".to_string(), is_dir: true }))
        .is_none());
    assert_eq!(s.nav.path, "/home");
    // held: nothing happens
    s.begin_frame(350, 50 + 24, 1);
    assert_eq!(s.pointer(), None);
    assert_eq!(s.nav.path, "/home");
    s.begin_frame(350, 50 + 40, 0);
    s.pointer();
    s.begin_frame(350, 50 + 40, 1);
    assert_eq!(s.pointer(), Some(Pick { dir: 8, index: 0 }));
    let p = s.picked(Some(Picked { ino: 9, name: "f".to_string(), is_dir: false }));
    assert_eq!(p, Some("/home/f".to_string()));
    s.edit_picked("/home/f", None);
    assert_eq!(s.focused, Some(EDITOR));
    s.edit_picked("/home/f", None);
    assert!(s.picked(None).is_none());
}

#[test]
fn up_back_and_forward_by_clicks() {
    let mut s = session();
    s.nav.enter(8, "home");
    let mut click = |s: &mut Session, x: i32, y: i32| {
        s.begin_frame(x, y, 0);
        s.pointer();
        s.begin_frame(x, y, 1);
        assert_eq!(s.pointer(), None);
    };
    click(&mut s, 350, 50 + 24);
    assert_eq!(s.nav.path, "/");
    click(&mut s, 340 + 30, 50 + 10);
    assert_eq!(s.nav.path, "/home");
    click(&mut s, 340 + 10, 50 + 10);
    assert_eq!(s.nav.path, "/");
    click(&mut s, 340 + 100, 50 + 10);
    assert_eq!(s.nav.path, "/");
}

#[test]
fn the_pointer_stays_on_the_screen() {
    let mut s = session();
    s.begin_frame(-50, 9999, 0);
    s.pointer();
    assert_eq!((s.mx, s.my), (0, 479));
}

#[test]
fn a_frame() {
    let mut s = session();
    s.begin_frame(5, 5, 0);
    s.pointer();
    let scene = Scene {
        clock: "09:41".to_string(),
        free_pages: 256,
        total_pages: 512,
        listing: Some(vec![entry("home", true, 0)]),
    };
    assert!(s.can_render(&scene));
    let mut d = Display::new();
    s.render(&mut d, &scene);
    let t = texts(&d);
    for want in ["HepOS v0.1", "home", "Terminal", "09:41"] {
        assert!(t.iter().any(|x| x == want), "{}", want);
    }
    // the pointer is drawn last
    assert!(matches!(d.ops.last(), Some(DrawOp::Rect { x: 5, y: 0, w: 1, h: 13, .. })));
    s.begin_frame(5, 5, 0);
    s.pointer();
    assert!(!s.wants_frame());
    let bad = Scene { clock: String::new(), free_pages: u64::MAX, total_pages: 0, listing: None };
    assert!(!s.can_render(&bad));
}

#[test]
fn ids_count_the_windows() {
    let mut d = Desktop::new(640, 480);
    for n in 0..4 {
        assert_eq!(d.count(), n);
        assert_eq!(d.add_window("w", 50 * n as i32, 60, 100, 80), n);
        click(&mut d, 60, 50);
        assert_eq!(d.count(), n + 1);
    }
    let mut ids: Vec<usize> = (0..4).map(|i| d.window(i).id).collect();
    ids.sort();
    assert_eq!(ids, vec![0, 1, 2, 3]);
}
