//! What holds of a session over keys, clicks and frames.
use vstd::prelude::*;
use crate::session::{EDITOR, ESC, HEPFS, TERMINAL, WELCOME};
use crate::{desktop, display, frame, nav, session};

verus! {

/// Escape gives the keys to the pointer and hides the editor's window, unless
/// the editor has the keys.
pub proof fn law_escape(s: session::SessionState)
    requires
        s.focused != Some(EDITOR),
    ensures
        s.key(ESC).0.focused is None,
        s.key(ESC).0.desktop.dirty,
        desktop::index_of(s.desktop.windows, EDITOR) matches Some(i)
            ==> s.key(ESC).0.desktop.windows[i].minimized,
{
    desktop::lemma_index_found(s.desktop.windows, EDITOR);
}

/// A key reaches one place only: the editor's keys leave the terminal as it is,
/// the terminal's leave the editor and the desktop, and the pointer's leave both.
pub proof fn law_one_reader(s: session::SessionState, c: char)
    ensures
        s.focused == Some(EDITOR) ==> s.key(c).0.terminal == s.terminal,
        s.focused is Some && s.focused != Some(EDITOR) && c != ESC ==> s.key(c).0.editor == s.editor
            && s.key(c).0.desktop == s.desktop && s.key(c).0.focused == s.focused,
        s.focused is None ==> s.key(c).0.editor == s.editor && s.key(c).0.terminal == s.terminal,
        s.key(c).0.nav == s.nav,
{
}

/// When the editor closes, its window is hidden and the terminal has the keys.
pub proof fn law_editor_closes(s: session::SessionState, c: char)
    requires
        s.focused == Some(EDITOR),
        s.editor is Some,
        !s.editor->0.key(c as u8).open,
    ensures
        s.key(c).0.focused == Some(TERMINAL),
        desktop::index_of(s.desktop.windows, EDITOR) matches Some(i)
            ==> s.key(c).0.desktop.windows[i].minimized,
{
    desktop::lemma_index_found(s.desktop.windows, EDITOR);
}

/// An opened file is shown on top and has the keys.
pub proof fn law_edit_shows(s: session::SessionState, path: Seq<char>, content: Seq<u8>)
    requires
        s.desktop.wf(),
        desktop::index_of(s.desktop.windows, EDITOR) is Some,
    ensures
        ({
            let t = s.edits(path, content);
            &&& t.focused == Some(EDITOR)
            &&& t.desktop.focused == Some(EDITOR)
            &&& t.desktop.windows.last().id == EDITOR
            &&& !t.desktop.windows.last().minimized
            &&& t.editor == Some(crate::editor::EditorState::fresh(path, content))
        }),
{
    let ws = s.desktop.windows;
    desktop::lemma_index_found(ws, EDITOR);
    let i = desktop::index_of(ws, EDITOR)->0;
    let d = s.desktop.with_minimized(EDITOR, false);
    desktop::lemma_index_found(d.windows, EDITOR);
    desktop::lemma_same_ids(ws, d.windows, EDITOR);
    assert(d.windows[i].id == EDITOR && !d.windows[i].minimized);
}

/// The pointer never leaves the screen.
pub proof fn law_pointer_on_screen(s: session::SessionState)
    requires
        1 <= s.desktop.fb_w <= i32::MAX,
        1 <= s.desktop.fb_h <= i32::MAX,
    ensures
        0 <= s.clicked().0.mx < s.desktop.fb_w,
        0 <= s.clicked().0.my < s.desktop.fb_h,
{
}

/// A click that brings a window to the front gives it the keys.
pub proof fn law_click_gives_keys(s: session::SessionState)
    requires
        s.fresh_click(),
        s.pointed().desktop.focused is Some,
    ensures
        s.clicked().0.focused == s.pointed().desktop.focused,
{
}

/// A button that is held acts once: the second frame is no fresh click, picks
/// nothing and leaves the navigator and the keys as they are.
pub proof fn law_held_button(s: session::SessionState, mx: i32, my: i32)
    ensures
        ({
            let t = session::SessionState { mx, my, ..s.clicked().0 };
            &&& !t.fresh_click()
            &&& t.clicked().1 is None
            &&& t.clicked().0.nav == t.nav
            &&& t.clicked().0.focused == t.focused
        }),
{
}

/// Clicks keep the navigator's places in order.
pub proof fn law_clicks_keep_nav(s: session::SessionState, ino: u32, name: Seq<char>)
    requires
        s.nav.wf(s.root),
        nav::plain(name),
    ensures
        s.clicked().0.nav.wf(s.root),
        s.picked(ino, name, true).nav.wf(s.root),
        s.picked(ino, name, false).nav.wf(s.root),
{
    nav::law_nav_wf(s.nav, s.root, ino, name);
}

/// A frame draws the windows from the bottom up: what is drawn of the lower ones
/// comes before anything of the higher ones.
pub proof fn law_bottom_up(s: session::SessionState, scene: frame::Scene, i: int, j: int)
    requires
        0 <= i <= j,
    ensures
        frame::draw_windows(s, scene, i).len() <= frame::draw_windows(s, scene, j).len(),
        frame::draw_windows(s, scene, j).take(frame::draw_windows(s, scene, i).len() as int)
            == frame::draw_windows(s, scene, i),
    decreases j,
{
    let a = frame::draw_windows(s, scene, i);
    let b = frame::draw_windows(s, scene, j);
    if i == j {
        assert(b.take(b.len() as int) =~= b);
    } else {
        law_bottom_up(s, scene, i, j - 1);
        let c = frame::draw_windows(s, scene, j - 1);
        assert(b.take(a.len() as int) =~= c.take(a.len() as int));
    }
}

proof fn lemma_after_windows_dirty(s: session::SessionState, n: int, k: int)
    requires
        0 <= k < n,
        s.desktop.windows[k].id == TERMINAL,
        !s.desktop.windows[k].minimized,
    ensures
        !frame::after_windows(s, n).terminal.dirty,
    decreases n,
{
    if k < n - 1 {
        lemma_after_windows_dirty(s, n - 1, k);
    }
}

proof fn lemma_after_windows_rest(s: session::SessionState, n: int)
    ensures
        frame::after_windows(s, n).desktop == s.desktop,
        frame::after_windows(s, n).typed == s.typed,
    decreases n,
{
    if n > 0 {
        lemma_after_windows_rest(s, n - 1);
    }
}

/// Once a frame was drawn with the terminal's window shown, no other is wanted
/// until something changes.
pub proof fn law_frame_settles(s: session::SessionState, k: int, mx: i32, my: i32, buttons: u8)
    requires
        0 <= k < s.desktop.windows.len(),
        s.desktop.windows[k].id == TERMINAL,
        !s.desktop.windows[k].minimized,
    ensures
        ({
            let t = frame::after_windows(frame::cleaned(s), s.desktop.windows.len() as int);
            !(session::SessionState { mx, my, buttons, typed: false, ..t }).wants_frame()
        }),
{
    let c = frame::cleaned(s);
    let n = s.desktop.windows.len() as int;
    lemma_after_windows_dirty(c, n, k);
    lemma_after_windows_rest(c, n);
}

// ── What is seen of a frame ─────────────────────────────────────────────────

/// The point is one of the three dots of the window's resize handle.
pub open spec fn on_dots(w: desktop::WindowState, x: int, y: int) -> bool {
    let k = w.x + w.w - x;
    &&& w.y + w.h - y == k
    &&& k == 4 || k == 7 || k == 10
}

/// Nothing of the handle lies elsewhere than on its dots.
proof fn lemma_handle(w: desktop::WindowState, x: int, y: int)
    requires
        w.x >= 0,
        w.y >= 0,
        !on_dots(w, x, y),
    ensures
        display::untouched(w.draw_handle(), x, y),
        display::painted(w.draw_handle(), x, y) is None,
{
    display::law_untouched(w.draw_handle(), x, y);
}

/// A window's content lies above its frame and its empty background: wherever the content
/// gives a point its colour, that is the colour seen of the window, but for the dots of
/// the resize handle.
pub proof fn law_content_above_frame(
    s: session::SessionState,
    scene: frame::Scene,
    w: desktop::WindowState,
    x: int,
    y: int,
)
    requires
        !w.minimized,
        w.x >= 0,
        w.y >= 0,
        !on_dots(w, x, y),
        display::painted(frame::content(s, scene, w), x, y) is Some,
    ensures
        display::painted(frame::draw_one(s, scene, w), x, y) == display::painted(
            frame::content(s, scene, w),
            x,
            y,
        ),
{
    let a = w.drawing(s.desktop.focused == Some(w.id));
    let c = frame::content(s, scene, w);
    let h = w.draw_handle();
    lemma_handle(w, x, y);
    display::law_later_over_earlier(a + c, h, x, y);
    display::law_later_over_earlier(a, c, x, y);
}

/// All that a window's content draws, its text too, is drawn together, and behind it
/// nothing more of the window but dots of the resize handle.
pub proof fn law_content_drawn_last(
    s: session::SessionState,
    scene: frame::Scene,
    w: desktop::WindowState,
)
    requires
        !w.minimized,
        w.x >= 0,
        w.y >= 0,
    ensures
        ({
            let ops = frame::draw_one(s, scene, w);
            let c = frame::content(s, scene, w);
            exists|n: int|
                #![trigger ops.skip(n)]
                0 <= n && n + c.len() <= ops.len() && ops.skip(n).take(c.len() as int) == c && forall|
                    i: int,
                    x: int,
                    y: int,
                |
                    n + c.len() <= i < ops.len() && display::fills(#[trigger] ops[i], x, y) ==> #[trigger] on_dots(
                        w,
                        x,
                        y,
                    )
        }),
{
    let ops = frame::draw_one(s, scene, w);
    let a = w.drawing(s.desktop.focused == Some(w.id));
    let c = frame::content(s, scene, w);
    let h = w.draw_handle();
    let n = a.len() as int;
    assert(ops.skip(n).take(c.len() as int) =~= c);
    assert forall|i: int, x: int, y: int|
        n + c.len() <= i < ops.len() && display::fills(#[trigger] ops[i], x, y) implies #[trigger] on_dots(
        w,
        x,
        y,
    ) by {
        assert(ops[i] == h[i - n - c.len()]);
        if !on_dots(w, x, y) {
            lemma_handle(w, x, y);
        }
    }
}

/// Each of the four windows shows what belongs to it: the terminal its screen, the editor
/// its file scrolled to the cursor, the other two what their panels draw; any other window
/// shows nothing of its own. All of them draw into the area of the window itself.
pub proof fn law_windows_show(
    s: session::SessionState,
    scene: frame::Scene,
    w: desktop::WindowState,
)
    requires
        w.x >= 0,
        w.y >= 0,
    ensures
        w.id == TERMINAL ==> frame::content(s, scene, w) == s.terminal.screen.drawing(
            w.x as int,
            w.y as int,
            w.w as int,
            w.h as int,
        ),
        w.id == EDITOR && s.editor is Some ==> frame::content(s, scene, w)
            == s.editor->0.scrolled(crate::editor::rows_shown(w.h as int)).drawing(
            w.x as int,
            w.y as int,
            w.w as int,
            w.h as int,
        ),
        w.id == EDITOR && s.editor is None ==> frame::content(s, scene, w).len() == 0,
        w.id == WELCOME && desktop::shown_titled(s.desktop.windows, "Welcome to HepOS"@) == Some(w)
            ==> frame::content(s, scene, w) == crate::panels::draw_welcome(
            scene.free_pages as nat,
            scene.total_pages as nat,
            scene.listing is Some,
            w.x as int,
            w.y as int,
            w.w as int,
            w.h as int,
        ),
        w.id == HEPFS && desktop::shown_titled(s.desktop.windows, "HepFS"@) == Some(w)
            ==> frame::content(s, scene, w) == crate::panels::draw_hepfs(
            s.nav,
            s.root,
            scene.entries(),
            w.x as int,
            w.y as int,
            w.w as int,
            w.h as int,
        ),
        w.id > 3 ==> frame::content(s, scene, w).len() == 0,
        WELCOME == 0 && HEPFS == 1 && TERMINAL == 2 && EDITOR == 3,
{
}

/// The windows from `i` up to `n` drawn behind those below them.
proof fn lemma_rest_of_windows(
    s: session::SessionState,
    scene: frame::Scene,
    i: int,
    n: int,
    x: int,
    y: int,
)
    requires
        0 <= i <= n <= s.desktop.windows.len(),
        forall|j: int|
            i <= j < n ==> display::painted(
                #[trigger] frame::draw_one(
                    frame::after_windows(s, j),
                    scene,
                    s.desktop.windows[j],
                ),
                x,
                y,
            ) is None,
    ensures
        display::painted(frame::draw_windows(s, scene, n), x, y) == display::painted(
            frame::draw_windows(s, scene, i),
            x,
            y,
        ),
    decreases n,
{
    if i < n {
        lemma_rest_of_windows(s, scene, i, n - 1, x, y);
        display::law_later_over_earlier(
            frame::draw_windows(s, scene, n - 1),
            frame::draw_one(frame::after_windows(s, n - 1), scene, s.desktop.windows[n - 1]),
            x,
            y,
        );
    }
}

/// What is seen of a frame at a point: the content of the topmost window there. Where a
/// shown window's content gives a point its colour and neither a window above it, nor the
/// menu, the taskbar or the pointer reaches that point, the frame has that colour there.
pub proof fn law_topmost_content_seen(
    s: session::SessionState,
    scene: frame::Scene,
    i: int,
    x: int,
    y: int,
)
    requires
        0 <= i < s.desktop.windows.len(),
        !s.desktop.windows[i].minimized,
        s.desktop.windows[i].x >= 0,
        s.desktop.windows[i].y >= 0,
        !on_dots(s.desktop.windows[i], x, y),
        ({
            let t = frame::after_windows(frame::cleaned(s), i);
            display::painted(frame::content(t, scene, s.desktop.windows[i]), x, y) is Some
        }),
        forall|j: int|
            i < j < s.desktop.windows.len() ==> display::painted(
                #[trigger] frame::draw_one(
                    frame::after_windows(frame::cleaned(s), j),
                    scene,
                    s.desktop.windows[j],
                ),
                x,
                y,
            ) is None,
        display::painted(frame::overlay(frame::cleaned(s), scene), x, y) is None,
    ensures
        ({
            let t = frame::after_windows(frame::cleaned(s), i);
            display::painted(frame::drawing(s, scene), x, y) == display::painted(
                frame::content(t, scene, s.desktop.windows[i]),
                x,
                y,
            )
        }),
{
    let c = frame::cleaned(s);
    let n = s.desktop.windows.len() as int;
    let t = frame::after_windows(c, i);
    let w = s.desktop.windows[i];
    law_content_above_frame(t, scene, w, x, y);
    display::law_later_over_earlier(
        frame::draw_windows(c, scene, i),
        frame::draw_one(t, scene, w),
        x,
        y,
    );
    assert(frame::draw_windows(c, scene, i + 1) == frame::draw_windows(c, scene, i)
        + frame::draw_one(t, scene, w));
    assert forall|j: int| i + 1 <= j < n implies display::painted(
        #[trigger] frame::draw_one(frame::after_windows(c, j), scene, c.desktop.windows[j]),
        x,
        y,
    ) is None by {
        assert(c.desktop.windows[j] == s.desktop.windows[j]);
    }
    lemma_rest_of_windows(c, scene, i + 1, n, x, y);
    let a = s.desktop.drawing(scene.clock@, s.mx as int, s.my as int);
    let b = frame::draw_windows(c, scene, n);
    display::law_later_over_earlier(a + b, frame::overlay(c, scene), x, y);
    display::law_later_over_earlier(a, b, x, y);
}

/// The pointer is seen above everything: the place it points at is yellow while no window
/// has the keys, and white else.
pub proof fn law_pointer_seen(s: session::SessionState, scene: frame::Scene)
    requires
        s.mx >= 0,
        s.my >= 0,
    ensures
        display::painted(frame::drawing(s, scene), s.mx as int, s.my as int) == Some(
            if s.focused is None {
                display::Color { r: 0xFF, g: 0xFF, b: 0x00 }
            } else {
                display::Color { r: 0xFF, g: 0xFF, b: 0xFF }
            },
        ),
{
    let f = frame::drawing(s, scene);
    let c = frame::cleaned(s);
    let o = frame::overlay(c, scene);
    let p = crate::panels::draw_pointer(s.mx as int, s.my as int, s.focused is None);
    assert(f.last() == o.last() && o.last() == p.last());
    assert(display::fills(p.last(), s.mx as int, s.my as int));
}

/// The taskbar is seen along the whole lower edge of the screen, above the windows and the
/// menu, and covered by the pointer alone; so is the open start menu above the windows.
pub proof fn law_taskbar_seen(s: session::SessionState, scene: frame::Scene, x: int, y: int)
    requires
        s.desktop.fb_h >= 32,
        display::painted(
            crate::panels::draw_pointer(
                desktop::coord(s.mx as int),
                desktop::coord(s.my as int),
                s.focused is None,
            ),
            x,
            y,
        ) is None,
        0 <= x < s.desktop.fb_w,
    ensures
        s.desktop.fb_h - 32 <= y < s.desktop.fb_h ==> {
            &&& display::painted(s.desktop.draw_taskbar(scene.clock@), x, y) is Some
            &&& display::painted(frame::drawing(s, scene), x, y) == display::painted(
                s.desktop.draw_taskbar(scene.clock@),
                x,
                y,
            )
        },
        s.desktop.start_open && 0 <= x < 160 && s.desktop.fb_h - 32 - 20 * s.desktop.next_id <= y
            < s.desktop.fb_h - 32 && display::painted(s.desktop.draw_taskbar(scene.clock@), x, y) is None
            ==> {
            &&& display::painted(s.desktop.draw_menu(), x, y) is Some
            &&& display::painted(frame::drawing(s, scene), x, y) == display::painted(
                s.desktop.draw_menu(),
                x,
                y,
            )
        },
{
    let c = frame::cleaned(s);
    let d = s.desktop;
    let m = c.desktop.draw_menu();
    let t = c.desktop.draw_taskbar(scene.clock@);
    let p = crate::panels::draw_pointer(
        desktop::coord(s.mx as int),
        desktop::coord(s.my as int),
        s.focused is None,
    );
    lemma_menu_clean(d, d.next_id as int);
    lemma_bar_clean(d, d.windows.len() as int);
    assert(c.desktop.draw_start() == d.draw_start());
    assert(m == d.draw_menu());
    assert(t == d.draw_taskbar(scene.clock@));
    let low = d.drawing(scene.clock@, s.mx as int, s.my as int) + frame::draw_windows(
        c,
        scene,
        d.windows.len() as int,
    );
    display::law_later_over_earlier(low, m + t + p, x, y);
    display::law_later_over_earlier(m + t, p, x, y);
    display::law_later_over_earlier(m, t, x, y);
    if d.fb_h - 32 <= y < d.fb_h {
        display::law_untouched(t, x, y);
        assert(display::fills(t[0], x, y));
    }
    if d.start_open && 0 <= x < 160 && d.fb_h - 32 - 20 * d.next_id <= y < d.fb_h - 32 {
        display::law_untouched(m, x, y);
        assert(m[0] == display::rect(
            0,
            d.menu_top(),
            160,
            d.next_id * 20,
            display::rgb(desktop::TASKBAR as int),
        ));
        assert(display::fills(m[0], x, y));
    }
}

/// A desktop that needs no frame has the same menu.
proof fn lemma_menu_clean(d: desktop::DesktopState, n: int)
    ensures
        (desktop::DesktopState { dirty: false, ..d }).draw_rows(n) == d.draw_rows(n),
    decreases n,
{
    if n > 0 {
        lemma_menu_clean(d, n - 1);
    }
}

/// A desktop that needs no frame has the same buttons.
proof fn lemma_bar_clean(d: desktop::DesktopState, n: int)
    ensures
        (desktop::DesktopState { dirty: false, ..d }).draw_buttons(n) == d.draw_buttons(n),
    decreases n,
{
    if n > 0 {
        lemma_bar_clean(d, n - 1);
    }
}

// ── Where a key or a click goes ─────────────────────────────────────────────

/// A key goes to the editor while it has the keys, and to the shell while any other window
/// has them: there it does what it does in the editor or in the shell, and what the shell
/// asks for is asked. Ctrl+S and F2 ask for the editor's file to be saved.
pub proof fn law_keys_reach(s: session::SessionState, c: char)
    ensures
        s.focused == Some(EDITOR) && s.editor is Some ==> {
            &&& s.key(c).0.editor == Some(s.editor->0.key(c as u8))
            &&& (s.key(c).1 is Save <==> c as u8 == 0x13 || c as u8 == 0x89)
            &&& s.editor->0.key(c as u8).open ==> s.key(c).0.focused == Some(EDITOR)
                && s.key(c).0.desktop == s.desktop
        },
        s.focused is Some && s.focused != Some(EDITOR) && c != '\u{1b}' ==> {
            &&& s.key(c).0.terminal == s.terminal.key(c as u8).t
            &&& s.key(c).1 == session::KeyAsk::Shell(s.terminal.key(c as u8).ask)
            &&& s.key(c).0.mx == s.mx && s.key(c).0.my == s.my
        },
        s.key(c).0.typed,
{
}

/// Without a window that has the keys, w, s, a and d move the pointer six pixels up, down,
/// left and right, and other keys but the space bar and escape do nothing.
pub proof fn law_keys_point(s: session::SessionState, c: char)
    requires
        s.focused is None,
        s.takes_key(c),
    ensures
        ({
            let t = s.key(c).0;
            &&& c == 'w' ==> t.mx == s.mx && t.my == s.my - 6
            &&& c == 's' ==> t.mx == s.mx && t.my == s.my + 6
            &&& c == 'a' ==> t.mx == s.mx - 6 && t.my == s.my
            &&& c == 'd' ==> t.mx == s.mx + 6 && t.my == s.my
            &&& c != 'w' && c != 's' && c != 'a' && c != 'd' ==> t.mx == s.mx && t.my == s.my
            &&& c != ' ' && c != '\u{1b}' ==> t.focused is None && t.desktop == s.desktop
            &&& s.key(c).1 is Nothing
        }),
{
}

/// The space bar gives the keys to the window under the pointer, the topmost one there;
/// to the terminal where there is none, and where the editor there is closed.
pub proof fn law_space_gives_keys(s: session::SessionState)
    requires
        s.focused is None,
    ensures
        ({
            let hit = desktop::topmost_hit(s.desktop.windows, s.mx as int, s.my as int);
            let t = s.key(' ').0;
            &&& hit is None ==> t.focused == Some(TERMINAL)
            &&& hit matches Some(id) ==> (id != EDITOR || s.editor is None || s.editor->0.open)
                ==> t.focused == Some(id)
            &&& hit == Some(EDITOR) && s.editor is Some && !s.editor->0.open ==> t.focused == Some(
                TERMINAL,
            )
            &&& t.desktop.windows == s.desktop.windows && t.desktop.focused == s.desktop.focused
        }),
{
}

/// The pointer stays where it is while it is on the screen, and is brought to the nearest
/// edge else.
pub proof fn law_pointer_kept(v: i32, size: usize)
    requires
        1 <= size <= i32::MAX,
    ensures
        0 <= v < size ==> session::SessionState::on_screen(v, size) == v,
        v < 0 ==> session::SessionState::on_screen(v, size) == 0,
        v >= size ==> session::SessionState::on_screen(v, size) == size - 1,
{
}

/// A frame hands the pointer and its buttons to the desktop; a fresh click then acts on the
/// HepFS window, and nothing else does.
pub proof fn law_pointer_handled(s: session::SessionState)
    requires
        0 <= s.mx < s.desktop.fb_w <= i32::MAX,
        0 <= s.my < s.desktop.fb_h <= i32::MAX,
    ensures
        s.pointed().desktop == s.desktop.mouse(s.mx, s.my, s.buttons),
        s.pointed().mx == s.mx && s.pointed().my == s.my,
        s.pointed().prev_buttons == s.buttons,
        s.buttons & 1 != 0 && s.prev_buttons & 1 == 0 ==> s.clicked() == s.pointed().hepfs_click(),
        s.buttons & 1 == 0 || s.prev_buttons & 1 != 0 ==> s.clicked() == (
            s.pointed(),
            None::<session::Pick>,
        ),
        s.pointed().nav == s.nav && s.pointed().terminal == s.terminal && s.pointed().editor
            == s.editor,
{
}

/// The HepFS window is shown, its content area at `x`, `y`, and the pointer in it.
pub open spec fn over_hepfs(s: session::SessionState, w: desktop::WindowState) -> bool {
    &&& desktop::index_of(s.desktop.windows, HEPFS) matches Some(i) && s.desktop.windows[i] == w
    &&& !w.minimized
    &&& w.x >= 0 && w.y >= 0
    &&& w.x <= s.mx < w.x + w.w
    &&& w.y <= s.my < w.y + w.h
}

/// Something that is drawn is drawn at a place.
pub open spec fn draws_text(
    ops: Seq<display::Draw>,
    x: int,
    y: int,
    words: Seq<char>,
) -> bool {
    exists|i: int|
        0 <= i < ops.len() && (#[trigger] ops[i] matches display::Draw::Text {
            x: tx,
            y: ty,
            text,
            color,
            scale,
        } && tx == x && ty == y && text == words)
}

proof fn lemma_draws_right(a: Seq<display::Draw>, b: Seq<display::Draw>, x: int, y: int, s: Seq<char>)
    requires
        draws_text(b, x, y, s),
    ensures
        draws_text(a + b, x, y, s),
{
    let i = choose|i: int|
        0 <= i < b.len() && (#[trigger] b[i] matches display::Draw::Text {
            x: tx,
            y: ty,
            text,
            color,
            scale,
        } && tx == x && ty == y && text == s);
    assert((a + b)[a.len() + i] == b[i]);
}

proof fn lemma_draws_left(a: Seq<display::Draw>, b: Seq<display::Draw>, x: int, y: int, s: Seq<char>)
    requires
        draws_text(a, x, y, s),
    ensures
        draws_text(a + b, x, y, s),
{
    let i = choose|i: int|
        0 <= i < a.len() && (#[trigger] a[i] matches display::Draw::Text {
            x: tx,
            y: ty,
            text,
            color,
            scale,
        } && tx == x && ty == y && text == s);
    assert((a + b)[i] == a[i]);
}

proof fn lemma_entry_drawn(
    es: Seq<crate::protocol::Entry>,
    n: int,
    k: int,
    wx: int,
    y: int,
    ww: int,
)
    requires
        0 <= k < n <= es.len(),
    ensures
        draws_text(crate::panels::draw_entries(es, n, wx, y, ww), wx + 16, y + 14 * k, es[k].name),
    decreases n,
{
    let a = crate::panels::draw_entries(es, n - 1, wx, y, ww);
    let b = crate::panels::draw_entry(es[n - 1], wx, y + 14 * (n - 1), ww);
    if k < n - 1 {
        lemma_entry_drawn(es, n - 1, k, wx, y, ww);
        lemma_draws_left(a, b, wx + 16, y + 14 * k, es[k].name);
    } else {
        assert(b[1] == display::label(
            wx + 16,
            y + 14 * k,
            es[k].name,
            display::rgb(
                if es[k].is_dir {
                    crate::panels::DIR as int
                } else {
                    crate::panels::TEXT as int
                },
            ),
            1,
        ));
        assert(draws_text(b, wx + 16, y + 14 * k, es[k].name));
        lemma_draws_right(a, b, wx + 16, y + 14 * k, es[k].name);
    }
}

/// The height at which the list has its `k`-th entry: away from the root the way up comes
/// first.
pub open spec fn entry_height(at_root: bool, wy: int, k: int) -> int {
    wy + 25 + 14 * k + if at_root {
        0int
    } else {
        14
    }
}

/// The entries of a directory are listed under one another, as many as have room, each by
/// its name; away from the root the way up stands above them.
pub proof fn law_entries_listed(
    n: nav::NavState,
    root: u32,
    es: Seq<crate::protocol::Entry>,
    k: int,
    wx: int,
    wy: int,
    ww: int,
    wh: int,
)
    requires
        0 <= k < es.len(),
        entry_height(n.here.ino == root, wy, k) + 12 <= wy + wh,
    ensures
        draws_text(
            crate::panels::draw_hepfs(n, root, Some(es), wx, wy, ww, wh),
            wx + 16,
            entry_height(n.here.ino == root, wy, k),
            es[k].name,
        ),
        n.here.ino != root ==> draws_text(
            crate::panels::draw_hepfs(n, root, Some(es), wx, wy, ww, wh),
            wx + 16,
            wy + 25,
            seq!['.', '.'],
        ),
{
    let at_root = n.here.ino == root;
    let y = entry_height(at_root, wy, 0);
    let m = crate::panels::entries_shown(es.len() as int, y, wy + wh);
    lemma_entry_drawn(es, m, k, wx, y, ww);
    let entries = crate::panels::draw_entries(es, m, wx, y, ww);
    let up = if at_root {
        Seq::<display::Draw>::empty()
    } else {
        crate::panels::words_at(wx + 4, wy + 25, "d"@, crate::panels::DIM, 1)
            + crate::panels::words_at(wx + 16, wy + 25, ".."@, crate::panels::DIR, 1)
    };
    let rest = if es.len() == 0 && at_root {
        crate::panels::words_at(wx + 4, wy + 27, "(empty)"@, crate::panels::DIM, 1)
    } else {
        Seq::<display::Draw>::empty()
    };
    let head = crate::panels::box_at(wx, wy, ww, wh, crate::panels::BG) + crate::panels::draw_nav(
        n,
        wx,
        wy,
        ww,
    );
    let at = entry_height(at_root, wy, k);
    lemma_draws_left(entries, rest, wx + 16, at, es[k].name);
    lemma_draws_right(up, entries + rest, wx + 16, at, es[k].name);
    lemma_draws_right(head, up + (entries + rest), wx + 16, at, es[k].name);
    if !at_root {
        reveal_strlit("..");
        assert(".."@ =~= seq!['.', '.']);
        assert(up[1] == display::label(
            wx + 16,
            wy + 25,
            ".."@,
            display::rgb(crate::panels::DIR as int),
            1,
        ));
        assert(draws_text(up, wx + 16, wy + 25, seq!['.', '.']));
        lemma_draws_left(up, entries + rest, wx + 16, wy + 25, seq!['.', '.']);
        lemma_draws_right(head, up + (entries + rest), wx + 16, wy + 25, seq!['.', '.']);
    }
}

/// A click on the line of an entry, as it is drawn, picks that entry of the directory that
/// is shown.
pub proof fn law_entry_picked(s: session::SessionState, w: desktop::WindowState, k: int)
    requires
        over_hepfs(s, w),
        0 <= k,
        entry_height(s.nav.here.ino == s.root, w.y as int, k) <= s.my < entry_height(
            s.nav.here.ino == s.root,
            w.y as int,
            k,
        ) + 12,
    ensures
        s.hepfs_click() == (s, Some(session::Pick { dir: s.nav.here.ino, index: k as usize })),
{
}

/// A click on the way up, where it is drawn, goes one step back; so does one on the arrow
/// to the left, and one on the other arrow goes forward. A click on the path does nothing.
pub proof fn law_arrows_clicked(s: session::SessionState, w: desktop::WindowState)
    requires
        over_hepfs(s, w),
    ensures
        s.nav.here.ino != s.root && w.y + 25 <= s.my < w.y + 25 + 12 ==> s.hepfs_click().0.nav
            == s.nav.went_back() && s.hepfs_click().1 is None,
        w.x + 2 <= s.mx < w.x + 20 && w.y + 4 <= s.my < w.y + 18 ==> s.hepfs_click().0.nav
            == s.nav.went_back() && s.hepfs_click().1 is None,
        w.x + 22 <= s.mx < w.x + 40 && w.y + 4 <= s.my < w.y + 18 ==> s.hepfs_click().0.nav
            == s.nav.went_forward() && s.hepfs_click().1 is None,
        w.x + 44 <= s.mx && s.my < w.y + 22 ==> s.hepfs_click() == (s, None::<session::Pick>),
        s.hepfs_click().0.desktop.windows == s.desktop.windows,
        s.hepfs_click().0.nav != s.nav ==> s.hepfs_click().0.desktop.dirty,
{
}

/// The arrows are drawn where they are clicked, and the path beside them.
pub proof fn law_arrows_drawn(n: nav::NavState, wx: int, wy: int, ww: int)
    ensures
        ({
            let ops = crate::panels::draw_nav(n, wx, wy, ww);
            &&& draws_text(ops, wx + 6, wy + 6, seq!['<'])
            &&& draws_text(ops, wx + 27, wy + 6, seq!['>'])
            &&& vstd::utf8::encode_utf8(n.here.path).len() * 9 <= ww - 46 ==> draws_text(
                ops,
                wx + 46,
                wy + 6,
                n.here.path,
            )
        }),
{
    reveal_strlit("<");
    reveal_strlit(">");
    assert("<"@ =~= seq!['<']);
    assert(">"@ =~= seq!['>']);
    let ops = crate::panels::draw_nav(n, wx, wy, ww);
    assert(ops[2] is Text && ops[4] is Text && ops[6] is Text);
    assert(ops[2]->Text_text == seq!['<']);
    assert(ops[4]->Text_text == seq!['>']);
}

/// A click outside the HepFS window's content, or with the window hidden, picks nothing
/// and leaves the navigator alone.
pub proof fn law_click_elsewhere(s: session::SessionState)
    requires
        desktop::index_of(s.desktop.windows, HEPFS) matches Some(i) ==> {
            let w = s.desktop.windows[i];
            w.minimized || s.mx < w.x || s.mx >= w.x + w.w || s.my < w.y || s.my >= w.y + w.h
        },
    ensures
        s.hepfs_click() == (s, None::<session::Pick>),
{
}

/// A directory that was picked is entered: its path is that of the directory before it and
/// its name. Of a file nothing changes yet.
pub proof fn law_picked(s: session::SessionState, ino: u32, name: Seq<char>)
    ensures
        ({
            let t = s.picked(ino, name, true);
            &&& t.nav.here.ino == ino
            &&& t.nav.here.path == if s.nav.here.path == seq!['/'] {
                seq!['/'] + name
            } else {
                s.nav.here.path + seq!['/'] + name
            }
            &&& t.nav.back == s.nav.back.push(s.nav.here)
            &&& t.nav.fwd.len() == 0
            &&& t.desktop.dirty
        }),
        s.picked(ino, name, false) == s,
{
}

/// A file opened from the shell is shown on top in the editor, has the keys, and names the
/// window.
pub proof fn law_edit_named(
    s: session::SessionState,
    path: Seq<char>,
    name: Seq<char>,
    content: Seq<u8>,
)
    requires
        s.desktop.wf(),
        desktop::index_of(s.desktop.windows, EDITOR) is Some,
    ensures
        ({
            let t = s.edits_named(path, name, content);
            &&& t.focused == Some(EDITOR)
            &&& t.desktop.focused == Some(EDITOR)
            &&& t.desktop.windows.last().id == EDITOR
            &&& !t.desktop.windows.last().minimized
            &&& t.desktop.windows.last().title == "Editor: "@ + name
            &&& t.editor == Some(crate::editor::EditorState::fresh(path, content))
            &&& t.terminal == s.terminal && t.nav == s.nav
        }),
{
    let ws = s.desktop.windows;
    desktop::lemma_index_found(ws, EDITOR);
    let i = desktop::index_of(ws, EDITOR)->0;
    let d = s.desktop.with_minimized(EDITOR, false);
    desktop::lemma_same_ids(ws, d.windows, EDITOR);
    let e = d.with_title(EDITOR, "Editor: "@ + name);
    desktop::lemma_same_ids(d.windows, e.windows, EDITOR);
    assert(e.windows[i].id == EDITOR && !e.windows[i].minimized);
}

/// A frame is wanted when a key came, or when the desktop or the terminal changed; a key
/// makes both of them count as changed.
pub proof fn law_frame_wanted(s: session::SessionState)
    ensures
        s.wants_frame() <==> s.typed || s.desktop.dirty || s.terminal.dirty,
        s.typed ==> s.keys_done().desktop.dirty && s.keys_done().terminal.dirty,
        !s.typed ==> s.keys_done() == s,
{
}

/// A file that is picked is opened by its path, its name in the directory that is shown; a
/// directory that is picked is entered, and has the path that a file there would have.
pub proof fn law_picked_path(s: session::SessionState, ino: u32, name: Seq<char>)
    ensures
        s.picked_path(name, true) is None,
        s.picked_path(name, false) == Some(s.picked(ino, name, true).nav.here.path),
{
}

/// At the beginning of a frame the pointer is where it was seen, and no key was typed yet;
/// nothing else changes. An answer reaches the terminal alone, and what the terminal then
/// asks is what the session asks.
pub proof fn law_frame_begins(
    s: session::SessionState,
    mx: i32,
    my: i32,
    buttons: u8,
    a: crate::protocol::Answer,
)
    ensures
        ({
            let t = s.framed(mx, my, buttons);
            &&& t.mx == mx && t.my == my && t.buttons == buttons && !t.typed
            &&& t.prev_buttons == s.prev_buttons && t.desktop == s.desktop && t.terminal
                == s.terminal && t.editor == s.editor && t.nav == s.nav && t.focused == s.focused
                && t.root == s.root
        }),
        ({
            let (t, ask) = s.replied(a);
            &&& ask == s.terminal.answered(a).ask
            &&& t.terminal == s.terminal.answered(a).t
            &&& t.desktop == s.desktop && t.editor == s.editor && t.nav == s.nav && t.focused
                == s.focused && t.mx == s.mx && t.my == s.my
        }),
{
}

} // verus!
