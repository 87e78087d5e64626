//! A frame: the desktop, then each window from the bottom up with its content,
//! the taskbar, and the pointer above all.
use vstd::prelude::*;
use crate::desktop::Window;
use crate::display::Display;
use crate::protocol::DirEntry;
use crate::session::{Session, EDITOR, HEPFS, TERMINAL, WELCOME};
use crate::{desktop, display, editor, panels, protocol, session, terminal};

verus! {

/// What a frame shows besides the session.
pub struct Scene {
    /// The time of day, for the taskbar.
    pub clock: String,
    pub free_pages: u64,
    pub total_pages: u64,
    /// The entries of the HepFS window's directory; `None` without a disk.
    pub listing: Option<Vec<DirEntry>>,
}

impl Scene {
    pub open spec fn entries(&self) -> Option<Seq<protocol::Entry>> {
        panels::entries_of(&self.listing)
    }

    /// The numbers can be reckoned with.
    pub open spec fn wf(&self) -> bool {
        &&& self.free_pages * 4 <= u64::MAX
        &&& self.total_pages * 4 <= u64::MAX
        &&& panels::listing_shown(self.entries())
    }
}

/// The welcome window, by its title.
pub open spec fn welcome_area(ws: Seq<desktop::WindowState>) -> Option<desktop::WindowState> {
    desktop::shown_titled(ws, "Welcome to HepOS"@)
}

/// The HepFS window, by its title.
pub open spec fn hepfs_area(ws: Seq<desktop::WindowState>) -> Option<desktop::WindowState> {
    desktop::shown_titled(ws, "HepFS"@)
}

/// A window's content area lies within the framebuffer's coordinates, and so does all
/// that may be drawn beyond it.
pub open spec fn roomy(w: desktop::WindowState) -> bool {
    &&& desktop::at_least_zero(w.x as int) + w.w <= usize::MAX
    &&& desktop::at_least_zero(w.x as int) + 571 <= usize::MAX
    &&& desktop::at_least_zero(w.y as int) + w.h + 14 <= usize::MAX
    &&& desktop::at_least_zero(w.y as int) + 78 <= usize::MAX
}

/// What the window shows in its content area.
pub open spec fn content(s: session::SessionState, scene: Scene, w: desktop::WindowState) -> Seq<
    display::Draw,
> {
    let x = desktop::at_least_zero(w.x as int);
    let y = desktop::at_least_zero(w.y as int);
    if w.id == WELCOME {
        match welcome_area(s.desktop.windows) {
            Some(a) => panels::draw_welcome(
                scene.free_pages as nat,
                scene.total_pages as nat,
                scene.listing is Some,
                desktop::at_least_zero(a.x as int),
                desktop::at_least_zero(a.y as int),
                a.w as int,
                a.h as int,
            ),
            None => Seq::empty(),
        }
    } else if w.id == HEPFS {
        match hepfs_area(s.desktop.windows) {
            Some(a) => panels::draw_hepfs(
                s.nav,
                s.root,
                scene.entries(),
                desktop::at_least_zero(a.x as int),
                desktop::at_least_zero(a.y as int),
                a.w as int,
                a.h as int,
            ),
            None => Seq::empty(),
        }
    } else if w.id == TERMINAL {
        s.terminal.screen.drawing(x, y, w.w as int, w.h as int)
    } else if w.id == EDITOR && s.editor is Some {
        s.editor->0.scrolled(editor::rows_shown(w.h as int)).drawing(x, y, w.w as int, w.h as int)
    } else {
        Seq::empty()
    }
}

/// The session after a window was drawn: the terminal's text is on the screen,
/// and the editor has scrolled to its cursor.
pub open spec fn after_window(
    s: session::SessionState,
    w: desktop::WindowState,
) -> session::SessionState {
    if w.minimized {
        s
    } else if w.id == TERMINAL {
        session::SessionState {
            terminal: terminal::TerminalState { dirty: false, ..s.terminal },
            ..s
        }
    } else if w.id == EDITOR && s.editor is Some {
        session::SessionState {
            editor: Some(s.editor->0.scrolled(editor::rows_shown(w.h as int))),
            ..s
        }
    } else {
        s
    }
}

/// The session after the first `n` windows were drawn.
pub open spec fn after_windows(s: session::SessionState, n: int) -> session::SessionState
    decreases n,
{
    if n <= 0 {
        s
    } else {
        after_window(after_windows(s, n - 1), s.desktop.windows[n - 1])
    }
}

/// A window with its content and its resize handle.
pub open spec fn draw_one(
    s: session::SessionState,
    scene: Scene,
    w: desktop::WindowState,
) -> Seq<display::Draw> {
    if w.minimized {
        Seq::empty()
    } else {
        w.drawing(s.desktop.focused == Some(w.id)) + content(s, scene, w) + w.draw_handle()
    }
}

/// The first `n` windows with their content and their resize handles.
pub open spec fn draw_windows(s: session::SessionState, scene: Scene, n: int) -> Seq<display::Draw>
    decreases n,
{
    if n <= 0 {
        Seq::empty()
    } else {
        draw_windows(s, scene, n - 1) + draw_one(
            after_windows(s, n - 1),
            scene,
            s.desktop.windows[n - 1],
        )
    }
}

/// The session with no frame asked for.
pub open spec fn cleaned(s: session::SessionState) -> session::SessionState {
    session::SessionState {
        desktop: desktop::DesktopState { dirty: false, ..s.desktop },
        ..s
    }
}

/// What lies above the windows: the start menu, the taskbar, and the pointer.
pub open spec fn overlay(s: session::SessionState, scene: Scene) -> Seq<display::Draw> {
    s.desktop.draw_menu() + s.desktop.draw_taskbar(scene.clock@) + panels::draw_pointer(
        desktop::coord(s.mx as int),
        desktop::coord(s.my as int),
        s.focused is None,
    )
}

/// A whole frame.
pub open spec fn drawing(s: session::SessionState, scene: Scene) -> Seq<display::Draw> {
    s.desktop.drawing(scene.clock@, s.mx as int, s.my as int) + draw_windows(
        cleaned(s),
        scene,
        s.desktop.windows.len() as int,
    ) + overlay(cleaned(s), scene)
}

/// Everything that a frame shows fits the framebuffer's coordinates.
pub open spec fn drawable(s: session::SessionState, scene: Scene) -> bool {
    &&& scene.wf()
    &&& s.desktop.windows_drawable()
    &&& s.desktop.taskbar_drawable()
    &&& forall|i: int| 0 <= i < s.desktop.windows.len() ==> roomy(#[trigger] s.desktop.windows[i])
    &&& hepfs_area(s.desktop.windows) matches Some(a) ==> panels::path_cuts(
        s.nav.here.path,
        display::sat_sub(a.w as int, 46),
    )
    &&& s.editor matches Some(e) ==> e.col < usize::MAX && forall|i: int|
        0 <= i < s.desktop.windows.len() ==> e.lines.len() + editor::rows_shown(
            (#[trigger] s.desktop.windows[i]).h as int,
        ) <= usize::MAX
}

/// What is found by title is among the windows.
proof fn lemma_titled(ws: Seq<desktop::WindowState>, title: Seq<char>)
    ensures
        desktop::shown_titled(ws, title) matches Some(w) ==> exists|i: int|
            0 <= i < ws.len() && #[trigger] ws[i] == w,
    decreases ws.len(),
{
    if ws.len() > 0 && !(!ws[0].minimized && ws[0].title == title) {
        let r = ws.drop_first();
        lemma_titled(r, title);
        if let Some(w) = desktop::shown_titled(r, title) {
            let i = choose|i: int| 0 <= i < r.len() && #[trigger] r[i] == w;
            assert(ws[i + 1] == w);
        }
    }
}

/// Drawing windows changes neither the desktop nor the navigator, and of the
/// editor only the part that is shown.
proof fn lemma_after_windows(s: session::SessionState, n: int)
    ensures
        ({
            let t = after_windows(s, n);
            &&& t.desktop == s.desktop
            &&& t.nav == s.nav
            &&& t.root == s.root
            &&& t.focused == s.focused
            &&& t.terminal.screen == s.terminal.screen
            &&& t.mx == s.mx && t.my == s.my
            &&& s.editor is Some <==> t.editor is Some
            &&& s.editor is Some ==> t.editor->0.lines == s.editor->0.lines && t.editor->0.col
                == s.editor->0.col
        }),
    decreases n,
{
    if n > 0 {
        lemma_after_windows(s, n - 1);
    }
}

fn at_zero(v: i32) -> (r: usize)
    ensures
        r == desktop::at_least_zero(v as int),
{
    if v < 0 {
        0
    } else {
        v as usize
    }
}

impl Session {
    fn render_content(&mut self, d: &mut Display, scene: &Scene, i: usize)
        requires
            old(self).wf(),
            drawable(old(self)@, *scene),
            i < old(self)@.desktop.windows.len(),
            !old(self)@.desktop.windows[i as int].minimized,
        ensures
            final(self).wf(),
            final(self)@ == after_window(old(self)@, old(self)@.desktop.windows[i as int]),
            final(d)@ == old(d)@ + content(
                old(self)@,
                *scene,
                old(self)@.desktop.windows[i as int],
            ),
    {
        let ghost s = self@;
        let ghost ws = self@.desktop.windows;
        let w: &Window = self.desktop.window(i);
        assert(roomy(ws[i as int]));
        let x: usize = at_zero(w.x);
        let y: usize = at_zero(w.y);
        let id: usize = w.id;
        let ww: usize = w.w;
        let wh: usize = w.h;
        if id == WELCOME {
            match self.desktop.window_rect("Welcome to HepOS") {
                Some((x, y, w, h)) => {
                    proof {
                        lemma_titled(ws, "Welcome to HepOS"@);
                    }
                    panels::render_welcome_window(
                        d,
                        scene.free_pages,
                        scene.total_pages,
                        scene.listing.is_some(),
                        x,
                        y,
                        w,
                        h,
                    );
                },
                None => {
                    assert(d@ =~= d@ + Seq::<display::Draw>::empty());
                },
            }
        } else if id == HEPFS {
            match self.desktop.window_rect("HepFS") {
                Some((x, y, w, h)) => {
                    proof {
                        lemma_titled(ws, "HepFS"@);
                    }
                    panels::render_hepfs_window(
                        d,
                        &self.nav,
                        self.root,
                        &scene.listing,
                        x,
                        y,
                        w,
                        h,
                    );
                },
                None => {
                    assert(d@ =~= d@ + Seq::<display::Draw>::empty());
                },
            }
        } else if id == TERMINAL {
            self.terminal.render(d, x, y, ww, wh);
            self.terminal.set_dirty(false);
        } else if id == EDITOR {
            let mut e: Option<crate::editor::Editor> = None;
            std::mem::swap(&mut e, &mut self.editor);
            match e {
                Some(mut ed) => {
                    ed.render(d, x, y, ww, wh);
                    self.editor = Some(ed);
                },
                None => {
                    assert(d@ =~= d@ + Seq::<display::Draw>::empty());
                },
            }
        } else {
            assert(d@ =~= d@ + Seq::<display::Draw>::empty());
        }
    }

    /// Whether everything that a frame shows fits the framebuffer's coordinates.
    pub fn can_render(&self, scene: &Scene) -> (r: bool)
        ensures
            r == drawable(self@, *scene),
    {
        if scene.free_pages > u64::MAX / 4 || scene.total_pages > u64::MAX / 4
            || !panels::can_show_listing(&scene.listing) {
            return false;
        }
        if !self.desktop.windows_fit() || !self.desktop.taskbar_fits() {
            return false;
        }
        match self.desktop.window_rect("HepFS") {
            Some((_, _, w, _)) => {
                if !panels::can_show_path(&self.nav, w) {
                    return false;
                }
            },
            None => {},
        }
        let (lines, col): (usize, usize) = match &self.editor {
            Some(e) => e.extent(),
            None => (0, 0),
        };
        if self.editor.is_some() && col == usize::MAX {
            return false;
        }
        let ghost s = self@;
        let n: usize = self.desktop.count();
        let mut i: usize = 0;
        while i < n
            invariant
                i <= n,
                n == s.desktop.windows.len(),
                s == self@,
                s.editor is Some ==> lines == s.editor->0.lines.len(),
                forall|j: int| 0 <= j < i ==> roomy(#[trigger] s.desktop.windows[j]),
                s.editor is Some ==> forall|j: int|
                    0 <= j < i ==> s.editor->0.lines.len() + editor::rows_shown(
                        (#[trigger] s.desktop.windows[j]).h as int,
                    ) <= usize::MAX,
            decreases n - i,
        {
            let w: &Window = self.desktop.window(i);
            assert(w@ == s.desktop.windows[i as int]);
            let x: usize = at_zero(w.x);
            let y: usize = at_zero(w.y);
            let ok: bool = x <= usize::MAX - w.w && x <= usize::MAX - 571 && y <= usize::MAX - 78
                && w.h <= usize::MAX - 14 && y <= usize::MAX - 14 - w.h;
            if !ok {
                assert(!roomy(s.desktop.windows[i as int]));
                return false;
            }
            let rows: usize = if w.h >= 16 {
                (w.h - 16) / 12
            } else {
                0
            };
            if self.editor.is_some() && lines > usize::MAX - rows {
                assert(s.editor->0.lines.len() + editor::rows_shown(
                    s.desktop.windows[i as int].h as int,
                ) > usize::MAX);
                return false;
            }
            i = i + 1;
        }
        true
    }

    fn render_window(&mut self, d: &mut Display, scene: &Scene, i: usize)
        requires
            old(self).wf(),
            drawable(old(self)@, *scene),
            i < old(self)@.desktop.windows.len(),
        ensures
            final(self).wf(),
            final(self)@ == after_window(old(self)@, old(self)@.desktop.windows[i as int]),
            final(d)@ == old(d)@ + draw_one(
                old(self)@,
                *scene,
                old(self)@.desktop.windows[i as int],
            ),
    {
        let ghost sw = self@.desktop.windows[i as int];
        let w: &Window = self.desktop.window(i);
        assert(w@ == sw);
        if w.minimized {
            assert(d@ =~= old(d)@ + Seq::<display::Draw>::empty());
            return;
        }
        let focused: bool = match self.desktop.focus() {
            Some(id) => id == w.id,
            None => false,
        };
        self.desktop.draw_window(d, w, focused);
        self.render_content(d, scene, i);
        let w: &Window = self.desktop.window(i);
        assert(w@ == sw);
        self.desktop.draw_handle(d, w);
        proof {
            let a = sw.drawing(focused);
            let b = content(old(self)@, *scene, sw);
            let c = sw.draw_handle();
            assert(d@ == old(d)@ + a + b + c);
            assert(old(d)@ + a + b + c =~= old(d)@ + (a + b + c));
        }
    }

    fn render_windows(&mut self, d: &mut Display, scene: &Scene)
        requires
            old(self).wf(),
            drawable(old(self)@, *scene),
        ensures
            final(self).wf(),
            final(self)@ == after_windows(
                old(self)@,
                old(self)@.desktop.windows.len() as int,
            ),
            final(d)@ == old(d)@ + draw_windows(
                old(self)@,
                *scene,
                old(self)@.desktop.windows.len() as int,
            ),
    {
        let ghost s = self@;
        let ghost d1 = d@;
        let n: usize = self.desktop.count();
        let mut i: usize = 0;
        assert(d@ =~= d1 + draw_windows(s, *scene, 0));
        while i < n
            invariant
                self.wf(),
                s.wf(),
                i <= n,
                n == s.desktop.windows.len(),
                drawable(s, *scene),
                self@ == after_windows(s, i as int),
                d@ == d1 + draw_windows(s, *scene, i as int),
            decreases n - i,
        {
            let ghost t = self@;
            proof {
                lemma_after_windows(s, i as int);
            }
            self.render_window(d, scene, i);
            proof {
                let a = draw_windows(s, *scene, i as int);
                let b = draw_one(t, *scene, s.desktop.windows[i as int]);
                assert(d@ == d1 + a + b);
                assert(d1 + a + b =~= d1 + (a + b));
            }
            i = i + 1;
        }
    }

    fn render_overlay(&self, d: &mut Display, scene: &Scene)
        requires
            self.wf(),
            self@.desktop.taskbar_drawable(),
        ensures
            final(d)@ == old(d)@ + overlay(self@, *scene),
    {
        self.desktop.draw_start_menu(d);
        self.desktop.draw_taskbar(d, scene.clock.as_str());
        panels::render_pointer(
            d,
            desktop::to_coord(self.mx),
            desktop::to_coord(self.my),
            self.focused.is_none(),
        );
        assert(d@ =~= old(d)@ + overlay(self@, *scene));
    }

    /// Draws a frame.
    pub fn render(&mut self, d: &mut Display, scene: &Scene)
        requires
            old(self).wf(),
            drawable(old(self)@, *scene),
        ensures
            final(self).wf(),
            final(self)@ == after_windows(
                cleaned(old(self)@),
                old(self)@.desktop.windows.len() as int,
            ),
            final(d)@ == old(d)@ + drawing(old(self)@, *scene),
    {
        self.desktop.render(d, scene.clock.as_str(), self.mx, self.my);
        self.desktop.set_dirty(false);
        let ghost s = self@;
        let ghost n = s.desktop.windows.len() as int;
        assert(s == cleaned(old(self)@));
        self.render_windows(d, scene);
        proof {
            lemma_after_windows(s, n);
        }
        self.render_overlay(d, scene);
        proof {
            let a = old(self)@.desktop.drawing(scene.clock@, s.mx as int, s.my as int);
            let b = draw_windows(s, *scene, n);
            let c = overlay(s, *scene);
            assert(overlay(self@, *scene) == c);
            assert(d@ == old(d)@ + a + b + c);
            assert(old(d)@ + a + b + c =~= old(d)@ + (a + b + c));
        }
    }
}

} // verus!
