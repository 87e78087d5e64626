//! A session at the desktop: which window the keys go to, what a click does, and
//! what a frame shows.
use vstd::prelude::*;
use crate::desktop::{Desktop, Window};
use crate::editor::{Editor, EditorAction};
use crate::nav::{HepfsNav, RowTarget, Zone};
use crate::protocol::{Reply, Request};
use crate::terminal::Terminal;
use crate::{desktop, editor, nav, protocol, terminal, text};

verus! {

/// The id of the welcome window.
pub const WELCOME: usize = 0;

/// The id of the HepFS window.
pub const HEPFS: usize = 1;

/// The id of the terminal's window.
pub const TERMINAL: usize = 2;

/// The id of the editor's window.
pub const EDITOR: usize = 3;

/// The escape key.
pub const ESC: char = '\x1b';

/// Pixels that a key moves the pointer by.
pub const STEP: i32 = 6;

/// A session.
pub struct Session {
    pub desktop: Desktop,
    pub terminal: Terminal,
    pub editor: Option<Editor>,
    pub nav: HepfsNav,
    /// The inode of the root directory.
    pub root: u32,
    /// The window that the keys go to; without one, keys move the pointer.
    pub focused: Option<usize>,
    pub mx: i32,
    pub my: i32,
    pub buttons: u8,
    pub prev_buttons: u8,
    /// A key came in this frame.
    pub typed: bool,
}

/// What contracts say of a session.
pub struct SessionState {
    pub desktop: desktop::DesktopState,
    pub terminal: terminal::TerminalState,
    pub editor: Option<editor::EditorState>,
    pub nav: nav::NavState,
    pub root: u32,
    pub focused: Option<usize>,
    pub mx: i32,
    pub my: i32,
    pub buttons: u8,
    pub prev_buttons: u8,
    pub typed: bool,
}

impl View for Session {
    type V = SessionState;

    open spec fn view(&self) -> SessionState {
        SessionState {
            desktop: self.desktop@,
            terminal: self.terminal@,
            editor: match self.editor {
                Some(e) => Some(e@),
                None => None,
            },
            nav: self.nav@,
            root: self.root,
            focused: self.focused,
            mx: self.mx,
            my: self.my,
            buttons: self.buttons,
            prev_buttons: self.prev_buttons,
            typed: self.typed,
        }
    }
}

/// What a key asks of the kernel.
pub enum KeyAction {
    Nothing,
    /// What the shell asks for.
    Shell(Request),
    /// Save the editor's file.
    Save,
}

/// What a key asks of the kernel, as contracts speak of it.
pub enum KeyAsk {
    Nothing,
    Shell(protocol::Ask),
    Save,
}

impl View for KeyAction {
    type V = KeyAsk;

    open spec fn view(&self) -> KeyAsk {
        match self {
            KeyAction::Nothing => KeyAsk::Nothing,
            KeyAction::Shell(r) => KeyAsk::Shell(r@),
            KeyAction::Save => KeyAsk::Save,
        }
    }
}

/// An entry of a directory that a click picked.
#[derive(Clone, Copy, PartialEq, Eq, Structural, Debug)]
pub struct Pick {
    /// The directory.
    pub dir: u32,
    /// The entry, counted from the first.
    pub index: usize,
}

/// What was picked.
pub struct Picked {
    pub ino: u32,
    pub name: String,
    pub is_dir: bool,
}

// ── What a session does ─────────────────────────────────────────────────────

impl SessionState {
    pub open spec fn wf(self) -> bool {
        &&& self.desktop.wf()
        &&& self.terminal.wf()
        &&& self.editor matches Some(e) ==> e.wf()
    }

    /// A new frame is asked for.
    pub open spec fn dirtied(self) -> SessionState {
        SessionState {
            desktop: desktop::DesktopState { dirty: true, ..self.desktop },
            ..self
        }
    }

    /// The editor's window out of the way.
    pub open spec fn editor_hidden(self) -> SessionState {
        (SessionState {
            desktop: self.desktop.with_minimized(EDITOR, true),
            ..self
        }).dirtied()
    }

    /// Whether the editor takes the key as a request to save.
    pub open spec fn is_save(b: u8) -> bool {
        b == 0x13 || b == crate::ps2::KEY_F2
    }

    /// A key to the editor. Once it is closed, the terminal has the keys.
    pub open spec fn editor_key(self, b: u8) -> SessionState {
        match self.editor {
            None => self,
            Some(e) => {
                let s = SessionState { editor: Some(e.key(b)), ..self };
                if e.key(b).open {
                    s
                } else {
                    SessionState { focused: Some(TERMINAL), ..s.editor_hidden() }
                }
            },
        }
    }

    /// The space bar clicks: the window under the pointer gets the keys, the
    /// terminal where there is none, or where it is an editor that is closed.
    pub open spec fn space_click(self) -> SessionState {
        match desktop::topmost_hit(self.desktop.windows, self.mx as int, self.my as int) {
            None => SessionState { focused: Some(TERMINAL), ..self },
            Some(id) => (SessionState {
                focused: if id == EDITOR && self.editor is Some && !self.editor->0.open {
                    Some(TERMINAL)
                } else {
                    Some(id)
                },
                ..self
            }).dirtied(),
        }
    }

    /// The session after a key.
    pub open spec fn key(self, c: char) -> (SessionState, KeyAsk) {
        let s = SessionState { typed: true, ..self };
        if c == ESC && self.focused != Some(EDITOR) {
            (SessionState { focused: None, ..s.editor_hidden() }, KeyAsk::Nothing)
        } else if self.focused == Some(EDITOR) {
            (
                s.editor_key(c as u8),
                if self.editor is Some && Self::is_save(c as u8) {
                    KeyAsk::Save
                } else {
                    KeyAsk::Nothing
                },
            )
        } else if self.focused is Some {
            (
                SessionState { terminal: self.terminal.key(c as u8).t, ..s },
                KeyAsk::Shell(self.terminal.key(c as u8).ask),
            )
        } else if c == 'w' {
            (SessionState { my: (self.my - STEP) as i32, ..s }, KeyAsk::Nothing)
        } else if c == 's' {
            (SessionState { my: (self.my + STEP) as i32, ..s }, KeyAsk::Nothing)
        } else if c == 'a' {
            (SessionState { mx: (self.mx - STEP) as i32, ..s }, KeyAsk::Nothing)
        } else if c == 'd' {
            (SessionState { mx: (self.mx + STEP) as i32, ..s }, KeyAsk::Nothing)
        } else if c == ' ' {
            (s.space_click(), KeyAsk::Nothing)
        } else {
            (s, KeyAsk::Nothing)
        }
    }

    /// The key can be taken now: the shell waits for keys, a line that `echo`
    /// would cut in a character is not entered, and the pointer has room.
    pub open spec fn takes_key(self, c: char) -> bool {
        if c == ESC && self.focused != Some(EDITOR) || self.focused == Some(EDITOR) {
            true
        } else if self.focused is Some {
            self.terminal.wait is Idle && (c as u8 == 10 ==> self.terminal.can_enter())
        } else {
            i32::MIN + STEP <= self.mx <= i32::MAX - STEP && i32::MIN + STEP <= self.my <= i32::MAX
                - STEP
        }
    }

    /// The editor opened on a file and brought to the front.
    pub open spec fn edits(self, path: Seq<char>, content: Seq<u8>) -> SessionState {
        (SessionState {
            editor: Some(editor::EditorState::fresh(path, content)),
            desktop: self.desktop.with_minimized(EDITOR, false).to_front(EDITOR),
            focused: Some(EDITOR),
            ..self
        }).dirtied()
    }

    /// The editor opened from the shell: its window is named after the file.
    pub open spec fn edits_named(
        self,
        path: Seq<char>,
        name: Seq<char>,
        content: Seq<u8>,
    ) -> SessionState {
        (SessionState {
            editor: Some(editor::EditorState::fresh(path, content)),
            desktop: self.desktop.with_minimized(EDITOR, false).with_title(
                EDITOR,
                "Editor: "@ + name,
            ).to_front(EDITOR),
            focused: Some(EDITOR),
            ..self
        }).dirtied()
    }

    /// A coordinate kept on the screen.
    pub open spec fn on_screen(v: i32, size: usize) -> i32 {
        if v < 0 {
            0
        } else if v > size - 1 {
            (size - 1) as i32
        } else {
            v
        }
    }

    /// The first button went down since the last frame.
    pub open spec fn fresh_click(self) -> bool {
        self.buttons & 1 != 0 && self.prev_buttons & 1 == 0
    }

    /// The pointer kept on the screen and shown to the desktop. A click that
    /// focuses a window also gives it the keys.
    pub open spec fn pointed(self) -> SessionState {
        let mx = Self::on_screen(self.mx, self.desktop.fb_w);
        let my = Self::on_screen(self.my, self.desktop.fb_h);
        let d = self.desktop.mouse(mx, my, self.buttons);
        SessionState {
            mx,
            my,
            prev_buttons: self.buttons,
            desktop: d,
            focused: if self.fresh_click() && d.focused is Some {
                d.focused
            } else {
                self.focused
            },
            ..self
        }
    }

    /// Where in the HepFS window the pointer is.
    pub open spec fn hepfs_zone(self) -> Option<Zone> {
        match desktop::index_of(self.desktop.windows, HEPFS) {
            None => None,
            Some(i) => {
                let w = self.desktop.windows[i];
                if !w.minimized && w.content_at(self.mx as int, self.my as int) {
                    Some(nav::zone_at(self.mx - w.x, self.my - w.y))
                } else {
                    None
                }
            },
        }
    }

    /// A click on the HepFS window.
    pub open spec fn hepfs_click(self) -> (SessionState, Option<Pick>) {
        match self.hepfs_zone() {
            Some(Zone::Back) => (
                (SessionState { nav: self.nav.went_back(), ..self }).dirtied(),
                None,
            ),
            Some(Zone::Forward) => (
                (SessionState { nav: self.nav.went_forward(), ..self }).dirtied(),
                None,
            ),
            Some(Zone::Row(i)) => match nav::row_target(self.nav.here.ino == self.root, i) {
                RowTarget::Up => (
                    (SessionState { nav: self.nav.went_back(), ..self }).dirtied(),
                    None,
                ),
                RowTarget::Entry(index) => (self, Some(Pick { dir: self.nav.here.ino, index })),
            },
            _ => (self, None),
        }
    }

    /// The pointer handled.
    pub open spec fn clicked(self) -> (SessionState, Option<Pick>) {
        if self.fresh_click() {
            self.pointed().hepfs_click()
        } else {
            (self.pointed(), None)
        }
    }

    /// An entry picked: a directory is entered.
    pub open spec fn picked(self, ino: u32, name: Seq<char>, is_dir: bool) -> SessionState {
        if is_dir {
            (SessionState { nav: self.nav.entered(ino, name), ..self }).dirtied()
        } else {
            self
        }
    }

    /// All keys of the frame handled.
    pub open spec fn keys_done(self) -> SessionState {
        if self.typed {
            (SessionState {
                terminal: terminal::TerminalState { dirty: true, ..self.terminal },
                ..self
            }).dirtied()
        } else {
            self
        }
    }

    /// A frame is to be drawn.
    pub open spec fn wants_frame(self) -> bool {
        self.desktop.dirty || self.terminal.dirty || self.typed
    }
}

impl Session {
    pub open spec fn wf(self) -> bool {
        self@.wf()
    }

    /// Begins a frame with the pointer as the mouse has it.
    pub fn begin_frame(&mut self, mx: i32, my: i32, buttons: u8)
        ensures
            final(self)@ == (SessionState { mx, my, buttons, typed: false, ..old(self)@ }),
            final(self)@ == old(self)@.framed(mx, my, buttons),
    {
        self.mx = mx;
        self.my = my;
        self.buttons = buttons;
        self.typed = false;
    }

    fn hide_editor(&mut self)
        requires
            old(self).wf(),
        ensures
            final(self).wf(),
            final(self)@ == old(self)@.editor_hidden(),
    {
        self.desktop.set_minimized(EDITOR, true);
        self.desktop.set_dirty(true);
    }

    /// Whether a key can be taken now.
    pub fn takes_key(&self, c: char) -> (r: bool)
        ensures
            r == self@.takes_key(c),
    {
        let editing: bool = match self.focused {
            Some(id) => id == EDITOR,
            None => false,
        };
        if editing || c == ESC {
            true
        } else {
            match self.focused {
                Some(_) => self.terminal.is_idle() && (c as u8 != 10 || self.terminal.can_enter()),
                None => i32::MIN + STEP <= self.mx && self.mx <= i32::MAX - STEP && i32::MIN + STEP
                    <= self.my && self.my <= i32::MAX - STEP,
            }
        }
    }

    fn editor_key(&mut self, c: char) -> (save: bool)
        requires
            old(self).wf(),
        ensures
            final(self).wf(),
            final(self)@ == old(self)@.editor_key(c as u8),
            save == (old(self)@.editor is Some && SessionState::is_save(c as u8)),
    {
        let mut e: Option<Editor> = None;
        std::mem::swap(&mut e, &mut self.editor);
        match e {
            None => false,
            Some(mut ed) => {
                let action: EditorAction = ed.on_key(c);
                let open: bool = ed.is_open();
                self.editor = Some(ed);
                if !open {
                    self.hide_editor();
                    self.focused = Some(TERMINAL);
                }
                match action {
                    EditorAction::Save => true,
                    EditorAction::Stay => false,
                }
            },
        }
    }

    fn space_click(&mut self)
        requires
            old(self).wf(),
        ensures
            final(self).wf(),
            final(self)@ == old(self)@.space_click(),
    {
        match self.desktop.hit(self.mx, self.my) {
            None => {
                self.focused = Some(TERMINAL);
            },
            Some(id) => {
                let closed: bool = match &self.editor {
                    Some(e) => !e.is_open(),
                    None => false,
                };
                if id == EDITOR && closed {
                    self.focused = Some(TERMINAL);
                } else {
                    self.focused = Some(id);
                }
                self.desktop.set_dirty(true);
            },
        }
    }

    /// Handles a key.
    pub fn key(&mut self, c: char) -> (a: KeyAction)
        requires
            old(self).wf(),
            old(self)@.takes_key(c),
        ensures
            final(self).wf(),
            (final(self)@, a@) == old(self)@.key(c),
    {
        self.typed = true;
        let editing: bool = match self.focused {
            Some(id) => id == EDITOR,
            None => false,
        };
        if c == ESC && !editing {
            self.hide_editor();
            self.focused = None;
            KeyAction::Nothing
        } else if editing {
            if self.editor_key(c) {
                KeyAction::Save
            } else {
                KeyAction::Nothing
            }
        } else if self.focused.is_some() {
            let r: Request = self.terminal.on_key(c);
            KeyAction::Shell(r)
        } else {
            if c == 'w' {
                self.my = self.my - STEP;
            } else if c == 's' {
                self.my = self.my + STEP;
            } else if c == 'a' {
                self.mx = self.mx - STEP;
            } else if c == 'd' {
                self.mx = self.mx + STEP;
            } else if c == ' ' {
                self.space_click();
            }
            KeyAction::Nothing
        }
    }

    /// Hands the shell an answer.
    pub fn shell_reply(&mut self, reply: Reply) -> (r: Request)
        requires
            old(self).wf(),
            old(self)@.terminal.accepts(reply@),
        ensures
            final(self).wf(),
            r@ == old(self)@.terminal.answered(reply@).ask,
            final(self)@ == (SessionState {
                terminal: old(self)@.terminal.answered(reply@).t,
                ..old(self)@
            }),
            (final(self)@, r@) == old(self)@.replied(reply@),
    {
        self.terminal.on_reply(reply)
    }

    /// Opens a file that the shell's `edit` named.
    pub fn edit_named(&mut self, path: &str, name: &str, found: Option<Vec<u8>>)
        requires
            old(self).wf(),
        ensures
            final(self).wf(),
            final(self)@ == old(self)@.edits_named(
                path@,
                name@,
                match found {
                    Some(data) => data@,
                    None => Seq::empty(),
                },
            ),
    {
        self.editor = Some(editor::open(path, found));
        let mut title: String = String::from_str("Editor: ");
        title.append(name);
        self.desktop.set_minimized(EDITOR, false);
        self.desktop.set_title(EDITOR, title.as_str());
        self.desktop.bring_to_front(EDITOR);
        self.desktop.set_dirty(true);
        self.focused = Some(EDITOR);
    }

    /// Opens a file that was picked in the HepFS window.
    pub fn edit_picked(&mut self, path: &str, found: Option<Vec<u8>>)
        requires
            old(self).wf(),
        ensures
            final(self).wf(),
            final(self)@ == old(self)@.edits(
                path@,
                match found {
                    Some(data) => data@,
                    None => Seq::empty(),
                },
            ),
    {
        self.editor = Some(editor::open(path, found));
        self.desktop.set_minimized(EDITOR, false);
        self.desktop.bring_to_front(EDITOR);
        self.desktop.set_dirty(true);
        self.focused = Some(EDITOR);
    }

    fn settle(v: i32, size: usize) -> (r: i32)
        requires
            1 <= size <= i32::MAX,
        ensures
            r == SessionState::on_screen(v, size),
    {
        if v < 0 {
            0
        } else if v > size as i32 - 1 {
            size as i32 - 1
        } else {
            v
        }
    }

    fn zone_hit(&self) -> (z: Option<Zone>)
        requires
            self.wf(),
        ensures
            z == self@.hepfs_zone(),
    {
        match self.desktop.find(HEPFS) {
            None => None,
            Some(i) => {
                let w: &Window = self.desktop.window(i);
                assert(w@.wf());
                if !w.minimized && w.content_hit(self.mx, self.my) {
                    let rx: i64 = self.mx as i64 - w.x as i64;
                    let ry: i64 = self.my as i64 - w.y as i64;
                    Some(nav::zone(rx as u32, ry as u32))
                } else {
                    None
                }
            },
        }
    }

    fn hepfs_click(&mut self) -> (p: Option<Pick>)
        requires
            old(self).wf(),
        ensures
            final(self).wf(),
            (final(self)@, p) == old(self)@.hepfs_click(),
    {
        match self.zone_hit() {
            Some(Zone::Back) => {
                self.nav.go_back();
                self.desktop.set_dirty(true);
                None
            },
            Some(Zone::Forward) => {
                self.nav.go_forward();
                self.desktop.set_dirty(true);
                None
            },
            Some(Zone::Row(i)) => match nav::target_of_row(self.nav.ino == self.root, i) {
                RowTarget::Up => {
                    self.nav.go_back();
                    self.desktop.set_dirty(true);
                    None
                },
                RowTarget::Entry(index) => Some(Pick { dir: self.nav.ino, index }),
            },
            _ => None,
        }
    }

    /// Handles the pointer: keeps it on the screen, shows it to the desktop, and
    /// acts on a click. What was picked in the HepFS window is the result.
    pub fn pointer(&mut self) -> (p: Option<Pick>)
        requires
            old(self).wf(),
            old(self)@.desktop.fb_w >= 1,
            old(self)@.desktop.fb_h >= 1,
        ensures
            final(self).wf(),
            (final(self)@, p) == old(self)@.clicked(),
    {
        let (w, h) = self.desktop.size();
        self.mx = Self::settle(self.mx, w);
        self.my = Self::settle(self.my, h);
        let fresh: bool = self.buttons & 1 != 0 && self.prev_buttons & 1 == 0;
        self.prev_buttons = self.buttons;
        self.desktop.update_mouse(self.mx, self.my, self.buttons);
        if fresh {
            let f: Option<usize> = self.desktop.focus();
            if f.is_some() {
                self.focused = f;
            }
            assert(self@ == old(self)@.pointed());
            self.hepfs_click()
        } else {
            None
        }
    }

    /// Takes the entry that was picked: a directory is entered, and of a file the
    /// path is given, to be opened.
    pub fn picked(&mut self, entry: Option<Picked>) -> (path: Option<String>)
        requires
            old(self).wf(),
        ensures
            final(self).wf(),
            match entry {
                None => final(self)@ == old(self)@ && path is None,
                Some(e) => {
                    &&& final(self)@ == old(self)@.picked(e.ino, e.name@, e.is_dir)
                    &&& path is Some <==> !e.is_dir
                    &&& path matches Some(p) ==> p@ == text::join_path(
                        old(self)@.nav.here.path,
                        e.name@,
                    )
                },
            },
            entry matches Some(e) ==> (match path {
                Some(p) => Some(p@),
                None => None::<Seq<char>>,
            }) == old(self)@.picked_path(e.name@, e.is_dir),
    {
        match entry {
            None => None,
            Some(e) => {
                if e.is_dir {
                    self.nav.enter(e.ino, e.name.as_str());
                    self.desktop.set_dirty(true);
                    None
                } else {
                    Some(self.nav.path_of(e.name.as_str()))
                }
            },
        }
    }

    /// Ends the input of a frame.
    pub fn end_keys(&mut self)
        requires
            old(self).wf(),
        ensures
            final(self).wf(),
            final(self)@ == old(self)@.keys_done(),
    {
        if self.typed {
            self.desktop.set_dirty(true);
            self.terminal.set_dirty(true);
        }
    }

    /// Whether a frame is to be drawn.
    pub fn wants_frame(&self) -> (r: bool)
        ensures
            r == self@.wants_frame(),
    {
        self.desktop.is_dirty() || self.terminal.is_dirty() || self.typed
    }
}

impl SessionState {
    /// A new frame begins, with where the pointer is.
    pub open spec fn framed(self, mx: i32, my: i32, buttons: u8) -> SessionState {
        SessionState { mx, my, buttons, typed: false, ..self }
    }

    /// The terminal has an answer.
    pub open spec fn replied(self, a: protocol::Answer) -> (SessionState, protocol::Ask) {
        (
            SessionState { terminal: self.terminal.answered(a).t, ..self },
            self.terminal.answered(a).ask,
        )
    }

    /// The path of the file that was picked from the list; directories have none.
    pub open spec fn picked_path(self, name: Seq<char>, is_dir: bool) -> Option<Seq<char>> {
        if is_dir {
            None
        } else {
            Some(text::join_path(self.nav.here.path, name))
        }
    }
}

} // verus!
