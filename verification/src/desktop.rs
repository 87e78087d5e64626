//! The window manager: windows in z-order, dragging, closing to the taskbar,
//! and the drawing of windows and taskbar.
use vstd::prelude::*;
use crate::display::{Color, Display};
use crate::{display, text};

verus! {

pub const BG: u32 = 0x0D0D0D;

pub const ACCENT: u32 = 0x6C8EFF;

pub const WIN_BG: u32 = 0x141414;

pub const WIN_TITLE: u32 = 0x1A1A2E;

pub const WIN_TITLE_A: u32 = 0x252550;

pub const TEXT: u32 = 0xE8E8E8;

pub const TEXT_DIM: u32 = 0x888888;

pub const TASKBAR: u32 = 0x0A0A14;

pub const TASKBAR_BTN: u32 = 0x1A1A30;

pub const TASKBAR_ACT: u32 = 0x2A2A50;

pub const CLOSE_BTN: u32 = 0x8B1A1A;

pub const CURSOR: u32 = 0xFFFFFF;

pub const BORDER: u32 = 0x333355;

pub const BORDER_ACT: u32 = 0x6C8EFF;

pub const TITLE_H: usize = 22;

pub const TASKBAR_H: usize = 32;

pub const BORDER_W: usize = 1;

/// Width of a button on the taskbar.
pub const SLOT_W: usize = 120;

/// Side of the square at a window's lower right corner that resizes it.
pub const HANDLE: usize = 12;

/// The least width of a window that is resized.
pub const MIN_W: usize = 120;

/// The least height of a window that is resized.
pub const MIN_H: usize = 60;

/// Width of the start menu.
pub const MENU_W: usize = 160;

/// Height of a row of the start menu.
pub const MENU_ROW: usize = 20;

/// A window. `x` and `y` place its content area.
pub struct Window {
    pub id: usize,
    pub title: String,
    pub x: i32,
    pub y: i32,
    pub w: usize,
    pub h: usize,
    pub minimized: bool,
    /// The pixels of the content area, row by row.
    pub content: Vec<u32>,
    pub drag_off_x: i32,
    pub drag_off_y: i32,
    pub dragging: bool,
    pub resizing: bool,
}

/// What contracts say of a window.
pub struct WindowState {
    pub id: usize,
    pub title: Seq<char>,
    pub x: i32,
    pub y: i32,
    pub w: usize,
    pub h: usize,
    pub minimized: bool,
    pub content: Seq<u32>,
    pub drag_off_x: i32,
    pub drag_off_y: i32,
    pub dragging: bool,
    pub resizing: bool,
}

impl View for Window {
    type V = WindowState;

    open spec fn view(&self) -> WindowState {
        WindowState {
            id: self.id,
            title: self.title@,
            x: self.x,
            y: self.y,
            w: self.w,
            h: self.h,
            minimized: self.minimized,
            content: self.content@,
            drag_off_x: self.drag_off_x,
            drag_off_y: self.drag_off_y,
            dragging: self.dragging,
            resizing: self.resizing,
        }
    }
}

impl WindowState {
    /// The buffer covers the content area, whose sides fit screen coordinates.
    pub open spec fn wf(self) -> bool {
        &&& self.w <= i32::MAX
        &&& self.h <= i32::MAX
        &&& self.content.len() == self.w * self.h
    }

    /// The point lies in the title bar.
    pub open spec fn title_at(self, mx: int, my: int) -> bool {
        self.x - 1 <= mx < self.x + self.w + 1 && self.y - 23 <= my < self.y
    }

    /// The point lies on the close button.
    pub open spec fn close_at(self, mx: int, my: int) -> bool {
        self.x + self.w - 17 <= mx < self.x + self.w - 3 && self.y - 19 <= my < self.y - 5
    }

    /// The point lies in the content area.
    pub open spec fn content_at(self, mx: int, my: int) -> bool {
        self.x <= mx < self.x + self.w && self.y <= my < self.y + self.h
    }

    /// The point lies on the handle that resizes the window.
    pub open spec fn handle_at(self, mx: int, my: int) -> bool {
        self.x + self.w - 12 <= mx < self.x + self.w && self.y + self.h - 12 <= my < self.y + self.h
    }

    /// The width that the pointer gives a window: no less than the least width, and no
    /// more than a coordinate can hold.
    pub open spec fn new_w(self, mx: int) -> int {
        bounded(mx - self.drag_off_x - self.x, 120, i32::MAX as int)
    }

    /// The height that the pointer gives a window: no less than the least height, and no
    /// more than a coordinate can hold.
    pub open spec fn new_h(self, my: int) -> int {
        bounded(my - self.drag_off_y - self.y, 60, i32::MAX as int)
    }

    /// The window with its lower right corner under the pointer, and an empty content
    /// area; a size that memory cannot hold is left out.
    pub open spec fn stretched(self, mx: int, my: int) -> WindowState {
        let nw = self.new_w(mx);
        let nh = self.new_h(my);
        if nw * nh <= usize::MAX {
            WindowState {
                w: nw as usize,
                h: nh as usize,
                content: Seq::new((nw * nh) as nat, |i: int| 0x141414u32),
                ..self
            }
        } else {
            self
        }
    }

    /// The point lies on a window that is shown.
    pub open spec fn shown_at(self, mx: int, my: int) -> bool {
        !self.minimized && (self.close_at(mx, my) || self.title_at(mx, my) || self.content_at(
            mx,
            my,
        ))
    }
}

impl Window {
    /// A window with an empty content area.
    pub fn new(id: usize, title: &str, x: i32, y: i32, w: usize, h: usize) -> (win: Window)
        requires
            w * h <= usize::MAX,
        ensures
            win@ == (WindowState {
                id,
                title: title@,
                x,
                y,
                w,
                h,
                minimized: false,
                content: Seq::new((w * h) as nat, |i: int| 0x141414u32),
                drag_off_x: 0,
                drag_off_y: 0,
                dragging: false,
                resizing: false,
            }),
    {
        let n: usize = w * h;
        let content: Vec<u32> = vec![WIN_BG; n];
        assert(content@ =~= Seq::new((w * h) as nat, |i: int| 0x141414u32));
        Window {
            id,
            title: String::from_str(title),
            x,
            y,
            w,
            h,
            minimized: false,
            content,
            drag_off_x: 0,
            drag_off_y: 0,
            dragging: false,
            resizing: false,
        }
    }

    /// Left edge of the frame.
    pub fn outer_x(&self) -> (r: i32)
        requires
            self.x > i32::MIN,
        ensures
            r == self.x - 1,
            r == self@.outer().0,
    {
        self.x - 1
    }

    /// Top edge of the frame: above the content are the title bar and the border.
    pub fn outer_y(&self) -> (r: i32)
        requires
            self.y >= i32::MIN + 23,
        ensures
            r == self.y - 23,
            r == self@.outer().1,
    {
        self.y - 23
    }

    /// Width of the frame.
    pub fn outer_w(&self) -> (r: usize)
        requires
            self.w + 2 <= usize::MAX,
        ensures
            r == self.w + 2,
            r == self@.outer().2,
    {
        self.w + BORDER_W * 2
    }

    /// Height of the frame.
    pub fn outer_h(&self) -> (r: usize)
        requires
            self.h + 24 <= usize::MAX,
        ensures
            r == self.h + 24,
            r == self@.outer().3,
    {
        self.h + TITLE_H + BORDER_W * 2
    }

    /// Whether the point lies in the title bar.
    pub fn title_hit(&self, mx: i32, my: i32) -> (r: bool)
        ensures
            r == self@.title_at(mx as int, my as int),
    {
        let x: i128 = self.x as i128;
        let y: i128 = self.y as i128;
        let w: i128 = self.w as i128;
        let px: i128 = mx as i128;
        let py: i128 = my as i128;
        px >= x - 1 && px < x + w + 1 && py >= y - 23 && py < y
    }

    /// Whether the point lies on the close button.
    pub fn close_hit(&self, mx: i32, my: i32) -> (r: bool)
        ensures
            r == self@.close_at(mx as int, my as int),
    {
        let cx: i128 = self.x as i128 + self.w as i128 - 17;
        let cy: i128 = self.y as i128 - 19;
        let px: i128 = mx as i128;
        let py: i128 = my as i128;
        px >= cx && px < cx + 14 && py >= cy && py < cy + 14
    }

    /// Whether the point lies in the content area.
    pub fn content_hit(&self, mx: i32, my: i32) -> (r: bool)
        ensures
            r == self@.content_at(mx as int, my as int),
    {
        let x: i128 = self.x as i128;
        let y: i128 = self.y as i128;
        let px: i128 = mx as i128;
        let py: i128 = my as i128;
        px >= x && px < x + self.w as i128 && py >= y && py < y + self.h as i128
    }

    /// Whether the point lies on the handle that resizes the window.
    pub fn handle_hit(&self, mx: i32, my: i32) -> (r: bool)
        ensures
            r == self@.handle_at(mx as int, my as int),
    {
        let right: i128 = self.x as i128 + self.w as i128;
        let bottom: i128 = self.y as i128 + self.h as i128;
        let px: i128 = mx as i128;
        let py: i128 = my as i128;
        px >= right - 12 && px < right && py >= bottom - 12 && py < bottom
    }
}

/// The desktop: its windows from the bottom to the top, and the pointer's past.
pub struct Desktop {
    pub windows: Vec<Window>,
    /// The window with the focus, by its id.
    pub focused: Option<usize>,
    next_id: usize,
    pub fb_w: usize,
    pub fb_h: usize,
    prev_btn: u8,
    last_x: i32,
    last_y: i32,
    /// Something changed since the last frame.
    pub dirty: bool,
    /// The start menu is shown.
    pub start_open: bool,
}

/// What contracts say of the desktop.
pub struct DesktopState {
    pub windows: Seq<WindowState>,
    pub focused: Option<usize>,
    pub next_id: usize,
    pub fb_w: usize,
    pub fb_h: usize,
    pub prev_btn: u8,
    pub last_x: i32,
    pub last_y: i32,
    pub dirty: bool,
    pub start_open: bool,
}

/// The place of the window `id` from the bottom.
pub open spec fn index_of(ws: Seq<WindowState>, id: usize) -> Option<int>
    decreases ws.len(),
{
    if ws.len() == 0 {
        None
    } else if ws[0].id == id {
        Some(0int)
    } else {
        match index_of(ws.drop_first(), id) {
            Some(i) => Some(i + 1),
            None => None,
        }
    }
}

/// The place of the window with the `k`-th button on the taskbar: of the `k`-th
/// window that is shown, from the bottom.
pub open spec fn open_at(ws: Seq<WindowState>, k: int) -> Option<int>
    decreases ws.len(),
{
    if ws.len() == 0 || k < 0 {
        None
    } else if !ws[0].minimized && k == 0 {
        Some(0int)
    } else {
        let rest = open_at(
            ws.drop_first(),
            if ws[0].minimized {
                k
            } else {
                k - 1
            },
        );
        match rest {
            Some(i) => Some(i + 1),
            None => None,
        }
    }
}

/// How many of the first `n` windows are shown.
pub open spec fn open_count(ws: Seq<WindowState>, n: int) -> int
    decreases n,
{
    if n <= 0 {
        0
    } else if ws[n - 1].minimized {
        open_count(ws, n - 1)
    } else {
        open_count(ws, n - 1) + 1
    }
}

/// The topmost window that shows at a point.
pub open spec fn topmost_at(ws: Seq<WindowState>, mx: int, my: int) -> Option<int>
    decreases ws.len(),
{
    if ws.len() == 0 {
        None
    } else if ws.last().shown_at(mx, my) {
        Some(ws.len() - 1)
    } else {
        topmost_at(ws.drop_last(), mx, my)
    }
}

/// The topmost window that shows its content or its title bar at a point.
pub open spec fn topmost_hit(ws: Seq<WindowState>, mx: int, my: int) -> Option<usize>
    decreases ws.len(),
{
    if ws.len() == 0 {
        None
    } else if !ws.last().minimized && (ws.last().content_at(mx, my) || ws.last().title_at(mx, my)) {
        Some(ws.last().id)
    } else {
        topmost_hit(ws.drop_last(), mx, my)
    }
}

/// The first window, from the bottom, that is shown under a title.
pub open spec fn shown_titled(ws: Seq<WindowState>, title: Seq<char>) -> Option<WindowState>
    decreases ws.len(),
{
    if ws.len() == 0 {
        None
    } else if !ws[0].minimized && ws[0].title == title {
        Some(ws[0])
    } else {
        shown_titled(ws.drop_first(), title)
    }
}

/// A coordinate cut off at zero.
pub open spec fn at_least_zero(v: int) -> int {
    if v < 0 {
        0
    } else {
        v
    }
}

/// A coordinate as the framebuffer takes it: a negative one wraps around.
pub open spec fn coord(v: int) -> int {
    if v >= 0 {
        v
    } else {
        v + usize::MAX + 1
    }
}

/// `max(lo)` and then `min(hi)`.
pub open spec fn bounded(v: int, lo: int, hi: int) -> int {
    let m = if v < lo {
        lo
    } else {
        v
    };
    if m > hi {
        hi
    } else {
        m
    }
}

impl DesktopState {
    pub open spec fn wf(self) -> bool {
        &&& self.fb_w <= i32::MAX
        &&& self.fb_h <= i32::MAX
        &&& forall|i: int| 0 <= i < self.windows.len() ==> (#[trigger] self.windows[i]).wf()
        &&& forall|i: int| 0 <= i < self.windows.len() ==> (#[trigger] self.windows[i]).id < self.next_id
        &&& forall|i: int, j: int|
            0 <= i < j < self.windows.len() ==> (#[trigger] self.windows[i]).id != (
            #[trigger] self.windows[j]).id
        &&& self.windows.len() == self.next_id
        &&& self.start_open ==> self.menu_fits()
    }

    /// The start menu has room above the taskbar.
    pub open spec fn menu_fits(self) -> bool {
        self.next_id * 20 + 32 <= self.fb_h
    }

    /// No windows yet, on a screen of this size.
    pub open spec fn fresh(fb_w: usize, fb_h: usize) -> DesktopState {
        DesktopState {
            windows: seq![],
            focused: None,
            next_id: 0,
            fb_w,
            fb_h,
            prev_btn: 0,
            last_x: 0,
            last_y: 0,
            dirty: true,
            start_open: false,
        }
    }

    /// A new window on top of the others, focused, with the next id.
    pub open spec fn added(
        self,
        title: Seq<char>,
        x: i32,
        y: i32,
        w: usize,
        h: usize,
    ) -> DesktopState {
        DesktopState {
            windows: self.windows.push(
                WindowState {
                    id: self.next_id,
                    title,
                    x,
                    y,
                    w,
                    h,
                    minimized: false,
                    content: Seq::new((w * h) as nat, |i: int| 0x141414u32),
                    drag_off_x: 0,
                    drag_off_y: 0,
                    dragging: false,
                    resizing: false,
                },
            ),
            focused: Some(self.next_id),
            next_id: (self.next_id + 1) as usize,
            start_open: false,
            ..self
        }
    }

    /// The window at `i` changed to `w`, on top and focused.
    pub open spec fn raised(self, i: int, w: WindowState) -> DesktopState {
        DesktopState {
            windows: self.windows.remove(i).push(w),
            focused: Some(w.id),
            ..self
        }
    }

    /// The window `id` on top and focused, if there is one.
    pub open spec fn to_front(self, id: usize) -> DesktopState {
        match index_of(self.windows, id) {
            Some(i) => self.raised(i, self.windows[i]),
            None => self,
        }
    }

    /// The window `id`, if there is one, minimized or shown.
    pub open spec fn with_minimized(self, id: usize, minimized: bool) -> DesktopState {
        match index_of(self.windows, id) {
            Some(i) => DesktopState {
                windows: self.windows.update(i, WindowState { minimized, ..self.windows[i] }),
                ..self
            },
            None => self,
        }
    }

    /// The window `id`, if there is one, under another title.
    pub open spec fn with_title(self, id: usize, title: Seq<char>) -> DesktopState {
        match index_of(self.windows, id) {
            Some(i) => DesktopState {
                windows: self.windows.update(i, WindowState { title, ..self.windows[i] }),
                ..self
            },
            None => self,
        }
    }

    /// The window that is being dragged or resized: the focused one, while it is
    /// held.
    pub open spec fn held(self) -> Option<int> {
        match self.focused {
            None => None,
            Some(id) => match index_of(self.windows, id) {
                Some(i) => if self.windows[i].dragging || self.windows[i].resizing {
                    Some(i)
                } else {
                    None
                },
                None => None,
            },
        }
    }

    /// Where the drag puts the window: under the pointer, kept on the screen.
    pub open spec fn drag(self, w: WindowState, mx: int, my: int) -> WindowState {
        WindowState {
            x: bounded(mx - w.drag_off_x, 0, self.fb_w - w.w) as i32,
            y: bounded(my - w.drag_off_y, 22, self.fb_h - 33) as i32,
            ..w
        }
    }

    /// A held window as the pointer moves it or resizes it.
    pub open spec fn pulled(self, w: WindowState, mx: int, my: int) -> WindowState {
        if w.dragging {
            self.drag(w, mx, my)
        } else {
            w.stretched(mx, my)
        }
    }

    /// What a click does to the window it hits.
    pub open spec fn clicked(w: WindowState, mx: int, my: int) -> WindowState {
        if w.close_at(mx, my) {
            WindowState { minimized: true, ..w }
        } else if w.title_at(mx, my) {
            WindowState {
                dragging: true,
                drag_off_x: (mx - w.x) as i32,
                drag_off_y: (my - w.y) as i32,
                ..w
            }
        } else if w.handle_at(mx, my) {
            WindowState {
                resizing: true,
                drag_off_x: (mx - w.x - w.w) as i32,
                drag_off_y: (my - w.y - w.h) as i32,
                ..w
            }
        } else {
            w
        }
    }

    /// A click on the windows: the topmost one at the point comes to the front.
    pub open spec fn click(self, mx: int, my: int) -> DesktopState {
        match topmost_at(self.windows, mx, my) {
            Some(i) => self.raised(i, Self::clicked(self.windows[i], mx, my)),
            None => self,
        }
    }

    /// The taskbar button at the horizontal position `mx`.
    pub open spec fn slot_at(self, mx: int) -> int {
        (if coord(mx) < self.fb_w {
            coord(mx)
        } else {
            self.fb_w as int
        }) / 120
    }

    /// A click on the taskbar. The first slot opens and closes the start menu; then
    /// come the windows that are shown: the focused window's button minimizes it, any
    /// other button focuses its window.
    pub open spec fn taskbar_click(self, mx: int) -> DesktopState {
        let slot = self.slot_at(mx);
        if slot == 0 {
            DesktopState { start_open: !self.start_open && self.menu_fits(), ..self }
        } else {
            let d = DesktopState { start_open: false, ..self };
            match open_at(self.windows, slot - 1) {
                Some(i) => {
                    let w = self.windows[i];
                    d.raised(i, WindowState { minimized: self.focused == Some(w.id), ..w })
                },
                None => d,
            }
        }
    }

    /// Top edge of the start menu.
    pub open spec fn menu_top(self) -> int {
        self.fb_h - 32 - self.next_id * 20
    }

    /// The row of the open start menu at a point.
    pub open spec fn menu_row(self, mx: int, my: int) -> Option<usize> {
        if self.start_open && 0 <= mx < 160 && self.menu_top() <= my < self.fb_h - 32 {
            Some(((my - self.menu_top()) / 20) as usize)
        } else {
            None
        }
    }

    /// A click on a row of the start menu: the program's window is shown and focused,
    /// and the menu closes.
    pub open spec fn picked(self, id: usize) -> DesktopState {
        let d = DesktopState { start_open: false, ..self };
        match index_of(self.windows, id) {
            Some(i) => d.raised(i, WindowState { minimized: false, ..self.windows[i] }),
            None => d,
        }
    }

    /// A fresh click. The start menu lies above the windows; a click anywhere else
    /// closes it.
    pub open spec fn pressed(self, mx: int, my: int) -> DesktopState {
        match self.menu_row(mx, my) {
            Some(id) => self.picked(id),
            None => {
                let c = self.click(mx, my);
                if my > c.fb_h - 32 {
                    c.taskbar_click(mx)
                } else {
                    DesktopState { start_open: false, ..c }
                }
            },
        }
    }

    /// All windows let go.
    pub open spec fn released(self) -> DesktopState {
        DesktopState {
            windows: self.windows.map_values(
                |w: WindowState| WindowState { dragging: false, resizing: false, ..w },
            ),
            ..self
        }
    }

    /// The pointer noted; a move or a change of the buttons asks for a new frame.
    pub open spec fn noted(self, mx: i32, my: i32, buttons: u8) -> DesktopState {
        DesktopState {
            prev_btn: buttons,
            last_x: mx,
            last_y: my,
            dirty: self.dirty || mx != self.last_x || my != self.last_y || buttons != self.prev_btn,
            ..self
        }
    }

    /// The desktop after the pointer was seen at a point with some buttons down.
    pub open spec fn mouse(self, mx: i32, my: i32, buttons: u8) -> DesktopState {
        let down = buttons & 0x01 != 0;
        let was_down = self.prev_btn & 0x01 != 0;
        let d = self.noted(mx, my, buttons);
        if down && d.held() is Some {
            let i = d.held()->0;
            DesktopState {
                windows: d.windows.update(i, d.pulled(d.windows[i], mx as int, my as int)),
                ..d
            }
        } else if !down && was_down {
            d.released()
        } else if down && !was_down {
            d.pressed(mx as int, my as int)
        } else {
            d
        }
    }
}

impl View for Desktop {
    type V = DesktopState;

    closed spec fn view(&self) -> DesktopState {
        DesktopState {
            windows: self.windows@.map_values(|w: Window| w@),
            focused: self.focused,
            next_id: self.next_id,
            fb_w: self.fb_w,
            fb_h: self.fb_h,
            prev_btn: self.prev_btn,
            last_x: self.last_x,
            last_y: self.last_y,
            dirty: self.dirty,
            start_open: self.start_open,
        }
    }
}

/// The first window with an id is the one found.
pub proof fn lemma_index_of(ws: Seq<WindowState>, id: usize, i: int)
    requires
        0 <= i < ws.len(),
        ws[i].id == id,
        forall|j: int| 0 <= j < i ==> (#[trigger] ws[j]).id != id,
    ensures
        index_of(ws, id) == Some(i),
    decreases i,
{
    if i > 0 {
        let r = ws.drop_first();
        assert(ws[0].id != id);
        assert forall|j: int| 0 <= j < i - 1 implies (#[trigger] r[j]).id != id by {
            assert(r[j] == ws[j + 1]);
        }
        lemma_index_of(r, id, i - 1);
    }
}

proof fn lemma_no_index(ws: Seq<WindowState>, id: usize)
    requires
        forall|j: int| 0 <= j < ws.len() ==> (#[trigger] ws[j]).id != id,
    ensures
        index_of(ws, id) is None,
    decreases ws.len(),
{
    if ws.len() > 0 {
        let r = ws.drop_first();
        assert forall|j: int| 0 <= j < r.len() implies (#[trigger] r[j]).id != id by {
            assert(r[j] == ws[j + 1]);
        }
        lemma_no_index(r, id);
    }
}

/// What is found has the id.
pub proof fn lemma_index_found(ws: Seq<WindowState>, id: usize)
    ensures
        index_of(ws, id) matches Some(i) ==> 0 <= i < ws.len() && ws[i].id == id,
    decreases ws.len(),
{
    if ws.len() > 0 {
        lemma_index_found(ws.drop_first(), id);
    }
}

/// Windows with the same ids are found at the same places.
pub proof fn lemma_same_ids(a: Seq<WindowState>, b: Seq<WindowState>, id: usize)
    requires
        a.len() == b.len(),
        forall|i: int| 0 <= i < a.len() ==> (#[trigger] a[i]).id == b[i].id,
    ensures
        index_of(a, id) == index_of(b, id),
    decreases a.len(),
{
    if a.len() > 0 {
        assert(a[0].id == b[0].id);
        let r = a.drop_first();
        let t = b.drop_first();
        assert forall|i: int| 0 <= i < r.len() implies (#[trigger] r[i]).id == t[i].id by {
            assert(a[i + 1].id == b[i + 1].id);
        }
        lemma_same_ids(r, t, id);
    }
}

pub proof fn lemma_topmost(ws: Seq<WindowState>, mx: int, my: int)
    ensures
        topmost_at(ws, mx, my) matches Some(i) ==> 0 <= i < ws.len() && ws[i].shown_at(mx, my),
    decreases ws.len(),
{
    if ws.len() > 0 {
        lemma_topmost(ws.drop_last(), mx, my);
    }
}

/// Raising a window keeps the desktop in order.
proof fn lemma_raised_wf(d: DesktopState, i: int, w: WindowState)
    requires
        d.wf(),
        0 <= i < d.windows.len(),
        w.wf(),
        w.id == d.windows[i].id,
    ensures
        d.raised(i, w).wf(),
{
    let r = d.raised(i, w);
    let n = d.windows.len();
    assert forall|k: int| 0 <= k < r.windows.len() implies (#[trigger] r.windows[k]).wf()
        && r.windows[k].id < r.next_id by {
        if k < n - 1 {
            assert(r.windows[k] == if k < i {
                d.windows[k]
            } else {
                d.windows[k + 1]
            });
        }
    }
    assert forall|k: int, l: int| 0 <= k < l < r.windows.len() implies (#[trigger] r.windows[k]).id
        != (#[trigger] r.windows[l]).id by {
        let dk = if k < i {
            k
        } else {
            k + 1
        };
        let dl = if l == n - 1 {
            i
        } else if l < i {
            l
        } else {
            l + 1
        };
        assert(r.windows[k].id == d.windows[dk].id);
        assert(r.windows[l].id == d.windows[dl].id);
        assert(dk != dl);
        if dk < dl {
            assert(d.windows[dk].id != d.windows[dl].id);
        } else {
            assert(d.windows[dl].id != d.windows[dk].id);
        }
    }
}

pub fn to_coord(v: i32) -> (r: usize)
    ensures
        r == coord(v as int),
{
    if v >= 0 {
        v as usize
    } else {
        usize::MAX - (-(v + 1)) as usize
    }
}

fn bound(v: i64, lo: i64, hi: i64) -> (r: i64)
    ensures
        r == bounded(v as int, lo as int, hi as int),
{
    let m: i64 = if v < lo {
        lo
    } else {
        v
    };
    if m > hi {
        hi
    } else {
        m
    }
}

impl Desktop {
    pub open spec fn wf(self) -> bool {
        self@.wf()
    }

    /// An empty desktop for a screen of `fb_w` by `fb_h` pixels.
    pub fn new(fb_w: usize, fb_h: usize) -> (d: Desktop)
        requires
            fb_w <= i32::MAX,
            fb_h <= i32::MAX,
        ensures
            d.wf(),
            d@ == DesktopState::fresh(fb_w, fb_h),
    {
        let d = Desktop {
            windows: Vec::new(),
            focused: None,
            next_id: 0,
            fb_w,
            fb_h,
            prev_btn: 0,
            last_x: 0,
            last_y: 0,
            dirty: true,
            start_open: false,
        };
        assert(d@.windows =~= Seq::<WindowState>::empty());
        d
    }

    /// Opens a window on top of the others and focuses it; gives its id.
    pub fn add_window(&mut self, title: &str, x: i32, y: i32, w: usize, h: usize) -> (id: usize)
        requires
            old(self).wf(),
            w <= i32::MAX,
            h <= i32::MAX,
            w * h <= usize::MAX,
            old(self)@.next_id < usize::MAX,
        ensures
            final(self).wf(),
            id == old(self)@.windows.len(),
            forall|i: int|
                0 <= i < old(self)@.windows.len() ==> (#[trigger] old(self)@.windows[i]).id != id,
            final(self)@ == old(self)@.added(title@, x, y, w, h),
    {
        let id: usize = self.next_id;
        self.next_id = self.next_id + 1;
        self.start_open = false;
        let win: Window = Window::new(id, title, x, y, w, h);
        let ghost v = win@;
        self.windows.push(win);
        self.focused = Some(id);
        proof {
            assert(self@.windows =~= old(self)@.windows.push(v));
            let ws = self@.windows;
            let os = old(self)@.windows;
            assert forall|i: int| 0 <= i < ws.len() implies (#[trigger] ws[i]).wf() && ws[i].id
                < self@.next_id by {
                if i < os.len() {
                    assert(ws[i] == os[i]);
                }
            }
            assert forall|i: int, j: int| 0 <= i < j < ws.len() implies (#[trigger] ws[i]).id != (
            #[trigger] ws[j]).id by {
                assert(ws[i] == os[i]);
                if j < os.len() {
                    assert(ws[j] == os[j]);
                }
            }
        }
        id
    }

    /// The place of the window `id` from the bottom.
    pub fn find(&self, id: usize) -> (r: Option<usize>)
        ensures
            r is Some <==> index_of(self@.windows, id) is Some,
            r matches Some(i) ==> index_of(self@.windows, id) == Some(i as int) && i
                < self@.windows.len(),
    {
        let mut i: usize = 0;
        while i < self.windows.len()
            invariant
                i <= self.windows@.len(),
                forall|j: int| 0 <= j < i ==> (#[trigger] self@.windows[j]).id != id,
            decreases self.windows@.len() - i,
        {
            if self.windows[i].id == id {
                proof {
                    lemma_index_of(self@.windows, id, i as int);
                }
                return Some(i);
            }
            i = i + 1;
        }
        proof {
            lemma_no_index(self@.windows, id);
        }
        None
    }

    /// Puts the window at `i` on top and focuses it.
    fn raise(&mut self, i: usize)
        requires
            old(self).wf(),
            i < old(self)@.windows.len(),
        ensures
            final(self).wf(),
            final(self)@ == old(self)@.raised(i as int, old(self)@.windows[i as int]),
    {
        proof {
            lemma_raised_wf(self@, i as int, self@.windows[i as int]);
        }
        let win: Window = self.windows.remove(i);
        self.focused = Some(win.id);
        self.windows.push(win);
        assert(self@.windows =~= old(self)@.raised(i as int, old(self)@.windows[i as int]).windows);
    }

    /// Puts the window `id` on top and focuses it.
    pub fn bring_to_front(&mut self, id: usize)
        requires
            old(self).wf(),
        ensures
            final(self).wf(),
            final(self)@ == old(self)@.to_front(id),
    {
        match self.find(id) {
            Some(i) => {
                self.raise(i);
            },
            None => {},
        }
    }

    /// Shows or hides the window `id`.
    pub fn set_minimized(&mut self, id: usize, minimized: bool)
        requires
            old(self).wf(),
        ensures
            final(self).wf(),
            final(self)@ == old(self)@.with_minimized(id, minimized),
    {
        match self.find(id) {
            Some(i) => {
                self.windows[i].minimized = minimized;
                proof {
                    let w = WindowState { minimized, ..old(self)@.windows[i as int] };
                    assert(self@.windows =~= old(self)@.windows.update(i as int, w));
                    lemma_updated_wf(old(self)@, i as int, w);
                }
            },
            None => {},
        }
    }

    /// Renames the window `id`.
    pub fn set_title(&mut self, id: usize, title: &str)
        requires
            old(self).wf(),
        ensures
            final(self).wf(),
            final(self)@ == old(self)@.with_title(id, title@),
    {
        match self.find(id) {
            Some(i) => {
                self.windows[i].title = String::from_str(title);
                proof {
                    let w = WindowState { title: title@, ..old(self)@.windows[i as int] };
                    assert(self@.windows =~= old(self)@.windows.update(i as int, w));
                    lemma_updated_wf(old(self)@, i as int, w);
                }
            },
            None => {},
        }
    }

    /// The number of windows.
    pub fn count(&self) -> (n: usize)
        ensures
            n == self@.windows.len(),
    {
        self.windows.len()
    }

    /// The window at place `i` from the bottom.
    pub fn window(&self, i: usize) -> (w: &Window)
        requires
            i < self@.windows.len(),
        ensures
            w@ == self@.windows[i as int],
    {
        &self.windows[i]
    }

    /// The window with the focus, by its id.
    pub fn focus(&self) -> (r: Option<usize>)
        ensures
            r == self@.focused,
    {
        self.focused
    }

    /// The screen's width and height.
    pub fn size(&self) -> (r: (usize, usize))
        ensures
            r == (self@.fb_w, self@.fb_h),
    {
        (self.fb_w, self.fb_h)
    }

    /// Whether a new frame is asked for.
    pub fn is_dirty(&self) -> (r: bool)
        ensures
            r == self@.dirty,
    {
        self.dirty
    }

    /// The id of the topmost window whose content or title bar shows at a point.
    pub fn hit(&self, mx: i32, my: i32) -> (r: Option<usize>)
        ensures
            r == topmost_hit(self@.windows, mx as int, my as int),
    {
        let mut i: usize = self.windows.len();
        let ghost ws = self@.windows;
        assert(ws.take(ws.len() as int) =~= ws);
        while i > 0
            invariant
                i <= self.windows@.len(),
                ws == self@.windows,
                topmost_hit(ws, mx as int, my as int) == topmost_hit(
                    ws.take(i as int),
                    mx as int,
                    my as int,
                ),
            decreases i,
        {
            let w: &Window = &self.windows[i - 1];
            assert(w@ == ws[i - 1]);
            assert(ws.take(i as int).last() == ws[i - 1]);
            assert(ws.take(i as int).drop_last() =~= ws.take(i - 1));
            if !w.minimized && (w.content_hit(mx, my) || w.title_hit(mx, my)) {
                return Some(w.id);
            }
            i = i - 1;
        }
        None
    }

    /// The content area of the first window that is shown under a title: its
    /// corner, cut off at zero, its width and its height.
    pub fn window_rect(&self, title: &str) -> (r: Option<(usize, usize, usize, usize)>)
        ensures
            match shown_titled(self@.windows, title@) {
                None => r is None,
                Some(win) => r matches Some((x, y, w, h)) && x == at_least_zero(win.x as int) && y
                    == at_least_zero(win.y as int) && w == win.w && h == win.h,
            },
            (match r {
                Some((x, y, w, h)) => Some((x as int, y as int, w as int, h as int)),
                None => None::<(int, int, int, int)>,
            }) == self@.area_titled(title@),
    {
        let mut i: usize = 0;
        let ghost ws = self@.windows;
        assert(ws.skip(0) =~= ws);
        while i < self.windows.len()
            invariant
                i <= self.windows@.len(),
                ws == self@.windows,
                shown_titled(ws, title@) == shown_titled(ws.skip(i as int), title@),
            decreases self.windows@.len() - i,
        {
            let w: &Window = &self.windows[i];
            assert(w@ == ws[i as int]);
            assert(ws.skip(i as int)[0] == ws[i as int]);
            assert(ws.skip(i as int).drop_first() =~= ws.skip(i + 1));
            if !w.minimized && text::same_text(w.title.as_str(), title) {
                let x: usize = if w.x < 0 {
                    0
                } else {
                    w.x as usize
                };
                let y: usize = if w.y < 0 {
                    0
                } else {
                    w.y as usize
                };
                return Some((x, y, w.w, w.h));
            }
            i = i + 1;
        }
        None
    }

    /// Sets or clears the request for a new frame.
    pub fn set_dirty(&mut self, dirty: bool)
        ensures
            final(self)@ == (DesktopState { dirty, ..old(self)@ }),
    {
        self.dirty = dirty;
    }

    fn release_all(&mut self)
        requires
            old(self).wf(),
        ensures
            final(self).wf(),
            final(self)@ == old(self)@.released(),
    {
        let ghost goal = old(self)@.released();
        let mut i: usize = 0;
        while i < self.windows.len()
            invariant
                i <= self.windows@.len(),
                self.windows@.len() == goal.windows.len(),
                goal == old(self)@.released(),
                self@ == (DesktopState { windows: self@.windows, ..old(self)@ }),
                forall|j: int| 0 <= j < i ==> #[trigger] self@.windows[j] == goal.windows[j],
                forall|j: int|
                    i <= j < goal.windows.len() ==> #[trigger] self@.windows[j]
                        == old(self)@.windows[j],
            decreases self.windows@.len() - i,
        {
            let ghost before = self@.windows;
            self.windows[i].dragging = false;
            self.windows[i].resizing = false;
            proof {
                assert(self@.windows =~= before.update(i as int, self@.windows[i as int]));
                assert(before[i as int] == old(self)@.windows[i as int]);
                assert forall|j: int| 0 <= j < i + 1 implies #[trigger] self@.windows[j]
                    == goal.windows[j] by {
                    if j < i {
                        assert(before[j] == goal.windows[j]);
                    }
                }
                assert forall|j: int| i + 1 <= j < goal.windows.len() implies #[trigger] self@.windows[j]
                    == old(self)@.windows[j] by {
                    assert(before[j] == old(self)@.windows[j]);
                }
            }
            i = i + 1;
        }
        proof {
            assert(self@.windows =~= goal.windows);
            let os = old(self)@.windows;
            assert forall|i: int| 0 <= i < os.len() implies (#[trigger] goal.windows[i]).wf()
                && goal.windows[i].id < goal.next_id by {
                assert(os[i].wf());
            }
            assert forall|i: int, j: int| 0 <= i < j < os.len() implies (#[trigger] goal.windows[i]).id
                != (#[trigger] goal.windows[j]).id by {
                assert(os[i].id != os[j].id);
            }
        }
    }

    fn topmost(&self, mx: i32, my: i32) -> (r: Option<usize>)
        ensures
            r is Some <==> topmost_at(self@.windows, mx as int, my as int) is Some,
            r matches Some(i) ==> topmost_at(self@.windows, mx as int, my as int) == Some(i as int)
                && i < self@.windows.len(),
    {
        let mut n: usize = self.windows.len();
        assert(self@.windows.take(n as int) =~= self@.windows);
        while n > 0
            invariant
                n <= self.windows@.len(),
                topmost_at(self@.windows, mx as int, my as int) == topmost_at(
                    self@.windows.take(n as int),
                    mx as int,
                    my as int,
                ),
            decreases n,
        {
            let win: &Window = &self.windows[n - 1];
            proof {
                let t = self@.windows.take(n as int);
                assert(t.last() == win@);
                assert(t.drop_last() =~= self@.windows.take(n - 1));
            }
            if !win.minimized && (win.close_hit(mx, my) || win.title_hit(mx, my)
                || win.content_hit(mx, my)) {
                return Some(n - 1);
            }
            n = n - 1;
        }
        None
    }

    fn click(&mut self, mx: i32, my: i32)
        requires
            old(self).wf(),
        ensures
            final(self).wf(),
            final(self)@ == old(self)@.click(mx as int, my as int),
    {
        match self.topmost(mx, my) {
            None => {},
            Some(i) => {
                self.raise(i);
                let ghost ws = self@.windows;
                assert(ws.len() == old(self)@.windows.len());
                assert(self.windows@.len() == ws.len());
                let last: usize = self.windows.len() - 1;
                let ghost w = old(self)@.windows[i as int];
                let ghost w2 = DesktopState::clicked(w, mx as int, my as int);
                assert(self@.windows[last as int] == w);
                assert(self.windows@[last as int]@ == w);
                let close: bool = self.windows[last].close_hit(mx, my);
                let title: bool = self.windows[last].title_hit(mx, my);
                let handle: bool = self.windows[last].handle_hit(mx, my);
                if close {
                    self.windows[last].minimized = true;
                } else if title {
                    assert(w.wf());
                    let off_x: i32 = mx - self.windows[last].x;
                    let off_y: i32 = my - self.windows[last].y;
                    self.windows[last].dragging = true;
                    self.windows[last].drag_off_x = off_x;
                    self.windows[last].drag_off_y = off_y;
                } else if handle {
                    assert(w.wf());
                    let off_x: i64 = mx as i64 - self.windows[last].x as i64
                        - self.windows[last].w as i64;
                    let off_y: i64 = my as i64 - self.windows[last].y as i64
                        - self.windows[last].h as i64;
                    self.windows[last].resizing = true;
                    self.windows[last].drag_off_x = off_x as i32;
                    self.windows[last].drag_off_y = off_y as i32;
                }
                proof {
                    assert(w2.wf());
                    lemma_raised_wf(old(self)@, i as int, w2);
                    assert(self@.windows =~= ws.update(last as int, w2));
                    assert(self@.windows =~= old(self)@.windows.remove(i as int).push(w2));
                }
            },
        }
    }

    fn menu_has_room(&self) -> (r: bool)
        ensures
            r == self@.menu_fits(),
    {
        self.fb_h >= TASKBAR_H && self.next_id <= (self.fb_h - TASKBAR_H) / MENU_ROW
    }

    /// The place of the `k`-th window that is shown.
    fn nth_open(&self, k: usize) -> (r: Option<usize>)
        ensures
            match open_at(self@.windows, k as int) {
                Some(i) => r matches Some(j) && j == i && i < self@.windows.len(),
                None => r is None,
            },
    {
        let ghost ws = self@.windows;
        let mut left: usize = k;
        let mut i: usize = 0;
        assert(ws.skip(0) =~= ws);
        while i < self.windows.len()
            invariant
                i <= self.windows@.len(),
                ws == self@.windows,
                open_at(ws, k as int) == match open_at(ws.skip(i as int), left as int) {
                    Some(j) => Some(i + j),
                    None => None,
                },
            decreases self.windows@.len() - i,
        {
            assert(ws.skip(i as int)[0] == self.windows@[i as int]@);
            assert(ws.skip(i as int).drop_first() =~= ws.skip(i + 1));
            if !self.windows[i].minimized {
                if left == 0 {
                    return Some(i);
                }
                left = left - 1;
            }
            i = i + 1;
        }
        None
    }

    /// Puts the window at `i` on top, focused, and minimized or shown.
    fn raise_as(&mut self, i: usize, minimized: bool)
        requires
            old(self).wf(),
            i < old(self)@.windows.len(),
        ensures
            final(self).wf(),
            final(self)@ == old(self)@.raised(
                i as int,
                WindowState { minimized, ..old(self)@.windows[i as int] },
            ),
    {
        self.raise(i);
        let ghost ws = self@.windows;
        assert(ws.len() == old(self)@.windows.len());
        assert(self.windows@.len() == ws.len());
        let last: usize = self.windows.len() - 1;
        assert(self@.windows[last as int] == old(self)@.windows[i as int]);
        assert(self.windows@[last as int]@ == old(self)@.windows[i as int]);
        self.windows[last].minimized = minimized;
        proof {
            let w2 = WindowState { minimized, ..old(self)@.windows[i as int] };
            lemma_raised_wf(old(self)@, i as int, w2);
            assert(self@.windows =~= ws.update(last as int, w2));
            assert(self@.windows =~= old(self)@.windows.remove(i as int).push(w2));
        }
    }

    fn taskbar_click(&mut self, mx: i32)
        requires
            old(self).wf(),
        ensures
            final(self).wf(),
            final(self)@ == old(self)@.taskbar_click(mx as int),
    {
        let x: usize = to_coord(mx);
        let x: usize = if x < self.fb_w {
            x
        } else {
            self.fb_w
        };
        let slot: usize = x / SLOT_W;
        if slot == 0 {
            self.start_open = !self.start_open && self.menu_has_room();
        } else {
            self.start_open = false;
            if let Some(i) = self.nth_open(slot - 1) {
                let id: usize = self.windows[i].id;
                assert(id == self@.windows[i as int].id);
                let focused: bool = match self.focused {
                    Some(f) => f == id,
                    None => false,
                };
                self.raise_as(i, focused);
            }
        }
    }

    fn pick(&mut self, id: usize)
        requires
            old(self).wf(),
        ensures
            final(self).wf(),
            final(self)@ == old(self)@.picked(id),
    {
        self.start_open = false;
        if let Some(i) = self.find(id) {
            self.raise_as(i, false);
        }
    }

    fn row_of_menu(&self, mx: i32, my: i32) -> (r: Option<usize>)
        requires
            self.wf(),
        ensures
            r == self@.menu_row(mx as int, my as int),
    {
        if !self.start_open {
            return None;
        }
        let bottom: usize = self.fb_h - TASKBAR_H;
        let top: usize = bottom - self.next_id * MENU_ROW;
        if mx >= 0 && mx < 160 && my as i64 >= top as i64 && (my as i64) < bottom as i64 {
            Some((my as usize - top) / MENU_ROW)
        } else {
            None
        }
    }

    fn press(&mut self, mx: i32, my: i32)
        requires
            old(self).wf(),
        ensures
            final(self).wf(),
            final(self)@ == old(self)@.pressed(mx as int, my as int),
    {
        match self.row_of_menu(mx, my) {
            Some(id) => self.pick(id),
            None => {
                self.click(mx, my);
                if my as i64 > self.fb_h as i64 - 32 {
                    self.taskbar_click(mx);
                } else {
                    self.start_open = false;
                }
            },
        }
    }

    fn pull(&mut self, i: usize, mx: i32, my: i32)
        requires
            old(self).wf(),
            i < old(self)@.windows.len(),
        ensures
            final(self).wf(),
            final(self)@ == (DesktopState {
                windows: old(self)@.windows.update(
                    i as int,
                    old(self)@.pulled(old(self)@.windows[i as int], mx as int, my as int),
                ),
                ..old(self)@
            }),
    {
        let ghost d = self@;
        let ghost w = d.windows[i as int];
        let ghost w2 = d.pulled(w, mx as int, my as int);
        assert(w.wf());
        assert(w == self.windows@[i as int]@);
        let off_x: i64 = self.windows[i].drag_off_x as i64;
        let off_y: i64 = self.windows[i].drag_off_y as i64;
        if self.windows[i].dragging {
            let x: i64 = bound(mx as i64 - off_x, 0, self.fb_w as i64 - self.windows[i].w as i64);
            let y: i64 = bound(my as i64 - off_y, 22, self.fb_h as i64 - 33);
            self.windows[i].x = x as i32;
            self.windows[i].y = y as i32;
        } else {
            let x: i64 = self.windows[i].x as i64;
            let y: i64 = self.windows[i].y as i64;
            let nw: i64 = bound(mx as i64 - off_x - x, 120, i32::MAX as i64);
            let nh: i64 = bound(my as i64 - off_y - y, 60, i32::MAX as i64);
            if let Some(n) = (nw as usize).checked_mul(nh as usize) {
                self.windows[i].w = nw as usize;
                self.windows[i].h = nh as usize;
                self.windows[i].content = vec![WIN_BG; n];
                assert(self.windows@[i as int].content@ =~= w2.content);
            }
        }
        proof {
            assert(w2.wf());
            assert(self@.windows =~= d.windows.update(i as int, w2));
            lemma_updated_wf(d, i as int, w2);
        }
    }

    /// Takes note of the pointer: drags, resizes, lets go, raises and closes windows,
    /// and serves the taskbar and the start menu. Bit 0 of `buttons` is the button that
    /// clicks.
    pub fn update_mouse(&mut self, mx: i32, my: i32, buttons: u8)
        requires
            old(self).wf(),
        ensures
            final(self).wf(),
            final(self)@ == old(self)@.mouse(mx, my, buttons),
    {
        let down: bool = buttons & 0x01 != 0;
        let was_down: bool = self.prev_btn & 0x01 != 0;
        if mx != self.last_x || my != self.last_y || buttons != self.prev_btn {
            self.dirty = true;
        }
        self.prev_btn = buttons;
        self.last_x = mx;
        self.last_y = my;
        let ghost d = self@;
        assert(d == old(self)@.noted(mx, my, buttons));

        if down {
            if let Some(fid) = self.focused {
                if let Some(i) = self.find(fid) {
                    assert(self.windows@[i as int]@ == d.windows[i as int]);
                    if self.windows[i].dragging || self.windows[i].resizing {
                        self.pull(i, mx, my);
                        return;
                    }
                }
            }
        }
        if !down && was_down {
            self.release_all();
        }
        if down && !was_down {
            self.press(mx, my);
        }
    }
}

// ── Drawing ─────────────────────────────────────────────────────────────────

impl WindowState {
    /// All that is drawn of the window fits the framebuffer's coordinates.
    pub open spec fn drawable(self) -> bool {
        &&& self.x > i32::MIN
        &&& self.y >= i32::MIN + 23
        &&& self.w + 2 <= usize::MAX
        &&& self.h + 24 <= usize::MAX
        &&& coord(self.x as int) + 6 <= usize::MAX
        &&& coord(self.x as int) + self.w <= usize::MAX
        &&& coord(self.x as int) + self.w >= 18
        &&& coord(self.y - 22) + 5 <= usize::MAX
        &&& coord(self.y as int) + self.h <= usize::MAX
    }

    /// The drawing of one pixel of the content; the background's colour is left out.
    pub open spec fn draw_pixel(self, row: int, col: int) -> Seq<display::Draw> {
        let c = display::rgb(self.content[row * self.w + col] as int);
        if c == display::rgb(WIN_BG as int) {
            Seq::<display::Draw>::empty()
        } else {
            seq![
                display::Draw::Pixel {
                    x: coord(self.x as int) + col,
                    y: coord(self.y as int) + row,
                    color: c,
                },
            ]
        }
    }

    /// The drawing of the first `n` pixels of a row.
    pub open spec fn draw_pixels(self, row: int, n: int) -> Seq<display::Draw>
        decreases n,
    {
        if n <= 0 {
            Seq::<display::Draw>::empty()
        } else {
            self.draw_pixels(row, n - 1) + self.draw_pixel(row, n - 1)
        }
    }

    /// The drawing of the first `n` rows of the content.
    pub open spec fn draw_content(self, n: int) -> Seq<display::Draw>
        decreases n,
    {
        if n <= 0 {
            Seq::<display::Draw>::empty()
        } else {
            self.draw_content(n - 1) + self.draw_pixels(n - 1, self.w as int)
        }
    }

    /// The frame: border, title bar, title, close button, and the empty content.
    pub open spec fn draw_frame(self, focused: bool) -> Seq<display::Draw> {
        let tx = coord(self.x as int);
        let ty = coord(self.y - 22);
        let close_x = tx + self.w - 18;
        (if self.x >= 1 && self.y >= 23 {
            seq![
                display::rect(
                    self.x - 1,
                    self.y - 23,
                    self.w + 2,
                    self.h + 24,
                    display::rgb(
                        if focused {
                            BORDER_ACT as int
                        } else {
                            BORDER as int
                        },
                    ),
                ),
            ]
        } else {
            Seq::<display::Draw>::empty()
        }) + seq![
            display::rect(
                tx,
                ty,
                self.w as int,
                22,
                display::rgb(
                    if focused {
                        WIN_TITLE_A as int
                    } else {
                        WIN_TITLE as int
                    },
                ),
            ),
            display::label(tx + 6, ty + 5, self.title, display::rgb(TEXT as int), 1),
            display::rect(close_x, ty + 4, 14, 14, display::rgb(CLOSE_BTN as int)),
            display::label(close_x + 4, ty + 5, "x"@, display::rgb(TEXT as int), 1),
            display::rect(
                tx,
                coord(self.y as int),
                self.w as int,
                self.h as int,
                display::rgb(WIN_BG as int),
            ),
        ]
    }

    /// The drawing of the window.
    pub open spec fn drawing(self, focused: bool) -> Seq<display::Draw> {
        self.draw_frame(focused) + self.draw_content(self.h as int)
    }

    /// The drawing of the resize handle: three dots on a diagonal, in a window that has
    /// room for them.
    pub open spec fn draw_handle(self) -> Seq<display::Draw> {
        let right = coord(self.x as int) + self.w;
        let bottom = coord(self.y as int) + self.h;
        let color = display::rgb(BORDER_ACT as int);
        if self.w >= 12 && self.h >= 12 {
            seq![
                display::Draw::Pixel { x: right - 4, y: bottom - 4, color },
                display::Draw::Pixel { x: right - 7, y: bottom - 7, color },
                display::Draw::Pixel { x: right - 10, y: bottom - 10, color },
            ]
        } else {
            Seq::<display::Draw>::empty()
        }
    }

    /// The title as the taskbar shows it: its first twelve bytes.
    pub open spec fn button_label(self) -> Seq<char> {
        if vstd::utf8::encode_utf8(self.title).len() > 12 {
            text::byte_prefix(self.title, 12)
        } else {
            self.title
        }
    }

    /// The title can be cut for the taskbar.
    pub open spec fn label_fits(self) -> bool {
        vstd::utf8::encode_utf8(self.title).len() > 12 ==> vstd::utf8::is_char_boundary(
            vstd::utf8::encode_utf8(self.title),
            12,
        )
    }
}

impl DesktopState {
    /// The drawing of the first `n` windows, from the bottom.
    pub open spec fn draw_windows(self, n: int) -> Seq<display::Draw>
        decreases n,
    {
        if n <= 0 {
            Seq::<display::Draw>::empty()
        } else {
            let w = self.windows[n - 1];
            self.draw_windows(n - 1) + (if w.minimized {
                Seq::<display::Draw>::empty()
            } else {
                w.drawing(self.focused == Some(w.id))
            })
        }
    }

    /// The slot of the taskbar for the window at `i`, behind the start button.
    pub open spec fn slot_of(self, i: int) -> int {
        1 + open_count(self.windows, i)
    }

    /// The window at `i` has a button on the taskbar: it is shown, and its button fits.
    pub open spec fn has_button(self, i: int) -> bool {
        !self.windows[i].minimized && self.slot_of(i) * 120 + 124 <= self.fb_w
    }

    /// The drawing of the button of the window at `i`.
    pub open spec fn draw_button(self, i: int) -> Seq<display::Draw> {
        let w = self.windows[i];
        let bx = self.slot_of(i) * 120 + 4;
        let ty = self.fb_h - 32;
        seq![
            display::rect(
                bx,
                ty + 4,
                112,
                24,
                display::rgb(
                    if self.focused == Some(w.id) {
                        TASKBAR_ACT as int
                    } else {
                        TASKBAR_BTN as int
                    },
                ),
            ),
            display::label(bx + 6, ty + 10, w.button_label(), display::rgb(TEXT as int), 1),
        ]
    }

    /// The drawing of the button of the window at `i`, where it has one.
    pub open spec fn button_part(self, i: int) -> Seq<display::Draw> {
        if self.has_button(i) {
            self.draw_button(i)
        } else {
            Seq::<display::Draw>::empty()
        }
    }

    /// The drawing of the buttons of the first `n` windows.
    pub open spec fn draw_buttons(self, n: int) -> Seq<display::Draw>
        decreases n,
    {
        if n <= 0 {
            Seq::<display::Draw>::empty()
        } else {
            self.draw_buttons(n - 1) + self.button_part(n - 1)
        }
    }

    /// The drawing of the start button.
    pub open spec fn draw_start(self) -> Seq<display::Draw> {
        let ty = self.fb_h - 32;
        seq![
            display::rect(
                4,
                ty + 4,
                112,
                24,
                display::rgb(
                    if self.start_open {
                        TASKBAR_ACT as int
                    } else {
                        TASKBAR_BTN as int
                    },
                ),
            ),
            display::label(10, ty + 10, "Start"@, display::rgb(ACCENT as int), 1),
        ]
    }

    /// The drawing of the first `n` rows of the start menu: every program by its id, a
    /// minimized one with a badge.
    pub open spec fn draw_rows(self, n: int) -> Seq<display::Draw>
        decreases n,
    {
        if n <= 0 {
            Seq::<display::Draw>::empty()
        } else {
            let y = self.menu_top() + (n - 1) * 20 + 6;
            self.draw_rows(n - 1) + match index_of(self.windows, (n - 1) as usize) {
                None => Seq::<display::Draw>::empty(),
                Some(i) => seq![
                    display::label(8, y, self.windows[i].title, display::rgb(TEXT as int), 1),
                ] + if self.windows[i].minimized {
                    seq![display::label(136, y, "--"@, display::rgb(TEXT_DIM as int), 1)]
                } else {
                    Seq::<display::Draw>::empty()
                },
            }
        }
    }

    /// The drawing of the start menu, where it is open.
    pub open spec fn draw_menu(self) -> Seq<display::Draw> {
        if self.start_open {
            seq![
                display::rect(
                    0,
                    self.menu_top(),
                    160,
                    self.next_id * 20,
                    display::rgb(TASKBAR as int),
                ),
            ] + self.draw_rows(self.next_id as int)
        } else {
            Seq::<display::Draw>::empty()
        }
    }

    /// The drawing of the taskbar, with a clock at its right end.
    pub open spec fn draw_taskbar(self, clock: Seq<char>) -> Seq<display::Draw> {
        let ty = self.fb_h - 32;
        seq![
            display::rect(0, ty, self.fb_w as int, 32, display::rgb(TASKBAR as int)),
            display::rect(0, ty, self.fb_w as int, 1, display::rgb(ACCENT as int)),
        ] + self.draw_start() + self.draw_buttons(self.windows.len() as int) + seq![
            display::label(self.fb_w - 80, ty + 10, clock, display::rgb(TEXT_DIM as int), 1),
        ]
    }

    /// The taskbar fits the screen and its labels can be cut.
    pub open spec fn taskbar_drawable(self) -> bool {
        &&& self.fb_w >= 80
        &&& self.fb_h >= 32
        &&& forall|i: int|
            0 <= i < self.windows.len() && self.has_button(i)
                ==> (#[trigger] self.windows[i]).label_fits()
    }

    pub open spec fn windows_drawable(self) -> bool {
        forall|i: int|
            0 <= i < self.windows.len() && !(#[trigger] self.windows[i]).minimized
                ==> self.windows[i].drawable()
    }

    /// The drawing of the pointer, as a cross.
    pub open spec fn draw_cross(cx: int, cy: int) -> Seq<display::Draw> {
        seq![
            display::rect(
                display::sat_sub(coord(cx), 4),
                coord(cy),
                9,
                1,
                display::rgb(CURSOR as int),
            ),
            display::rect(
                coord(cx),
                display::sat_sub(coord(cy), 4),
                1,
                9,
                display::rgb(CURSOR as int),
            ),
        ]
    }

    /// The drawing of everything: background, windows, start menu, taskbar, pointer.
    pub open spec fn drawing(self, clock: Seq<char>, cx: int, cy: int) -> Seq<display::Draw> {
        seq![display::Draw::Clear { color: display::rgb(BG as int) }] + self.draw_windows(
            self.windows.len() as int,
        ) + self.draw_menu() + self.draw_taskbar(clock) + Self::draw_cross(cx, cy)
    }
}

impl Window {
    /// Whether all of the window fits the framebuffer's coordinates.
    pub fn is_drawable(&self) -> (r: bool)
        ensures
            r == self@.drawable(),
    {
        if self.x == i32::MIN || self.y < i32::MIN + 23 {
            return false;
        }
        let x: usize = to_coord(self.x);
        let y: usize = to_coord(self.y);
        let top: usize = if self.y >= i32::MIN + 22 {
            to_coord(self.y - 22)
        } else {
            0
        };
        self.w <= usize::MAX - 2 && self.h <= usize::MAX - 24 && x <= usize::MAX - 6 && x
            <= usize::MAX - self.w && (x >= 18 || x + self.w >= 18) && top <= usize::MAX - 5 && y
            <= usize::MAX - self.h
    }

    /// Whether the title can be cut for the taskbar.
    pub fn label_fits(&self) -> (r: bool)
        ensures
            r == self@.label_fits(),
    {
        self.title.as_str().as_bytes().len() <= 12 || self.title.as_str().is_char_boundary(12)
    }

    fn render_content(&self, display: &mut Display)
        requires
            self@.wf(),
            self@.drawable(),
        ensures
            final(display)@ == old(display)@ + self@.draw_content(self.h as int),
    {
        let x: usize = to_coord(self.x);
        let y: usize = to_coord(self.y);
        let mut row: usize = 0;
        assert(display@ =~= old(display)@ + self@.draw_content(0));
        while row < self.h
            invariant
                self@.wf(),
                self@.drawable(),
                row <= self.h,
                x == coord(self.x as int),
                y == coord(self.y as int),
                display@ == old(display)@ + self@.draw_content(row as int),
            decreases self.h - row,
        {
            let ghost d0 = display@;
            let mut col: usize = 0;
            assert(row * self.w + self.w <= self.h * self.w) by (nonlinear_arith)
                requires
                    row < self.h,
            ;
            assert(self.h * self.w == self.w * self.h) by (nonlinear_arith);
            assert(self.content.len() == self.w * self.h);
            assert(display@ =~= d0 + self@.draw_pixels(row as int, 0));
            while col < self.w
                invariant
                    self@.wf(),
                    self@.drawable(),
                    row < self.h,
                    col <= self.w,
                    0 <= row * self.w,
                    row * self.w + self.w <= self.content@.len(),
                    self.content@.len() <= usize::MAX,
                    x == coord(self.x as int),
                    y == coord(self.y as int),
                    display@ == d0 + self@.draw_pixels(row as int, col as int),
                decreases self.w - col,
            {
                let c: Color = Color::from_hex(self.content[row * self.w + col]);
                if !(c.r == 0x14 && c.g == 0x14 && c.b == 0x14) {
                    display.put_pixel(x + col, y + row, c);
                }
                assert(display@ =~= d0 + self@.draw_pixels(row as int, col + 1));
                col = col + 1;
            }
            assert(display@ =~= old(display)@ + self@.draw_content(row + 1));
            row = row + 1;
        }
    }

    fn render_frame(&self, display: &mut Display, focused: bool)
        requires
            self@.drawable(),
        ensures
            final(display)@ == old(display)@ + self@.draw_frame(focused),
    {
        let ox: i32 = self.outer_x();
        let oy: i32 = self.outer_y();
        let border: u32 = if focused {
            BORDER_ACT
        } else {
            BORDER
        };
        if ox >= 0 && oy >= 0 {
            display.fill_rect(
                ox as usize,
                oy as usize,
                self.outer_w(),
                self.outer_h(),
                Color::from_hex(border),
            );
        }
        let bar: u32 = if focused {
            WIN_TITLE_A
        } else {
            WIN_TITLE
        };
        let tx: usize = to_coord(self.x);
        let ty: usize = to_coord(oy + 1);
        display.fill_rect(tx, ty, self.w, TITLE_H, Color::from_hex(bar));
        display.draw_text(tx + 6, ty + 5, self.title.as_str(), Color::from_hex(TEXT), 1);
        let close_x: usize = tx + self.w - 18;
        display.fill_rect(close_x, ty + 4, 14, 14, Color::from_hex(CLOSE_BTN));
        display.draw_text(close_x + 4, ty + 5, "x", Color::from_hex(TEXT), 1);
        display.fill_rect(tx, to_coord(self.y), self.w, self.h, Color::from_hex(WIN_BG));
        assert(display@ =~= old(display)@ + self@.draw_frame(focused));
    }
}

impl Desktop {
    /// Draws one window: frame and content.
    pub fn draw_window(&self, display: &mut Display, win: &Window, focused: bool)
        requires
            win@.wf(),
            win@.drawable(),
        ensures
            final(display)@ == old(display)@ + win@.drawing(focused),
    {
        win.render_frame(display, focused);
        win.render_content(display);
        assert(display@ =~= old(display)@ + win@.drawing(focused));
    }

    /// Draws a window's resize handle.
    pub fn draw_handle(&self, display: &mut Display, win: &Window)
        requires
            win@.drawable(),
        ensures
            final(display)@ == old(display)@ + win@.draw_handle(),
    {
        if win.w >= HANDLE && win.h >= HANDLE {
            let right: usize = to_coord(win.x) + win.w;
            let bottom: usize = to_coord(win.y) + win.h;
            display.put_pixel(right - 4, bottom - 4, Color::from_hex(BORDER_ACT));
            display.put_pixel(right - 7, bottom - 7, Color::from_hex(BORDER_ACT));
            display.put_pixel(right - 10, bottom - 10, Color::from_hex(BORDER_ACT));
        }
        assert(display@ =~= old(display)@ + win@.draw_handle());
    }

    /// Whether every window that is shown fits the framebuffer's coordinates.
    pub fn windows_fit(&self) -> (r: bool)
        ensures
            r == self@.windows_drawable(),
    {
        let mut i: usize = 0;
        while i < self.windows.len()
            invariant
                i <= self.windows@.len(),
                forall|j: int|
                    0 <= j < i && !(#[trigger] self@.windows[j]).minimized
                        ==> self@.windows[j].drawable(),
            decreases self.windows@.len() - i,
        {
            let w: &Window = &self.windows[i];
            assert(w@ == self@.windows[i as int]);
            if !w.minimized && !w.is_drawable() {
                return false;
            }
            i = i + 1;
        }
        true
    }

    /// Whether the taskbar fits the screen and its labels can be cut.
    pub fn taskbar_fits(&self) -> (r: bool)
        ensures
            r == self@.taskbar_drawable(),
    {
        if self.fb_w < 80 || self.fb_h < 32 {
            return false;
        }
        let fit: usize = (self.fb_w - 4) / SLOT_W;
        let mut shown: usize = 0;
        let mut i: usize = 0;
        while i < self.windows.len()
            invariant
                i <= self.windows@.len(),
                fit == (self.fb_w - 4) / 120,
                self.fb_w >= 80,
                shown == open_count(self@.windows, i as int),
                shown <= i,
                forall|j: int|
                    0 <= j < i && self@.has_button(j) ==> (#[trigger] self@.windows[j]).label_fits(),
            decreases self.windows@.len() - i,
        {
            let w: &Window = &self.windows[i];
            assert(w@ == self@.windows[i as int]);
            if !w.minimized {
                let slot: usize = shown + 1;
                assert(slot < fit <==> slot * 120 + 124 <= self.fb_w);
                if slot < fit && !w.label_fits() {
                    assert(self@.has_button(i as int));
                    return false;
                }
                shown = slot;
            }
            i = i + 1;
        }
        true
    }

    fn draw_button(&self, display: &mut Display, i: usize, slot: usize)
        requires
            self.wf(),
            i < self@.windows.len(),
            self@.windows[i as int].label_fits(),
            slot == self@.slot_of(i as int),
            self@.has_button(i as int),
            self@.fb_h >= 32,
        ensures
            final(display)@ == old(display)@ + self@.draw_button(i as int),
    {
        let win: &Window = &self.windows[i];
        assert(win@ == self@.windows[i as int]);
        let ty: usize = self.fb_h - TASKBAR_H;
        let bx: usize = slot * SLOT_W + 4;
        let active: bool = match self.focused {
            Some(f) => f == win.id,
            None => false,
        };
        let back: u32 = if active {
            TASKBAR_ACT
        } else {
            TASKBAR_BTN
        };
        display.fill_rect(bx, ty + 4, SLOT_W - 8, TASKBAR_H - 8, Color::from_hex(back));
        let label: String = if win.title.as_str().as_bytes().len() > 12 {
            text::take_bytes(win.title.as_str(), 12)
        } else {
            String::from_str(win.title.as_str())
        };
        display.draw_text(bx + 6, ty + 10, label.as_str(), Color::from_hex(TEXT), 1);
        assert(display@ =~= old(display)@ + self@.draw_button(i as int));
    }

    fn draw_start_button(&self, display: &mut Display)
        requires
            self@.fb_h >= 32,
        ensures
            final(display)@ == old(display)@ + self@.draw_start(),
    {
        let ty: usize = self.fb_h - TASKBAR_H;
        let back: u32 = if self.start_open {
            TASKBAR_ACT
        } else {
            TASKBAR_BTN
        };
        display.fill_rect(4, ty + 4, SLOT_W - 8, TASKBAR_H - 8, Color::from_hex(back));
        display.draw_text(10, ty + 10, "Start", Color::from_hex(ACCENT), 1);
        assert(display@ =~= old(display)@ + self@.draw_start());
    }

    /// Draws the button of the window at `i`, where it has one; `shown` windows before
    /// it are shown. Gives how many are shown with it.
    fn draw_button_part(&self, display: &mut Display, i: usize, shown: usize) -> (next: usize)
        requires
            self.wf(),
            self@.taskbar_drawable(),
            i < self@.windows.len(),
            shown == open_count(self@.windows, i as int),
            shown <= i,
        ensures
            next == open_count(self@.windows, i + 1),
            next <= i + 1,
            final(display)@ == old(display)@ + self@.button_part(i as int),
    {
        assert(self.windows@[i as int]@ == self@.windows[i as int]);
        if self.windows[i].minimized {
            assert(display@ =~= old(display)@ + Seq::<display::Draw>::empty());
            return shown;
        }
        let fit: usize = (self.fb_w - 4) / SLOT_W;
        let slot: usize = shown + 1;
        assert(slot < fit <==> slot * 120 + 124 <= self.fb_w);
        if slot < fit {
            assert(self@.has_button(i as int));
            assert(self@.windows[i as int].label_fits());
            self.draw_button(display, i, slot);
        } else {
            assert(display@ =~= old(display)@ + Seq::<display::Draw>::empty());
        }
        slot
    }

    fn draw_all_buttons(&self, display: &mut Display)
        requires
            self.wf(),
            self@.taskbar_drawable(),
        ensures
            final(display)@ == old(display)@ + self@.draw_buttons(self@.windows.len() as int),
    {
        let mut shown: usize = 0;
        let mut i: usize = 0;
        assert(display@ =~= old(display)@ + self@.draw_buttons(0));
        while i < self.windows.len()
            invariant
                self.wf(),
                self@.taskbar_drawable(),
                i <= self.windows@.len(),
                shown == open_count(self@.windows, i as int),
                shown <= i,
                display@ == old(display)@ + self@.draw_buttons(i as int),
            decreases self.windows@.len() - i,
        {
            shown = self.draw_button_part(display, i, shown);
            proof {
                lemma_joined(
                    old(display)@,
                    self@.draw_buttons(i as int),
                    self@.button_part(i as int),
                );
            }
            i = i + 1;
        }
    }

    /// Draws the taskbar: the start button, a button for each window that is shown, and
    /// the given time at its right end.
    pub fn draw_taskbar(&self, display: &mut Display, clock: &str)
        requires
            self.wf(),
            self@.taskbar_drawable(),
        ensures
            final(display)@ == old(display)@ + self@.draw_taskbar(clock@),
    {
        let ty: usize = self.fb_h - TASKBAR_H;
        display.fill_rect(0, ty, self.fb_w, TASKBAR_H, Color::from_hex(TASKBAR));
        display.fill_rect(0, ty, self.fb_w, 1, Color::from_hex(ACCENT));
        self.draw_start_button(display);
        self.draw_all_buttons(display);
        display.draw_text(self.fb_w - 80, ty + 10, clock, Color::from_hex(TEXT_DIM), 1);
        assert(display@ =~= old(display)@ + self@.draw_taskbar(clock@));
    }

    /// Draws the start menu, where it is open: every program, a minimized one with a
    /// badge.
    pub fn draw_start_menu(&self, display: &mut Display)
        requires
            self.wf(),
        ensures
            final(display)@ == old(display)@ + self@.draw_menu(),
    {
        if !self.start_open {
            assert(display@ =~= old(display)@ + self@.draw_menu());
            return;
        }
        let n: usize = self.next_id;
        let top: usize = self.fb_h - TASKBAR_H - n * MENU_ROW;
        display.fill_rect(0, top, MENU_W, n * MENU_ROW, Color::from_hex(TASKBAR));
        let ghost d0 = display@;
        let mut id: usize = 0;
        assert(display@ =~= d0 + self@.draw_rows(0));
        while id < n
            invariant
                self.wf(),
                self.start_open,
                n == self@.next_id,
                top == self@.menu_top(),
                id <= n,
                display@ == d0 + self@.draw_rows(id as int),
            decreases n - id,
        {
            let y: usize = top + id * MENU_ROW + 6;
            if let Some(i) = self.find(id) {
                let win: &Window = &self.windows[i];
                assert(win@ == self@.windows[i as int]);
                display.draw_text(8, y, win.title.as_str(), Color::from_hex(TEXT), 1);
                if win.minimized {
                    display.draw_text(136, y, "--", Color::from_hex(TEXT_DIM), 1);
                }
            }
            assert(display@ =~= d0 + self@.draw_rows(id + 1));
            id = id + 1;
        }
        assert(display@ =~= old(display)@ + self@.draw_menu());
    }

    fn draw_all_windows(&self, display: &mut Display)
        requires
            self.wf(),
            self@.windows_drawable(),
        ensures
            final(display)@ == old(display)@ + self@.draw_windows(self@.windows.len() as int),
    {
        let mut i: usize = 0;
        assert(display@ =~= old(display)@ + self@.draw_windows(0));
        while i < self.windows.len()
            invariant
                self.wf(),
                self@.windows_drawable(),
                i <= self.windows@.len(),
                display@ == old(display)@ + self@.draw_windows(i as int),
            decreases self.windows@.len() - i,
        {
            let win: &Window = &self.windows[i];
            assert(win@ == self@.windows[i as int]);
            if !win.minimized {
                let focused: bool = match self.focused {
                    Some(f) => f == win.id,
                    None => false,
                };
                assert(win@.wf());
                self.draw_window(display, win, focused);
            }
            assert(display@ =~= old(display)@ + self@.draw_windows(i + 1));
            i = i + 1;
        }
    }

    fn draw_cross(&self, display: &mut Display, cursor_x: i32, cursor_y: i32)
        ensures
            final(display)@ == old(display)@ + DesktopState::draw_cross(
                cursor_x as int,
                cursor_y as int,
            ),
    {
        let cx: usize = to_coord(cursor_x);
        let cy: usize = to_coord(cursor_y);
        let left: usize = if cx >= 4 {
            cx - 4
        } else {
            0
        };
        let top: usize = if cy >= 4 {
            cy - 4
        } else {
            0
        };
        display.fill_rect(left, cy, 9, 1, Color::from_hex(CURSOR));
        display.fill_rect(cx, top, 1, 9, Color::from_hex(CURSOR));
        assert(display@ =~= old(display)@ + DesktopState::draw_cross(
            cursor_x as int,
            cursor_y as int,
        ));
    }

    /// Draws everything: background, windows from the bottom to the top, the start
    /// menu, the taskbar, and the pointer as a cross.
    pub fn render(&self, display: &mut Display, clock: &str, cursor_x: i32, cursor_y: i32)
        requires
            self.wf(),
            self@.windows_drawable(),
            self@.taskbar_drawable(),
        ensures
            final(display)@ == old(display)@ + self@.drawing(
                clock@,
                cursor_x as int,
                cursor_y as int,
            ),
    {
        display.clear(Color::from_hex(BG));
        self.draw_all_windows(display);
        self.draw_start_menu(display);
        self.draw_taskbar(display, clock);
        self.draw_cross(display, cursor_x, cursor_y);
        assert(display@ =~= old(display)@ + self@.drawing(
            clock@,
            cursor_x as int,
            cursor_y as int,
        ));
    }
}

/// Drawings one after another, in either grouping.
proof fn lemma_joined(a: Seq<display::Draw>, b: Seq<display::Draw>, c: Seq<display::Draw>)
    ensures
        (a + b) + c == a + (b + c),
{
    assert((a + b) + c =~= a + (b + c));
}

/// Changing a window, but not its id, keeps the desktop in order.
proof fn lemma_updated_wf(d: DesktopState, i: int, w: WindowState)
    requires
        d.wf(),
        0 <= i < d.windows.len(),
        w.wf(),
        w.id == d.windows[i].id,
    ensures
        (DesktopState { windows: d.windows.update(i, w), ..d }).wf(),
{
    let ws = d.windows.update(i, w);
    assert forall|k: int| 0 <= k < ws.len() implies (#[trigger] ws[k]).wf() && ws[k].id
        < d.next_id by {
        assert(d.windows[k].wf());
    }
    assert forall|k: int, l: int| 0 <= k < l < ws.len() implies (#[trigger] ws[k]).id != (
    #[trigger] ws[l]).id by {
        assert(d.windows[k].id != d.windows[l].id);
    }
}

impl WindowState {
    /// The frame around the window: its left and upper edge, its width and its height.
    pub open spec fn outer(self) -> (int, int, int, int) {
        (self.x - 1, self.y - 23, self.w + 2, self.h + 24)
    }

    /// The content's corner, cut off at zero, its width and its height.
    pub open spec fn area(self) -> (int, int, int, int) {
        (at_least_zero(self.x as int), at_least_zero(self.y as int), self.w as int, self.h as int)
    }
}

impl DesktopState {
    /// The area of the first window that is shown under a title.
    pub open spec fn area_titled(self, title: Seq<char>) -> Option<(int, int, int, int)> {
        match shown_titled(self.windows, title) {
            None => None,
            Some(win) => Some(win.area()),
        }
    }
}

} // verus!
