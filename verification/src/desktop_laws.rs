//! What the window manager keeps, whatever the pointer does.
use vstd::prelude::*;
use crate::desktop::{DesktopState, WindowState};
use crate::{desktop, display};

verus! {

/// The ids of some windows, in z-order.
pub open spec fn ids(ws: Seq<WindowState>) -> Seq<usize> {
    ws.map_values(|w: WindowState| w.id)
}

/// The ids of some windows, whatever their order.
pub open spec fn id_bag(ws: Seq<WindowState>) -> vstd::multiset::Multiset<usize> {
    ids(ws).to_multiset()
}

proof fn lemma_raise_bag(d: DesktopState, i: int, w: WindowState)
    requires
        0 <= i < d.windows.len(),
        w.id == d.windows[i].id,
    ensures
        id_bag(d.raised(i, w).windows) == id_bag(d.windows),
{
    broadcast use vstd::seq_lib::group_to_multiset_ensures;

    let s = ids(d.windows);
    let r = ids(d.raised(i, w).windows);
    assert(r =~= s.remove(i).push(s[i]));
    assert(s.remove(i).push(s[i]).to_multiset() =~= s.to_multiset());
}

/// Windows are never lost, duplicated or created by the pointer: only their
/// order changes.
pub proof fn law_windows_kept(d: DesktopState, mx: i32, my: i32, buttons: u8)
    ensures
        id_bag(d.mouse(mx, my, buttons).windows) == id_bag(d.windows),
        d.mouse(mx, my, buttons).windows.len() == d.windows.len(),
{
    let n = d.noted(mx, my, buttons);
    assert(ids(n.windows) == ids(d.windows));
    if let Some(f) = n.focused {
        desktop::lemma_index_found(n.windows, f);
    }
    if n.held() is Some {
        let i = n.held()->0;
        let w = n.pulled(n.windows[i], mx as int, my as int);
        assert(ids(n.windows.update(i, w)) =~= ids(n.windows));
    }
    assert(ids(n.released().windows) =~= ids(n.windows));
    if let Some(id) = n.menu_row(mx as int, my as int) {
        desktop::lemma_index_found(n.windows, id);
        if let Some(i) = desktop::index_of(n.windows, id) {
            lemma_raise_bag(n, i, WindowState { minimized: false, ..n.windows[i] });
        }
    }
    desktop::lemma_topmost(n.windows, mx as int, my as int);
    let c = n.click(mx as int, my as int);
    if desktop::topmost_at(n.windows, mx as int, my as int) is Some {
        let i = desktop::topmost_at(n.windows, mx as int, my as int)->0;
        lemma_raise_bag(n, i, DesktopState::clicked(n.windows[i], mx as int, my as int));
    }
    assert(id_bag(c.windows) == id_bag(d.windows));
    let k = c.slot_at(mx as int) - 1;
    lemma_open_at(c.windows, k);
    if let Some(i) = desktop::open_at(c.windows, k) {
        let w = c.windows[i];
        lemma_raise_bag(c, i, WindowState { minimized: c.focused == Some(w.id), ..w });
    }
}

/// What happens to a desktop.
pub enum DeskEvent {
    /// A window is opened.
    Add { title: Seq<char>, x: i32, y: i32, w: usize, h: usize },
    /// The pointer is seen.
    Mouse { mx: i32, my: i32, buttons: u8 },
}

/// The desktop after some events.
pub open spec fn after(d: DesktopState, es: Seq<DeskEvent>) -> DesktopState
    decreases es.len(),
{
    if es.len() == 0 {
        d
    } else {
        let e = after(d, es.drop_last());
        match es.last() {
            DeskEvent::Add { title, x, y, w, h } => e.added(title, x, y, w, h),
            DeskEvent::Mouse { mx, my, buttons } => e.mouse(mx, my, buttons),
        }
    }
}

/// How many of the events open a window.
pub open spec fn adds(es: Seq<DeskEvent>) -> nat
    decreases es.len(),
{
    if es.len() == 0 {
        0
    } else {
        adds(es.drop_last()) + if es.last() is Add {
            1nat
        } else {
            0nat
        }
    }
}

/// The numbers below `n`, each once.
pub open spec fn numbers(n: nat) -> vstd::multiset::Multiset<usize>
    decreases n,
{
    if n == 0 {
        vstd::multiset::Multiset::empty()
    } else {
        numbers((n - 1) as nat).insert((n - 1) as usize)
    }
}

/// The next id counts the windows ever opened, and each id below it belongs to one
/// window: a window that is opened gets the number of those before it.
pub proof fn law_ids_count(fb_w: usize, fb_h: usize, es: Seq<DeskEvent>)
    requires
        adds(es) <= usize::MAX,
    ensures
        ({
            let d = after(DesktopState::fresh(fb_w, fb_h), es);
            &&& d.next_id == adds(es)
            &&& d.windows.len() == adds(es)
            &&& id_bag(d.windows) == numbers(adds(es))
        }),
    decreases es.len(),
{
    broadcast use vstd::seq_lib::group_to_multiset_ensures;

    let d0 = DesktopState::fresh(fb_w, fb_h);
    if es.len() == 0 {
        assert(ids(d0.windows) =~= Seq::<usize>::empty());
        assert(id_bag(d0.windows) =~= vstd::multiset::Multiset::<usize>::empty());
    } else {
        law_ids_count(fb_w, fb_h, es.drop_last());
        let d = after(d0, es.drop_last());
        match es.last() {
            DeskEvent::Add { title, x, y, w, h } => {
                let e = d.added(title, x, y, w, h);
                assert(ids(e.windows) =~= ids(d.windows).push(d.next_id));
                assert(id_bag(e.windows) =~= id_bag(d.windows).insert(d.next_id));
            },
            DeskEvent::Mouse { mx, my, buttons } => {
                law_windows_kept(d, mx, my, buttons);
            },
        }
    }
}

proof fn lemma_numbers(n: nat, k: usize)
    requires
        n <= usize::MAX,
    ensures
        numbers(n).count(k) == (if k < n {
            1nat
        } else {
            0nat
        }),
    decreases n,
{
    if n > 0 {
        lemma_numbers((n - 1) as nat, k);
    }
}

/// A window opened after any run of windows opened and pointers seen gets the number of
/// those opened before, which none of them has; it comes on top of them, as it was asked
/// for, with an empty content area, and is focused.
pub proof fn law_window_added(
    fb_w: usize,
    fb_h: usize,
    es: Seq<DeskEvent>,
    title: Seq<char>,
    x: i32,
    y: i32,
    w: usize,
    h: usize,
)
    requires
        adds(es) < usize::MAX,
    ensures
        ({
            let d = after(DesktopState::fresh(fb_w, fb_h), es);
            let e = d.added(title, x, y, w, h);
            let new = e.windows.last();
            &&& e.windows == d.windows.push(new)
            &&& new.id == adds(es)
            &&& forall|i: int| 0 <= i < d.windows.len() ==> (#[trigger] d.windows[i]).id != new.id
            &&& new.title == title && new.x == x && new.y == y && new.w == w && new.h == h
            &&& !new.minimized
            &&& new.content.len() == w * h
            &&& e.focused == Some(new.id)
        }),
{
    broadcast use vstd::seq_lib::group_to_multiset_ensures;

    law_ids_count(fb_w, fb_h, es);
    let d = after(DesktopState::fresh(fb_w, fb_h), es);
    let e = d.added(title, x, y, w, h);
    lemma_numbers(adds(es), d.next_id);
    assert forall|i: int| 0 <= i < d.windows.len() implies (#[trigger] d.windows[i]).id
        != d.next_id by {
        let s = ids(d.windows);
        assert(s[i] == d.windows[i].id);
        assert(s.contains(s[i]));
        assert(s.to_multiset().count(s[i]) > 0);
    }
    assert(w * h >= 0) by (nonlinear_arith)
        requires
            w >= 0,
            h >= 0,
    ;
    assert(e.windows =~= d.windows.push(e.windows.last()));
}

proof fn lemma_open_at(ws: Seq<WindowState>, k: int)
    ensures
        desktop::open_at(ws, k) matches Some(i) ==> 0 <= i < ws.len() && !ws[i].minimized,
    decreases ws.len(),
{
    if ws.len() > 0 && k >= 0 {
        lemma_open_at(
            ws.drop_first(),
            if ws[0].minimized {
                k
            } else {
                k - 1
            },
        );
    }
}

/// A fresh click on a window, above the taskbar and not on the start menu, gives that
/// window the focus and puts it on top.
pub proof fn law_click_raises(d: DesktopState, mx: i32, my: i32, buttons: u8)
    requires
        d.wf(),
        buttons & 0x01 != 0,
        d.prev_btn & 0x01 == 0,
        d.held() is None,
        d.menu_row(mx as int, my as int) is None,
        my <= d.fb_h - 32,
        desktop::topmost_at(d.windows, mx as int, my as int) is Some,
    ensures
        ({
            let hit = d.windows[desktop::topmost_at(d.windows, mx as int, my as int)->0];
            let e = d.mouse(mx, my, buttons);
            &&& e.focused == Some(hit.id)
            &&& e.windows.last().id == hit.id
            &&& hit.close_at(mx as int, my as int) ==> e.windows.last().minimized
        }),
{
    desktop::lemma_topmost(d.windows, mx as int, my as int);
}

/// The other windows keep their order when one is raised.
pub proof fn law_raise_keeps_order(d: DesktopState, i: int)
    requires
        0 <= i < d.windows.len(),
    ensures
        d.raised(i, d.windows[i]).windows.drop_last() == d.windows.remove(i),
{
    assert(d.raised(i, d.windows[i]).windows.drop_last() =~= d.windows.remove(i));
}

/// Raising the same window twice is raising it once.
pub proof fn law_front_idempotent(d: DesktopState, id: usize)
    requires
        d.wf(),
    ensures
        d.to_front(id).to_front(id) == d.to_front(id),
{
    desktop::lemma_index_found(d.windows, id);
    if desktop::index_of(d.windows, id) is Some {
        let i = desktop::index_of(d.windows, id)->0;
        let e = d.to_front(id);
        let n = e.windows.len();
        desktop::lemma_index_found(e.windows, id);
        assert(e.windows[n - 1].id == id);
        assert forall|k: int| 0 <= k < n - 1 implies (#[trigger] e.windows[k]).id != id by {
            if k < i {
                assert(d.windows[k].id != d.windows[i].id);
            } else {
                assert(e.windows[k] == d.windows[k + 1]);
                assert(d.windows[i].id != d.windows[k + 1].id);
            }
        }
        lemma_index_last(e.windows, id);
        assert(e.windows.remove(n - 1).push(e.windows[n - 1]) =~= e.windows);
    }
}

proof fn lemma_index_last(ws: Seq<WindowState>, id: usize)
    requires
        ws.len() > 0,
        ws.last().id == id,
        forall|k: int| 0 <= k < ws.len() - 1 ==> (#[trigger] ws[k]).id != id,
    ensures
        desktop::index_of(ws, id) == Some(ws.len() - 1),
    decreases ws.len(),
{
    if ws.len() > 1 {
        let r = ws.drop_first();
        assert(ws[0].id != id);
        assert forall|k: int| 0 <= k < r.len() - 1 implies (#[trigger] r[k]).id != id by {
            assert(r[k] == ws[k + 1]);
        }
        lemma_index_last(r, id);
    }
}

/// A dragged window stays on the screen: not left of it, nor right of it if it
/// is no wider than the screen, and its title bar stays between the top and
/// the taskbar.
pub proof fn law_drag_stays_on_screen(d: DesktopState, w: WindowState, mx: i32, my: i32)
    requires
        d.wf(),
        w.wf(),
        d.fb_h >= 55,
    ensures
        d.drag(w, mx as int, my as int).x + w.w <= d.fb_w,
        w.w <= d.fb_w ==> 0 <= d.drag(w, mx as int, my as int).x,
        22 <= d.drag(w, mx as int, my as int).y <= d.fb_h - 33,
{
}

/// A drag moves the window as far as the pointer moved since the click, as long
/// as that keeps it on the screen.
pub proof fn law_drag_follows(d: DesktopState, w: WindowState, mx0: i32, my0: i32, mx: i32, my: i32)
    requires
        d.wf(),
        w.wf(),
        w.title_at(mx0 as int, my0 as int),
        !w.close_at(mx0 as int, my0 as int),
        0 <= w.x + (mx - mx0) <= d.fb_w - w.w,
        22 <= w.y + (my - my0) <= d.fb_h - 33,
    ensures
        ({
            let held = DesktopState::clicked(w, mx0 as int, my0 as int);
            let moved = d.drag(held, mx as int, my as int);
            moved.x == w.x + (mx - mx0) && moved.y == w.y + (my - my0) && held.dragging
        }),
{
}

/// A resized window is never smaller than the least size, and stays where it is.
pub proof fn law_resize_bounds(w: WindowState, mx: i32, my: i32)
    requires
        w.wf(),
        w.w >= 120,
        w.h >= 60,
    ensures
        ({
            let r = w.stretched(mx as int, my as int);
            &&& r.wf()
            &&& r.w >= 120
            &&& r.h >= 60
            &&& r.x == w.x
            &&& r.y == w.y
        }),
{
    let nw = w.new_w(mx as int);
    let nh = w.new_h(my as int);
    assert(nw * nh >= 0) by (nonlinear_arith)
        requires
            nw >= 0,
            nh >= 0,
    ;
}

/// A resize moves the lower right corner as far as the pointer moved since the click,
/// down to the least size, and as far up as a size can be held.
pub proof fn law_resize_follows(
    d: DesktopState,
    w: WindowState,
    mx0: i32,
    my0: i32,
    mx: i32,
    my: i32,
)
    requires
        d.wf(),
        w.wf(),
        w.handle_at(mx0 as int, my0 as int),
        !w.close_at(mx0 as int, my0 as int),
        !w.title_at(mx0 as int, my0 as int),
        !w.dragging,
        w.w + (mx - mx0) <= i32::MAX,
        w.h + (my - my0) <= i32::MAX,
    ensures
        ({
            let held = DesktopState::clicked(w, mx0 as int, my0 as int);
            let r = d.pulled(held, mx as int, my as int);
            let nw = if w.w + (mx - mx0) < 120 {
                120
            } else {
                w.w + (mx - mx0)
            };
            let nh = if w.h + (my - my0) < 60 {
                60
            } else {
                w.h + (my - my0)
            };
            held.resizing && (nw * nh <= usize::MAX ==> r.w == nw && r.h == nh)
        }),
{
}

/// Letting the button go ends every drag and every resize.
pub proof fn law_release_ends_hold(d: DesktopState, mx: i32, my: i32, buttons: u8, i: int)
    requires
        d.wf(),
        buttons & 0x01 == 0,
        d.prev_btn & 0x01 != 0,
        0 <= i < d.windows.len(),
    ensures
        !d.mouse(mx, my, buttons).windows[i].dragging,
        !d.mouse(mx, my, buttons).windows[i].resizing,
        d.mouse(mx, my, buttons).held() is None,
{
    let e = d.mouse(mx, my, buttons);
    if let Some(f) = e.focused {
        desktop::lemma_index_found(e.windows, f);
    }
}

/// The start menu leads to every program: a click on the row of a window's id, while the
/// menu is open, shows the window, focuses it and puts it on top, whatever it was before.
pub proof fn law_menu_reaches_all(d: DesktopState, i: int, mx: i32, my: i32, buttons: u8)
    requires
        d.wf(),
        d.start_open,
        0 <= i < d.windows.len(),
        0 <= mx < 160,
        d.menu_top() + d.windows[i].id * 20 <= my < d.menu_top() + d.windows[i].id * 20 + 20,
        buttons & 0x01 != 0,
        d.prev_btn & 0x01 == 0,
        d.held() is None,
    ensures
        ({
            let e = d.mouse(mx, my, buttons);
            &&& e.focused == Some(d.windows[i].id)
            &&& e.windows.last() == (WindowState { minimized: false, ..d.windows[i] })
            &&& !e.start_open
        }),
{
    let id = d.windows[i].id;
    let n = d.noted(mx, my, buttons);
    assert(d.windows[i].id < d.next_id);
    assert(n.menu_row(mx as int, my as int) == Some(id));
    desktop::lemma_index_found(n.windows, id);
    lemma_index_unique(d, i);
}

proof fn lemma_index_unique(d: DesktopState, i: int)
    requires
        d.wf(),
        0 <= i < d.windows.len(),
    ensures
        desktop::index_of(d.windows, d.windows[i].id) == Some(i),
{
    let id = d.windows[i].id;
    assert forall|j: int| 0 <= j < i implies (#[trigger] d.windows[j]).id != id by {
        assert(d.windows[j].id != d.windows[i].id);
    }
    desktop::lemma_index_of(d.windows, id, i);
}

/// The start button opens the menu where it has room, and closes it again.
pub proof fn law_start_toggles(d: DesktopState, mx: i32)
    requires
        d.wf(),
        d.menu_fits(),
        d.slot_at(mx as int) == 0,
    ensures
        d.taskbar_click(mx as int).start_open == !d.start_open,
        d.taskbar_click(mx as int).taskbar_click(mx as int) == d,
{
}

/// The taskbar shows the windows that are shown, in their order: the window at `i`, if it
/// is shown, answers to the slot in which its button is drawn, and a click there hides it
/// if it has the focus and else gives it the focus.
pub proof fn law_buttons_answer(d: DesktopState, i: int, mx: i32)
    requires
        d.wf(),
        0 <= i < d.windows.len(),
        !d.windows[i].minimized,
        d.slot_at(mx as int) == d.slot_of(i),
    ensures
        ({
            let e = d.taskbar_click(mx as int);
            let w = d.windows[i];
            &&& e.focused == Some(w.id)
            &&& e.windows.last() == (WindowState { minimized: d.focused == Some(w.id), ..w })
        }),
{
    lemma_open_count(d.windows, i);
    lemma_open_count_at(d.windows, i);
}

proof fn lemma_open_count(ws: Seq<WindowState>, n: int)
    requires
        0 <= n <= ws.len(),
    ensures
        desktop::open_count(ws, n) >= 0,
    decreases n,
{
    if n > 0 {
        lemma_open_count(ws, n - 1);
    }
}

/// The first window counts, or does not, before all others.
proof fn lemma_open_count_first(ws: Seq<WindowState>, n: int)
    requires
        0 < n <= ws.len(),
    ensures
        desktop::open_count(ws, n) == desktop::open_count(ws.drop_first(), n - 1) + if ws[0].minimized {
            0int
        } else {
            1
        },
    decreases n,
{
    if n > 1 {
        lemma_open_count_first(ws, n - 1);
        assert(ws.drop_first()[n - 2] == ws[n - 1]);
    } else {
        assert(desktop::open_count(ws, 0) == 0);
    }
}

proof fn lemma_open_count_at(ws: Seq<WindowState>, i: int)
    requires
        0 <= i < ws.len(),
        !ws[i].minimized,
    ensures
        desktop::open_at(ws, desktop::open_count(ws, i)) == Some(i),
    decreases ws.len(),
{
    lemma_open_count(ws, i);
    if i > 0 {
        let r = ws.drop_first();
        assert(r[i - 1] == ws[i]);
        lemma_open_count_first(ws, i);
        lemma_open_count(r, i - 1);
        lemma_open_count_at(r, i - 1);
    }
}

/// A pointer that stays where it is, with the same buttons, changes nothing while no
/// window is held.
pub proof fn law_still_pointer(d: DesktopState)
    requires
        d.wf(),
        d.held() is None,
    ensures
        d.mouse(d.last_x, d.last_y, d.prev_btn) == d,
{
}

// ── What is drawn and what is hit ───────────────────────────────────────────

/// The points of a window that can be clicked are those where it is drawn: its content
/// area is the rectangle that the frame fills below the title bar, the title bar lies right
/// above it over its whole width, and the red square of the close button is hit on its
/// inside. The dots of the resize handle lie on the handle, in the lower right corner.
pub proof fn law_drawn_is_hit(w: WindowState, focused: bool, x: int, y: int)
    requires
        w.x >= 0,
        w.y >= 22,
    ensures
        ({
            let f = w.draw_frame(focused);
            let n = f.len() as int;
            &&& n >= 5
            &&& display::fills(f[n - 1], x, y) <==> w.content_at(x, y)
            &&& display::fills(f[n - 5], x, y) ==> w.title_at(x, y)
            &&& display::fills(f[n - 3], x, y) && display::fills(f[n - 3], x + 1, y - 1)
                && display::fills(f[n - 3], x - 1, y + 1) ==> w.close_at(x, y)
            &&& display::painted(w.draw_handle(), x, y) is Some ==> w.handle_at(x, y)
                && w.content_at(x, y)
        }),
        w.title_at(x, y) ==> w.x - 1 <= x <= w.x + w.w && w.y - 23 <= y < w.y,
        w.title_at(x, y) ==> !w.content_at(x, y) && (w.h >= 12 ==> !w.handle_at(x, y)),
        w.close_at(x, y) && w.w >= 18 ==> w.title_at(x, y),
{
    display::law_untouched(w.draw_handle(), x, y);
    let h = w.draw_handle();
    if display::painted(h, x, y) is Some {
        let i = choose|i: int| 0 <= i < h.len() && display::fills(#[trigger] h[i], x, y);
        assert(i == 0 || i == 1 || i == 2);
    }
}

/// The title of a window stands in its title bar, and its frame shows by its colour
/// whether the window has the focus.
pub proof fn law_title_drawn(w: WindowState, focused: bool)
    requires
        w.x >= 1,
        w.y >= 23,
    ensures
        ({
            let f = w.draw_frame(focused);
            &&& f.len() == 6
            &&& f[2] == display::label(
                w.x + 6,
                w.y - 17,
                w.title,
                display::rgb(desktop::TEXT as int),
                1,
            )
            &&& display::color_of(f[0]) == (if focused {
                display::Color { r: 0x6C, g: 0x8E, b: 0xFF }
            } else {
                display::Color { r: 0x33, g: 0x33, b: 0x55 }
            })
            &&& display::color_of(f[1]) == (if focused {
                display::Color { r: 0x25, g: 0x25, b: 0x50 }
            } else {
                display::Color { r: 0x1A, g: 0x1A, b: 0x2E }
            })
        }),
{
}

/// The window that a point belongs to is the topmost one that is shown there; a minimized
/// window is nowhere.
pub proof fn law_topmost(ws: Seq<WindowState>, x: int, y: int)
    ensures
        desktop::topmost_at(ws, x, y) matches Some(i) ==> 0 <= i < ws.len() && ws[i].shown_at(x, y)
            && !ws[i].minimized && forall|j: int|
            i < j < ws.len() ==> !(#[trigger] ws[j]).shown_at(x, y),
        desktop::topmost_at(ws, x, y) is None ==> forall|j: int|
            0 <= j < ws.len() ==> !(#[trigger] ws[j]).shown_at(x, y),
        desktop::topmost_hit(ws, x, y) matches Some(id) ==> exists|i: int|
            0 <= i < ws.len() && (#[trigger] ws[i]).id == id && !ws[i].minimized && (ws[i].content_at(
                x,
                y,
            ) || ws[i].title_at(x, y)) && forall|j: int|
                i < j < ws.len() ==> (#[trigger] ws[j]).minimized || !(ws[j].content_at(x, y)
                    || ws[j].title_at(x, y)),
        desktop::topmost_hit(ws, x, y) is None ==> forall|j: int|
            0 <= j < ws.len() ==> (#[trigger] ws[j]).minimized || !(ws[j].content_at(x, y)
                || ws[j].title_at(x, y)),
    decreases ws.len(),
{
    if ws.len() > 0 {
        let d = ws.drop_last();
        let n = ws.len() - 1;
        law_topmost(d, x, y);
        assert(ws[n] == ws.last());
        assert forall|j: int| 0 <= j < n implies d[j] == #[trigger] ws[j] by {}
        let hit = !ws.last().minimized && (ws.last().content_at(x, y) || ws.last().title_at(x, y));
        if hit {
            assert(ws[n].id == ws.last().id);
        } else if desktop::topmost_hit(d, x, y) is Some {
            let id = desktop::topmost_hit(d, x, y)->0;
            let i = choose|i: int|
                0 <= i < d.len() && (#[trigger] d[i]).id == id && !d[i].minimized && (
                d[i].content_at(x, y) || d[i].title_at(x, y)) && forall|j: int|
                    i < j < d.len() ==> (#[trigger] d[j]).minimized || !(d[j].content_at(x, y)
                        || d[j].title_at(x, y));
            assert(ws[i].id == id);
            assert forall|j: int| i < j < ws.len() implies (#[trigger] ws[j]).minimized || !(
            ws[j].content_at(x, y) || ws[j].title_at(x, y)) by {
                if j < n {
                    assert(d[j] == ws[j]);
                }
            }
        }
    }
}

/// What a click does to the window it hits: on the close button the window is minimized;
/// else on the title bar it is taken hold of to be moved; on the handle, to be resized; in
/// the content it stays as it is. Its size, its place, its title and its content stay.
pub proof fn law_click_on_window(w: WindowState, x: i32, y: i32)
    requires
        w.wf(),
    ensures
        ({
            let c = DesktopState::clicked(w, x as int, y as int);
            &&& c.id == w.id && c.title == w.title && c.x == w.x && c.y == w.y && c.w == w.w
                && c.h == w.h && c.content == w.content
            &&& w.close_at(x as int, y as int) ==> c.minimized && c.dragging == w.dragging
            &&& !w.close_at(x as int, y as int) ==> c.minimized == w.minimized
            &&& w.title_at(x as int, y as int) && !w.close_at(x as int, y as int) ==> c.dragging
            &&& !w.title_at(x as int, y as int) ==> c.dragging == w.dragging
            &&& w.content_at(x as int, y as int) && !w.close_at(x as int, y as int)
                && !w.handle_at(x as int, y as int) ==> c == w
        }),
{
}

/// A desktop on which no window is held and no button was down.
pub open spec fn at_rest(d: DesktopState) -> bool {
    &&& d.wf()
    &&& d.prev_btn & 0x01 == 0
    &&& forall|i: int|
        0 <= i < d.windows.len() ==> !(#[trigger] d.windows[i]).dragging && !d.windows[i].resizing
}

/// Pressing the button on the title bar of the topmost window there and moving the pointer
/// moves that window by as much as the pointer moved, while that keeps it on the screen.
/// It comes to the front, and all other windows stay as they are.
pub proof fn law_title_drags(d: DesktopState, i: int, x0: i32, y0: i32, x: i32, y: i32)
    requires
        at_rest(d),
        0 <= i < d.windows.len(),
        desktop::topmost_at(d.windows, x0 as int, y0 as int) == Some(i),
        d.windows[i].title_at(x0 as int, y0 as int),
        !d.windows[i].close_at(x0 as int, y0 as int),
        y0 <= d.fb_h - 32,
        !d.start_open,
        0 <= d.windows[i].x + (x - x0) <= d.fb_w - d.windows[i].w,
        22 <= d.windows[i].y + (y - y0) <= d.fb_h - 33,
    ensures
        ({
            let w = d.windows[i];
            let e = d.mouse(x0, y0, 1).mouse(x, y, 1);
            let m = e.windows.last();
            &&& m.id == w.id
            &&& m.x == w.x + (x - x0)
            &&& m.y == w.y + (y - y0)
            &&& m.w == w.w && m.h == w.h && m.title == w.title && !m.minimized
            &&& e.windows.drop_last() == d.windows.remove(i)
            &&& e.focused == Some(w.id)
        }),
{
    assert(1u8 & 0x01 != 0) by (bit_vector);
    desktop::lemma_topmost(d.windows, x0 as int, y0 as int);
    let w = d.windows[i];
    let n = d.noted(x0, y0, 1);
    lemma_none_held(n);
    let h = DesktopState::clicked(w, x0 as int, y0 as int);
    let p = d.mouse(x0, y0, 1);
    assert(p.windows == d.windows.remove(i).push(h));
    assert(p.focused == Some(w.id));
    let q = p.noted(x, y, 1);
    lemma_raised_index(d, i, h);
    let last = q.windows.len() - 1;
    assert(q.held() == Some(last));
    let e = p.mouse(x, y, 1);
    assert(e.windows == q.windows.update(last, q.pulled(h, x as int, y as int)));
    assert(e.windows.drop_last() =~= d.windows.remove(i));
    law_drag_follows(d, w, x0, y0, x, y);
    assert(e.windows.last() == q.drag(h, x as int, y as int));
}

proof fn lemma_none_held(d: DesktopState)
    requires
        forall|i: int|
            0 <= i < d.windows.len() ==> !(#[trigger] d.windows[i]).dragging
                && !d.windows[i].resizing,
    ensures
        d.held() is None,
{
    if let Some(f) = d.focused {
        desktop::lemma_index_found(d.windows, f);
    }
}

/// A window that was raised is found last.
proof fn lemma_raised_index(d: DesktopState, i: int, w: WindowState)
    requires
        d.wf(),
        0 <= i < d.windows.len(),
        w.id == d.windows[i].id,
    ensures
        desktop::index_of(d.windows.remove(i).push(w), w.id) == Some(d.windows.len() - 1),
{
    let ws = d.windows.remove(i).push(w);
    assert forall|k: int| 0 <= k < ws.len() - 1 implies (#[trigger] ws[k]).id != w.id by {
        let dk = if k < i {
            k
        } else {
            k + 1
        };
        assert(ws[k] == d.windows[dk]);
        if dk < i {
            assert(d.windows[dk].id != d.windows[i].id);
        } else {
            assert(d.windows[i].id != d.windows[dk].id);
        }
    }
    lemma_index_last(ws, w.id);
}

/// Pressing the button on the handle of the topmost window there and moving the pointer
/// gives the window as much more width and height as the pointer moved, down to 120 by 60;
/// its place stays, and so do all other windows.
pub proof fn law_handle_resizes(d: DesktopState, i: int, x0: i32, y0: i32, x: i32, y: i32)
    requires
        at_rest(d),
        0 <= i < d.windows.len(),
        desktop::topmost_at(d.windows, x0 as int, y0 as int) == Some(i),
        d.windows[i].handle_at(x0 as int, y0 as int),
        !d.windows[i].close_at(x0 as int, y0 as int),
        !d.windows[i].title_at(x0 as int, y0 as int),
        y0 <= d.fb_h - 32,
        !d.start_open,
        120 <= d.windows[i].w + (x - x0) <= i32::MAX,
        60 <= d.windows[i].h + (y - y0) <= i32::MAX,
        (d.windows[i].w + (x - x0)) * (d.windows[i].h + (y - y0)) <= usize::MAX,
    ensures
        ({
            let w = d.windows[i];
            let e = d.mouse(x0, y0, 1).mouse(x, y, 1);
            let m = e.windows.last();
            &&& m.id == w.id
            &&& m.w == w.w + (x - x0)
            &&& m.h == w.h + (y - y0)
            &&& m.x == w.x && m.y == w.y && m.title == w.title
            &&& e.windows.drop_last() == d.windows.remove(i)
            &&& e.focused == Some(w.id)
        }),
{
    assert(1u8 & 0x01 != 0) by (bit_vector);
    desktop::lemma_topmost(d.windows, x0 as int, y0 as int);
    let w = d.windows[i];
    let n = d.noted(x0, y0, 1);
    lemma_none_held(n);
    let h = DesktopState::clicked(w, x0 as int, y0 as int);
    let p = d.mouse(x0, y0, 1);
    assert(p.windows == d.windows.remove(i).push(h));
    let q = p.noted(x, y, 1);
    lemma_raised_index(d, i, h);
    let last = q.windows.len() - 1;
    assert(q.held() == Some(last));
    let e = p.mouse(x, y, 1);
    assert(e.windows == q.windows.update(last, q.pulled(h, x as int, y as int)));
    assert(e.windows.drop_last() =~= d.windows.remove(i));
    law_resize_follows(d, w, x0, y0, x, y);
}

/// A fresh click on a window, above the taskbar and with the menu closed, brings the
/// topmost window there to the front and gives it the focus; the others keep their order
/// and stay as they are. A click where no window is changes no window.
pub proof fn law_click_acts_once(d: DesktopState, x: i32, y: i32)
    requires
        at_rest(d),
        y <= d.fb_h - 32,
        !d.start_open,
    ensures
        ({
            let e = d.mouse(x, y, 1);
            &&& desktop::topmost_at(d.windows, x as int, y as int) matches Some(i) ==> {
                &&& e.windows.last() == DesktopState::clicked(d.windows[i], x as int, y as int)
                &&& e.windows.drop_last() == d.windows.remove(i)
                &&& e.focused == Some(d.windows[i].id)
            }
            &&& desktop::topmost_at(d.windows, x as int, y as int) is None ==> e.windows
                == d.windows && e.focused == d.focused
            &&& e.prev_btn == 1
            &&& d.mouse(x, y, 0).windows == d.windows
        }),
{
    assert(1u8 & 0x01 != 0 && 0u8 & 0x01 == 0) by (bit_vector);
    let n = d.noted(x, y, 1);
    lemma_none_held(n);
    lemma_none_held(d.noted(x, y, 0));
    desktop::lemma_topmost(d.windows, x as int, y as int);
    if let Some(i) = desktop::topmost_at(d.windows, x as int, y as int) {
        let h = DesktopState::clicked(d.windows[i], x as int, y as int);
        assert(d.windows.remove(i).push(h).drop_last() =~= d.windows.remove(i));
    }
}

/// The pointer and its buttons are remembered, and a frame is wanted when they change.
pub proof fn law_pointer_noted(d: DesktopState, x: i32, y: i32, buttons: u8)
    ensures
        d.noted(x, y, buttons).prev_btn == buttons,
        d.noted(x, y, buttons).last_x == x && d.noted(x, y, buttons).last_y == y,
        d.noted(x, y, buttons).dirty <==> d.dirty || x != d.last_x || y != d.last_y || buttons
            != d.prev_btn,
        d.noted(x, y, buttons).windows == d.windows,
{
}

/// Hiding, showing or renaming a window concerns that window alone, and nothing else of it.
pub proof fn law_one_window(d: DesktopState, i: int, j: int, hide: bool, title: Seq<char>)
    requires
        d.wf(),
        0 <= i < d.windows.len(),
        0 <= j < d.windows.len(),
        i != j,
    ensures
        ({
            let id = d.windows[i].id;
            let a = d.with_minimized(id, hide);
            let b = d.with_title(id, title);
            &&& a.windows[i] == (WindowState { minimized: hide, ..d.windows[i] })
            &&& b.windows[i] == (WindowState { title, ..d.windows[i] })
            &&& a.windows[j] == d.windows[j] && b.windows[j] == d.windows[j]
            &&& a.windows.len() == d.windows.len() && b.windows.len() == d.windows.len()
            &&& a.focused == d.focused && b.focused == d.focused
        }),
{
    lemma_index_unique(d, i);
}

/// Bringing a window to the front puts it on top and focuses it; the others keep their
/// order.
pub proof fn law_to_front(d: DesktopState, i: int)
    requires
        d.wf(),
        0 <= i < d.windows.len(),
    ensures
        ({
            let e = d.to_front(d.windows[i].id);
            &&& e.windows.last() == d.windows[i]
            &&& e.windows.drop_last() == d.windows.remove(i)
            &&& e.focused == Some(d.windows[i].id)
        }),
{
    lemma_index_unique(d, i);
    assert(d.windows.remove(i).push(d.windows[i]).drop_last() =~= d.windows.remove(i));
}

// ── The taskbar and the menu ────────────────────────────────────────────────

/// The button of a window is drawn with the window's title, and a click on it, where it is
/// drawn, is a click on that window's slot; the first slot is the start button's.
pub proof fn law_button_where_drawn(d: DesktopState, i: int, mx: i32, my: int)
    requires
        d.wf(),
        0 <= i < d.windows.len(),
        d.has_button(i),
        display::fills(d.draw_button(i)[0], mx as int, my),
    ensures
        d.slot_at(mx as int) == d.slot_of(i),
        d.fb_h - 32 < my < d.fb_h,
        0 <= mx < d.fb_w,
        d.draw_button(i)[1]->Text_text == d.windows[i].button_label(),
        vstd::utf8::encode_utf8(d.windows[i].title).len() <= 12 ==> d.windows[i].button_label()
            == d.windows[i].title,
        d.slot_of(i) >= 1,
{
    lemma_open_count(d.windows, i);
}

/// The start button is drawn in the first slot: a click there opens and closes the menu.
pub proof fn law_start_where_drawn(d: DesktopState, mx: i32, my: int)
    requires
        d.wf(),
        d.fb_w >= 120,
        display::fills(d.draw_start()[0], mx as int, my),
    ensures
        d.slot_at(mx as int) == 0,
        d.fb_h - 32 < my < d.fb_h,
        d.menu_fits() ==> d.taskbar_click(mx as int).start_open == !d.start_open,
        d.taskbar_click(mx as int).windows == d.windows,
        d.draw_start()[1]->Text_text == "Start"@,
{
}

/// A click on the taskbar, with the menu closed and no window behind it, is a click on the
/// slot of the taskbar under the pointer.
pub proof fn law_taskbar_clicked(d: DesktopState, x: i32, y: i32)
    requires
        at_rest(d),
        d.fb_h - 32 < y,
        !d.start_open,
        desktop::topmost_at(d.windows, x as int, y as int) is None,
    ensures
        d.mouse(x, y, 1) == d.noted(x, y, 1).taskbar_click(x as int),
{
    assert(1u8 & 0x01 != 0) by (bit_vector);
    lemma_none_held(d.noted(x, y, 1));
}

/// A click on a slot without a window closes the menu and changes no window.
pub proof fn law_empty_slot(d: DesktopState, mx: i32)
    requires
        d.slot_at(mx as int) >= 1,
        desktop::open_at(d.windows, d.slot_at(mx as int) - 1) is None,
    ensures
        d.taskbar_click(mx as int) == (DesktopState { start_open: false, ..d }),
{
}

/// The rows of the open menu name the programs by their titles, one under another in the
/// order of their ids, and a click on a row, where its title is drawn, is a click on that
/// program's row.
pub proof fn law_menu_rows(d: DesktopState, i: int, mx: i32, my: i32)
    requires
        d.wf(),
        d.start_open,
        0 <= i < d.windows.len(),
        8 <= mx < 160,
        d.fb_h - 32 - 20 * d.next_id + 20 * d.windows[i].id + 6 <= my < d.fb_h - 32 - 20 * d.next_id
            + 20 * d.windows[i].id + 6 + 12,
    ensures
        d.menu_row(mx as int, my as int) == Some(d.windows[i].id),
        d.draw_rows(d.next_id as int).contains(
            display::label(
                8,
                d.fb_h - 32 - 20 * d.next_id + 20 * d.windows[i].id + 6,
                d.windows[i].title,
                display::rgb(desktop::TEXT as int),
                1,
            ),
        ),
{
    lemma_menu_row_drawn(d, i, d.next_id as int);
}

proof fn lemma_menu_row_drawn(d: DesktopState, i: int, n: int)
    requires
        d.wf(),
        0 <= i < d.windows.len(),
        d.windows[i].id < n <= d.next_id,
    ensures
        d.draw_rows(n).contains(
            display::label(
                8,
                d.menu_top() + d.windows[i].id * 20 + 6,
                d.windows[i].title,
                display::rgb(desktop::TEXT as int),
                1,
            ),
        ),
    decreases n,
{
    let l = display::label(
        8,
        d.menu_top() + d.windows[i].id * 20 + 6,
        d.windows[i].title,
        display::rgb(desktop::TEXT as int),
        1,
    );
    let a = d.draw_rows(n - 1);
    if d.windows[i].id == n - 1 {
        lemma_index_unique(d, i);
        assert(d.draw_rows(n)[a.len() as int] == l);
    } else {
        lemma_menu_row_drawn(d, i, n - 1);
        let k = choose|k: int| 0 <= k < a.len() && a[k] == l;
        assert(d.draw_rows(n)[k] == l);
    }
}

/// The menu lies above the taskbar, twenty pixels for each program, and only while it is
/// open; a click beside it closes it.
pub proof fn law_menu_place(d: DesktopState, mx: i32, my: i32)
    requires
        d.wf(),
    ensures
        d.menu_row(mx as int, my as int) is Some <==> d.start_open && 0 <= mx < 160 && d.fb_h - 32
            - 20 * d.next_id <= my < d.fb_h - 32,
        d.menu_row(mx as int, my as int) is None && my <= d.fb_h - 32 ==> !d.pressed(
            mx as int,
            my as int,
        ).start_open,
        !d.start_open ==> d.draw_menu().len() == 0,
{
}

/// A minimized window is not drawn, has no button, and cannot be hit.
pub proof fn law_minimized_is_gone(d: DesktopState, i: int, x: int, y: int)
    requires
        0 <= i < d.windows.len(),
        d.windows[i].minimized,
    ensures
        d.draw_windows(i + 1) == d.draw_windows(i),
        !d.has_button(i),
        d.button_part(i).len() == 0,
        !d.windows[i].shown_at(x, y),
{
    assert(d.draw_windows(i + 1) =~= d.draw_windows(i));
}

// ── What is seen of the desktop ─────────────────────────────────────────────

/// A window's frame lies a pixel around its title bar and its content; the bar has the
/// content's width and lies right above it, with the title at its left end and the close
/// button, a cross in a square, at its right. The content is dark.
pub proof fn law_frame_laid_out(w: WindowState, focused: bool)
    requires
        w.x >= 1,
        w.y >= 23,
        w.w >= 18,
    ensures
        ({
            let f = w.draw_frame(focused);
            let (x, y, ow, oh) = w.outer();
            &&& x == w.x - 1 && x + ow == w.x + w.w + 1
            &&& y == w.y - 22 - 1 && y + oh == w.y + w.h + 1
            &&& f[0] matches display::Draw::Rect { x: a, y: b, w: c, h: d, .. } && a == x && b == y
                && c == ow && d == oh
            &&& f[1] matches display::Draw::Rect { x: a, y: b, w: c, h: d, .. } && a == w.x && b + d
                == w.y && c == w.w && d == 22
            &&& f[2] matches display::Draw::Text { x: a, y: b, text, scale, .. } && a == w.x + 6 && b
                == w.y - 17 && text == w.title && scale == 1
            &&& f[3] matches display::Draw::Rect { x: a, y: b, w: c, h: d, color } && a + c + 4 == w.x
                + w.w && b == w.y - 18 && c == 14 && d == 14 && color == display::rgb(0x8B1A1A)
            &&& f[4] matches display::Draw::Text { x: a, y: b, text, .. } && a == w.x + w.w - 14 && b
                == w.y - 17 && text == seq!['x']
            &&& f[5] matches display::Draw::Rect { x: a, y: b, w: c, h: d, color } && a == w.x && b
                == w.y && c == w.w && d == w.h && color == display::rgb(0x141414)
        }),
{
    reveal_strlit("x");
    assert("x"@ =~= seq!['x']);
}

proof fn lemma_pixel_row(w: WindowState, r: int, n: int, row: int, col: int)
    requires
        w.x >= 0,
        w.y >= 0,
        0 <= n,
        0 <= col,
    ensures
        ({
            let c = display::rgb(w.content[row * w.w + col] as int);
            display::painted(w.draw_pixels(r, n), w.x + col, w.y + row) == (if r == row && col < n
                && c != display::rgb(0x141414) {
                Some(c)
            } else {
                None
            })
        }),
    decreases n,
{
    if n > 0 {
        let a = w.draw_pixels(r, n - 1);
        let b = w.draw_pixel(r, n - 1);
        lemma_pixel_row(w, r, n - 1, row, col);
        display::law_later_over_earlier(a, b, w.x + col, w.y + row);
        lemma_one_pixel(w, r, n - 1, w.x + col, w.y + row);
    }
}

proof fn lemma_one_pixel(w: WindowState, r: int, c: int, x: int, y: int)
    requires
        w.x >= 0,
        w.y >= 0,
    ensures
        ({
            let color = display::rgb(w.content[r * w.w + c] as int);
            display::painted(w.draw_pixel(r, c), x, y) == (if x == w.x + c && y == w.y + r && color
                != display::rgb(0x141414) {
                Some(color)
            } else {
                None
            })
        }),
{
    reveal_with_fuel(display::painted, 3);
    let p = w.draw_pixel(r, c);
    if p.len() > 0 {
        assert(p.drop_last() =~= Seq::<display::Draw>::empty());
    }
}

proof fn lemma_pixels(w: WindowState, n: int, row: int, col: int)
    requires
        w.x >= 0,
        w.y >= 0,
        0 <= n,
        0 <= col < w.w,
        0 <= row,
    ensures
        ({
            let c = display::rgb(w.content[row * w.w + col] as int);
            display::painted(w.draw_content(n), w.x + col, w.y + row) == (if row < n && c
                != display::rgb(0x141414) {
                Some(c)
            } else {
                None
            })
        }),
    decreases n,
{
    if n > 0 {
        let a = w.draw_content(n - 1);
        let b = w.draw_pixels(n - 1, w.w as int);
        lemma_pixels(w, n - 1, row, col);
        lemma_pixel_row(w, n - 1, w.w as int, row, col);
        display::law_later_over_earlier(a, b, w.x + col, w.y + row);
    }
}

/// Every pixel of a window's content is seen at its place, row by row from the corner, in
/// its own colour.
pub proof fn law_pixels_seen(w: WindowState, focused: bool, row: int, col: int)
    requires
        w.x >= 0,
        w.y >= 0,
        0 <= row < w.h,
        0 <= col < w.w,
    ensures
        display::painted(w.drawing(focused), w.x + col, w.y + row) == Some(
            display::rgb(w.content[row * w.w + col] as int),
        ),
{
    let f = w.draw_frame(focused);
    let c = w.draw_content(w.h as int);
    lemma_pixels(w, w.h as int, row, col);
    display::law_later_over_earlier(f, c, w.x + col, w.y + row);
    assert(display::fills(f.last(), w.x + col, w.y + row));
    reveal_with_fuel(display::painted, 2);
}

/// The pointer is seen over the taskbar, the taskbar over the start menu, the menu over the
/// windows, a window over those below it, and all over the background. What is minimized
/// is not drawn.
pub proof fn law_desktop_layers(d: DesktopState, clock: Seq<char>, cx: int, cy: int, x: int, y: int)
    ensures
        display::painted(d.drawing(clock, cx, cy), x, y) == (if display::painted(
            DesktopState::draw_cross(cx, cy),
            x,
            y,
        ) is Some {
            display::painted(DesktopState::draw_cross(cx, cy), x, y)
        } else if display::painted(d.draw_taskbar(clock), x, y) is Some {
            display::painted(d.draw_taskbar(clock), x, y)
        } else if display::painted(d.draw_menu(), x, y) is Some {
            display::painted(d.draw_menu(), x, y)
        } else if display::painted(d.draw_windows(d.windows.len() as int), x, y) is Some {
            display::painted(d.draw_windows(d.windows.len() as int), x, y)
        } else {
            Some(display::rgb(0x0D0D0D))
        }),
        forall|n: int|
            0 < n <= d.windows.len() ==> #[trigger] display::painted(d.draw_windows(n), x, y) == (
            if !d.windows[n - 1].minimized && display::painted(
                d.windows[n - 1].drawing(d.focused == Some(d.windows[n - 1].id)),
                x,
                y,
            ) is Some {
                display::painted(
                    d.windows[n - 1].drawing(d.focused == Some(d.windows[n - 1].id)),
                    x,
                    y,
                )
            } else {
                display::painted(d.draw_windows(n - 1), x, y)
            }),
        display::painted(d.draw_windows(0), x, y) is None,
{
    let back = seq![display::Draw::Clear { color: display::rgb(desktop::BG as int) }];
    let ws = d.draw_windows(d.windows.len() as int);
    let menu = d.draw_menu();
    let bar = d.draw_taskbar(clock);
    let cross = DesktopState::draw_cross(cx, cy);
    display::law_later_over_earlier(back + ws + menu + bar, cross, x, y);
    display::law_later_over_earlier(back + ws + menu, bar, x, y);
    display::law_later_over_earlier(back + ws, menu, x, y);
    display::law_later_over_earlier(back, ws, x, y);
    assert(display::painted(back, x, y) == Some(display::rgb(0x0D0D0D))) by {
        reveal_with_fuel(display::painted, 2);
    }
    assert forall|n: int| 0 < n <= d.windows.len() implies #[trigger] display::painted(
        d.draw_windows(n),
        x,
        y,
    ) == (if !d.windows[n - 1].minimized && display::painted(
        d.windows[n - 1].drawing(d.focused == Some(d.windows[n - 1].id)),
        x,
        y,
    ) is Some {
        display::painted(d.windows[n - 1].drawing(d.focused == Some(d.windows[n - 1].id)), x, y)
    } else {
        display::painted(d.draw_windows(n - 1), x, y)
    }) by {
        let w = d.windows[n - 1];
        let top = if w.minimized {
            Seq::<display::Draw>::empty()
        } else {
            w.drawing(d.focused == Some(w.id))
        };
        display::law_later_over_earlier(d.draw_windows(n - 1), top, x, y);
    }
}

/// The taskbar is a strip of 32 pixels along the lower edge, as wide as the screen, with a
/// bright line on top; the clock stands 80 pixels before its right end.
pub proof fn law_taskbar_laid_out(d: DesktopState, clock: Seq<char>)
    ensures
        ({
            let t = d.draw_taskbar(clock);
            &&& t[0] == (display::Draw::Rect {
                x: 0,
                y: d.fb_h - 32,
                w: d.fb_w as int,
                h: 32,
                color: display::rgb(0x0A0A14),
            })
            &&& t[1] == (display::Draw::Rect {
                x: 0,
                y: d.fb_h - 32,
                w: d.fb_w as int,
                h: 1,
                color: display::rgb(0x6C8EFF),
            })
            &&& t.last() == (display::Draw::Text {
                x: d.fb_w - 80,
                y: d.fb_h - 22,
                text: clock,
                color: display::rgb(0x888888),
                scale: 1,
            })
        }),
{
}

/// Every shown window with room for it has a button, in its slot, by its title; the button
/// of the window with the focus is lit, and so is the start button while the menu is open.
pub proof fn law_buttons_drawn(d: DesktopState, clock: Seq<char>, i: int)
    requires
        0 <= i < d.windows.len(),
        d.has_button(i),
    ensures
        ({
            let lit = display::rgb(0x2A2A50);
            let unlit = display::rgb(0x1A1A30);
            &&& d.draw_taskbar(clock).contains(
                display::Draw::Rect {
                    x: 120 * d.slot_of(i) + 4,
                    y: d.fb_h - 28,
                    w: 112,
                    h: 24,
                    color: if d.focused == Some(d.windows[i].id) {
                        lit
                    } else {
                        unlit
                    },
                },
            )
            &&& d.draw_taskbar(clock).contains(
                display::Draw::Text {
                    x: 120 * d.slot_of(i) + 10,
                    y: d.fb_h - 22,
                    text: d.windows[i].button_label(),
                    color: display::rgb(0xE8E8E8),
                    scale: 1,
                },
            )
            &&& display::color_of(d.draw_start()[0]) == if d.start_open {
                lit
            } else {
                unlit
            }
        }),
{
    let n = d.windows.len() as int;
    let bs = d.draw_buttons(n);
    let t = d.draw_taskbar(clock);
    let k = lemma_button_within(d, n, i);
    assert(t[4 + k] == bs[k]);
    assert(t[4 + (k + 1)] == bs[k + 1]);
}

proof fn lemma_button_within(d: DesktopState, n: int, i: int) -> (k: int)
    requires
        0 <= i < n <= d.windows.len(),
        d.has_button(i),
    ensures
        0 <= k < d.draw_buttons(n).len() - 1,
        d.draw_buttons(n)[k] == d.draw_button(i)[0],
        d.draw_buttons(n)[k + 1] == d.draw_button(i)[1],
    decreases n,
{
    if i == n - 1 {
        d.draw_buttons(n - 1).len() as int
    } else {
        lemma_button_within(d, n - 1, i)
    }
}

/// A button shows the first twelve characters of a longer title.
pub proof fn law_button_label(w: WindowState)
    requires
        vstd::utf8::is_ascii_chars(w.title),
    ensures
        w.button_label() == (if w.title.len() > 12 {
            w.title.take(12)
        } else {
            w.title
        }),
{
    let s = w.title;
    vstd::utf8::is_ascii_chars_encode_utf8(s);
    assert(vstd::utf8::encode_utf8(s).len() == s.len());
    if s.len() > 12 {
        let a = s.take(12);
        let b = s.skip(12);
        assert(s =~= a + b);
        crate::text::lemma_encode_concat(a, b);
        vstd::utf8::is_ascii_chars_concat(s, a, b);
        vstd::utf8::is_ascii_chars_encode_utf8(a);
        assert(vstd::utf8::encode_utf8(s).subrange(0, 12) =~= vstd::utf8::encode_utf8(a));
        vstd::utf8::encode_utf8_decode_utf8(a);
    }
}

/// The area of a window is found by its title: that of the lowest window that is shown
/// under it, and none where there is no such window.
pub proof fn law_area_found(d: DesktopState, title: Seq<char>, i: int)
    requires
        0 <= i < d.windows.len(),
        !d.windows[i].minimized,
        d.windows[i].title == title,
        forall|j: int|
            0 <= j < i ==> (#[trigger] d.windows[j]).minimized || d.windows[j].title != title,
    ensures
        d.area_titled(title) matches Some((x, y, w, h)) && w == d.windows[i].w && h
            == d.windows[i].h && (d.windows[i].x >= 0 ==> x == d.windows[i].x) && (d.windows[i].y
            >= 0 ==> y == d.windows[i].y) && (d.windows[i].x < 0 ==> x == 0) && (d.windows[i].y < 0
            ==> y == 0),
{
    lemma_titled(d.windows, title, i);
}

proof fn lemma_titled(ws: Seq<WindowState>, title: Seq<char>, i: int)
    requires
        0 <= i < ws.len(),
        !ws[i].minimized,
        ws[i].title == title,
        forall|j: int| 0 <= j < i ==> (#[trigger] ws[j]).minimized || ws[j].title != title,
    ensures
        desktop::shown_titled(ws, title) == Some(ws[i]),
    decreases ws.len(),
{
    if i > 0 {
        let r = ws.drop_first();
        assert(ws[0].minimized || ws[0].title != title);
        assert forall|j: int| 0 <= j < i - 1 implies (#[trigger] r[j]).minimized || r[j].title
            != title by {
            assert(r[j] == ws[j + 1]);
        }
        lemma_titled(r, title, i - 1);
    }
}

/// A program that is minimized is marked in the menu, behind its title; one that is shown
/// is not.
pub proof fn law_menu_badge(d: DesktopState, i: int)
    requires
        d.wf(),
        0 <= i < d.windows.len(),
    ensures
        ({
            let id = d.windows[i].id as int;
            let y = d.fb_h - 32 - 20 * d.next_id + 20 * id + 6;
            let badge = display::Draw::Text {
                x: 136,
                y,
                text: seq!['-', '-'],
                color: display::rgb(0x888888),
                scale: 1,
            };
            let row = d.draw_rows(id + 1).skip(d.draw_rows(id).len() as int);
            &&& d.windows[i].minimized ==> row.len() == 2 && row[1] == badge
            &&& !d.windows[i].minimized ==> row.len() == 1
        }),
{
    reveal_strlit("--");
    assert("--"@ =~= seq!['-', '-']);
    lemma_index_unique(d, i);
}

/// The pointer of the bare desktop is a small cross around its place.
pub proof fn law_cross_drawn(cx: int, cy: int)
    requires
        cx >= 4,
        cy >= 4,
    ensures
        DesktopState::draw_cross(cx, cy) == seq![
            display::Draw::Rect { x: cx - 4, y: cy, w: 9, h: 1, color: display::rgb(0xFFFFFF) },
            display::Draw::Rect { x: cx, y: cy - 4, w: 1, h: 9, color: display::rgb(0xFFFFFF) },
        ],
{
}

/// Shown windows take the slots behind the start button one after the other, in the order
/// in which they lie, and minimized ones take none. A shown window has a button when all of
/// its slot, from where the button begins, is on the screen.
pub proof fn law_slots_counted(d: DesktopState, i: int)
    requires
        0 <= i < d.windows.len(),
    ensures
        d.slot_of(0) == 1,
        d.windows[i].minimized ==> d.slot_of(i + 1) == d.slot_of(i) && !d.has_button(i),
        !d.windows[i].minimized ==> d.slot_of(i + 1) == d.slot_of(i) + 1,
        !d.windows[i].minimized ==> (d.has_button(i) <==> 120 * d.slot_of(i) + 4 + 120 <= d.fb_w),
{
}

} // verus!
