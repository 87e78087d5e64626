//! What the fixed windows show: the HepFS list, the welcome text, and the splash
//! screen before them.
use vstd::prelude::*;
use crate::display::{Color, Display};
use crate::nav::HepfsNav;
use crate::protocol::DirEntry;
use crate::{display, labels, nav, protocol, rtc, text};

verus! {

/// Background of a window's content.
pub const BG: u32 = 0x0C0C0C;

pub const ACCENT: u32 = 0x6C8EFF;

pub const TEXT: u32 = 0xE8E8E8;

pub const DIM: u32 = 0x888888;

pub const OK: u32 = 0x6BFF8E;

pub const NAV_BG: u32 = 0x0F0F1A;

pub const BTN_BG: u32 = 0x1A1A30;

pub const PATH_BG: u32 = 0x0D0D18;

pub const DIR: u32 = 0x88AAFF;

/// Background of the splash screen.
pub const SPLASH_BG: u32 = 0x0D0D0D;

pub const SPLASH_DIM: u32 = 0x555555;

// ── Shorthands ──────────────────────────────────────────────────────────────

pub open spec fn box_at(x: int, y: int, w: int, h: int, hex: u32) -> Seq<display::Draw> {
    seq![display::rect(x, y, w, h, display::rgb(hex as int))]
}

pub open spec fn words_at(x: int, y: int, s: Seq<char>, hex: u32, scale: int) -> Seq<
    display::Draw,
> {
    seq![display::label(x, y, s, display::rgb(hex as int), scale)]
}

fn put_box(d: &mut Display, x: usize, y: usize, w: usize, h: usize, hex: u32)
    ensures
        final(d)@ == old(d)@ + box_at(x as int, y as int, w as int, h as int, hex),
{
    d.fill_rect(x, y, w, h, Color::from_hex(hex));
    assert(d@ =~= old(d)@ + box_at(x as int, y as int, w as int, h as int, hex));
}

fn put_words(d: &mut Display, x: usize, y: usize, s: &str, hex: u32, scale: usize)
    ensures
        final(d)@ == old(d)@ + words_at(x as int, y as int, s@, hex, scale as int),
{
    d.draw_text(x, y, s, Color::from_hex(hex), scale);
    assert(d@ =~= old(d)@ + words_at(x as int, y as int, s@, hex, scale as int));
}

// ── The HepFS window ────────────────────────────────────────────────────────

/// What fits of a path into a bar of `w` pixels: its last bytes.
pub open spec fn path_shown(path: Seq<char>, w: int) -> Seq<char> {
    let bytes = vstd::utf8::encode_utf8(path);
    if bytes.len() > w / 9 && w / 9 > 0 {
        text::byte_suffix(path, bytes.len() - w / 9)
    } else {
        path
    }
}

/// The path can be cut for a bar of `w` pixels.
pub open spec fn path_cuts(path: Seq<char>, w: int) -> bool {
    let bytes = vstd::utf8::encode_utf8(path);
    bytes.len() > w / 9 && w / 9 > 0 ==> vstd::utf8::is_char_boundary(
        bytes,
        bytes.len() - w / 9,
    )
}

/// A file's size as the list shows it.
pub open spec fn size_label(size: u64) -> Seq<char> {
    rtc::ascii(labels::until_zero(labels::zero_padded(labels::size_text(size as nat), 12)))
}

/// One entry of the list.
pub open spec fn draw_entry(e: protocol::Entry, wx: int, y: int, ww: int) -> Seq<display::Draw> {
    if e.is_dir {
        words_at(wx + 4, y, "d"@, DIM, 1) + words_at(wx + 16, y, e.name, DIR, 1)
    } else {
        words_at(wx + 4, y, "f"@, DIM, 1) + words_at(wx + 16, y, e.name, TEXT, 1) + words_at(
            wx + display::sat_sub(ww, size_label(e.size).len() as int * 9 + 4),
            y,
            size_label(e.size),
            DIM,
            1,
        )
    }
}

/// The first `n` entries of the list, the first at height `y`.
pub open spec fn draw_entries(
    es: Seq<protocol::Entry>,
    n: int,
    wx: int,
    y: int,
    ww: int,
) -> Seq<display::Draw>
    decreases n,
{
    if n <= 0 {
        Seq::empty()
    } else {
        draw_entries(es, n - 1, wx, y, ww) + draw_entry(es[n - 1], wx, y + 14 * (n - 1), ww)
    }
}

/// How many of `n` entries fit between `y` and `bottom`.
pub open spec fn entries_shown(n: int, y: int, bottom: int) -> int {
    let room = if y + 12 > bottom {
        0
    } else {
        (bottom - y - 12) / 14 + 1
    };
    if n < room {
        n
    } else {
        room
    }
}

/// The two buttons of the navigation bar.
pub open spec fn draw_arrows(n: nav::NavState, wx: int, wy: int) -> Seq<display::Draw> {
    box_at(wx + 2, wy + 4, 18, 14, BTN_BG) + words_at(
        wx + 6,
        wy + 6,
        "<"@,
        if n.back.len() > 0 {
            ACCENT
        } else {
            DIM
        },
        1,
    ) + box_at(wx + 22, wy + 4, 18, 14, BTN_BG) + words_at(
        wx + 27,
        wy + 6,
        ">"@,
        if n.fwd.len() > 0 {
            ACCENT
        } else {
            DIM
        },
        1,
    )
}

/// The path in the navigation bar.
pub open spec fn draw_path(n: nav::NavState, wx: int, wy: int, ww: int) -> Seq<display::Draw> {
    box_at(wx + 44, wy + 4, display::sat_sub(ww, 46), 14, PATH_BG) + words_at(
        wx + 46,
        wy + 6,
        path_shown(n.here.path, display::sat_sub(ww, 46)),
        TEXT,
        1,
    )
}

/// The navigation bar: the two buttons and the path.
pub open spec fn draw_nav(n: nav::NavState, wx: int, wy: int, ww: int) -> Seq<display::Draw> {
    box_at(wx, wy, ww, 22, NAV_BG) + draw_arrows(n, wx, wy) + draw_path(n, wx, wy, ww) + box_at(
        wx,
        wy + 22,
        ww,
        1,
        ACCENT,
    )
}

/// The list under the bar.
pub open spec fn draw_list(
    at_root: bool,
    listing: Option<Seq<protocol::Entry>>,
    wx: int,
    wy: int,
    ww: int,
    wh: int,
) -> Seq<display::Draw> {
    let y = if at_root {
        wy + 25
    } else {
        wy + 39
    };
    (if at_root {
        Seq::empty()
    } else {
        words_at(wx + 4, wy + 25, "d"@, DIM, 1) + words_at(wx + 16, wy + 25, ".."@, DIR, 1)
    }) + (match listing {
        None => words_at(wx + 4, wy + 27, "No NVMe"@, DIM, 1),
        Some(es) => draw_entries(
            es,
            entries_shown(es.len() as int, y, wy + wh),
            wx,
            y,
            ww,
        ) + (if es.len() == 0 && at_root {
            words_at(wx + 4, wy + 27, "(empty)"@, DIM, 1)
        } else {
            Seq::empty()
        }),
    })
}

/// The HepFS window's content.
pub open spec fn draw_hepfs(
    n: nav::NavState,
    root: u32,
    listing: Option<Seq<protocol::Entry>>,
    wx: int,
    wy: int,
    ww: int,
    wh: int,
) -> Seq<display::Draw> {
    box_at(wx, wy, ww, wh, BG) + draw_nav(n, wx, wy, ww) + draw_list(
        n.here.ino == root,
        listing,
        wx,
        wy,
        ww,
        wh,
    )
}

/// Every size among the entries can be written out.
pub open spec fn sizes_shown(es: Seq<protocol::Entry>) -> bool {
    forall|i: int| 0 <= i < es.len() ==> (#[trigger] es[i]).size / 1024 / 1024 < 100_000_000
}

/// A listing whose sizes can be written out.
pub open spec fn listing_shown(listing: Option<Seq<protocol::Entry>>) -> bool {
    match listing {
        Some(es) => sizes_shown(es),
        None => true,
    }
}

/// The entries of a listing.
pub open spec fn entries_of(listing: &Option<Vec<DirEntry>>) -> Option<Seq<protocol::Entry>> {
    match listing {
        Some(v) => Some(v@.map_values(|e: DirEntry| e@)),
        None => None,
    }
}

/// Whether every size of a listing can be written out.
pub fn can_show_listing(listing: &Option<Vec<DirEntry>>) -> (r: bool)
    ensures
        r == listing_shown(entries_of(listing)),
{
    match listing {
        None => true,
        Some(es) => {
            let ghost all = es@.map_values(|e: DirEntry| e@);
            let mut i: usize = 0;
            while i < es.len()
                invariant
                    i <= es@.len(),
                    *listing == Some(*es),
                    all == es@.map_values(|e: DirEntry| e@),
                    forall|j: int|
                        0 <= j < i ==> (#[trigger] all[j]).size / 1024 / 1024 < 100_000_000,
                decreases es@.len() - i,
            {
                assert(all[i as int] == es@[i as int]@);
                if es[i].size / 1024 / 1024 >= 100_000_000 {
                    return false;
                }
                i = i + 1;
            }
            true
        },
    }
}

/// Whether the path of the navigator can be cut for a window of a width.
pub fn can_show_path(n: &HepfsNav, ww: usize) -> (r: bool)
    ensures
        r == path_cuts(n@.here.path, display::sat_sub(ww as int, 46)),
{
    let w: usize = if ww >= 46 {
        ww - 46
    } else {
        0
    };
    let len: usize = n.path.as_str().as_bytes().len();
    if len > w / 9 && w / 9 > 0 {
        n.path.as_str().is_char_boundary(len - w / 9)
    } else {
        true
    }
}

fn render_arrows(d: &mut Display, n: &HepfsNav, wx: usize, wy: usize)
    requires
        wx + 27 <= usize::MAX,
        wy + 6 <= usize::MAX,
    ensures
        final(d)@ == old(d)@ + draw_arrows(n@, wx as int, wy as int),
{
    assert(n@.back.len() == n.back@.len() && n@.fwd.len() == n.fwd@.len());
    put_box(d, wx + 2, wy + 4, 18, 14, BTN_BG);
    let back: u32 = if n.back.len() > 0 {
        ACCENT
    } else {
        DIM
    };
    put_words(d, wx + 6, wy + 6, "<", back, 1);
    put_box(d, wx + 22, wy + 4, 18, 14, BTN_BG);
    let fwd: u32 = if n.fwd.len() > 0 {
        ACCENT
    } else {
        DIM
    };
    put_words(d, wx + 27, wy + 6, ">", fwd, 1);
    assert(d@ =~= old(d)@ + draw_arrows(n@, wx as int, wy as int));
}

fn render_path(d: &mut Display, n: &HepfsNav, wx: usize, wy: usize, ww: usize)
    requires
        wx + 46 <= usize::MAX,
        wy + 6 <= usize::MAX,
        path_cuts(n@.here.path, display::sat_sub(ww as int, 46)),
    ensures
        final(d)@ == old(d)@ + draw_path(n@, wx as int, wy as int, ww as int),
{
    let w: usize = if ww >= 46 {
        ww - 46
    } else {
        0
    };
    put_box(d, wx + 44, wy + 4, w, 14, PATH_BG);
    let len: usize = n.path.as_str().as_bytes().len();
    if len > w / 9 && w / 9 > 0 {
        let s: String = text::drop_bytes(n.path.as_str(), len - w / 9);
        put_words(d, wx + 46, wy + 6, s.as_str(), TEXT, 1);
    } else {
        put_words(d, wx + 46, wy + 6, n.path.as_str(), TEXT, 1);
    }
    assert(d@ =~= old(d)@ + draw_path(n@, wx as int, wy as int, ww as int));
}

fn render_nav(d: &mut Display, n: &HepfsNav, wx: usize, wy: usize, ww: usize)
    requires
        wx + 46 <= usize::MAX,
        wy + 22 <= usize::MAX,
        path_cuts(n@.here.path, display::sat_sub(ww as int, 46)),
    ensures
        final(d)@ == old(d)@ + draw_nav(n@, wx as int, wy as int, ww as int),
{
    put_box(d, wx, wy, ww, 22, NAV_BG);
    render_arrows(d, n, wx, wy);
    render_path(d, n, wx, wy, ww);
    put_box(d, wx, wy + 22, ww, 1, ACCENT);
    assert(d@ =~= old(d)@ + draw_nav(n@, wx as int, wy as int, ww as int));
}

fn render_entry(d: &mut Display, e: &DirEntry, wx: usize, y: usize, ww: usize)
    requires
        wx + 16 <= usize::MAX,
        wx + ww <= usize::MAX,
        e.size / 1024 / 1024 < 100_000_000,
    ensures
        final(d)@ == old(d)@ + draw_entry(e@, wx as int, y as int, ww as int),
{
    if e.is_dir {
        put_words(d, wx + 4, y, "d", DIM, 1);
        put_words(d, wx + 16, y, e.name.as_str(), DIR, 1);
    } else {
        put_words(d, wx + 4, y, "f", DIM, 1);
        put_words(d, wx + 16, y, e.name.as_str(), TEXT, 1);
        let buf: [u8; 12] = labels::fmt_size(e.size);
        let n: usize = labels::text_len(&buf);
        let s: String = rtc::ascii_text(buf.as_slice(), n);
        assert(s@ =~= size_label(e.size));
        let used: usize = n * 9 + 4;
        let off: usize = if ww >= used {
            ww - used
        } else {
            0
        };
        put_words(d, wx + off, y, s.as_str(), DIM, 1);
    }
    assert(d@ =~= old(d)@ + draw_entry(e@, wx as int, y as int, ww as int));
}

fn render_entries(
    d: &mut Display,
    es: &Vec<DirEntry>,
    wx: usize,
    y: usize,
    ww: usize,
    bottom: usize,
)
    requires
        wx + 16 <= usize::MAX,
        wx + ww <= usize::MAX,
        y + 12 <= usize::MAX,
        bottom + 14 <= usize::MAX,
        sizes_shown(es@.map_values(|e: DirEntry| e@)),
    ensures
        final(d)@ == old(d)@ + draw_entries(
            es@.map_values(|e: DirEntry| e@),
            entries_shown(es@.len() as int, y as int, bottom as int),
            wx as int,
            y as int,
            ww as int,
        ),
{
    let ghost all = es@.map_values(|e: DirEntry| e@);
    let mut i: usize = 0;
    let mut yy: usize = y;
    assert(d@ =~= old(d)@ + draw_entries(all, 0, wx as int, y as int, ww as int));
    while i < es.len() && yy + 12 <= bottom
        invariant
            i <= es@.len(),
            yy == y + 14 * i,
            i > 0 ==> yy <= bottom + 2,
            yy + 12 <= usize::MAX,
            bottom + 14 <= usize::MAX,
            wx + 16 <= usize::MAX,
            wx + ww <= usize::MAX,
            all == es@.map_values(|e: DirEntry| e@),
            sizes_shown(all),
            d@ == old(d)@ + draw_entries(all, i as int, wx as int, y as int, ww as int),
        decreases es@.len() - i,
    {
        assert(all[i as int] == es@[i as int]@);
        render_entry(d, &es[i], wx, yy, ww);
        i = i + 1;
        yy = yy + 14;
        assert(d@ =~= old(d)@ + draw_entries(all, i as int, wx as int, y as int, ww as int));
    }
    assert(i == entries_shown(es@.len() as int, y as int, bottom as int));
}

/// Draws the HepFS window's content, with the entries of the current directory,
/// or without a disk.
pub fn render_hepfs_window(
    d: &mut Display,
    n: &HepfsNav,
    root: u32,
    listing: &Option<Vec<DirEntry>>,
    wx: usize,
    wy: usize,
    ww: usize,
    wh: usize,
)
    requires
        wx + 46 <= usize::MAX,
        wx + ww <= usize::MAX,
        wy + 51 <= usize::MAX,
        wy + wh + 14 <= usize::MAX,
        path_cuts(n@.here.path, display::sat_sub(ww as int, 46)),
        listing_shown(entries_of(listing)),
    ensures
        final(d)@ == old(d)@ + draw_hepfs(
            n@,
            root,
            entries_of(listing),
            wx as int,
            wy as int,
            ww as int,
            wh as int,
        ),
{
    put_box(d, wx, wy, ww, wh, BG);
    render_nav(d, n, wx, wy, ww);
    let ghost d1 = d@;
    let at_root: bool = n.ino == root;
    let mut y: usize = wy + 25;
    if !at_root {
        put_words(d, wx + 4, y, "d", DIM, 1);
        put_words(d, wx + 16, y, "..", DIR, 1);
        y = y + 14;
    }
    match listing {
        None => put_words(d, wx + 4, wy + 27, "No NVMe", DIM, 1),
        Some(es) => {
            render_entries(d, es, wx, y, ww, wy + wh);
            if es.len() == 0 && at_root {
                put_words(d, wx + 4, wy + 27, "(empty)", DIM, 1);
            }
        },
    }
    assert(d@ =~= d1 + draw_list(
        at_root,
        entries_of(listing),
        wx as int,
        wy as int,
        ww as int,
        wh as int,
    ));
    assert(d@ =~= old(d)@ + draw_hepfs(
        n@,
        root,
        entries_of(listing),
        wx as int,
        wy as int,
        ww as int,
        wh as int,
    ));
}

// ── The welcome window ──────────────────────────────────────────────────────

/// How much memory there is, from counts of pages of four kilobytes.
pub open spec fn memory_label(free_pages: nat, total_pages: nat) -> Seq<char> {
    labels::first_64(labels::mem_text(free_pages * 4 / 1024, total_pages * 4 / 1024))
}

/// The welcome window's content.
pub open spec fn draw_welcome(
    free_pages: nat,
    total_pages: nat,
    has_nvme: bool,
    wx: int,
    wy: int,
    ww: int,
    wh: int,
) -> Seq<display::Draw> {
    box_at(wx, wy, ww, wh, BG) + box_at(wx, wy, ww, 2, ACCENT) + words_at(
        wx + 4,
        wy + 6,
        "HepOS v0.1"@,
        ACCENT,
        1,
    ) + words_at(wx + 4, wy + 22, "x86_64 exokernel"@, DIM, 1) + words_at(
        wx + 4,
        wy + 36,
        memory_label(free_pages, total_pages),
        TEXT,
        1,
    ) + (if has_nvme {
        words_at(wx + 4, wy + 50, "NVMe: OK"@, OK, 1)
    } else {
        words_at(wx + 4, wy + 50, "NVMe: --"@, DIM, 1)
    }) + words_at(wx + 4, wy + 64, "HepFS: OK"@, OK, 1) + words_at(
        wx + 4,
        wy + 78,
        "ESC=cursor/terminal toggle"@,
        DIM,
        1,
    )
}

/// Draws the welcome window's content.
pub fn render_welcome_window(
    d: &mut Display,
    free_pages: u64,
    total_pages: u64,
    has_nvme: bool,
    wx: usize,
    wy: usize,
    ww: usize,
    wh: usize,
)
    requires
        free_pages * 4 <= u64::MAX,
        total_pages * 4 <= u64::MAX,
        wx + 4 <= usize::MAX,
        wy + 78 <= usize::MAX,
    ensures
        final(d)@ == old(d)@ + draw_welcome(
            free_pages as nat,
            total_pages as nat,
            has_nvme,
            wx as int,
            wy as int,
            ww as int,
            wh as int,
        ),
{
    put_box(d, wx, wy, ww, wh, BG);
    put_box(d, wx, wy, ww, 2, ACCENT);
    put_words(d, wx + 4, wy + 6, "HepOS v0.1", ACCENT, 1);
    put_words(d, wx + 4, wy + 22, "x86_64 exokernel", DIM, 1);
    let mut buf: [u8; 64] = [0u8; 64];
    let s: String = labels::fmt_mem(free_pages * 4 / 1024, total_pages * 4 / 1024, &mut buf);
    put_words(d, wx + 4, wy + 36, s.as_str(), TEXT, 1);
    if has_nvme {
        put_words(d, wx + 4, wy + 50, "NVMe: OK", OK, 1);
    } else {
        put_words(d, wx + 4, wy + 50, "NVMe: --", DIM, 1);
    }
    put_words(d, wx + 4, wy + 64, "HepFS: OK", OK, 1);
    put_words(d, wx + 4, wy + 78, "ESC=cursor/terminal toggle", DIM, 1);
    assert(d@ =~= old(d)@ + draw_welcome(
        free_pages as nat,
        total_pages as nat,
        has_nvme,
        wx as int,
        wy as int,
        ww as int,
        wh as int,
    ));
}

// ── The splash screen ───────────────────────────────────────────────────────

/// The screen at boot.
pub open spec fn draw_splash(w: int, h: int, free_pages: nat, total_pages: nat) -> Seq<
    display::Draw,
> {
    let m = memory_label(free_pages, total_pages);
    seq![display::Draw::Clear { color: display::rgb(SPLASH_BG as int) }] + box_at(
        0,
        0,
        w,
        2,
        ACCENT,
    ) + words_at(w / 2 - 72, h / 2 - 24, "HepOS"@, ACCENT, 3) + words_at(
        w / 2 - 88,
        h / 2 + 16,
        "kernel alive"@,
        TEXT,
        2,
    ) + words_at(w / 2 - 96, h / 2 + 48, "v0.1 | x86_64 exokernel"@, SPLASH_DIM, 1) + words_at(
        w / 2 - m.len() as int * 9 / 2,
        h / 2 + 72,
        m,
        SPLASH_DIM,
        1,
    )
}

/// Draws the screen at boot.
pub fn render_splash(d: &mut Display, w: usize, h: usize, free_pages: u64, total_pages: u64)
    requires
        free_pages * 4 <= u64::MAX,
        total_pages * 4 <= u64::MAX,
        w / 2 >= 96,
        h / 2 >= 24,
        w / 2 >= memory_label(free_pages as nat, total_pages as nat).len() * 9 / 2,
    ensures
        final(d)@ == old(d)@ + draw_splash(
            w as int,
            h as int,
            free_pages as nat,
            total_pages as nat,
        ),
{
    let mut buf: [u8; 64] = [0u8; 64];
    let s: String = labels::fmt_mem(free_pages * 4 / 1024, total_pages * 4 / 1024, &mut buf);
    let v: Vec<char> = text::chars_of(s.as_str());
    d.clear(Color::from_hex(SPLASH_BG));
    put_box(d, 0, 0, w, 2, ACCENT);
    put_words(d, w / 2 - 72, h / 2 - 24, "HepOS", ACCENT, 3);
    put_words(d, w / 2 - 88, h / 2 + 16, "kernel alive", TEXT, 2);
    put_words(d, w / 2 - 96, h / 2 + 48, "v0.1 | x86_64 exokernel", SPLASH_DIM, 1);
    put_words(d, w / 2 - v.len() * 9 / 2, h / 2 + 72, s.as_str(), SPLASH_DIM, 1);
    assert(d@ =~= old(d)@ + draw_splash(
        w as int,
        h as int,
        free_pages as nat,
        total_pages as nat,
    ));
}

/// The crosshair of the pointer: yellow while no window has the keyboard.
pub open spec fn draw_pointer(cx: int, cy: int, cursor_mode: bool) -> Seq<display::Draw> {
    let c: u32 = if cursor_mode {
        0xFFFF00
    } else {
        0xFFFFFF
    };
    box_at(display::sat_sub(cx, 6), cy, 13, 1, c) + box_at(cx, display::sat_sub(cy, 6), 1, 13, c)
}

/// Draws the crosshair of the pointer.
pub fn render_pointer(d: &mut Display, cx: usize, cy: usize, cursor_mode: bool)
    ensures
        final(d)@ == old(d)@ + draw_pointer(cx as int, cy as int, cursor_mode),
{
    let c: u32 = if cursor_mode {
        0xFFFF00
    } else {
        0xFFFFFF
    };
    put_box(
        d,
        if cx >= 6 {
            cx - 6
        } else {
            0
        },
        cy,
        13,
        1,
        c,
    );
    put_box(
        d,
        cx,
        if cy >= 6 {
            cy - 6
        } else {
            0
        },
        1,
        13,
        c,
    );
    assert(d@ =~= old(d)@ + draw_pointer(cx as int, cy as int, cursor_mode));
}

// ── Laws ────────────────────────────────────────────────────────────────────

/// A text in a colour, at a place, in letters of a size, is among the operations.
pub open spec fn says(
    ops: Seq<display::Draw>,
    x: int,
    y: int,
    s: Seq<char>,
    hex: int,
    scale: int,
) -> bool {
    ops.contains(display::Draw::Text { x, y, text: s, color: display::rgb(hex), scale })
}

/// The welcome window names the system, its memory in megabytes, the free before the
/// total, whether there is a disk, and the key that changes between pointer and terminal:
/// one below the other, on a dark ground.
pub proof fn law_welcome_seen(
    free_pages: nat,
    total_pages: nat,
    has_nvme: bool,
    wx: int,
    wy: int,
    ww: int,
    wh: int,
)
    ensures
        ({
            let all = draw_welcome(free_pages, total_pages, has_nvme, wx, wy, ww, wh);
            let mem = "RAM: "@ + text::dec(free_pages / 256) + " MB free / "@ + text::dec(
                total_pages / 256,
            ) + " MB total"@;
            &&& all[0] == (display::Draw::Rect {
                x: wx,
                y: wy,
                w: ww,
                h: wh,
                color: display::rgb(0x0C0C0C),
            })
            &&& all[1] == (display::Draw::Rect {
                x: wx,
                y: wy,
                w: ww,
                h: 2,
                color: display::rgb(0x6C8EFF),
            })
            &&& says(all, wx + 4, wy + 6, "HepOS v0.1"@, 0x6C8EFF, 1)
            &&& says(all, wx + 4, wy + 22, "x86_64 exokernel"@, 0x888888, 1)
            &&& mem.len() <= 64 ==> says(all, wx + 4, wy + 36, mem, 0xE8E8E8, 1)
            &&& has_nvme ==> says(all, wx + 4, wy + 50, "NVMe: OK"@, 0x6BFF8E, 1)
            &&& !has_nvme ==> says(all, wx + 4, wy + 50, "NVMe: --"@, 0x888888, 1)
            &&& says(all, wx + 4, wy + 64, "HepFS: OK"@, 0x6BFF8E, 1)
            &&& says(all, wx + 4, wy + 78, "ESC=cursor/terminal toggle"@, 0x888888, 1)
            &&& all.len() == 8
        }),
{
    let all = draw_welcome(free_pages, total_pages, has_nvme, wx, wy, ww, wh);
    assert(all.len() == 8);
    assert(free_pages * 4 / 1024 == free_pages / 256 && total_pages * 4 / 1024 == total_pages / 256);
    assert(all[2] == words_at(wx + 4, wy + 6, "HepOS v0.1"@, ACCENT, 1)[0]);
    assert(all[3] == words_at(wx + 4, wy + 22, "x86_64 exokernel"@, DIM, 1)[0]);
    assert(all[4] == words_at(wx + 4, wy + 36, memory_label(free_pages, total_pages), TEXT, 1)[0]);
    assert(has_nvme ==> all[5] == words_at(wx + 4, wy + 50, "NVMe: OK"@, OK, 1)[0]);
    assert(!has_nvme ==> all[5] == words_at(wx + 4, wy + 50, "NVMe: --"@, DIM, 1)[0]);
    assert(all[6] == words_at(wx + 4, wy + 64, "HepFS: OK"@, OK, 1)[0]);
    assert(all[7] == words_at(wx + 4, wy + 78, "ESC=cursor/terminal toggle"@, DIM, 1)[0]);
}

/// The screen at boot is cleared first; its lines stand around the middle of the screen,
/// and that of the memory is centred.
pub proof fn law_splash_seen(w: int, h: int, free_pages: nat, total_pages: nat)
    ensures
        ({
            let all = draw_splash(w, h, free_pages, total_pages);
            let mem = memory_label(free_pages, total_pages);
            &&& all[0] == (display::Draw::Clear { color: display::rgb(0x0D0D0D) })
            &&& all[1] == (display::Draw::Rect {
                x: 0,
                y: 0,
                w,
                h: 2,
                color: display::rgb(0x6C8EFF),
            })
            &&& says(all, w / 2 - 72, h / 2 - 24, "HepOS"@, 0x6C8EFF, 3)
            &&& says(all, w / 2 - 88, h / 2 + 16, "kernel alive"@, 0xE8E8E8, 2)
            &&& says(all, w / 2 - 96, h / 2 + 48, "v0.1 | x86_64 exokernel"@, 0x555555, 1)
            &&& all.last() matches display::Draw::Text { x, y, text, color, scale } && text == mem
                && y == h / 2 + 72 && color == display::rgb(0x555555) && scale == 1 && x <= w / 2 < x
                + mem.len() * 9 / 2 + 1
        }),
{
    let all = draw_splash(w, h, free_pages, total_pages);
    let m = memory_label(free_pages, total_pages);
    assert(all.len() == 6);
    assert(all[1] == box_at(0, 0, w, 2, ACCENT)[0]);
    assert(all[2] == words_at(w / 2 - 72, h / 2 - 24, "HepOS"@, ACCENT, 3)[0]);
    assert(all[3] == words_at(w / 2 - 88, h / 2 + 16, "kernel alive"@, TEXT, 2)[0]);
    assert(all[4] == words_at(
        w / 2 - 96,
        h / 2 + 48,
        "v0.1 | x86_64 exokernel"@,
        SPLASH_DIM,
        1,
    )[0]);
    assert(all[5] == words_at(w / 2 - m.len() as int * 9 / 2, h / 2 + 72, m, SPLASH_DIM, 1)[0]);
}

proof fn lemma_until_zero(s: Seq<char>, n: nat)
    requires
        s.len() <= n,
        forall|i: int| 0 <= i < s.len() ==> 0 < #[trigger] s[i] as int && (s[i] as int) < 128,
    ensures
        rtc::ascii(labels::until_zero(labels::zero_padded(s, n))) == s,
    decreases s.len(),
{
    let b = labels::zero_padded(s, n);
    if s.len() == 0 {
        assert(labels::until_zero(b) =~= Seq::<u8>::empty());
        assert(rtc::ascii(labels::until_zero(b)) =~= s);
    } else {
        let r = s.drop_first();
        assert forall|i: int| 0 <= i < r.len() implies 0 < #[trigger] r[i] as int && (r[i] as int)
            < 128 by {
            assert(s[i + 1] == r[i]);
        }
        lemma_until_zero(r, (n - 1) as nat);
        assert(b.drop_first() =~= labels::zero_padded(r, (n - 1) as nat));
        let c = s[0];
        assert(0 < s[0] as int && (s[0] as int) < 128);
        assert(b[0] == c as u8);
        let tail = labels::until_zero(b.drop_first());
        assert(labels::until_zero(b) == seq![b[0]] + tail);
        assert forall|i: int| 0 <= i < s.len() implies #[trigger] rtc::ascii(
            labels::until_zero(b),
        )[i] == s[i] by {
            if i > 0 {
                assert(rtc::ascii(tail)[i - 1] == r[i - 1]);
            }
        }
        assert(rtc::ascii(tail).len() == r.len());
        assert(rtc::ascii(labels::until_zero(b)) =~= s);
    }
}

proof fn lemma_numeral_plain(n: nat)
    ensures
        forall|i: int|
            0 <= i < text::dec(n).len() ==> 0 < #[trigger] text::dec(n)[i] as int && (text::dec(
                n,
            )[i] as int) < 128,
{
    text::lemma_dec_bytes(n);
    assert forall|i: int| 0 <= i < text::dec(n).len() implies 0 < #[trigger] text::dec(n)[i] as int
        && (text::dec(n)[i] as int) < 128 by {
        assert(text::dec_bytes(n)[i] as char == text::dec(n)[i]);
    }
}

/// Beside a file stands its size, whole and with nothing behind it.
#[verifier::rlimit(30)]
pub proof fn law_size_label(size: u64)
    requires
        size / 1024 / 1024 < 100_000_000,
    ensures
        size_label(size) == labels::size_text(size as nat),
{
    reveal_strlit(" B");
    reveal_strlit(" KB");
    reveal_strlit(" MB");
    reveal_strlit(".");
    let b = size as nat;
    labels::law_size_fits(b);
    lemma_numeral_plain(b);
    lemma_numeral_plain(b / 1024);
    lemma_numeral_plain(b / 1024 / 1024);
    lemma_numeral_plain(labels::tenths(b % 1024));
    lemma_numeral_plain(labels::tenths(b / 1024 % 1024));
    lemma_until_zero(labels::size_text(b), 12);
}

/// Of an entry of the list its kind is shown before its name, and of a file its size, at the
/// right end. Directories have a colour of their own.
pub proof fn law_entry_seen(e: protocol::Entry, wx: int, y: int, ww: int)
    requires
        e.size / 1024 / 1024 < 100_000_000,
    ensures
        ({
            let all = draw_entry(e, wx, y, ww);
            let size = labels::size_text(e.size as nat);
            &&& says(
                all,
                wx + 4,
                y,
                if e.is_dir {
                    seq!['d']
                } else {
                    seq!['f']
                },
                0x888888,
                1,
            )
            &&& says(
                all,
                wx + 16,
                y,
                e.name,
                if e.is_dir {
                    0x88AAFF
                } else {
                    0xE8E8E8
                },
                1,
            )
            &&& e.is_dir ==> all.len() == 2
            &&& !e.is_dir && size.len() * 9 + 4 <= ww ==> says(
                all,
                wx + ww - 4 - 9 * size.len(),
                y,
                size,
                0x888888,
                1,
            )
        }),
{
    reveal_strlit("d");
    reveal_strlit("f");
    assert("d"@ =~= seq!['d']);
    assert("f"@ =~= seq!['f']);
    law_size_label(e.size);
    let all = draw_entry(e, wx, y, ww);
    if e.is_dir {
        assert(all[0] == words_at(wx + 4, y, "d"@, DIM, 1)[0]);
        assert(all[1] == words_at(wx + 16, y, e.name, DIR, 1)[0]);
    } else {
        let size = labels::size_text(e.size as nat);
        assert(all[0] == words_at(wx + 4, y, "f"@, DIM, 1)[0]);
        assert(all[1] == words_at(wx + 16, y, e.name, TEXT, 1)[0]);
        assert(all[2] == words_at(
            wx + display::sat_sub(ww, size.len() as int * 9 + 4),
            y,
            size,
            DIM,
            1,
        )[0]);
    }
}

/// In the bar stands the path, or of one that is too long its end, as much as fits.
pub proof fn law_path_seen(n: nav::NavState, wx: int, wy: int, ww: int)
    requires
        vstd::utf8::is_ascii_chars(n.here.path),
        ww >= 46 + 9,
    ensures
        ({
            let room = (ww - 46) / 9;
            let path = n.here.path;
            says(
                draw_nav(n, wx, wy, ww),
                wx + 46,
                wy + 6,
                if path.len() <= room {
                    path
                } else {
                    path.skip(path.len() - room)
                },
                0xE8E8E8,
                1,
            )
        }),
{
    let path = n.here.path;
    let room = (ww - 46) / 9;
    let bytes = vstd::utf8::encode_utf8(path);
    vstd::utf8::is_ascii_chars_encode_utf8(path);
    assert(bytes.len() == path.len());
    if path.len() > room {
        let k = path.len() - room;
        let a = path.take(k);
        let b = path.skip(k);
        assert(path =~= a + b);
        text::lemma_encode_concat(a, b);
        assert forall|i: int| 0 <= i < a.len() implies a[i] == path[i] by {}
        vstd::utf8::is_ascii_chars_concat(path, a, b);
        vstd::utf8::is_ascii_chars_encode_utf8(a);
        assert(bytes.subrange(k, bytes.len() as int) =~= vstd::utf8::encode_utf8(b));
        vstd::utf8::encode_utf8_decode_utf8(b);
    }
    let all = draw_nav(n, wx, wy, ww);
    assert(all[6] == draw_path(n, wx, wy, ww)[1]);
}

/// Without a disk the list says so, and an empty root is called empty.
pub proof fn law_list_words(n: nav::NavState, root: u32, wx: int, wy: int, ww: int, wh: int)
    ensures
        says(draw_hepfs(n, root, None, wx, wy, ww, wh), wx + 4, wy + 27, "No NVMe"@, 0x888888, 1),
        n.here.ino == root ==> says(
            draw_hepfs(n, root, Some(seq![]), wx, wy, ww, wh),
            wx + 4,
            wy + 27,
            "(empty)"@,
            0x888888,
            1,
        ),
{
    let a = draw_hepfs(n, root, None, wx, wy, ww, wh);
    assert(a.last() == words_at(wx + 4, wy + 27, "No NVMe"@, DIM, 1)[0]);
    assert(a[a.len() - 1] == a.last());
    let b = draw_hepfs(n, root, Some(seq![]), wx, wy, ww, wh);
    if n.here.ino == root {
        assert(b.last() == words_at(wx + 4, wy + 27, "(empty)"@, DIM, 1)[0]);
        assert(b[b.len() - 1] == b.last());
    }
}

/// The pointer is a cross with its middle at the pointer's place, as long to every side,
/// where the screen's edge does not cut it.
pub proof fn law_pointer_cross(cx: int, cy: int, cursor_mode: bool)
    requires
        cx >= 6,
        cy >= 6,
    ensures
        ({
            let all = draw_pointer(cx, cy, cursor_mode);
            let color = display::rgb(
                if cursor_mode {
                    0xFFFF00
                } else {
                    0xFFFFFF
                },
            );
            &&& all == seq![
                display::Draw::Rect { x: cx - 6, y: cy, w: 13, h: 1, color },
                display::Draw::Rect { x: cx, y: cy - 6, w: 1, h: 13, color },
            ]
        }),
{
    assert(draw_pointer(cx, cy, cursor_mode).len() == 2);
}

} // verus!
