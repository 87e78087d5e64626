//! The terminal's screen: a scrollback of coloured cells with a cursor.
use vstd::prelude::*;
use crate::display::{Color, Display};
use crate::{display, editor};

verus! {

/// Characters per line.
pub const COLS: usize = 30;

/// Lines that are kept.
pub const SCROLLBACK: usize = 200;

pub const SCALE: usize = 2;

/// Pixels per column.
pub const CHAR_W: usize = 19;

/// Pixels per row.
pub const CHAR_H: usize = 18;

pub const TEXT: u32 = 0xE8E8E8;

pub const DIM: u32 = 0x888888;

pub const BG: u32 = 0x0C0C0C;

pub const CURSOR: u32 = 0x6C8EFF;

pub const ERR: u32 = 0xFF6B6B;

pub const OK: u32 = 0x6BFF8E;

/// One character on the screen.
#[derive(Clone, Copy, PartialEq, Eq, Structural, Debug)]
pub struct Cell {
    pub ch: u8,
    pub color: Color,
}

/// An empty cell.
pub open spec fn blank_cell() -> Cell {
    Cell { ch: 32, color: display::rgb(TEXT as int) }
}

/// An empty line.
pub open spec fn blank_line() -> Seq<Cell> {
    Seq::new(30, |i: int| blank_cell())
}

impl Cell {
    /// An empty cell.
    pub fn blank() -> (c: Cell)
        ensures
            c == blank_cell(),
    {
        Cell { ch: 32, color: Color::from_hex(TEXT) }
    }
}

/// What contracts say of a screen.
#[verifier::ext_equal]
pub struct Screen {
    pub lines: Seq<Seq<Cell>>,
    pub row: int,
    pub col: int,
}

impl Screen {
    pub open spec fn wf(self) -> bool {
        &&& self.lines.len() == 200
        &&& forall|i: int| 0 <= i < 200 ==> (#[trigger] self.lines[i]).len() == 30
        &&& 0 <= self.row < 200
        &&& 0 <= self.col < 30
    }

    /// Nothing on the screen, the cursor in the corner.
    pub open spec fn empty() -> Screen {
        Screen { lines: Seq::new(200, |i: int| blank_line()), row: 0, col: 0 }
    }

    /// The cursor one line down; below the last line, all lines move up.
    pub open spec fn advance(self) -> Screen {
        if self.row + 1 < 200 {
            Screen { row: self.row + 1, ..self }
        } else {
            Screen { lines: self.lines.drop_first().push(blank_line()), row: 199, ..self }
        }
    }

    /// The cell at the cursor set.
    pub open spec fn set(self, c: Cell) -> Screen {
        Screen {
            lines: self.lines.update(self.row, self.lines[self.row].update(self.col, c)),
            ..self
        }
    }

    /// The screen after the byte `ch`: a newline or a carriage return moves the
    /// cursor, other control bytes do nothing, and a printable byte is written,
    /// with a wrap at the end of the line.
    pub open spec fn put(self, ch: u8, color: Color) -> Screen {
        if ch == 10 {
            (Screen { col: 0, ..self }).advance()
        } else if ch == 13 {
            Screen { col: 0, ..self }
        } else if ch >= 32 {
            let s = self.set(Cell { ch, color });
            if self.col + 1 >= 30 {
                (Screen { col: 0, ..s }).advance()
            } else {
                Screen { col: self.col + 1, ..s }
            }
        } else {
            self
        }
    }

    /// The screen after some bytes.
    pub open spec fn put_all(self, bytes: Seq<u8>, color: Color) -> Screen
        decreases bytes.len(),
    {
        if bytes.len() == 0 {
            self
        } else {
            self.put_all(bytes.drop_last(), color).put(bytes.last(), color)
        }
    }

    /// The screen after some text; of each character the low byte counts.
    pub open spec fn print(self, text: Seq<char>, hex: u32) -> Screen {
        self.put_all(text.map_values(|c: char| c as u8), display::rgb(hex as int))
    }

    /// The last `n` cells before the cursor emptied, the cursor moved back.
    pub open spec fn erase(self, n: int) -> Screen {
        Screen {
            lines: self.lines.update(
                self.row,
                Seq::new(
                    30,
                    |i: int|
                        if self.col - n <= i < self.col {
                            blank_cell()
                        } else {
                            self.lines[self.row][i]
                        },
                ),
            ),
            col: self.col - n,
            ..self
        }
    }

    /// The cursor at a place, counted cell by cell from the corner, and kept on the
    /// screen.
    pub open spec fn at(self, place: int) -> Screen {
        let p = if place < 0 {
            0
        } else if place > 5999 {
            5999
        } else {
            place
        };
        Screen { row: p / 30, col: p % 30, ..self }
    }

    /// The place of the cursor.
    pub open spec fn place(self) -> int {
        self.row * 30 + self.col
    }

    /// Backspace: the cursor one back, where it can go, and the cell there emptied.
    pub open spec fn rub_out(self) -> Screen {
        (Screen {
            col: if self.col > 0 {
                self.col - 1
            } else {
                self.col
            },
            ..self
        }).set(blank_cell())
    }

    // ── Drawing ─────────────────────────────────────────────────────────────
    /// Rows that fit into a window of height `wh`.
    pub open spec fn rows_shown(wh: int) -> int {
        display::sat_sub(wh, 6) / 18
    }

    /// Columns that fit into a window of width `ww`.
    pub open spec fn cols_shown(ww: int) -> int {
        let fit = display::sat_sub(ww, 4) / 19;
        if fit < 30 {
            fit
        } else {
            30
        }
    }

    /// The first line shown: the cursor's line is the last one that shows.
    pub open spec fn first_line(self, rows: int) -> int {
        if self.row + 1 >= rows {
            self.row + 1 - rows
        } else {
            0
        }
    }

    /// The drawing of the first `n` cells of a line.
    pub open spec fn draw_cells(self, idx: int, n: int, wx: int, py: int) -> Seq<display::Draw>
        decreases n,
    {
        if n <= 0 {
            Seq::<display::Draw>::empty()
        } else {
            let cell = self.lines[idx][n - 1];
            self.draw_cells(idx, n - 1, wx, py) + (if cell.ch > 32 {
                seq![
                    display::label(
                        wx + 4 + (n - 1) * 19,
                        py,
                        editor::glyph(cell.ch),
                        cell.color,
                        2,
                    ),
                ]
            } else {
                Seq::<display::Draw>::empty()
            })
        }
    }

    /// The drawing of the first `n` rows.
    pub open spec fn draw_rows(
        self,
        first: int,
        n: int,
        wx: int,
        wy: int,
        ww: int,
    ) -> Seq<display::Draw>
        decreases n,
    {
        if n <= 0 {
            Seq::<display::Draw>::empty()
        } else {
            self.draw_rows(first, n - 1, wx, wy, ww) + self.draw_cells(
                first + n - 1,
                Self::cols_shown(ww),
                wx,
                wy + 4 + (n - 1) * 18,
            )
        }
    }

    /// The underline at the cursor, where it lies inside the window.
    pub open spec fn draw_cursor(self, wx: int, wy: int, ww: int, wh: int) -> Seq<display::Draw> {
        let rows = Self::rows_shown(wh);
        let vis = display::sat_sub(self.row, self.first_line(rows));
        let last = display::sat_sub(rows, 1);
        let vis_row = if vis < last {
            vis
        } else {
            last
        };
        let cx = wx + 4 + self.col * 19;
        let cy = wy + 4 + vis_row * 18 + 16;
        if cx + 16 <= wx + ww && cy + 2 <= wy + wh {
            seq![display::rect(cx, cy, 16, 2, display::rgb(CURSOR as int))]
        } else {
            Seq::<display::Draw>::empty()
        }
    }

    /// The drawing of the screen into a window.
    pub open spec fn drawing(self, wx: int, wy: int, ww: int, wh: int) -> Seq<display::Draw> {
        let rows = Self::rows_shown(wh);
        let first = self.first_line(rows);
        seq![
            display::rect(wx, wy, ww, wh, display::rgb(BG as int)),
            display::rect(wx, wy, ww, 2, display::rgb(CURSOR as int)),
        ] + self.draw_rows(
            first,
            if rows < 200 - first {
                rows
            } else {
                200 - first
            },
            wx,
            wy,
            ww,
        ) + self.draw_cursor(wx, wy, ww, wh)
    }
}

/// The cells and the cursor.
pub struct ScreenBuf {
    lines: Vec<[Cell; 30]>,
    row: usize,
    col: usize,
}

impl View for ScreenBuf {
    type V = Screen;

    closed spec fn view(&self) -> Screen {
        Screen {
            lines: self.lines@.map_values(|l: [Cell; 30]| l@),
            row: self.row as int,
            col: self.col as int,
        }
    }
}

fn empty_row() -> (l: [Cell; 30])
    ensures
        l@ == blank_line(),
{
    let c: Cell = Cell::blank();
    let l: [Cell; 30] = [c; 30];
    assert(l@ =~= blank_line());
    l
}

impl ScreenBuf {
    pub open spec fn wf(self) -> bool {
        self@.wf()
    }

    /// An empty screen.
    pub fn new() -> (s: ScreenBuf)
        ensures
            s.wf(),
            s@ == Screen::empty(),
    {
        let mut lines: Vec<[Cell; 30]> = Vec::new();
        let mut i: usize = 0;
        while i < SCROLLBACK
            invariant
                i <= 200,
                lines@.len() == i,
                forall|j: int| 0 <= j < i ==> (#[trigger] lines@[j])@ == blank_line(),
            decreases 200 - i,
        {
            lines.push(empty_row());
            i = i + 1;
        }
        let s = ScreenBuf { lines, row: 0, col: 0 };
        assert(s@.lines =~= Screen::empty().lines);
        s
    }

    /// Empties the screen.
    pub fn clear(&mut self)
        requires
            old(self).wf(),
        ensures
            final(self).wf(),
            final(self)@ == Screen::empty(),
    {
        let s: ScreenBuf = ScreenBuf::new();
        self.lines = s.lines;
        self.row = 0;
        self.col = 0;
    }

    /// Moves the cursor `n` cells back.
    pub fn move_back(&mut self, n: usize)
        requires
            old(self).wf(),
        ensures
            final(self).wf(),
            final(self)@ == old(self)@.at(old(self)@.place() - n),
    {
        let p: usize = self.row * COLS + self.col;
        let q: usize = if p < n {
            0
        } else {
            p - n
        };
        self.row = q / COLS;
        self.col = q % COLS;
    }

    /// Moves the cursor `n` cells on.
    pub fn move_on(&mut self, n: usize)
        requires
            old(self).wf(),
        ensures
            final(self).wf(),
            final(self)@ == old(self)@.at(old(self)@.place() + n),
    {
        let p: usize = self.row * COLS + self.col;
        let q: usize = if n > 5999 - p {
            5999
        } else {
            p + n
        };
        self.row = q / COLS;
        self.col = q % COLS;
    }

    pub fn row(&self) -> (r: usize)
        ensures
            r == self@.row,
    {
        self.row
    }

    pub fn col(&self) -> (r: usize)
        ensures
            r == self@.col,
    {
        self.col
    }

    fn advance_row(&mut self)
        requires
            old(self).wf(),
        ensures
            final(self).wf(),
            final(self)@ == old(self)@.advance(),
    {
        self.row = self.row + 1;
        if self.row >= SCROLLBACK {
            self.lines.remove(0);
            let l: [Cell; 30] = empty_row();
            self.lines.push(l);
            self.row = SCROLLBACK - 1;
            proof {
                let goal = old(self)@.advance();
                assert(self@.lines =~= goal.lines);
                assert forall|i: int| 0 <= i < 200 implies (#[trigger] goal.lines[i]).len() == 30 by {
                    if i < 199 {
                        assert(goal.lines[i] == old(self)@.lines[i + 1]);
                    }
                }
            }
        } else {
            assert(self@.lines =~= old(self)@.lines);
        }
    }

    /// Sets the cell at the cursor.
    fn set_cell(&mut self, c: Cell)
        requires
            old(self).wf(),
        ensures
            final(self).wf(),
            final(self)@ == old(self)@.set(c),
    {
        self.lines[self.row][self.col] = c;
        proof {
            assert(self@.lines =~= old(self)@.set(c).lines);
            assert forall|i: int| 0 <= i < 200 implies (#[trigger] self@.lines[i]).len() == 30 by {
                assert(old(self)@.lines[i].len() == 30);
            }
        }
    }

    /// Writes one byte.
    pub fn put_char(&mut self, ch: u8, color: Color)
        requires
            old(self).wf(),
        ensures
            final(self).wf(),
            final(self)@ == old(self)@.put(ch, color),
    {
        if ch == 10 {
            self.col = 0;
            self.advance_row();
        } else if ch == 13 {
            self.col = 0;
        } else if ch >= 32 {
            self.set_cell(Cell { ch, color });
            self.col = self.col + 1;
            if self.col >= COLS {
                self.col = 0;
                self.advance_row();
            }
        }
    }

    /// Writes some text.
    pub fn print(&mut self, s: &str, hex: u32)
        requires
            old(self).wf(),
        ensures
            final(self).wf(),
            final(self)@ == old(self)@.print(s@, hex),
    {
        let color: Color = Color::from_hex(hex);
        let chars: Vec<char> = crate::text::chars_of(s);
        let ghost bytes = s@.map_values(|c: char| c as u8);
        let mut i: usize = 0;
        assert(bytes.take(0) =~= Seq::<u8>::empty());
        while i < chars.len()
            invariant
                self.wf(),
                i <= chars@.len(),
                chars@ == s@,
                bytes == s@.map_values(|c: char| c as u8),
                color == display::rgb(hex as int),
                self@ == old(self)@.put_all(bytes.take(i as int), color),
            decreases chars@.len() - i,
        {
            proof {
                assert(bytes.take(i + 1).drop_last() =~= bytes.take(i as int));
                assert(bytes.take(i + 1).last() == s@[i as int] as u8);
            }
            self.put_char(chars[i] as u8, color);
            i = i + 1;
        }
        assert(bytes.take(bytes.len() as int) =~= bytes);
    }

    /// Backspace on the screen.
    pub fn rub_out(&mut self)
        requires
            old(self).wf(),
        ensures
            final(self).wf(),
            final(self)@ == old(self)@.rub_out(),
    {
        if self.col > 0 {
            self.col = self.col - 1;
        }
        self.set_cell(Cell::blank());
    }

    /// Empties the last `n` cells before the cursor and moves it back.
    pub fn erase(&mut self, n: usize)
        requires
            old(self).wf(),
            n <= old(self)@.col,
        ensures
            final(self).wf(),
            final(self)@ == old(self)@.erase(n as int),
    {
        let mut k: usize = 0;
        proof {
            assert(old(self)@.erase(0).lines =~= old(self)@.lines) by {
                let l = old(self)@.erase(0).lines[old(self)@.row];
                assert(old(self)@.lines[old(self)@.row].len() == 30);
                assert(l =~= old(self)@.lines[old(self)@.row]);
            }
        }
        while k < n
            invariant
                self.wf(),
                old(self).wf(),
                k <= n <= old(self)@.col,
                self@ == old(self)@.erase(k as int),
            decreases n - k,
        {
            let ghost before = self@;
            self.col = self.col - 1;
            self.set_cell(Cell::blank());
            proof {
                let goal = old(self)@.erase(k + 1);
                let row = old(self)@.row;
                assert(self@.lines[row] =~= goal.lines[row]);
                assert(self@.lines =~= goal.lines);
            }
            k = k + 1;
        }
    }

    /// Draws the screen into the window whose content begins at `(wx, wy)` and
    /// measures `ww` by `wh`.
    pub fn render(&self, display: &mut Display, wx: usize, wy: usize, ww: usize, wh: usize)
        requires
            self.wf(),
            wx + ww <= usize::MAX,
            wy + wh <= usize::MAX,
            wx + 571 <= usize::MAX,
            wy + 22 <= usize::MAX,
        ensures
            final(display)@ == old(display)@ + self@.drawing(
                wx as int,
                wy as int,
                ww as int,
                wh as int,
            ),
    {
        display.fill_rect(wx, wy, ww, wh, Color::from_hex(BG));
        display.fill_rect(wx, wy, ww, 2, Color::from_hex(CURSOR));
        let ghost d0 = display@;
        let rows: usize = if wh >= 6 {
            (wh - 6) / CHAR_H
        } else {
            0
        };
        let fit: usize = if ww >= 4 {
            (ww - 4) / CHAR_W
        } else {
            0
        };
        let cols: usize = if fit < COLS {
            fit
        } else {
            COLS
        };
        let start: usize = if self.row + 1 >= rows {
            self.row + 1 - rows
        } else {
            0
        };
        let n: usize = if rows < SCROLLBACK - start {
            rows
        } else {
            SCROLLBACK - start
        };
        let mut r: usize = 0;
        assert(display@ =~= d0 + self@.draw_rows(start as int, 0, wx as int, wy as int, ww as int));
        while r < n
            invariant
                self.wf(),
                r <= n,
                n <= rows,
                rows == Screen::rows_shown(wh as int),
                cols == Screen::cols_shown(ww as int),
                start + n <= 200,
                wx + ww <= usize::MAX,
                wy + wh <= usize::MAX,
                wx + 571 <= usize::MAX,
                display@ == d0 + self@.draw_rows(
                    start as int,
                    r as int,
                    wx as int,
                    wy as int,
                    ww as int,
                ),
            decreases n - r,
        {
            let ghost d1 = display@;
            let idx: usize = start + r;
            let py: usize = wy + 4 + r * CHAR_H;
            let mut ci: usize = 0;
            assert(display@ =~= d1 + self@.draw_cells(idx as int, 0, wx as int, py as int));
            while ci < cols
                invariant
                    self.wf(),
                    ci <= cols <= 30,
                    idx < 200,
                    wx + 571 <= usize::MAX,
                    display@ == d1 + self@.draw_cells(
                        idx as int,
                        ci as int,
                        wx as int,
                        py as int,
                    ),
                decreases cols - ci,
            {
                let px: usize = wx + 4 + ci * CHAR_W;
                let cell: Cell = self.lines[idx][ci];
                assert(cell == self@.lines[idx as int][ci as int]);
                if cell.ch > 32 {
                    let s: String = editor::glyph_text(cell.ch);
                    display.draw_text(px, py, s.as_str(), cell.color, SCALE);
                }
                assert(display@ =~= d1 + self@.draw_cells(
                    idx as int,
                    ci + 1,
                    wx as int,
                    py as int,
                ));
                ci = ci + 1;
            }
            assert(display@ =~= d0 + self@.draw_rows(
                start as int,
                r + 1,
                wx as int,
                wy as int,
                ww as int,
            ));
            r = r + 1;
        }
        let vis: usize = if self.row >= start {
            self.row - start
        } else {
            0
        };
        let last: usize = if rows >= 1 {
            rows - 1
        } else {
            0
        };
        let vis_row: usize = if vis < last {
            vis
        } else {
            last
        };
        let cx: usize = wx + 4 + self.col * CHAR_W;
        assert(vis_row * 18 <= wh || vis_row == 0);
        let cy: usize = wy + 4 + vis_row * CHAR_H + CHAR_H - 2;
        if cx + 16 <= wx + ww && cy + 2 <= wy + wh {
            display.fill_rect(cx, cy, 16, 2, Color::from_hex(CURSOR));
        }
        assert(display@ =~= old(display)@ + self@.drawing(
            wx as int,
            wy as int,
            ww as int,
            wh as int,
        ));
    }
}

/// A printable text that fits on the rest of the line stands there afterwards,
/// in order and in its colour, and nothing else changes.
pub proof fn law_text_appears(s: Screen, text: Seq<char>, hex: u32)
    requires
        s.wf(),
        s.col + text.len() < 30,
        forall|i: int| 0 <= i < text.len() ==> 32 <= #[trigger] text[i] as u8,
    ensures
        ({
            let t = s.print(text, hex);
            &&& t.wf()
            &&& t.row == s.row
            &&& t.col == s.col + text.len()
            &&& forall|i: int|
                0 <= i < text.len() ==> t.lines[s.row][s.col + i] == (Cell {
                    ch: #[trigger] text[i] as u8,
                    color: display::rgb(hex as int),
                })
            &&& forall|i: int, j: int|
                0 <= i < 200 && 0 <= j < 30 && (i != s.row || !(s.col <= j < s.col + text.len()))
                    ==> #[trigger] t.lines[i][j] == s.lines[i][j]
        }),
    decreases text.len(),
{
    let bytes = text.map_values(|c: char| c as u8);
    if text.len() > 0 {
        let d = text.drop_last();
        assert forall|i: int| 0 <= i < d.len() implies 32 <= #[trigger] d[i] as u8 by {
            assert(d[i] == text[i]);
        }
        law_text_appears(s, d, hex);
        assert(d.map_values(|c: char| c as u8) =~= bytes.drop_last());
        let m = s.print(d, hex);
        let t = s.print(text, hex);
        assert(text[text.len() - 1] as u8 >= 32);
        assert(t == m.put(text.last() as u8, display::rgb(hex as int)));
        assert forall|i: int| 0 <= i < 200 implies (#[trigger] t.lines[i]).len() == 30 by {
            assert(m.lines[i].len() == 30);
        }
        assert forall|i: int| 0 <= i < text.len() implies t.lines[s.row][s.col + i] == (Cell {
            ch: #[trigger] text[i] as u8,
            color: display::rgb(hex as int),
        }) by {
            if i < d.len() {
                assert(d[i] == text[i]);
            }
        }
        assert forall|i: int, j: int|
            0 <= i < 200 && 0 <= j < 30 && (i != s.row || !(s.col <= j < s.col + text.len()))
            implies #[trigger] t.lines[i][j] == s.lines[i][j] by {
            assert(m.lines[i][j] == s.lines[i][j]);
        }
    } else {
        assert(bytes =~= Seq::<u8>::empty());
    }
}

/// A newline on the last line moves every line up by one and leaves an empty one.
pub proof fn law_scroll(s: Screen, color: Color)
    requires
        s.wf(),
        s.row == 199,
    ensures
        s.put(10, color).row == 199,
        s.put(10, color).col == 0,
        forall|i: int| 0 <= i < 199 ==> #[trigger] s.put(10, color).lines[i] == s.lines[i + 1],
        s.put(10, color).lines[199] == blank_line(),
{
}

/// Whatever is written, the screen keeps its shape.
pub proof fn law_screen_wf(s: Screen, bytes: Seq<u8>, color: Color)
    requires
        s.wf(),
    ensures
        s.put_all(bytes, color).wf(),
    decreases bytes.len(),
{
    if bytes.len() > 0 {
        law_screen_wf(s, bytes.drop_last(), color);
        lemma_put_wf(s.put_all(bytes.drop_last(), color), bytes.last(), color);
    }
}

/// A byte keeps the screen in order.
pub proof fn lemma_put_wf(s: Screen, ch: u8, color: Color)
    requires
        s.wf(),
    ensures
        s.put(ch, color).wf(),
{
    let t = s.put(ch, color);
    let m = s.set(Cell { ch, color });
    assert forall|i: int| 0 <= i < 200 implies (#[trigger] m.lines[i]).len() == 30 by {
        assert(s.lines[i].len() == 30);
    }
    assert forall|i: int| 0 <= i < 200 implies (#[trigger] t.lines[i]).len() == 30 by {
        assert(s.lines[i].len() == 30);
        if i < 199 {
            assert(s.lines[i + 1].len() == 30);
            assert(m.lines[i + 1].len() == 30);
        }
        assert(m.lines[i].len() == 30);
    }
}

/// Moving the cursor, erasing before it and rubbing out keep the screen in order, and
/// an empty screen is.
pub proof fn law_cursor_wf(s: Screen, place: int, n: int)
    requires
        s.wf(),
        0 <= n <= s.col,
    ensures
        Screen::empty().wf(),
        s.at(place).wf(),
        s.erase(n).wf(),
        s.rub_out().wf(),
{
    let e = s.erase(n);
    assert forall|i: int| 0 <= i < 200 implies (#[trigger] e.lines[i]).len() == 30 by {
        assert(s.lines[i].len() == 30);
    }
    let r = s.rub_out();
    assert forall|i: int| 0 <= i < 200 implies (#[trigger] r.lines[i]).len() == 30 by {
        assert(s.lines[i].len() == 30);
    }
}

// ── What is seen of it ──────────────────────────────────────────────────────

/// The text of a cell in a window whose content begins at `(wx, wy)`, as many rows and
/// columns from its corner.
pub open spec fn shown_at(wx: int, wy: int, row: int, col: int, cell: Cell) -> display::Draw {
    display::Draw::Text {
        x: wx + 4 + 19 * col,
        y: wy + 4 + 18 * row,
        text: if cell.ch < 128 {
            seq![cell.ch as char]
        } else {
            seq!['?']
        },
        color: cell.color,
        scale: 2,
    }
}

/// The rows and columns that a window shows lie inside it, and one more would not.
pub proof fn law_shown_inside(ww: int, wh: int)
    requires
        ww >= 4,
        wh >= 6,
    ensures
        6 + 18 * Screen::rows_shown(wh) <= wh < 6 + 18 * (Screen::rows_shown(wh) + 1),
        4 + 19 * Screen::cols_shown(ww) <= ww,
        Screen::cols_shown(ww) <= 30,
        Screen::cols_shown(ww) < 30 ==> ww < 4 + 19 * (Screen::cols_shown(ww) + 1),
{
}

/// The line of the cursor is among those shown, and as many lines before it as there is
/// room for.
pub proof fn law_cursor_line_shown(s: Screen, rows: int)
    requires
        s.wf(),
        0 < rows,
    ensures
        0 <= s.first_line(rows) <= s.row < s.first_line(rows) + rows,
        s.first_line(rows) == 0 || s.row == s.first_line(rows) + rows - 1,
{
}

/// Every cell with something in it, in the rows and columns that are shown, is drawn at
/// its place, in its colour; and no other text is drawn.
pub proof fn law_cells_seen(s: Screen, wx: int, wy: int, ww: int, wh: int, row: int, col: int)
    requires
        s.wf(),
        0 <= row < Screen::rows_shown(wh),
        s.first_line(Screen::rows_shown(wh)) + row < 200,
        0 <= col < Screen::cols_shown(ww),
    ensures
        ({
            let first = s.first_line(Screen::rows_shown(wh));
            let cell = s.lines[first + row][col];
            &&& 32 < cell.ch ==> s.drawing(wx, wy, ww, wh).contains(
                shown_at(wx, wy, row, col, cell),
            )
            &&& cell.ch <= 32 ==> forall|i: int|
                0 <= i < s.drawing(wx, wy, ww, wh).len() ==> (#[trigger] s.drawing(wx, wy, ww, wh)[i]
                    matches display::Draw::Text { x, y, .. } ==> x != wx + 4 + 19 * col || y != wy
                    + 4 + 18 * row)
        }),
{
    reveal_strlit("?");
    assert("?"@ =~= seq!['?']);
    let rows = Screen::rows_shown(wh);
    let first = s.first_line(rows);
    let n = if rows < 200 - first {
        rows
    } else {
        200 - first
    };
    let back = seq![
        display::rect(wx, wy, ww, wh, display::rgb(BG as int)),
        display::rect(wx, wy, ww, 2, display::rgb(CURSOR as int)),
    ];
    let text = s.draw_rows(first, n, wx, wy, ww);
    let cursor = s.draw_cursor(wx, wy, ww, wh);
    let all = s.drawing(wx, wy, ww, wh);
    assert(all == back + text + cursor);
    let cell = s.lines[first + row][col];
    if 32 < cell.ch {
        let i = lemma_row_seen(s, first, n, wx, wy, ww, row, col);
        assert(all[2 + i] == text[i]);
    } else {
        assert forall|i: int| 0 <= i < all.len() implies (#[trigger] all[i] matches display::Draw::Text {
            x,
            y,
            ..
        } ==> x != wx + 4 + 19 * col || y != wy + 4 + 18 * row) by {
            if 2 <= i < 2 + text.len() {
                assert(all[i] == text[i - 2]);
                lemma_rows_bare(s, first, n, wx, wy, ww, row, col, i - 2);
            }
        }
    }
}

proof fn lemma_row_seen(
    s: Screen,
    first: int,
    n: int,
    wx: int,
    wy: int,
    ww: int,
    row: int,
    col: int,
) -> (i: int)
    requires
        0 <= row < n,
        0 <= col < Screen::cols_shown(ww),
        32 < s.lines[first + row][col].ch,
        "?"@ == seq!['?'],
    ensures
        0 <= i < s.draw_rows(first, n, wx, wy, ww).len(),
        s.draw_rows(first, n, wx, wy, ww)[i] == shown_at(
            wx,
            wy,
            row,
            col,
            s.lines[first + row][col],
        ),
    decreases n,
{
    if row == n - 1 {
        let head = s.draw_rows(first, n - 1, wx, wy, ww);
        let cols = Screen::cols_shown(ww);
        let j = lemma_cell_seen(s, first + row, cols, wx, wy + 4 + row * 18, col);
        head.len() + j
    } else {
        lemma_row_seen(s, first, n - 1, wx, wy, ww, row, col)
    }
}

proof fn lemma_cell_seen(s: Screen, idx: int, n: int, wx: int, py: int, col: int) -> (i: int)
    requires
        0 <= col < n,
        32 < s.lines[idx][col].ch,
        "?"@ == seq!['?'],
    ensures
        0 <= i < s.draw_cells(idx, n, wx, py).len(),
        s.draw_cells(idx, n, wx, py)[i] == shown_at(wx, py - 4, 0, col, s.lines[idx][col]),
    decreases n,
{
    if col == n - 1 {
        s.draw_cells(idx, n - 1, wx, py).len() as int
    } else {
        lemma_cell_seen(s, idx, n - 1, wx, py, col)
    }
}

proof fn lemma_rows_bare(
    s: Screen,
    first: int,
    n: int,
    wx: int,
    wy: int,
    ww: int,
    row: int,
    col: int,
    i: int,
)
    requires
        0 <= i < s.draw_rows(first, n, wx, wy, ww).len(),
        s.lines[first + row][col].ch <= 32,
    ensures
        s.draw_rows(first, n, wx, wy, ww)[i] matches display::Draw::Text { x, y, .. } && (x != wx + 4
            + 19 * col || y != wy + 4 + 18 * row),
    decreases n,
{
    if n > 0 {
        let head = s.draw_rows(first, n - 1, wx, wy, ww);
        if i < head.len() {
            lemma_rows_bare(s, first, n - 1, wx, wy, ww, row, col, i);
        } else {
            lemma_cells_bare(
                s,
                first + n - 1,
                Screen::cols_shown(ww),
                wx,
                wy + 4 + (n - 1) * 18,
                i - head.len(),
            );
        }
    }
}

proof fn lemma_cells_bare(s: Screen, idx: int, n: int, wx: int, py: int, i: int)
    requires
        0 <= i < s.draw_cells(idx, n, wx, py).len(),
    ensures
        s.draw_cells(idx, n, wx, py)[i] matches display::Draw::Text { x, y, .. } && y == py && exists|
            c: int,
        | #[trigger]
            s.lines[idx][c].ch > 32 && x == wx + 4 + 19 * c,
    decreases n,
{
    if n > 0 {
        let head = s.draw_cells(idx, n - 1, wx, py);
        if i < head.len() {
            lemma_cells_bare(s, idx, n - 1, wx, py, i);
        } else {
            assert(s.lines[idx][n - 1].ch > 32);
        }
    }
}

/// The cursor is underlined: the line lies at the foot of the cell of the cursor's row and
/// column, wherever the window has room for it, and is drawn over everything else.
pub proof fn law_cursor_seen(s: Screen, wx: int, wy: int, ww: int, wh: int)
    requires
        s.wf(),
        s.col < Screen::cols_shown(ww),
        0 < Screen::rows_shown(wh),
    ensures
        ({
            let row = s.row - s.first_line(Screen::rows_shown(wh));
            s.drawing(wx, wy, ww, wh).last() == display::Draw::Rect {
                x: wx + 4 + 19 * s.col,
                y: wy + 4 + 18 * (row + 1) - 2,
                w: 16,
                h: 2,
                color: display::rgb(0x6C8EFF),
            }
        }),
{
}

/// The window's content is dark, with a line along its upper edge.
pub proof fn law_background(s: Screen, wx: int, wy: int, ww: int, wh: int)
    ensures
        s.drawing(wx, wy, ww, wh)[0] == (display::Draw::Rect {
            x: wx,
            y: wy,
            w: ww,
            h: wh,
            color: display::rgb(0x0C0C0C),
        }),
        s.drawing(wx, wy, ww, wh)[1] == (display::Draw::Rect {
            x: wx,
            y: wy,
            w: ww,
            h: 2,
            color: display::rgb(0x6C8EFF),
        }),
{
}

// ── What is written ─────────────────────────────────────────────────────────

/// A printable byte is written at the cursor, in its colour, and the cursor goes one place
/// on, to the next line from the end of one; at the last place of all, every line moves up.
pub proof fn law_byte_written(s: Screen, b: u8, color: Color)
    requires
        s.wf(),
        b >= 32,
    ensures
        ({
            let t = s.put(b, color);
            let up = if s.place() == 5999 {
                1int
            } else {
                0int
            };
            &&& t.lines[s.row - up][s.col] == (Cell { ch: b, color })
            &&& t.place() == s.place() + 1 - 30 * up
            &&& forall|i: int, j: int|
                up <= i < 200 && 0 <= j < 30 && (i != s.row || j != s.col) ==> #[trigger] s.lines[i][j]
                    == t.lines[i - up][j]
            &&& up == 1 ==> forall|j: int| 0 <= j < 30 ==> (#[trigger] t.lines[199][j]).ch == 32
        }),
{
    let m = s.set(Cell { ch: b, color });
    assert(s.lines[s.row].len() == 30);
    assert(m.lines[s.row] == s.lines[s.row].update(s.col, Cell { ch: b, color }));
    assert(s.place() == 5999 <==> s.row == 199 && s.col == 29);
}

/// A newline moves to the beginning of the next line, a carriage return to that of this
/// one, and the other control bytes do nothing.
pub proof fn law_control_bytes(s: Screen, b: u8, color: Color)
    requires
        s.wf(),
        b < 32,
    ensures
        b != 10 ==> s.put(b, color).lines == s.lines && s.put(b, color).row == s.row,
        b == 10 && s.row < 199 ==> s.put(b, color).lines == s.lines && s.put(b, color).row == s.row
            + 1,
        s.put(b, color).col == (if b == 10 || b == 13 {
            0
        } else {
            s.col
        }),
{
}

/// The cursor goes to the place that is wanted, or to the nearest on the screen, and
/// nothing else changes.
pub proof fn law_cursor_moved(s: Screen, place: int)
    requires
        s.wf(),
    ensures
        s.at(place).lines == s.lines,
        0 <= place < 6000 ==> s.at(place).place() == place,
        place < 0 ==> s.at(place).place() == 0,
        place >= 6000 ==> s.at(place).place() == 5999,
        s.at(s.place()) == s,
{
}

/// What is erased are the cells right before the cursor, which goes back to the first of
/// them; a backspace does the same with one cell, and at the beginning of a line it empties
/// the cell there.
pub proof fn law_erased(s: Screen, n: int, i: int, j: int)
    requires
        s.wf(),
        0 <= n <= s.col,
        0 <= i < 200,
        0 <= j < 30,
    ensures
        s.erase(n).row == s.row && s.erase(n).col == s.col - n,
        i == s.row && s.col - n <= j < s.col ==> s.erase(n).lines[i][j].ch == 32,
        !(i == s.row && s.col - n <= j < s.col) ==> s.erase(n).lines[i][j] == s.lines[i][j],
        s.col > 0 ==> s.rub_out().place() == s.place() - 1,
        s.col == 0 ==> s.rub_out().place() == s.place(),
        s.rub_out().lines[s.row][s.rub_out().col].ch == 32,
        i != s.row || j != s.rub_out().col ==> s.rub_out().lines[i][j] == s.lines[i][j],
{
    assert(s.lines[s.row].len() == 30);
}

/// An empty screen has spaces everywhere and the cursor in its corner.
pub proof fn law_empty_screen(i: int, j: int)
    requires
        0 <= i < 200,
        0 <= j < 30,
    ensures
        Screen::empty().lines[i][j].ch == 32,
        Screen::empty().place() == 0,
{
}

} // verus!
