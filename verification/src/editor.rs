//! The text editor.
//! Arrows, Home, End, Page Up and Page Down move; typing inserts; F2 or Ctrl+S
//! saves; F10, Ctrl+Q or ESC closes, with a warning while there are changes.
use vstd::prelude::*;
use crate::display::{Color, Display};
use crate::ps2::{
    KEY_CTRL_END, KEY_CTRL_HOME, KEY_DEL, KEY_DOWN, KEY_END, KEY_F10, KEY_F2, KEY_HOME, KEY_LEFT,
    KEY_PGDN, KEY_PGUP, KEY_RIGHT, KEY_UP,
};
use crate::{complete, display, shell, text};

verus! {

pub const CHAR_W: usize = 9;

pub const CHAR_H: usize = 12;

pub const BG: u32 = 0x0A0A14;

pub const TEXT: u32 = 0xE8E8E8;

pub const DIM: u32 = 0x666688;

pub const CURSOR_C: u32 = 0x6C8EFF;

pub const MODIFIED: u32 = 0xFF9944;

pub const STATUS: u32 = 0x1A1A2E;

pub const ERR: u32 = 0xFF6B6B;

pub const LINE_COL: u32 = 0x333355;

pub const ROW_BG: u32 = 0x12122A;

pub const OTHER_TEXT: u32 = 0xCCCCCC;

/// The line separator.
pub const NEWLINE: u8 = 10;

/// An open file.
pub struct Editor {
    pub path: String,
    lines: Vec<Vec<u8>>,
    cursor_row: usize,
    cursor_col: usize,
    scroll_row: usize,
    pub modified: bool,
    pub status_msg: String,
    status_ok: bool,
    pub open: bool,
    /// Rows that the last rendering had room for.
    page_rows: usize,
}

/// What contracts say of an editor.
pub struct EditorState {
    pub path: Seq<char>,
    pub lines: Seq<Seq<u8>>,
    pub row: int,
    pub col: int,
    pub scroll: int,
    pub modified: bool,
    pub msg: Seq<char>,
    pub status_ok: bool,
    pub open: bool,
    pub page: int,
}

/// What a key asks of the caller.
#[derive(Clone, Copy, PartialEq, Eq, Structural, Debug)]
pub enum EditorAction {
    /// Nothing to do.
    Stay,
    /// Write the file.
    Save,
}

/// A file to be written.
pub struct SaveRequest {
    pub path: String,
    pub data: Vec<u8>,
}

/// Where a file is to be written.
pub enum SaveTarget {
    Existing(u32),
    /// A new file of this name in the directory of this path.
    Create { dir: String, name: String },
}

// ── The document as one text ────────────────────────────────────────────────

/// The lines of a text: it is cut at every newline.
pub open spec fn split_lines(s: Seq<u8>) -> Seq<Seq<u8>>
    decreases s.len(),
{
    if s.len() == 0 {
        seq![Seq::<u8>::empty()]
    } else {
        let head = split_lines(s.drop_last());
        if s.last() == NEWLINE {
            head.push(Seq::<u8>::empty())
        } else {
            head.drop_last().push(head.last().push(s.last()))
        }
    }
}

/// The text of some lines: they are joined by newlines.
pub open spec fn join_lines(lines: Seq<Seq<u8>>) -> Seq<u8>
    decreases lines.len(),
{
    if lines.len() == 0 {
        Seq::<u8>::empty()
    } else if lines.len() == 1 {
        lines[0]
    } else {
        join_lines(lines.drop_last()).push(NEWLINE) + lines.last()
    }
}

/// No line holds a newline.
pub open spec fn lines_clean(lines: Seq<Seq<u8>>) -> bool {
    forall|i: int, j: int|
        0 <= i < lines.len() && 0 <= j < lines[i].len() ==> #[trigger] lines[i][j] != NEWLINE
}

/// The bytes before line `row` in the joined text.
pub open spec fn line_start(lines: Seq<Seq<u8>>, row: int) -> int
    decreases row,
{
    if row <= 0 {
        0
    } else {
        line_start(lines, row - 1) + lines[row - 1].len() + 1
    }
}

impl EditorState {
    /// A file that was just opened.
    pub open spec fn fresh(path: Seq<char>, content: Seq<u8>) -> EditorState {
        EditorState {
            path,
            lines: split_lines(content),
            row: 0,
            col: 0,
            scroll: 0,
            modified: false,
            msg: "F2=save  F10=close  Ctrl+S/Q also work"@,
            status_ok: true,
            open: true,
            page: 0,
        }
    }

    pub open spec fn wf(self) -> bool {
        &&& 0 <= self.row < self.lines.len()
        &&& 0 <= self.col <= self.lines[self.row].len()
        &&& 0 <= self.scroll <= self.row
        &&& 0 <= self.page
        &&& lines_clean(self.lines)
    }

    /// The text being edited.
    pub open spec fn text(self) -> Seq<u8> {
        join_lines(self.lines)
    }

    /// The cursor's place in the text.
    pub open spec fn offset(self) -> int {
        line_start(self.lines, self.row) + self.col
    }

    /// The cursor moved to a row and column; the view follows it upwards.
    pub open spec fn at(self, row: int, col: int) -> EditorState {
        EditorState {
            row,
            col,
            scroll: if row < self.scroll {
                row
            } else {
                self.scroll
            },
            ..self
        }
    }

    /// The cursor moved to a row, its column cut to that row's length.
    pub open spec fn at_row(self, row: int) -> EditorState {
        self.at(
            row,
            if self.col > self.lines[row].len() {
                self.lines[row].len() as int
            } else {
                self.col
            },
        )
    }

    /// The document changed to `lines`.
    pub open spec fn edited(self, lines: Seq<Seq<u8>>) -> EditorState {
        EditorState { lines, modified: true, ..self }
    }

    /// `s` put in at the cursor, within the line.
    pub open spec fn inserted(self, s: Seq<u8>) -> EditorState {
        let line = self.lines[self.row];
        self.edited(
            self.lines.update(
                self.row,
                line.subrange(0, self.col) + s + line.subrange(self.col, line.len() as int),
            ),
        ).at(self.row, self.col + s.len())
    }

    /// The current line cut in two at the cursor.
    pub open spec fn line_broken(self) -> EditorState {
        let line = self.lines[self.row];
        self.edited(
            self.lines.update(self.row, line.subrange(0, self.col)).insert(
                self.row + 1,
                line.subrange(self.col, line.len() as int),
            ),
        ).at(self.row + 1, 0)
    }

    /// Line `row + 1` appended to line `row`.
    pub open spec fn merged(lines: Seq<Seq<u8>>, row: int) -> Seq<Seq<u8>> {
        lines.remove(row + 1).update(row, lines[row] + lines[row + 1])
    }

    /// The byte before the cursor taken out.
    pub open spec fn backspaced(self) -> EditorState {
        if self.col > 0 {
            self.edited(
                self.lines.update(self.row, self.lines[self.row].remove(self.col - 1)),
            ).at(self.row, self.col - 1)
        } else if self.row > 0 {
            self.edited(Self::merged(self.lines, self.row - 1)).at(
                self.row - 1,
                self.lines[self.row - 1].len() as int,
            )
        } else {
            self
        }
    }

    /// The byte under the cursor taken out.
    pub open spec fn deleted(self) -> EditorState {
        if self.col < self.lines[self.row].len() {
            self.edited(self.lines.update(self.row, self.lines[self.row].remove(self.col)))
        } else if self.row + 1 < self.lines.len() {
            self.edited(Self::merged(self.lines, self.row))
        } else {
            self
        }
    }

    /// Closing: unsaved changes are warned of once.
    pub open spec fn closed(self) -> EditorState {
        if self.modified {
            EditorState {
                msg: "Unsaved! Press again to force close"@,
                status_ok: false,
                modified: false,
                ..self
            }
        } else {
            EditorState { open: false, ..self }
        }
    }

    /// The editor after the key `b`.
    pub open spec fn key(self, b: u8) -> EditorState {
        let last = self.lines.len() - 1;
        if b == 0x11 || b == 0x1B || b == KEY_F10 {
            self.closed()
        } else if b == KEY_UP {
            if self.row > 0 {
                self.at_row(self.row - 1)
            } else {
                self
            }
        } else if b == KEY_DOWN {
            if self.row < last {
                self.at_row(self.row + 1)
            } else {
                self
            }
        } else if b == KEY_LEFT {
            if self.col > 0 {
                self.at(self.row, self.col - 1)
            } else if self.row > 0 {
                self.at(self.row - 1, self.lines[self.row - 1].len() as int)
            } else {
                self
            }
        } else if b == KEY_RIGHT {
            if self.col < self.lines[self.row].len() {
                self.at(self.row, self.col + 1)
            } else if self.row < last {
                self.at(self.row + 1, 0)
            } else {
                self
            }
        } else if b == KEY_HOME {
            self.at(self.row, 0)
        } else if b == KEY_END {
            self.at(self.row, self.lines[self.row].len() as int)
        } else if b == KEY_CTRL_HOME {
            self.at(0, 0)
        } else if b == KEY_CTRL_END {
            self.at(last, self.lines[last].len() as int)
        } else if b == KEY_PGUP {
            self.at_row(display::sat_sub(self.row, self.page))
        } else if b == KEY_PGDN {
            self.at_row(
                if self.page > last - self.row {
                    last
                } else {
                    self.row + self.page
                },
            )
        } else if b == NEWLINE {
            self.line_broken()
        } else if b == 0x08 {
            self.backspaced()
        } else if b == KEY_DEL {
            self.deleted()
        } else if b == 0x09 {
            self.inserted(seq![0x20u8, 0x20u8, 0x20u8, 0x20u8])
        } else if 32 <= b < 128 {
            self.inserted(seq![b])
        } else {
            self
        }
    }
}

impl View for Editor {
    type V = EditorState;

    closed spec fn view(&self) -> EditorState {
        EditorState {
            path: self.path@,
            lines: self.lines@.map_values(|l: Vec<u8>| l@),
            row: self.cursor_row as int,
            col: self.cursor_col as int,
            scroll: self.scroll_row as int,
            modified: self.modified,
            msg: self.status_msg@,
            status_ok: self.status_ok,
            open: self.open,
            page: self.page_rows as int,
        }
    }
}

/// The lines of `content`.
fn cut_lines(content: &[u8]) -> (lines: Vec<Vec<u8>>)
    ensures
        lines@.map_values(|l: Vec<u8>| l@) == split_lines(content@),
        lines@.len() > 0,
{
    let mut lines: Vec<Vec<u8>> = Vec::new();
    let mut cur: Vec<u8> = Vec::new();
    let mut i: usize = 0;
    proof {
        assert(content@.subrange(0, 0) =~= Seq::<u8>::empty());
        assert(split_lines(content@.subrange(0, 0)) =~= lines@.map_values(|l: Vec<u8>| l@).push(cur@));
    }
    while i < content.len()
        invariant
            i <= content@.len(),
            split_lines(content@.subrange(0, i as int)) == lines@.map_values(
                |l: Vec<u8>| l@,
            ).push(cur@),
        decreases content@.len() - i,
    {
        let ghost before = lines@.map_values(|l: Vec<u8>| l@);
        let ghost s1 = content@.subrange(0, i + 1);
        proof {
            assert(s1.drop_last() =~= content@.subrange(0, i as int));
            assert(before.push(cur@).drop_last() =~= before);
        }
        if content[i] == NEWLINE {
            let ghost c = cur@;
            lines.push(cur);
            cur = Vec::new();
            proof {
                assert(lines@.map_values(|l: Vec<u8>| l@) =~= before.push(c));
            }
        } else {
            cur.push(content[i]);
        }
        i = i + 1;
    }
    let ghost before = lines@.map_values(|l: Vec<u8>| l@);
    let ghost c = cur@;
    lines.push(cur);
    proof {
        assert(content@.subrange(0, content@.len() as int) =~= content@);
        assert(lines@.map_values(|l: Vec<u8>| l@) =~= before.push(c));
    }
    lines
}

impl Editor {
    pub open spec fn wf(self) -> bool {
        self@.wf()
    }

    /// Opens `content` under the name `path`.
    pub fn new(path: &str, content: &[u8]) -> (e: Editor)
        ensures
            e.wf(),
            e@ == EditorState::fresh(path@, content@),
    {
        let lines: Vec<Vec<u8>> = cut_lines(content);
        proof {
            lemma_split_clean(content@);
        }
        Editor {
            path: String::from_str(path),
            lines,
            cursor_row: 0,
            cursor_col: 0,
            scroll_row: 0,
            modified: false,
            status_msg: String::from_str("F2=save  F10=close  Ctrl+S/Q also work"),
            status_ok: true,
            open: true,
            page_rows: 0,
        }
    }

    fn line_len(&self, row: usize) -> (n: usize)
        requires
            row < self@.lines.len(),
        ensures
            n == self@.lines[row as int].len(),
    {
        self.lines[row].len()
    }

    fn ensure_visible(&mut self)
        ensures
            final(self)@ == old(self)@.at(old(self)@.row, old(self)@.col),
    {
        if self.cursor_row < self.scroll_row {
            self.scroll_row = self.cursor_row;
        }
    }

    fn clamp_col(&mut self)
        requires
            0 <= old(self)@.row < old(self)@.lines.len(),
        ensures
            final(self)@ == (EditorState {
                col: if old(self)@.col > old(self)@.lines[old(self)@.row].len() {
                    old(self)@.lines[old(self)@.row].len() as int
                } else {
                    old(self)@.col
                },
                ..old(self)@
            }),
    {
        let max: usize = self.line_len(self.cursor_row);
        if self.cursor_col > max {
            self.cursor_col = max;
        }
    }

    fn move_to_row(&mut self, row: usize)
        requires
            old(self).wf(),
            row < old(self)@.lines.len(),
        ensures
            final(self).wf(),
            final(self)@ == old(self)@.at_row(row as int),
    {
        self.cursor_row = row;
        self.clamp_col();
        self.ensure_visible();
    }

    fn move_to(&mut self, row: usize, col: usize)
        requires
            old(self).wf(),
            row < old(self)@.lines.len(),
            col <= old(self)@.lines[row as int].len(),
        ensures
            final(self).wf(),
            final(self)@ == old(self)@.at(row as int, col as int),
    {
        self.cursor_row = row;
        self.cursor_col = col;
        self.ensure_visible();
    }
}

impl Editor {
    /// Puts `b` in at the cursor.
    fn insert_byte(&mut self, b: u8)
        requires
            old(self).wf(),
            b != NEWLINE,
        ensures
            final(self).wf(),
            final(self)@ == old(self)@.inserted(seq![b]),
    {
        let ghost line = self@.lines[self@.row];
        let ghost col = self@.col;
        self.lines[self.cursor_row].insert(self.cursor_col, b);
        assert(self.cursor_col < self.lines@[self.cursor_row as int].len());
        self.cursor_col = self.cursor_col + 1;
        self.modified = true;
        proof {
            let e = old(self)@.inserted(seq![b]);
            assert(line.insert(col, b) =~= line.subrange(0, col) + seq![b] + line.subrange(
                col,
                line.len() as int,
            ));
            assert(self@.lines =~= e.lines);
            assert forall|i: int, j: int|
                0 <= i < e.lines.len() && 0 <= j < e.lines[i].len() implies #[trigger] e.lines[i][j]
                != NEWLINE by {
                if i == self@.row {
                    if j < col {
                        assert(old(self)@.lines[i][j] != NEWLINE);
                    } else if j > col {
                        assert(old(self)@.lines[i][j - 1] != NEWLINE);
                    }
                } else {
                    assert(old(self)@.lines[i][j] != NEWLINE);
                }
            }
        }
    }

    fn insert_tab(&mut self)
        requires
            old(self).wf(),
        ensures
            final(self).wf(),
            final(self)@ == old(self)@.inserted(seq![0x20u8, 0x20u8, 0x20u8, 0x20u8]),
    {
        let ghost e0 = self@;
        self.insert_byte(0x20);
        proof {
            lemma_insert_twice(e0, seq![0x20u8], seq![0x20u8]);
        }
        self.insert_byte(0x20);
        proof {
            lemma_insert_twice(e0, seq![0x20u8] + seq![0x20u8], seq![0x20u8]);
        }
        self.insert_byte(0x20);
        proof {
            lemma_insert_twice(e0, seq![0x20u8] + seq![0x20u8] + seq![0x20u8], seq![0x20u8]);
        }
        self.insert_byte(0x20);
        proof {
            assert(seq![0x20u8] + seq![0x20u8] + seq![0x20u8] + seq![0x20u8] =~= seq![
                0x20u8,
                0x20u8,
                0x20u8,
                0x20u8,
            ]);
        }
    }

    fn break_line(&mut self)
        requires
            old(self).wf(),
        ensures
            final(self).wf(),
            final(self)@ == old(self)@.line_broken(),
    {
        let ghost line = self@.lines[self@.row];
        let ghost row = self@.row;
        let ghost col = self@.col;
        let rest: Vec<u8> = self.lines[self.cursor_row].split_off(self.cursor_col);
        assert(self.cursor_row < self.lines.len());
        self.cursor_row = self.cursor_row + 1;
        self.lines.insert(self.cursor_row, rest);
        self.cursor_col = 0;
        self.ensure_visible();
        self.modified = true;
        proof {
            let e = old(self)@.line_broken();
            assert(self@.lines =~= e.lines);
            assert forall|i: int, j: int|
                0 <= i < e.lines.len() && 0 <= j < e.lines[i].len() implies #[trigger] e.lines[i][j]
                != NEWLINE by {
                if i < row || (i == row && j < col) {
                    assert(old(self)@.lines[i][j] != NEWLINE);
                } else if i == row + 1 {
                    assert(old(self)@.lines[row][col + j] != NEWLINE);
                } else {
                    assert(old(self)@.lines[i - 1][j] != NEWLINE);
                }
            }
        }
    }

    /// Appends line `row + 1` to line `row`.
    fn merge_lines(&mut self, row: usize)
        requires
            lines_clean(old(self)@.lines),
            row + 1 < old(self)@.lines.len(),
        ensures
            lines_clean(final(self)@.lines),
            final(self)@ == (EditorState {
                lines: EditorState::merged(old(self)@.lines, row as int),
                ..old(self)@
            }),
    {
        let ghost lines0 = self@.lines;
        assert(row + 1 < self.lines.len());
        let mut next: Vec<u8> = self.lines.remove(row + 1);
        self.lines[row].append(&mut next);
        proof {
            let m = EditorState::merged(lines0, row as int);
            assert(self@.lines =~= m);
            assert forall|i: int, j: int|
                0 <= i < m.len() && 0 <= j < m[i].len() implies #[trigger] m[i][j] != NEWLINE by {
                if i == row {
                    if j < lines0[i].len() {
                        assert(lines0[i][j] != NEWLINE);
                    } else {
                        assert(lines0[i + 1][j - lines0[i].len()] != NEWLINE);
                    }
                } else if i < row {
                    assert(lines0[i][j] != NEWLINE);
                } else {
                    assert(lines0[i + 1][j] != NEWLINE);
                }
            }
        }
    }

    /// Takes the byte at `col` out of the current line.
    fn remove_byte(&mut self, col: usize)
        requires
            lines_clean(old(self)@.lines),
            0 <= old(self)@.row < old(self)@.lines.len(),
            col < old(self)@.lines[old(self)@.row].len(),
        ensures
            lines_clean(final(self)@.lines),
            final(self)@ == old(self)@.edited(
                old(self)@.lines.update(
                    old(self)@.row,
                    old(self)@.lines[old(self)@.row].remove(col as int),
                ),
            ),
    {
        let ghost lines0 = self@.lines;
        let ghost row = self@.row;
        self.lines[self.cursor_row].remove(col);
        self.modified = true;
        proof {
            let m = lines0.update(row, lines0[row].remove(col as int));
            assert(self@.lines =~= m);
            assert forall|i: int, j: int|
                0 <= i < m.len() && 0 <= j < m[i].len() implies #[trigger] m[i][j] != NEWLINE by {
                if i == row && j >= col {
                    assert(lines0[i][j + 1] != NEWLINE);
                } else {
                    assert(lines0[i][j] != NEWLINE);
                }
            }
        }
    }

    fn backspace(&mut self)
        requires
            old(self).wf(),
        ensures
            final(self).wf(),
            final(self)@ == old(self)@.backspaced(),
    {
        if self.cursor_col > 0 {
            self.cursor_col = self.cursor_col - 1;
            self.remove_byte(self.cursor_col);
        } else if self.cursor_row > 0 {
            let row: usize = self.cursor_row - 1;
            let col: usize = self.line_len(row);
            self.merge_lines(row);
            self.modified = true;
            self.cursor_row = row;
            self.cursor_col = col;
            self.ensure_visible();
        }
    }

    fn delete(&mut self)
        requires
            old(self).wf(),
        ensures
            final(self).wf(),
            final(self)@ == old(self)@.deleted(),
    {
        assert(self.cursor_row < self.lines.len());
        if self.cursor_col < self.line_len(self.cursor_row) {
            self.remove_byte(self.cursor_col);
        } else if self.cursor_row + 1 < self.lines.len() {
            self.merge_lines(self.cursor_row);
            self.modified = true;
        }
    }

    fn close(&mut self)
        requires
            old(self).wf(),
        ensures
            final(self).wf(),
            final(self)@ == old(self)@.closed(),
    {
        if self.modified {
            self.status_msg = String::from_str("Unsaved! Press again to force close");
            self.status_ok = false;
            self.modified = false;
        } else {
            self.open = false;
        }
    }

    /// Handles a key; the low byte of the character counts.
    pub fn on_key(&mut self, c: char) -> (action: EditorAction)
        requires
            old(self).wf(),
        ensures
            final(self).wf(),
            final(self)@ == old(self)@.key(c as u8),
            action == if c as u8 == 0x13 || c as u8 == KEY_F2 {
                EditorAction::Save
            } else {
                EditorAction::Stay
            },
            action is Save <==> EditorState::asks_save(c as u8),
    {
        let b: u8 = c as u8;
        if b == 0x13 || b == KEY_F2 {
            return EditorAction::Save;
        }
        let last: usize = self.lines.len() - 1;
        if b == 0x11 || b == 0x1B || b == KEY_F10 {
            self.close();
        } else if b == KEY_UP {
            if self.cursor_row > 0 {
                self.move_to_row(self.cursor_row - 1);
            }
        } else if b == KEY_DOWN {
            if self.cursor_row < last {
                self.move_to_row(self.cursor_row + 1);
            }
        } else if b == KEY_LEFT {
            if self.cursor_col > 0 {
                self.move_to(self.cursor_row, self.cursor_col - 1);
            } else if self.cursor_row > 0 {
                let col: usize = self.line_len(self.cursor_row - 1);
                self.move_to(self.cursor_row - 1, col);
            }
        } else if b == KEY_RIGHT {
            if self.cursor_col < self.line_len(self.cursor_row) {
                self.move_to(self.cursor_row, self.cursor_col + 1);
            } else if self.cursor_row < last {
                self.move_to(self.cursor_row + 1, 0);
            }
        } else if b == KEY_HOME {
            self.move_to(self.cursor_row, 0);
        } else if b == KEY_END {
            let col: usize = self.line_len(self.cursor_row);
            self.move_to(self.cursor_row, col);
        } else if b == KEY_CTRL_HOME {
            self.move_to(0, 0);
        } else if b == KEY_CTRL_END {
            let col: usize = self.line_len(last);
            self.move_to(last, col);
        } else if b == KEY_PGUP {
            let row: usize = if self.cursor_row >= self.page_rows {
                self.cursor_row - self.page_rows
            } else {
                0
            };
            self.move_to_row(row);
        } else if b == KEY_PGDN {
            let row: usize = if self.page_rows > last - self.cursor_row {
                last
            } else {
                self.cursor_row + self.page_rows
            };
            self.move_to_row(row);
        } else if b == NEWLINE {
            self.break_line();
        } else if b == 0x08 {
            self.backspace();
        } else if b == KEY_DEL {
            self.delete();
        } else if b == 0x09 {
            self.insert_tab();
        } else if b >= 32 && b < 128 {
            self.insert_byte(b);
        }
        EditorAction::Stay
    }

    /// The text being edited.
    pub fn contents(&self) -> (data: Vec<u8>)
        ensures
            data@ == self@.text(),
    {
        let mut data: Vec<u8> = Vec::new();
        let mut i: usize = 0;
        let ghost lines = self@.lines;
        proof {
            assert(lines.take(0) =~= Seq::<Seq<u8>>::empty());
        }
        while i < self.lines.len()
            invariant
                i <= lines.len(),
                lines == self@.lines,
                data@ == join_lines(lines.take(i as int)) + (if 0 < i < lines.len() {
                    seq![NEWLINE]
                } else {
                    Seq::<u8>::empty()
                }),
            decreases lines.len() - i,
        {
            let ghost d0 = data@;
            let mut j: usize = 0;
            while j < self.lines[i].len()
                invariant
                    i < lines.len(),
                    lines == self@.lines,
                    j <= lines[i as int].len(),
                    data@ == d0 + lines[i as int].take(j as int),
                decreases lines[i as int].len() - j,
            {
                data.push(self.lines[i][j]);
                proof {
                    assert(lines[i as int].take(j as int).push(lines[i as int][j as int])
                        =~= lines[i as int].take(j + 1));
                }
                j = j + 1;
            }
            if i + 1 < self.lines.len() {
                data.push(NEWLINE);
            }
            proof {
                let t = lines.take(i + 1);
                assert(lines[i as int].take(lines[i as int].len() as int) =~= lines[i as int]);
                assert(t.drop_last() =~= lines.take(i as int));
                assert(t.last() == lines[i as int]);
                if i == 0 {
                    assert(join_lines(t) == lines[0]);
                    assert(data@ =~= join_lines(t) + (if i + 1 < lines.len() {
                        seq![NEWLINE]
                    } else {
                        Seq::<u8>::empty()
                    }));
                } else {
                    assert(join_lines(t) == join_lines(lines.take(i as int)).push(NEWLINE)
                        + lines[i as int]);
                    assert(data@ =~= join_lines(t) + (if i + 1 < lines.len() {
                        seq![NEWLINE]
                    } else {
                        Seq::<u8>::empty()
                    }));
                }
            }
            i = i + 1;
        }
        proof {
            assert(lines.take(lines.len() as int) =~= lines);
            assert(data@ =~= join_lines(lines));
        }
        data
    }

    /// Starts saving: gives the file to be written, or, without a disk, reports
    /// the failure in the status line.
    pub fn save(&mut self, has_disk: bool) -> (request: Option<SaveRequest>)
        requires
            old(self).wf(),
        ensures
            final(self).wf(),
            has_disk ==> final(self)@ == old(self)@ && request is Some && request->0.path@
                == old(self)@.path && request->0.data@ == old(self)@.text(),
            !has_disk ==> request is None && final(self)@ == (EditorState {
                msg: "ERROR: no NVMe controller"@,
                status_ok: false,
                ..old(self)@
            }),
            has_disk ==> (request->0.path@, request->0.data@) == old(self)@.to_write(),
            !has_disk ==> final(self)@ == old(self)@.failed("ERROR: no NVMe controller"@),
    {
        if has_disk {
            let data: Vec<u8> = self.contents();
            let path: String = String::from_str(self.path.as_str());
            Some(SaveRequest { path, data })
        } else {
            self.status_msg = String::from_str("ERROR: no NVMe controller");
            self.status_ok = false;
            None
        }
    }

    /// The number of lines, and the column of the cursor.
    pub fn extent(&self) -> (r: (usize, usize))
        ensures
            r.0 == self@.lines.len(),
            r.1 == self@.col,
    {
        (self.lines.len(), self.cursor_col)
    }

    /// Whether the file is still open.
    pub fn is_open(&self) -> (r: bool)
        ensures
            r == self@.open,
    {
        self.open
    }

    /// Notes that the file's directory does not exist, so that nothing was written.
    pub fn no_directory(&mut self)
        requires
            old(self).wf(),
        ensures
            final(self).wf(),
            final(self)@ == (EditorState {
                msg: "ERROR: no such directory"@,
                status_ok: false,
                ..old(self)@
            }),
            final(self)@ == old(self)@.failed("ERROR: no such directory"@),
    {
        self.status_msg = String::from_str("ERROR: no such directory");
        self.status_ok = false;
    }

    /// Notes that `len` bytes were written.
    pub fn saved(&mut self, len: usize)
        requires
            old(self).wf(),
        ensures
            final(self).wf(),
            final(self)@ == (EditorState {
                modified: false,
                msg: "Saved "@ + old(self)@.path + " ("@ + text::dec(len as nat) + " bytes)"@,
                status_ok: true,
                ..old(self)@
            }),
            final(self)@ == old(self)@.stored(len as nat),
    {
        let mut msg: String = String::from_str("Saved ");
        msg.append(self.path.as_str());
        msg.append(" (");
        text::push_dec(&mut msg, len as u64);
        msg.append(" bytes)");
        self.modified = false;
        self.status_msg = msg;
        self.status_ok = true;
    }
}

/// Opens the file `path`, with what was read from it; a file that was not found,
/// or no disk, gives an empty text.
pub fn open(path: &str, found: Option<Vec<u8>>) -> (e: Editor)
    ensures
        e.wf(),
        e@ == EditorState::fresh(
            path@,
            match found {
                Some(data) => data@,
                None => Seq::empty(),
            },
        ),
{
    match found {
        Some(data) => Editor::new(path, data.as_slice()),
        None => {
            let data: Vec<u8> = Vec::new();
            Editor::new(path, data.as_slice())
        },
    }
}

/// Where the file `path` is written: into the file that was found, else into a
/// new one in the path's directory, under the name at the path's end. A plain name
/// goes to the root directory.
pub fn save_target(path: &str, found: Option<u32>) -> (t: SaveTarget)
    ensures
        found is Some ==> t == SaveTarget::Existing(found->0),
        found is None ==> (t matches SaveTarget::Create { dir, name } && dir@ == shell::parent(path@)
            && name@ == shell::base(path@)),
        found is None ==> (t matches SaveTarget::Create { dir, name } && (dir@, name@) == new_place(
            path@,
        )),
{
    match found {
        Some(ino) => SaveTarget::Existing(ino),
        None => SaveTarget::Create { dir: shell::parent_path(path), name: shell::base_name(path) },
    }
}

/// A plain name is that of a file in the root directory; any other path leads back
/// to itself from the directory and the name that a new file gets.
pub proof fn law_new_file_place(path: Seq<char>)
    requires
        path.len() > 0,
        path.last() != '/',
    ensures
        !path.contains('/') ==> shell::parent(path) == seq!['/'] && shell::base(path) == path,
        path[0] == '/' && path[1] != '/' ==> text::join_path(shell::parent(path), shell::base(path))
            == path,
{
    if !path.contains('/') {
        lemma_plain_name(path);
    } else if path[0] == '/' && path[1] != '/' {
        shell::law_path_rejoins(path);
    }
}

proof fn lemma_plain_name(s: Seq<char>)
    requires
        !s.contains('/'),
    ensures
        shell::before_last_slash(s).len() == 0,
        complete::behind_last(s, '/') == s,
    decreases s.len(),
{
    if s.len() > 0 {
        assert(s.contains(s[s.len() - 1]));
        assert forall|i: int| 0 <= i < s.drop_last().len() implies s.drop_last()[i] != '/' by {
            assert(s.contains(s[i]));
        }
        lemma_plain_name(s.drop_last());
        assert(s.drop_last().push(s.last()) =~= s);
    }
}

// ── Rendering ───────────────────────────────────────────────────────────────

/// The character of a byte on the screen: `?` stands for what is not ASCII.
pub open spec fn glyph(b: u8) -> Seq<char> {
    if b < 128 {
        seq![b as char]
    } else {
        "?"@
    }
}

/// Rows of text that fit into a window of height `wh`.
pub open spec fn rows_shown(wh: int) -> int {
    display::sat_sub(wh, 16) / 12
}

/// Columns of text that fit into a window of width `ww`, beside the line numbers.
pub open spec fn cols_shown(ww: int) -> int {
    display::sat_sub(ww, 38) / 9
}

/// Where text of `bytes` bytes begins to end four pixels before `ww`.
pub open spec fn right_aligned(ww: int, bytes: int) -> int {
    display::sat_sub(ww, bytes * 9 + 4)
}

impl EditorState {
    /// The view scrolled so that the cursor shows among `rows` rows.
    pub open spec fn scrolled(self, rows: int) -> EditorState {
        let s = if self.row >= self.scroll + rows {
            self.row + 1 - rows
        } else {
            self.scroll
        };
        EditorState {
            scroll: if self.row < s {
                self.row
            } else {
                s
            },
            page: rows,
            ..self
        }
    }

    /// The drawing of column `ci` of line `idx` at the height `py`.
    pub open spec fn draw_char(self, idx: int, ci: int, wx: int, py: int) -> Seq<display::Draw> {
        let px = wx + 38 + ci * 9;
        let ch = self.lines[idx][ci];
        (if ch > 32 {
            seq![
                display::label(
                    px,
                    py + 1,
                    glyph(ch),
                    display::rgb(
                        if idx == self.row {
                            TEXT as int
                        } else {
                            OTHER_TEXT as int
                        },
                    ),
                    1,
                ),
            ]
        } else {
            Seq::<display::Draw>::empty()
        }) + (if idx == self.row && ci == self.col {
            seq![display::rect(px, py + 10, 8, 2, display::rgb(CURSOR_C as int))]
        } else {
            Seq::<display::Draw>::empty()
        })
    }

    /// The drawing of the first `n` columns of line `idx`.
    pub open spec fn draw_chars(self, idx: int, n: int, wx: int, py: int) -> Seq<display::Draw>
        decreases n,
    {
        if n <= 0 {
            Seq::<display::Draw>::empty()
        } else {
            self.draw_chars(idx, n - 1, wx, py) + self.draw_char(idx, n - 1, wx, py)
        }
    }

    /// The drawing of the `r`-th row on the screen: the gutter, the line number,
    /// the highlight of the cursor's line, the text, and the cursor.
    pub open spec fn draw_row(self, r: int, wx: int, wy: int, ww: int) -> Seq<display::Draw> {
        let idx = self.scroll + r;
        let py = wy + 16 + r * 12;
        let gutter = seq![display::rect(wx, py, 34, 12, display::rgb(LINE_COL as int))];
        if idx >= self.lines.len() {
            gutter
        } else {
            let len = self.lines[idx].len() as int;
            let cols = cols_shown(ww);
            gutter + seq![
                display::label(
                    wx + 2,
                    py + 1,
                    text::pad_left(text::dec((idx + 1) as nat), 3),
                    display::rgb(DIM as int),
                    1,
                ),
            ] + (if idx == self.row {
                seq![
                    display::rect(
                        wx + 36,
                        py,
                        display::sat_sub(ww, 36),
                        12,
                        display::rgb(ROW_BG as int),
                    ),
                ]
            } else {
                Seq::<display::Draw>::empty()
            }) + self.draw_chars(
                idx,
                if len < cols {
                    len
                } else {
                    cols
                },
                wx,
                py,
            ) + (if idx == self.row && self.col == len && len < cols {
                seq![
                    display::rect(wx + 38 + len * 9, py + 10, 8, 2, display::rgb(CURSOR_C as int)),
                ]
            } else {
                Seq::<display::Draw>::empty()
            })
        }
    }

    /// The drawing of the first `n` rows.
    pub open spec fn draw_rows(self, n: int, wx: int, wy: int, ww: int) -> Seq<display::Draw>
        decreases n,
    {
        if n <= 0 {
            Seq::<display::Draw>::empty()
        } else {
            self.draw_rows(n - 1, wx, wy, ww) + self.draw_row(n - 1, wx, wy, ww)
        }
    }

    /// The bar on top: the file's name, whether it was changed, and the message.
    pub open spec fn draw_title(self, wx: int, wy: int, ww: int) -> Seq<display::Draw> {
        seq![
            display::rect(wx, wy, ww, 16, display::rgb(STATUS as int)),
            display::label(
                wx + 2,
                wy + 2,
                " "@ + text::trim_slashes(self.path) + " "@ + (if self.modified {
                    " [modified]"@
                } else {
                    ""@
                }),
                display::rgb(
                    if self.modified {
                        MODIFIED as int
                    } else {
                        TEXT as int
                    },
                ),
                1,
            ),
            display::label(
                wx + right_aligned(ww, vstd::utf8::encode_utf8(self.msg).len() as int),
                wy + 2,
                self.msg,
                display::rgb(
                    if self.status_ok {
                        DIM as int
                    } else {
                        ERR as int
                    },
                ),
                1,
            ),
        ]
    }

    /// `row:col` of the cursor, counted from one.
    pub open spec fn position(self) -> Seq<char> {
        text::dec((self.row + 1) as nat) + ":"@ + text::dec((self.col + 1) as nat)
    }

    /// How many lines there are, in words.
    pub open spec fn line_count(self) -> Seq<char> {
        if self.lines.len() == 1 {
            "1 line"@
        } else {
            text::dec(self.lines.len()) + " lines"@
        }
    }

    /// The bar at the bottom: the position and the number of lines.
    pub open spec fn draw_footer(self, wx: int, wy: int, ww: int, wh: int) -> Seq<display::Draw> {
        let py = wy + display::sat_sub(wh, 14);
        let px = wx + right_aligned(ww, vstd::utf8::encode_utf8(self.position()).len() as int);
        seq![
            display::rect(wx, py, ww, 14, display::rgb(STATUS as int)),
            display::label(px, py + 1, self.position(), display::rgb(DIM as int), 1),
            display::label(wx + 4, py + 1, self.line_count(), display::rgb(DIM as int), 1),
        ]
    }

    /// The drawing of the whole editor into a window.
    pub open spec fn drawing(self, wx: int, wy: int, ww: int, wh: int) -> Seq<display::Draw> {
        self.draw_title(wx, wy, ww) + seq![
            display::rect(wx, wy + 16, ww, display::sat_sub(wh, 16), display::rgb(BG as int)),
        ] + self.draw_rows(rows_shown(wh), wx, wy, ww) + self.draw_footer(wx, wy, ww, wh)
    }
}

/// `right_aligned` on machine words.
pub fn align_right(ww: usize, bytes: usize) -> (x: usize)
    ensures
        x == right_aligned(ww as int, bytes as int),
{
    let need: u128 = (bytes as u128) * 9 + 4;
    if (ww as u128) >= need {
        (ww as u128 - need) as usize
    } else {
        0
    }
}

/// The text of a byte on the screen.
pub fn glyph_text(b: u8) -> (s: String)
    ensures
        s@ == glyph(b),
{
    if b < 128 {
        let mut s: String = String::new();
        s.push(b as char);
        assert(s@ =~= seq![b as char]);
        s
    } else {
        String::from_str("?")
    }
}

impl Editor {
    fn render_line(&self, display: &mut Display, idx: usize, wx: usize, py: usize, ww: usize)
        requires
            self.wf(),
            idx < self@.lines.len(),
            wx + ww <= usize::MAX,
            py + 12 <= usize::MAX,
        ensures
            final(display)@ == old(display)@ + self@.draw_chars(
                idx as int,
                if self@.lines[idx as int].len() < cols_shown(ww as int) {
                    self@.lines[idx as int].len() as int
                } else {
                    cols_shown(ww as int)
                },
                wx as int,
                py as int,
            ),
    {
        let cols: usize = if ww >= 38 {
            (ww - 38) / CHAR_W
        } else {
            0
        };
        let len: usize = self.line_len(idx);
        let n: usize = if len < cols {
            len
        } else {
            cols
        };
        let mut ci: usize = 0;
        assert(display@ =~= old(display)@ + self@.draw_chars(idx as int, 0, wx as int, py as int));
        while ci < n
            invariant
                self.wf(),
                idx < self@.lines.len(),
                ci <= n <= self@.lines[idx as int].len(),
                n <= cols_shown(ww as int),
                wx + ww <= usize::MAX,
                py + 12 <= usize::MAX,
                display@ == old(display)@ + self@.draw_chars(
                    idx as int,
                    ci as int,
                    wx as int,
                    py as int,
                ),
            decreases n - ci,
        {
            let ghost d0 = display@;
            let px: usize = wx + 38 + ci * CHAR_W;
            let ch: u8 = self.lines[idx][ci];
            assert(ch == self@.lines[idx as int][ci as int]);
            if ch > 32 {
                let s: String = glyph_text(ch);
                let hex: u32 = if idx == self.cursor_row {
                    TEXT
                } else {
                    OTHER_TEXT
                };
                display.draw_text(px, py + 1, s.as_str(), Color::from_hex(hex), 1);
            }
            if idx == self.cursor_row && ci == self.cursor_col {
                display.fill_rect(px, py + CHAR_H - 2, CHAR_W - 1, 2, Color::from_hex(CURSOR_C));
            }
            assert(display@ =~= d0 + self@.draw_char(idx as int, ci as int, wx as int, py as int));
            assert(display@ =~= old(display)@ + self@.draw_chars(
                idx as int,
                ci + 1,
                wx as int,
                py as int,
            ));
            ci = ci + 1;
        }
    }

    fn render_row(&self, display: &mut Display, r: usize, wx: usize, wy: usize, ww: usize)
        requires
            self.wf(),
            wx + ww <= usize::MAX,
            wx + 36 <= usize::MAX,
            self@.scroll + r < usize::MAX,
            wy + 16 + r * 12 + 12 <= usize::MAX,
        ensures
            final(display)@ == old(display)@ + self@.draw_row(
                r as int,
                wx as int,
                wy as int,
                ww as int,
            ),
    {
        let idx: usize = self.scroll_row + r;
        let py: usize = wy + 16 + r * CHAR_H;
        display.fill_rect(wx, py, 34, CHAR_H, Color::from_hex(LINE_COL));
        if idx >= self.lines.len() {
            assert(display@ =~= old(display)@ + self@.draw_row(
                r as int,
                wx as int,
                wy as int,
                ww as int,
            ));
            return;
        }
        let mut n: String = String::new();
        text::push_dec_padded(&mut n, (idx + 1) as u64, 3);
        assert(n@ =~= text::pad_left(text::dec((idx + 1) as nat), 3));
        display.draw_text(wx + 2, py + 1, n.as_str(), Color::from_hex(DIM), 1);
        if idx == self.cursor_row {
            let text_w: usize = if ww >= 36 {
                ww - 36
            } else {
                0
            };
            display.fill_rect(wx + 36, py, text_w, CHAR_H, Color::from_hex(ROW_BG));
        }
        self.render_line(display, idx, wx, py, ww);
        let cols: usize = if ww >= 38 {
            (ww - 38) / CHAR_W
        } else {
            0
        };
        let len: usize = self.line_len(idx);
        if idx == self.cursor_row && self.cursor_col == len && len < cols {
            let end_x: usize = wx + 38 + len * CHAR_W;
            display.fill_rect(end_x, py + CHAR_H - 2, CHAR_W - 1, 2, Color::from_hex(CURSOR_C));
        }
        assert(display@ =~= old(display)@ + self@.draw_row(
            r as int,
            wx as int,
            wy as int,
            ww as int,
        ));
    }

    fn render_title(&self, display: &mut Display, wx: usize, wy: usize, ww: usize)
        requires
            wx + ww <= usize::MAX,
            wx + 2 <= usize::MAX,
            wy + 2 <= usize::MAX,
        ensures
            final(display)@ == old(display)@ + self@.draw_title(wx as int, wy as int, ww as int),
    {
        display.fill_rect(wx, wy, ww, CHAR_H + 4, Color::from_hex(STATUS));
        let name: String = text::without_leading_slashes(self.path.as_str());
        let mut title: String = String::from_str(" ");
        title.append(name.as_str());
        title.append(" ");
        if self.modified {
            title.append(" [modified]");
        } else {
            title.append("");
        }
        let hex: u32 = if self.modified {
            MODIFIED
        } else {
            TEXT
        };
        display.draw_text(wx + 2, wy + 2, title.as_str(), Color::from_hex(hex), 1);
        let bytes: usize = self.status_msg.as_str().as_bytes().len();
        let msg_x: usize = wx + align_right(ww, bytes);
        let hex: u32 = if self.status_ok {
            DIM
        } else {
            ERR
        };
        display.draw_text(msg_x, wy + 2, self.status_msg.as_str(), Color::from_hex(hex), 1);
        assert(display@ =~= old(display)@ + self@.draw_title(wx as int, wy as int, ww as int));
    }

    fn render_footer(&self, display: &mut Display, wx: usize, wy: usize, ww: usize, wh: usize)
        requires
            self.wf(),
            self@.col < usize::MAX,
            wx + ww <= usize::MAX,
            wx + 4 <= usize::MAX,
            wy + 1 <= usize::MAX,
            wy + wh <= usize::MAX,
        ensures
            final(display)@ == old(display)@ + self@.draw_footer(
                wx as int,
                wy as int,
                ww as int,
                wh as int,
            ),
    {
        assert(self.cursor_row < self.lines.len());
        let mut pos: String = String::new();
        text::push_dec(&mut pos, (self.cursor_row + 1) as u64);
        pos.append(":");
        text::push_dec(&mut pos, (self.cursor_col + 1) as u64);
        assert(pos@ =~= self@.position());
        let bytes: usize = pos.as_str().as_bytes().len();
        let px: usize = wx + align_right(ww, bytes);
        let py: usize = if wh >= 14 {
            wy + (wh - 14)
        } else {
            wy
        };
        display.fill_rect(wx, py, ww, CHAR_H + 2, Color::from_hex(STATUS));
        display.draw_text(px, py + 1, pos.as_str(), Color::from_hex(DIM), 1);
        let mut count: String = String::new();
        if self.lines.len() == 1 {
            count.append("1 line");
        } else {
            text::push_dec(&mut count, self.lines.len() as u64);
            count.append(" lines");
        }
        assert(count@ =~= self@.line_count());
        display.draw_text(wx + 4, py + 1, count.as_str(), Color::from_hex(DIM), 1);
        assert(display@ =~= old(display)@ + self@.draw_footer(
            wx as int,
            wy as int,
            ww as int,
            wh as int,
        ));
    }

    fn scroll_to_cursor(&mut self, rows: usize)
        requires
            old(self).wf(),
            old(self)@.lines.len() + rows <= usize::MAX,
        ensures
            final(self).wf(),
            final(self)@ == old(self)@.scrolled(rows as int),
    {
        if self.cursor_row >= self.scroll_row + rows {
            self.scroll_row = self.cursor_row + 1 - rows;
        }
        if self.cursor_row < self.scroll_row {
            self.scroll_row = self.cursor_row;
        }
        self.page_rows = rows;
    }

    fn render_rows(&self, display: &mut Display, wx: usize, wy: usize, ww: usize, wh: usize)
        requires
            self.wf(),
            self@.lines.len() + rows_shown(wh as int) <= usize::MAX,
            wx + ww <= usize::MAX,
            wx + 36 <= usize::MAX,
            wy + wh <= usize::MAX,
            wy + 16 <= usize::MAX,
        ensures
            final(display)@ == old(display)@ + self@.draw_rows(
                rows_shown(wh as int),
                wx as int,
                wy as int,
                ww as int,
            ),
    {
        let rows: usize = if wh >= 16 {
            (wh - 16) / CHAR_H
        } else {
            0
        };
        let ghost e = self@;
        let ghost d0 = display@;
        let mut r: usize = 0;
        assert(display@ =~= d0 + e.draw_rows(0, wx as int, wy as int, ww as int));
        while r < rows
            invariant
                self.wf(),
                self@ == e,
                r <= rows,
                rows == rows_shown(wh as int),
                e.lines.len() + rows_shown(wh as int) <= usize::MAX,
                wx + ww <= usize::MAX,
                wx + 36 <= usize::MAX,
                wy + wh <= usize::MAX,
                display@ == d0 + e.draw_rows(r as int, wx as int, wy as int, ww as int),
            decreases rows - r,
        {
            self.render_row(display, r, wx, wy, ww);
            assert(display@ =~= d0 + e.draw_rows(r + 1, wx as int, wy as int, ww as int));
            r = r + 1;
        }
    }

    /// Scrolls the cursor into view and draws the editor into the window whose
    /// content begins at `(wx, wy)` and measures `ww` by `wh`.
    pub fn render(&mut self, display: &mut Display, wx: usize, wy: usize, ww: usize, wh: usize)
        requires
            old(self).wf(),
            old(self)@.col < usize::MAX,
            wx + ww <= usize::MAX,
            wx + 36 <= usize::MAX,
            wy + wh <= usize::MAX,
            wy + 16 <= usize::MAX,
            old(self)@.lines.len() + rows_shown(wh as int) <= usize::MAX,
        ensures
            final(self).wf(),
            final(self)@ == old(self)@.scrolled(rows_shown(wh as int)),
            final(display)@ == old(display)@ + final(self)@.drawing(
                wx as int,
                wy as int,
                ww as int,
                wh as int,
            ),
    {
        let content_h: usize = if wh >= 16 {
            wh - 16
        } else {
            0
        };
        self.scroll_to_cursor(content_h / CHAR_H);
        let ghost e = self@;
        self.render_title(display, wx, wy, ww);
        let ghost d1 = display@;
        display.fill_rect(wx, wy + 16, ww, content_h, Color::from_hex(BG));
        let ghost d2 = display@;
        self.render_rows(display, wx, wy, ww, wh);
        let ghost d3 = display@;
        self.render_footer(display, wx, wy, ww, wh);
        proof {
            let t = e.draw_title(wx as int, wy as int, ww as int);
            let r = e.draw_rows(rows_shown(wh as int), wx as int, wy as int, ww as int);
            let f = e.draw_footer(wx as int, wy as int, ww as int, wh as int);
            let bg = display::rect(
                wx as int,
                wy + 16,
                ww as int,
                display::sat_sub(wh as int, 16),
                display::rgb(BG as int),
            );
            assert(d1 == old(display)@ + t);
            assert(d2 =~= d1 + seq![bg]);
            assert(d3 == d2 + r);
            assert(display@ == d3 + f);
            assert(e.drawing(wx as int, wy as int, ww as int, wh as int) == t + seq![bg] + r + f);
            assert(display@ =~= old(display)@ + (t + seq![bg] + r + f));
        }
    }
}

/// Two insertions one after the other are one.
proof fn lemma_insert_twice(e: EditorState, a: Seq<u8>, b: Seq<u8>)
    requires
        e.wf(),
    ensures
        e.inserted(a).inserted(b) == e.inserted(a + b),
{
    let line = e.lines[e.row];
    let l1 = line.subrange(0, e.col) + a + line.subrange(e.col, line.len() as int);
    let e1 = e.inserted(a);
    assert(e1.lines[e1.row] == l1);
    assert(l1.subrange(0, e.col + a.len()) + b + l1.subrange(e.col + a.len(), l1.len() as int)
        =~= line.subrange(0, e.col) + (a + b) + line.subrange(e.col, line.len() as int));
    assert(e1.inserted(b).lines =~= e.inserted(a + b).lines);
}

/// Cutting a text into lines leaves no newline in them.
proof fn lemma_split_clean(s: Seq<u8>)
    ensures
        split_lines(s).len() > 0,
        lines_clean(split_lines(s)),
    decreases s.len(),
{
    if s.len() > 0 {
        let head = split_lines(s.drop_last());
        lemma_split_clean(s.drop_last());
        let r = split_lines(s);
        assert forall|i: int, j: int|
            0 <= i < r.len() && 0 <= j < r[i].len() implies #[trigger] r[i][j] != NEWLINE by {
            if s.last() != NEWLINE && i == head.len() - 1 {
                if j < head[i].len() {
                    assert(head[i][j] != NEWLINE);
                }
            } else if i < head.len() {
                assert(head[i][j] != NEWLINE);
            }
        }
    }
}

impl EditorState {
    /// The key asks for the file to be written.
    pub open spec fn asks_save(b: u8) -> bool {
        b == 0x13 || b == KEY_F2
    }

    /// What is to be written, and where.
    pub open spec fn to_write(self) -> (Seq<char>, Seq<u8>) {
        (self.path, self.text())
    }

    /// The file could not be written.
    pub open spec fn failed(self, why: Seq<char>) -> EditorState {
        EditorState { msg: why, status_ok: false, ..self }
    }

    /// So many bytes were written.
    pub open spec fn stored(self, len: nat) -> EditorState {
        EditorState {
            modified: false,
            msg: "Saved "@ + self.path + " ("@ + text::dec(len) + " bytes)"@,
            status_ok: true,
            ..self
        }
    }
}

/// The directory and the name of a new file.
pub open spec fn new_place(path: Seq<char>) -> (Seq<char>, Seq<char>) {
    (shell::parent(path), shell::base(path))
}

} // verus!
