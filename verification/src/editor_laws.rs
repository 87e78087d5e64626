//! What the editor's keys do to the text as a whole.
use vstd::prelude::*;
use crate::editor::{EditorState, NEWLINE};
use crate::ps2::{
    KEY_CTRL_END, KEY_CTRL_HOME, KEY_DEL, KEY_DOWN, KEY_END, KEY_F10, KEY_F2, KEY_HOME, KEY_LEFT,
    KEY_PGDN, KEY_PGUP, KEY_RIGHT, KEY_UP,
};
use crate::{display, editor};

verus! {

/// The text before line `row`, with the newline that ends it.
pub open spec fn before(lines: Seq<Seq<u8>>, row: int) -> Seq<u8> {
    if row == 0 {
        Seq::<u8>::empty()
    } else {
        editor::join_lines(lines.take(row)).push(NEWLINE)
    }
}

/// The text behind line `row`, from the newline that ends the line.
pub open spec fn after(lines: Seq<Seq<u8>>, row: int) -> Seq<u8> {
    if row + 1 == lines.len() {
        Seq::<u8>::empty()
    } else {
        seq![NEWLINE] + editor::join_lines(lines.skip(row + 1))
    }
}

proof fn lemma_join_concat(a: Seq<Seq<u8>>, b: Seq<Seq<u8>>)
    requires
        a.len() > 0,
        b.len() > 0,
    ensures
        editor::join_lines(a + b) == editor::join_lines(a) + seq![NEWLINE] + editor::join_lines(b),
    decreases b.len(),
{
    let ab = a + b;
    assert(ab.last() == b.last());
    if b.len() == 1 {
        assert(ab.drop_last() =~= a);
        assert(editor::join_lines(ab) =~= editor::join_lines(a) + seq![NEWLINE]
            + editor::join_lines(b));
    } else {
        assert(ab.drop_last() =~= a + b.drop_last());
        lemma_join_concat(a, b.drop_last());
        assert(editor::join_lines(ab) =~= editor::join_lines(a) + seq![NEWLINE]
            + editor::join_lines(b));
    }
}

proof fn lemma_start_len(lines: Seq<Seq<u8>>, row: int)
    requires
        0 <= row < lines.len(),
    ensures
        before(lines, row).len() == editor::line_start(lines, row),
    decreases row,
{
    if row > 0 {
        lemma_start_len(lines, row - 1);
        let t = lines.take(row);
        assert(t.drop_last() =~= lines.take(row - 1));
        assert(t.last() == lines[row - 1]);
        if row == 1 {
            assert(editor::join_lines(t) == lines[0]);
        }
    }
}

proof fn lemma_around(lines: Seq<Seq<u8>>, row: int)
    requires
        0 <= row < lines.len(),
    ensures
        editor::join_lines(lines) == before(lines, row) + lines[row] + after(lines, row),
        before(lines, row).len() == editor::line_start(lines, row),
{
    lemma_start_len(lines, row);
    let a = lines.take(row);
    let l = seq![lines[row]];
    let b = lines.skip(row + 1);
    assert(editor::join_lines(l) == lines[row]);
    assert(lines =~= a + l + b);
    let al = a + l;
    if row > 0 {
        lemma_join_concat(a, l);
    } else {
        assert(al =~= l);
    }
    assert(editor::join_lines(al) =~= before(lines, row) + lines[row]);
    if row + 1 < lines.len() {
        lemma_join_concat(al, b);
    } else {
        assert(lines =~= al);
    }
    assert(editor::join_lines(lines) =~= before(lines, row) + lines[row] + after(lines, row));
}

/// Replacing line `row` replaces its stretch of the text.
proof fn lemma_replace(lines: Seq<Seq<u8>>, row: int, line: Seq<u8>)
    requires
        0 <= row < lines.len(),
    ensures
        editor::join_lines(lines.update(row, line)) == before(lines, row) + line + after(lines, row),
        editor::line_start(lines.update(row, line), row) == editor::line_start(lines, row),
{
    let m = lines.update(row, line);
    lemma_around(m, row);
    lemma_around(lines, row);
    assert(m.take(row) =~= lines.take(row));
    assert(m.skip(row + 1) =~= lines.skip(row + 1));
}

/// Putting line `row` apart in two puts a newline between the two.
proof fn lemma_two(lines: Seq<Seq<u8>>, row: int, m: Seq<Seq<u8>>)
    requires
        0 <= row < lines.len(),
        m.len() == lines.len() + 1,
        m.take(row) == lines.take(row),
        m.skip(row + 2) == lines.skip(row + 1),
    ensures
        editor::join_lines(m) == before(lines, row) + m[row] + seq![NEWLINE] + m[row + 1] + after(
            lines,
            row,
        ),
        before(lines, row).len() == editor::line_start(m, row),
{
    lemma_around(m, row);
    let b = m.skip(row + 1);
    lemma_around(b, 0);
    assert(b[0] == m[row + 1]);
    assert(b.skip(1) =~= m.skip(row + 2));
    assert(before(m, row) == before(lines, row));
    assert(after(m, row) =~= seq![NEWLINE] + editor::join_lines(b));
    assert(editor::join_lines(b) =~= m[row + 1] + after(b, 0));
    assert(after(b, 0) =~= after(lines, row));
    assert(editor::join_lines(m) =~= before(lines, row) + m[row] + seq![NEWLINE] + m[row + 1]
        + after(lines, row));
}

/// Opening a file and saving it unchanged writes back the same bytes.
pub proof fn law_open_then_save(s: Seq<u8>)
    ensures
        editor::join_lines(editor::split_lines(s)) == s,
        editor::split_lines(s).len() > 0,
    decreases s.len(),
{
    if s.len() > 0 {
        law_open_then_save(s.drop_last());
        let head = editor::split_lines(s.drop_last());
        let all = editor::split_lines(s);
        if s.last() == NEWLINE {
            assert(all.drop_last() =~= head);
            assert(editor::join_lines(all) =~= s);
        } else {
            assert(all.drop_last() =~= head.drop_last());
            assert(all.last() == head.last().push(s.last()));
            if head.len() == 1 {
                assert(editor::join_lines(all) =~= s);
            } else {
                assert(editor::join_lines(head) == editor::join_lines(head.drop_last()).push(
                    NEWLINE,
                ) + head.last());
                assert(editor::join_lines(all) == editor::join_lines(head.drop_last()).push(
                    NEWLINE,
                ) + head.last().push(s.last()));
                assert(s =~= s.drop_last().push(s.last()));
                assert(editor::join_lines(all) =~= s);
            }
        }
    }
}

proof fn lemma_split_append(s: Seq<u8>, line: Seq<u8>)
    requires
        forall|j: int| 0 <= j < line.len() ==> line[j] != NEWLINE,
    ensures
        editor::split_lines(s).len() > 0,
        editor::split_lines(s + line) == editor::split_lines(s).drop_last().push(
            editor::split_lines(s).last() + line,
        ),
    decreases line.len(),
{
    law_open_then_save(s);
    let head = editor::split_lines(s);
    if line.len() == 0 {
        assert(s + line =~= s);
        assert(head.last() + line =~= head.last());
        assert(head.drop_last().push(head.last() + line) =~= head);
    } else {
        lemma_split_append(s, line.drop_last());
        assert((s + line).drop_last() =~= s + line.drop_last());
        assert((s + line).last() == line.last());
        let mid = head.drop_last().push(head.last() + line.drop_last());
        assert(mid.drop_last() =~= head.drop_last());
        assert(mid.last().push(line.last()) =~= head.last() + line);
    }
}

/// Saving a document and opening it again gives the same lines.
pub proof fn law_save_then_open(lines: Seq<Seq<u8>>)
    requires
        lines.len() > 0,
        editor::lines_clean(lines),
    ensures
        editor::split_lines(editor::join_lines(lines)) == lines,
    decreases lines.len(),
{
    let last = lines.last();
    assert forall|j: int| 0 <= j < last.len() implies last[j] != NEWLINE by {
        assert(lines[lines.len() - 1][j] != NEWLINE);
    }
    if lines.len() == 1 {
        let e = Seq::<u8>::empty();
        lemma_split_append(e, last);
        assert(e + last =~= last);
        assert(editor::split_lines(e) =~= seq![e]);
        assert(editor::split_lines(last) =~= lines);
    } else {
        let d = lines.drop_last();
        assert forall|i: int, j: int| 0 <= i < d.len() && 0 <= j < d[i].len() implies #[trigger] d[i][j]
            != NEWLINE by {
            assert(lines[i][j] != NEWLINE);
        }
        law_save_then_open(d);
        let s = editor::join_lines(d).push(NEWLINE);
        assert(s.drop_last() =~= editor::join_lines(d));
        assert(editor::split_lines(s) == d.push(Seq::<u8>::empty()));
        lemma_split_append(s, last);
        assert(d.push(Seq::<u8>::empty()).drop_last() =~= d);
        assert(Seq::<u8>::empty() + last =~= last);
        assert(editor::split_lines(editor::join_lines(lines)) =~= lines);
    }
}

/// Typing a printable character puts it into the text at the cursor and moves
/// the cursor behind it.
pub proof fn law_type(e: EditorState, b: u8)
    requires
        e.wf(),
        32 <= b < 128,
    ensures
        0 <= e.offset() <= e.text().len(),
        e.key(b).text() == e.text().insert(e.offset(), b),
        e.key(b).offset() == e.offset() + 1,
{
    let line = e.lines[e.row];
    let line2 = line.subrange(0, e.col) + seq![b] + line.subrange(e.col, line.len() as int);
    lemma_around(e.lines, e.row);
    lemma_replace(e.lines, e.row, line2);
    assert(e.key(b).text() =~= e.text().insert(e.offset(), b));
}

/// Tab puts in four spaces.
pub proof fn law_tab(e: EditorState)
    requires
        e.wf(),
    ensures
        e.key(0x09).text() == e.text().subrange(0, e.offset()) + seq![
            0x20u8,
            0x20u8,
            0x20u8,
            0x20u8,
        ] + e.text().subrange(e.offset(), e.text().len() as int),
        e.key(0x09).offset() == e.offset() + 4,
{
    let sp = seq![0x20u8, 0x20u8, 0x20u8, 0x20u8];
    let line = e.lines[e.row];
    let line2 = line.subrange(0, e.col) + sp + line.subrange(e.col, line.len() as int);
    lemma_around(e.lines, e.row);
    lemma_replace(e.lines, e.row, line2);
    assert(e.key(0x09).text() =~= e.text().subrange(0, e.offset()) + sp + e.text().subrange(
        e.offset(),
        e.text().len() as int,
    ));
}

/// Enter puts a newline into the text at the cursor.
pub proof fn law_enter(e: EditorState)
    requires
        e.wf(),
    ensures
        e.key(NEWLINE).text() == e.text().insert(e.offset(), NEWLINE),
        e.key(NEWLINE).offset() == e.offset() + 1,
{
    let line = e.lines[e.row];
    let n = e.key(NEWLINE);
    let m = n.lines;
    lemma_around(e.lines, e.row);
    assert(m.take(e.row) =~= e.lines.take(e.row));
    assert(m.skip(e.row + 2) =~= e.lines.skip(e.row + 1));
    lemma_two(e.lines, e.row, m);
    assert(m[e.row] == line.subrange(0, e.col));
    assert(m[e.row + 1] == line.subrange(e.col, line.len() as int));
    assert(n.text() =~= e.text().insert(e.offset(), NEWLINE));
    assert(editor::line_start(m, e.row + 1) == editor::line_start(m, e.row) + m[e.row].len() + 1);
}

/// Merging two lines takes the newline between them out of the text.
proof fn lemma_merge(lines: Seq<Seq<u8>>, row: int)
    requires
        0 <= row,
        row + 1 < lines.len(),
    ensures
        ({
            let at = editor::line_start(lines, row) + lines[row].len();
            let m = EditorState::merged(lines, row);
            &&& 0 <= at < editor::join_lines(lines).len()
            &&& editor::join_lines(m) == editor::join_lines(lines).remove(at)
            &&& editor::line_start(m, row) == editor::line_start(lines, row)
            &&& editor::line_start(lines, row + 1) == at + 1
        }),
{
    let m = EditorState::merged(lines, row);
    assert(m[row] == lines[row] + lines[row + 1]);
    assert(m.take(row) =~= lines.take(row));
    assert(lines.skip(row + 2) =~= m.skip(row + 1));
    lemma_two(m, row, lines);
    lemma_around(m, row);
    let at = editor::line_start(lines, row) + lines[row].len();
    assert(editor::line_start(lines, row + 1) == at + 1);
    assert(editor::join_lines(m) =~= editor::join_lines(lines).remove(at));
}

/// Backspace takes out the byte before the cursor; at the start of the text it
/// does nothing.
pub proof fn law_backspace(e: EditorState)
    requires
        e.wf(),
    ensures
        e.offset() == 0 ==> e.key(0x08) == e,
        e.offset() > 0 ==> e.key(0x08).text() == e.text().remove(e.offset() - 1)
            && e.key(0x08).offset() == e.offset() - 1,
{
    lemma_around(e.lines, e.row);
    if e.col > 0 {
        let line = e.lines[e.row];
        lemma_replace(e.lines, e.row, line.remove(e.col - 1));
        assert(e.key(0x08).text() =~= e.text().remove(e.offset() - 1));
    } else if e.row > 0 {
        lemma_merge(e.lines, e.row - 1);
    }
}

/// Delete takes out the byte under the cursor; at the end of the text it does
/// nothing.
pub proof fn law_delete(e: EditorState)
    requires
        e.wf(),
    ensures
        e.offset() == e.text().len() ==> e.key(KEY_DEL) == e,
        e.offset() < e.text().len() ==> e.key(KEY_DEL).text() == e.text().remove(e.offset())
            && e.key(KEY_DEL).offset() == e.offset(),
{
    lemma_around(e.lines, e.row);
    let line = e.lines[e.row];
    if e.col < line.len() {
        lemma_replace(e.lines, e.row, line.remove(e.col));
        assert(e.key(KEY_DEL).text() =~= e.text().remove(e.offset()));
    } else if e.row + 1 < e.lines.len() {
        lemma_merge(e.lines, e.row);
    }
}

/// Backspace undoes a typed character or a line break.
pub proof fn law_backspace_undoes(e: EditorState, b: u8)
    requires
        e.wf(),
        32 <= b < 128 || b == NEWLINE,
    ensures
        e.key(b).key(0x08).text() == e.text(),
        e.key(b).key(0x08).lines == e.lines,
        e.key(b).key(0x08).row == e.row,
        e.key(b).key(0x08).col == e.col,
{
    let line = e.lines[e.row];
    let k = e.key(b);
    if b == NEWLINE {
        assert(k.lines[e.row] == line.subrange(0, e.col));
        assert(k.lines[e.row + 1] == line.subrange(e.col, line.len() as int));
        assert(k.lines[e.row] + k.lines[e.row + 1] =~= line);
        assert(k.key(0x08).lines =~= e.lines);
    } else {
        assert(k.lines[e.row].remove(e.col) =~= line);
        assert(k.key(0x08).lines =~= e.lines);
    }
}

/// The arrow keys, Home and End leave the text and its state of change alone.
pub proof fn law_moves_keep_text(e: EditorState, b: u8)
    requires
        e.wf(),
        b == KEY_UP || b == KEY_DOWN || b == KEY_LEFT || b == KEY_RIGHT || b == KEY_HOME || b
            == KEY_END,
    ensures
        e.key(b).wf(),
        e.key(b).text() == e.text(),
        e.key(b).modified == e.modified,
{
}

/// Right moves one byte forward in the text unless it is at the end; left then
/// comes back.
pub proof fn law_right_left(e: EditorState)
    requires
        e.wf(),
        e.offset() < e.text().len(),
    ensures
        e.key(KEY_RIGHT).offset() == e.offset() + 1,
        e.key(KEY_RIGHT).key(KEY_LEFT).row == e.row,
        e.key(KEY_RIGHT).key(KEY_LEFT).col == e.col,
{
    lemma_around(e.lines, e.row);
    assert(editor::line_start(e.lines, e.row + 1) == editor::line_start(e.lines, e.row)
        + e.lines[e.row].len() + 1);
}

/// Closing a changed document warns and keeps it open; closing again closes it.
/// ESC, Ctrl+Q and F10 act alike.
pub proof fn law_close_warns(e: EditorState, b: u8)
    requires
        b == 0x11 || b == 0x1B || b == KEY_F10,
        e.open,
    ensures
        e.modified ==> e.key(b).open && e.key(b).lines == e.lines && !e.key(b).status_ok,
        e.modified ==> !e.key(b).key(b).open,
        !e.modified ==> !e.key(b).open,
{
}

/// After rendering, the cursor's line is among the rows shown.
pub proof fn law_cursor_shown(e: EditorState, rows: int)
    requires
        e.wf(),
        rows > 0,
    ensures
        e.scrolled(rows).wf(),
        e.scrolled(rows).scroll <= e.row < e.scrolled(rows).scroll + rows,
{
}

// ── Where the cursor goes ───────────────────────────────────────────────────

/// Only the cursor and the view moved.
pub open spec fn only_moved(e: EditorState, f: EditorState) -> bool {
    &&& f.lines == e.lines
    &&& f.path == e.path
    &&& f.modified == e.modified
    &&& f.msg == e.msg
    &&& f.status_ok == e.status_ok
    &&& f.open == e.open
    &&& f.page == e.page
}

/// The cursor stands in row `row`, as near to the column it had as that row is long.
pub open spec fn stands_in(e: EditorState, f: EditorState, row: int) -> bool {
    &&& f.row == row
    &&& e.col <= e.lines[row].len() ==> f.col == e.col
    &&& e.col > e.lines[row].len() ==> f.col == e.lines[row].len()
}

/// The arrows up and down go one row up or down, and nowhere from the first or the last
/// one. The column is kept, or the row's end where the row is shorter.
pub proof fn law_up_and_down(e: EditorState)
    requires
        e.wf(),
    ensures
        e.row > 0 ==> stands_in(e, e.key(KEY_UP), e.row - 1),
        e.row == 0 ==> e.key(KEY_UP) == e,
        e.row + 1 < e.lines.len() ==> stands_in(e, e.key(KEY_DOWN), e.row + 1),
        e.row + 1 == e.lines.len() ==> e.key(KEY_DOWN) == e,
        only_moved(e, e.key(KEY_UP)),
        only_moved(e, e.key(KEY_DOWN)),
{
}

/// Down and up again leads back, where the row below is long enough; so does up and down.
pub proof fn law_down_up(e: EditorState)
    requires
        e.wf(),
    ensures
        e.row + 1 < e.lines.len() && e.col <= e.lines[e.row + 1].len() ==> {
            &&& e.key(KEY_DOWN).key(KEY_UP).row == e.row
            &&& e.key(KEY_DOWN).key(KEY_UP).col == e.col
        },
        e.row > 0 && e.col <= e.lines[e.row - 1].len() ==> {
            &&& e.key(KEY_UP).key(KEY_DOWN).row == e.row
            &&& e.key(KEY_UP).key(KEY_DOWN).col == e.col
        },
{
}

/// Left and right go one byte back or on in the text, over the ends of lines; at the start
/// and at the end of the text they stay.
pub proof fn law_left_and_right(e: EditorState)
    requires
        e.wf(),
    ensures
        e.offset() > 0 ==> e.key(KEY_LEFT).offset() == e.offset() - 1,
        e.offset() == 0 ==> e.key(KEY_LEFT) == e,
        e.offset() < e.text().len() ==> e.key(KEY_RIGHT).offset() == e.offset() + 1,
        e.offset() == e.text().len() ==> e.key(KEY_RIGHT) == e,
        e.key(KEY_LEFT).wf(),
        e.key(KEY_RIGHT).wf(),
        only_moved(e, e.key(KEY_LEFT)),
        only_moved(e, e.key(KEY_RIGHT)),
{
    lemma_around(e.lines, e.row);
    if e.row > 0 {
        lemma_start_len(e.lines, e.row - 1);
        assert(editor::line_start(e.lines, e.row) == editor::line_start(e.lines, e.row - 1)
            + e.lines[e.row - 1].len() + 1);
    }
    assert(editor::line_start(e.lines, e.row + 1) == editor::line_start(e.lines, e.row)
        + e.lines[e.row].len() + 1);
}

/// Home and End go to the start and the end of the line: the text before the one ends, and
/// the text behind the other begins, with a newline or not at all. With control they go to
/// the start and the end of the text.
pub proof fn law_home_and_end(e: EditorState)
    requires
        e.wf(),
    ensures
        ({
            let h = e.key(KEY_HOME);
            let n = e.key(KEY_END);
            &&& h.row == e.row && n.row == e.row
            &&& 0 <= h.offset() <= e.offset() <= n.offset() <= e.text().len()
            &&& h.offset() == 0 || e.text()[h.offset() - 1] == 10
            &&& n.offset() == e.text().len() || e.text()[n.offset()] == 10
            &&& e.text().subrange(h.offset(), n.offset()) == e.lines[e.row]
            &&& only_moved(e, h) && only_moved(e, n)
        }),
        e.key(KEY_CTRL_HOME).offset() == 0,
        e.key(KEY_CTRL_END).offset() == e.text().len(),
        e.key(KEY_CTRL_HOME).wf() && e.key(KEY_CTRL_END).wf(),
        only_moved(e, e.key(KEY_CTRL_HOME)) && only_moved(e, e.key(KEY_CTRL_END)),
{
    let last = e.lines.len() - 1;
    lemma_around(e.lines, e.row);
    lemma_around(e.lines, last);
    let h = e.key(KEY_HOME);
    let n = e.key(KEY_END);
    assert(h.offset() == before(e.lines, e.row).len());
    assert(e.text().subrange(h.offset(), n.offset()) =~= e.lines[e.row]);
    if e.row > 0 {
        let b = before(e.lines, e.row);
        assert(b.last() == NEWLINE);
        assert(e.text()[b.len() - 1] == b[b.len() - 1]);
    }
    if e.row < last {
        let a = after(e.lines, e.row);
        assert(a[0] == NEWLINE);
        assert(e.text()[n.offset()] == a[0]);
    }
}

/// The page keys go as many rows up or down as the window showed, but not beyond the first
/// or the last row; the column is kept as with the arrows.
pub proof fn law_pages(e: EditorState)
    requires
        e.wf(),
    ensures
        ({
            let u = e.key(KEY_PGUP);
            let d = e.key(KEY_PGDN);
            &&& u.wf() && d.wf()
            &&& u.row == 0 || u.row == e.row - e.page
            &&& u.row == 0 ==> e.row - e.page <= 0
            &&& d.row == e.lines.len() - 1 || d.row == e.row + e.page
            &&& d.row == e.lines.len() - 1 ==> e.row + e.page >= e.lines.len() - 1
            &&& stands_in(e, u, u.row) && stands_in(e, d, d.row)
            &&& only_moved(e, u) && only_moved(e, d)
        }),
{
}

/// The view follows the cursor upwards, and otherwise stays where it is; drawing it into a
/// window moves it no further than it must.
pub proof fn law_view_follows(e: EditorState, b: u8, rows: int)
    requires
        e.wf(),
        rows > 0,
    ensures
        e.key(b).scroll <= e.scroll,
        e.key(b).row >= e.scroll ==> e.key(b).scroll == e.scroll,
        e.scroll <= e.row < e.scroll + rows ==> e.scrolled(rows).scroll == e.scroll,
        e.row >= e.scroll + rows ==> e.scrolled(rows).scroll + rows - 1 == e.row,
        e.scrolled(rows).page == rows,
        ({
            let v = e.scrolled(rows);
            v.lines == e.lines && v.row == e.row && v.col == e.col && v.modified == e.modified
                && v.path == e.path && v.msg == e.msg && v.open == e.open
        }),
{
}

// ── What changes the document ───────────────────────────────────────────────

/// A document counts as changed once a key has changed its text, and no key but a close
/// that warns takes that back; the name of the file never changes. Keys that have no
/// meaning change nothing at all.
pub proof fn law_changed(e: EditorState, b: u8)
    requires
        e.wf(),
    ensures
        e.key(b).path == e.path,
        e.key(b).text() != e.text() ==> e.key(b).modified,
        b != 0x11 && b != 0x1B && b != KEY_F10 && e.modified ==> e.key(b).modified,
        32 <= b < 128 || b == 9 || b == 10 ==> e.key(b).modified,
        b == 8 && e.offset() > 0 ==> e.key(b).modified,
        b == KEY_DEL && e.offset() < e.text().len() ==> e.key(b).modified,
        b < 32 && b != 8 && b != 9 && b != 10 && b != 0x11 && b != 0x1B ==> e.key(b) == e,
        b == KEY_F2 ==> e.key(b) == e,
        b >= 0x8D ==> e.key(b) == e,
{
    lemma_around(e.lines, e.row);
}

/// What was typed stands in the text in the order it was typed.
pub proof fn law_types_in_order(e: EditorState, a: u8, b: u8)
    requires
        e.wf(),
        32 <= a < 128,
        32 <= b < 128,
        e.key(a).wf(),
    ensures
        e.key(a).key(b).text() == e.text().take(e.offset()) + seq![a, b] + e.text().skip(
            e.offset(),
        ),
        e.key(a).key(b).offset() == e.offset() + 2,
{
    law_type(e, a);
    law_type(e.key(a), b);
    assert(e.key(a).key(b).text() =~= e.text().take(e.offset()) + seq![a, b] + e.text().skip(
        e.offset(),
    ));
}

/// A file just opened shows its whole text from the top, unchanged, with the cursor at the
/// start.
pub proof fn law_opened(path: Seq<char>, content: Seq<u8>)
    ensures
        ({
            let e = EditorState::fresh(path, content);
            &&& e.text() == content
            &&& e.offset() == 0
            &&& e.row == 0 && e.col == 0 && e.scroll == 0
            &&& e.path == path
            &&& e.open
            &&& !e.modified
        }),
{
    law_open_then_save(content);
}

// ── What is seen of the document ────────────────────────────────────────────

/// The rows and columns of text that a window shows lie inside it, below the title and
/// beside the numbers of the lines, and one more would not.
pub proof fn law_editor_fits(ww: int, wh: int)
    requires
        ww >= 38,
        wh >= 16,
    ensures
        16 + 12 * editor::rows_shown(wh) <= wh < 16 + 12 * (editor::rows_shown(wh) + 1),
        38 + 9 * editor::cols_shown(ww) <= ww < 38 + 9 * (editor::cols_shown(ww) + 1),
{
}

proof fn lemma_row_within(
    e: EditorState,
    n: int,
    wx: int,
    wy: int,
    ww: int,
    r: int,
    i: int,
) -> (at: int)
    requires
        0 <= r < n,
        0 <= i < e.draw_row(r, wx, wy, ww).len(),
    ensures
        0 <= at < e.draw_rows(n, wx, wy, ww).len(),
        e.draw_rows(n, wx, wy, ww)[at] == e.draw_row(r, wx, wy, ww)[i],
    decreases n,
{
    if r == n - 1 {
        e.draw_rows(n - 1, wx, wy, ww).len() + i
    } else {
        lemma_row_within(e, n - 1, wx, wy, ww, r, i)
    }
}

proof fn lemma_char_within(
    e: EditorState,
    idx: int,
    n: int,
    wx: int,
    py: int,
    ci: int,
    i: int,
) -> (at: int)
    requires
        0 <= ci < n,
        0 <= i < e.draw_char(idx, ci, wx, py).len(),
    ensures
        0 <= at < e.draw_chars(idx, n, wx, py).len(),
        e.draw_chars(idx, n, wx, py)[at] == e.draw_char(idx, ci, wx, py)[i],
    decreases n,
{
    if ci == n - 1 {
        e.draw_chars(idx, n - 1, wx, py).len() + i
    } else {
        lemma_char_within(e, idx, n - 1, wx, py, ci, i)
    }
}

/// What is drawn for a column of a line is part of what is drawn for its row.
proof fn lemma_char_in_row(
    e: EditorState,
    r: int,
    wx: int,
    wy: int,
    ww: int,
    ci: int,
    i: int,
) -> (at: int)
    requires
        0 <= e.scroll + r < e.lines.len(),
        0 <= ci < e.lines[e.scroll + r].len(),
        ci < editor::cols_shown(ww),
        0 <= i < e.draw_char(e.scroll + r, ci, wx, wy + 16 + r * 12).len(),
    ensures
        0 <= at < e.draw_row(r, wx, wy, ww).len(),
        e.draw_row(r, wx, wy, ww)[at] == e.draw_char(e.scroll + r, ci, wx, wy + 16 + r * 12)[i],
{
    let idx = e.scroll + r;
    let len = e.lines[idx].len() as int;
    let cols = editor::cols_shown(ww);
    let n = if len < cols {
        len
    } else {
        cols
    };
    let c = lemma_char_within(e, idx, n, wx, wy + 16 + r * 12, ci, i);
    if idx == e.row {
        3 + c
    } else {
        2 + c
    }
}

proof fn lemma_in_drawing(e: EditorState, wx: int, wy: int, ww: int, wh: int, r: int, i: int)
    requires
        0 <= r < editor::rows_shown(wh),
        0 <= i < e.draw_row(r, wx, wy, ww).len(),
    ensures
        e.drawing(wx, wy, ww, wh).contains(e.draw_row(r, wx, wy, ww)[i]),
{
    let at = lemma_row_within(e, editor::rows_shown(wh), wx, wy, ww, r, i);
    let rows = e.draw_rows(editor::rows_shown(wh), wx, wy, ww);
    let all = e.drawing(wx, wy, ww, wh);
    assert(all[4 + at] == rows[at]);
}

/// Every printable character in the rows and columns that are shown is drawn at its place,
/// brighter in the line of the cursor.
pub proof fn law_characters_seen(
    e: EditorState,
    wx: int,
    wy: int,
    ww: int,
    wh: int,
    r: int,
    ci: int,
)
    requires
        e.wf(),
        0 <= r < editor::rows_shown(wh),
        e.scroll + r < e.lines.len(),
        0 <= ci < e.lines[e.scroll + r].len(),
        ci < editor::cols_shown(ww),
        32 < e.lines[e.scroll + r][ci] < 128,
    ensures
        e.drawing(wx, wy, ww, wh).contains(
            display::Draw::Text {
                x: wx + 38 + 9 * ci,
                y: wy + 16 + 12 * r + 1,
                text: seq![e.lines[e.scroll + r][ci] as char],
                color: display::rgb(
                    if e.scroll + r == e.row {
                        0xE8E8E8
                    } else {
                        0xCCCCCC
                    },
                ),
                scale: 1,
            },
        ),
{
    let at = lemma_char_in_row(e, r, wx, wy, ww, ci, 0);
    lemma_in_drawing(e, wx, wy, ww, wh, r, at);
}

/// Every line that is shown has its number, counted from one, beside it.
pub proof fn law_line_numbers(e: EditorState, wx: int, wy: int, ww: int, wh: int, r: int)
    requires
        e.wf(),
        0 <= r < editor::rows_shown(wh),
        e.scroll + r < e.lines.len(),
    ensures
        e.drawing(wx, wy, ww, wh).contains(
            display::Draw::Text {
                x: wx + 2,
                y: wy + 16 + 12 * r + 1,
                text: crate::text::pad_left(crate::text::dec((e.scroll + r + 1) as nat), 3),
                color: display::rgb(0x666688),
                scale: 1,
            },
        ),
{
    lemma_in_drawing(e, wx, wy, ww, wh, r, 1);
}

/// The cursor is underlined: the line lies at the foot of the row and column of the cursor,
/// also behind the last character of a line; and its row is lit from the numbers on.
pub proof fn law_editor_cursor(e: EditorState, wx: int, wy: int, ww: int, wh: int)
    requires
        e.wf(),
        e.row < e.scroll + editor::rows_shown(wh),
        e.col < editor::cols_shown(ww),
    ensures
        e.drawing(wx, wy, ww, wh).contains(
            display::Draw::Rect {
                x: wx + 38 + 9 * e.col,
                y: wy + 16 + 12 * (e.row - e.scroll + 1) - 2,
                w: 8,
                h: 2,
                color: display::rgb(0x6C8EFF),
            },
        ),
        e.drawing(wx, wy, ww, wh).contains(
            display::Draw::Rect {
                x: wx + 36,
                y: wy + 16 + 12 * (e.row - e.scroll),
                w: ww - 36,
                h: 12,
                color: display::rgb(0x12122A),
            },
        ),
{
    let r = e.row - e.scroll;
    lemma_in_drawing(e, wx, wy, ww, wh, r, 2);
    if e.col < e.lines[e.row].len() {
        let d = e.draw_char(e.row, e.col, wx, wy + 16 + r * 12);
        let at = lemma_char_in_row(e, r, wx, wy, ww, e.col, d.len() - 1);
        lemma_in_drawing(e, wx, wy, ww, wh, r, at);
    } else {
        lemma_in_drawing(e, wx, wy, ww, wh, r, e.draw_row(r, wx, wy, ww).len() - 1);
    }
}

/// The title shows the file's path without the slash it begins with, and whether there are
/// changes; the message stands at the right end.
pub proof fn law_editor_title(e: EditorState, name: Seq<char>, wx: int, wy: int, ww: int, wh: int)
    requires
        e.path == seq!['/'] + name,
        name.len() > 0,
        name[0] != '/',
    ensures
        ({
            let all = e.drawing(wx, wy, ww, wh);
            let room = 9 * vstd::utf8::encode_utf8(e.msg).len() + 4;
            &&& all[0] == (display::Draw::Rect {
                x: wx,
                y: wy,
                w: ww,
                h: 16,
                color: display::rgb(0x1A1A2E),
            })
            &&& all[1] == (display::Draw::Text {
                x: wx + 2,
                y: wy + 2,
                text: if e.modified {
                    seq![' '] + name + "  [modified]"@
                } else {
                    seq![' '] + name + seq![' ']
                },
                color: display::rgb(
                    if e.modified {
                        0xFF9944
                    } else {
                        0xE8E8E8
                    },
                ),
                scale: 1,
            })
            &&& all[2] matches display::Draw::Text { x, y, text, color, scale } && text == e.msg && y
                == wy + 2 && color == display::rgb(
                if e.status_ok {
                    0x666688
                } else {
                    0xFF6B6B
                },
            ) && (room <= ww ==> x + room == wx + ww)
        }),
{
    reveal_strlit(" ");
    reveal_strlit("");
    reveal_strlit(" [modified]");
    reveal_strlit("  [modified]");
    reveal_with_fuel(crate::text::trim_slashes, 3);
    assert(e.path.drop_first() =~= name);
    assert(crate::text::trim_slashes(e.path) == name);
    assert(" "@ + name + " "@ + ""@ =~= seq![' '] + name + seq![' ']);
    assert(" "@ + name + " "@ + " [modified]"@ =~= seq![' '] + name + "  [modified]"@);
    let all = e.drawing(wx, wy, ww, wh);
    let t = e.draw_title(wx, wy, ww);
    assert(all[0] == t[0] && all[1] == t[1] && all[2] == t[2]);
}

/// The foot shows the cursor's row and column, counted from one, at the right end, and how
/// many lines there are at the left.
pub proof fn law_editor_foot(e: EditorState, wx: int, wy: int, ww: int, wh: int)
    requires
        e.wf(),
        wh >= 14,
    ensures
        ({
            let all = e.drawing(wx, wy, ww, wh);
            let n = all.len() as int;
            let place = crate::text::dec((e.row + 1) as nat) + seq![':'] + crate::text::dec(
                (e.col + 1) as nat,
            );
            &&& all[n - 3] == (display::Draw::Rect {
                x: wx,
                y: wy + wh - 14,
                w: ww,
                h: 14,
                color: display::rgb(0x1A1A2E),
            })
            &&& all[n - 2] matches display::Draw::Text { x, y, text, .. } && text == place && y == wy
                + wh - 13 && (9 * vstd::utf8::encode_utf8(place).len() + 4 <= ww ==> x + 9
                * vstd::utf8::encode_utf8(place).len() + 4 == wx + ww)
            &&& all[n - 1] matches display::Draw::Text { x, y, text, .. } && x == wx + 4 && y == wy
                + wh - 13 && text == (if e.lines.len() == 1 {
                "1 line"@
            } else {
                crate::text::dec(e.lines.len()) + " lines"@
            })
        }),
{
    reveal_strlit(":");
    assert(":"@ =~= seq![':']);
    let all = e.drawing(wx, wy, ww, wh);
    let f = e.draw_footer(wx, wy, ww, wh);
    let n = all.len() as int;
    assert(all[n - 3] == f[0] && all[n - 2] == f[1] && all[n - 1] == f[2]);
}

// ── Saving ──────────────────────────────────────────────────────────────────

/// F2 and Ctrl+S, and no other key, ask for the file to be written, and change nothing
/// themselves. What is written is the whole text, under the file's own path.
pub proof fn law_save_asked(e: EditorState, b: u8)
    ensures
        EditorState::asks_save(b) <==> b == 0x89 || b == 19,
        EditorState::asks_save(b) ==> e.key(b) == e,
        e.to_write().0 == e.path,
        e.to_write().1 == editor::join_lines(e.lines),
{
}

/// Once written, a file has no changes, so that the next key that closes it closes it at
/// once; the text and the cursor stay, and the message says what was written. After a
/// failure there are as many changes as before, and closing still warns of them.
pub proof fn law_saved(e: EditorState, len: nat, why: Seq<char>)
    ensures
        e.stored(len).text() == e.text() && e.stored(len).row == e.row && e.stored(len).col == e.col,
        !e.stored(len).modified && e.stored(len).status_ok,
        !e.stored(len).key(KEY_F10).open,
        e.stored(len).msg == "Saved "@ + e.path + " ("@ + crate::text::dec(len) + " bytes)"@,
        e.failed(why).text() == e.text() && e.failed(why).modified == e.modified,
        e.failed(why).msg == why && !e.failed(why).status_ok,
        e.modified ==> e.failed(why).key(KEY_F10).open == e.open,
{
}

/// A new file is made in its path's directory under the name at the path's end: the two
/// put together are the path. A plain name belongs to the root.
pub proof fn law_save_place(path: Seq<char>)
    requires
        path.len() > 0,
        path.last() != '/',
    ensures
        path[0] == '/' && path[1] != '/' ==> crate::text::join_path(
            editor::new_place(path).0,
            editor::new_place(path).1,
        ) == path,
        !path.contains('/') ==> editor::new_place(path) == (seq!['/'], path),
        path[0] == '/' && path[1] != '/' ==> !editor::new_place(path).1.contains('/'),
{
    editor::law_new_file_place(path);
    if path[0] == '/' && path[1] != '/' {
        crate::shell::law_path_rejoins(path);
    }
}

} // verus!
