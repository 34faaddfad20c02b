//! A view: a window onto a buffer, drawn into a grid of cells above a
//! status line, that scrolls to keep the cursor in sight.

use vstd::prelude::*;
use vstd::view::View as _;

use super::iterators::first_nl_from;
use super::log::reverse_changes;
use super::buffer::{
    apply_changes, gap_contents, lemma_same_buffer_refl, mark_key, removed_range, same_buffer, spec_line_info, Buffer, Mark,
};
use super::frontends::{Frontend, Screen};
use super::overlay::{CommandPrompt, Overlay, OverlayType};
use super::textobject::{Anchor, TextObject};
use super::uibuf::{cleaned, with_char, with_char_colors, Cell, CharColor, UIBuffer};
use super::utils::{
    char_unicode_width, data_from_str, decimal, push_decimal, string_push, string_push_str,
    unicode_width,
};

verus! {

/// A place on the screen or in the text: a column and a line.
#[derive(Copy, Clone, Debug, PartialEq, Eq, Structural)]
pub struct Position {
    pub x: usize,
    pub y: usize,
}

impl Position {
    /// The first column of the first line.
    pub fn origin() -> (r: Position)
        ensures
            r == (Position { x: 0, y: 0 }),
    {
        Position { x: 0, y: 0 }
    }

    pub fn new(x: usize, y: usize) -> (r: Position)
        ensures
            r == (Position { x, y }),
    {
        Position { x, y }
    }
}

/// Where the first shown column (or line) of a window `size` wide moves so
/// that `cursor` stays `threshold` inside it: back toward the cursor when it
/// comes too near the start (not past the start of the text), on toward it
/// when it comes too near the end, and nowhere otherwise. A position past the
/// largest `usize` is held at the largest.
pub open spec fn scrolled(cursor: int, first: int, size: int, threshold: int) -> int {
    if cursor < first + threshold {
        let amount = first + threshold - cursor;
        if amount <= first {
            first - amount
        } else {
            0
        }
    } else if cursor + threshold > first + size {
        if cursor + threshold - size > usize::MAX {
            usize::MAX as int
        } else {
            cursor + threshold - size
        }
    } else {
        first
    }
}

/// Scrolling keeps the cursor in sight: with a margin of at least one line
/// that leaves room in the window, the cursor lies inside the window after
/// scrolling (`first <= cursor < first + size`). When the cursor comes within
/// the margin of the top, the window moves up by exactly
/// `first + threshold - cursor` (to the start when that is more than `first`);
/// when it comes within the margin of the bottom, the window moves down so that
/// the margin is kept below it; otherwise the window stays.
pub proof fn law_scroll_keeps_cursor_in_sight(cursor: int, first: int, size: int, threshold: int)
    requires
        0 <= cursor,
        0 <= first,
        1 <= threshold < size,
        cursor + threshold <= usize::MAX,
    ensures
        ({
            let r = scrolled(cursor, first, size, threshold);
            &&& 0 <= r <= cursor < r + size
            &&& cursor < first + threshold ==> r == (if first + threshold - cursor <= first {
                first - (first + threshold - cursor)
            } else {
                0
            })
            &&& cursor + threshold > first + size && cursor >= first + threshold ==> r + size == cursor
                + threshold
            &&& first + threshold <= cursor && cursor + threshold <= first + size ==> r == first
        }),
{
}

/// The first shown column (or line) after scrolling to keep `cursor` in sight.
fn scroll(cursor: usize, first: usize, size: usize, threshold: usize) -> (r: usize)
    ensures
        r == scrolled(cursor as int, first as int, size as int, threshold as int),
{
    let c = cursor as u128;
    let f = first as u128;
    let s = size as u128;
    let t = threshold as u128;
    if c < f + t {
        let amount = f + t - c;
        if amount <= f {
            (f - amount) as usize
        } else {
            0
        }
    } else if c + t > f + s {
        let next = c + t - s;
        if next > usize::MAX as u128 {
            usize::MAX
        } else {
            next as usize
        }
    } else {
        first
    }
}

/// The char a line of the buffer shows past the right edge: an arrow when the
/// line goes on past it.
pub open spec fn edge_indicator(line_len: int, width: int, left: int) -> char {
    if line_len > width + left {
        '→'
    } else {
        ' '
    }
}

/// The chars of line `y` of the grid, column by column.
pub open spec fn row_chars(buf: UIBuffer, y: int) -> Seq<char> {
    Seq::new(buf.width as nat, |c: int| buf.cell(c, y).ch)
}

/// The columns a drawn char moves on by: its width, or one when it has none.
pub open spec fn drawn_width(c: char) -> int {
    match unicode_width(c) {
        Some(w) => w as int,
        None => 1,
    }
}

/// Drawing the bytes of a line from index `i` on, from column `x`, into the
/// chars `row` of a grid line, with `width` the column where drawing stops:
/// each byte is a char; a tab writes blanks up to the next column that is a
/// multiple of four; a newline writes nothing; another char is written at
/// the column and moves on by its width. A char past the end of the row is
/// not written. Gives the row and the column reached (`width` once it is
/// reached).
pub open spec fn drawn_run(row: Seq<char>, bytes: Seq<u8>, i: int, x: int, width: int) -> (Seq<char>, int)
    decreases bytes.len() - i,
{
    if i < 0 || i >= bytes.len() {
        (row, x)
    } else {
        let ch = bytes[i] as char;
        let step: (Seq<char>, int) = if ch == '\t' {
            let w = 4 - x % 4;
            (Seq::new(row.len(), |c: int| if x <= c < x + w { ' ' } else { row[c] }), x + w)
        } else if ch == '\n' {
            (row, x)
        } else {
            (if 0 <= x < row.len() { row.update(x, ch) } else { row }, x + drawn_width(ch))
        };
        if step.1 >= width {
            (step.0, width)
        } else {
            drawn_run(step.0, bytes, i + 1, step.1, width)
        }
    }
}

/// The chars of a grid line `row` (as many as the grid is wide) once the
/// line `bytes` is drawn into it from its byte `left` on: the drawn chars,
/// blanks after them, and in the last column whether the line goes on.
pub open spec fn drawn_line(row: Seq<char>, bytes: Seq<u8>, left: int) -> Seq<char> {
    let width = row.len() - 1;
    let (r, xf) = drawn_run(row, bytes, left, 0, width);
    Seq::new(
        row.len(),
        |c: int|
            if c == width {
                edge_indicator(bytes.len() as int, width, left)
            } else if xf <= c {
                ' '
            } else {
                r[c]
            },
    )
}

proof fn lemma_row_after_write(before: UIBuffer, after: UIBuffer, x: int, y: int, ch: char)
    requires
        before.wf(),
        after.width == before.width,
        after.height == before.height,
        0 <= y < before.height,
        0 <= x < before.width,
        forall|j: int, i: int|
            0 <= j < before.height && 0 <= i < before.width ==> #[trigger] after.cell(i, j) == (if i == x
                && j == y {
                with_char(before.cell(i, j), ch)
            } else {
                before.cell(i, j)
            }),
    ensures
        row_chars(after, y) == row_chars(before, y).update(x, ch),
{
    assert(row_chars(after, y) =~= row_chars(before, y).update(x, ch));
}

proof fn lemma_drawn_run_len(row: Seq<char>, bytes: Seq<u8>, i: int, x: int, width: int)
    ensures
        drawn_run(row, bytes, i, x, width).0.len() == row.len(),
    decreases bytes.len() - i,
{
    if 0 <= i < bytes.len() {
        let ch = bytes[i] as char;
        let step: (Seq<char>, int) = if ch == '\t' {
            let w = 4 - x % 4;
            (Seq::new(row.len(), |c: int| if x <= c < x + w { ' ' } else { row[c] }), x + w)
        } else if ch == '\n' {
            (row, x)
        } else {
            (if 0 <= x < row.len() { row.update(x, ch) } else { row }, x + drawn_width(ch))
        };
        if step.1 < width {
            lemma_drawn_run_len(step.0, bytes, i + 1, step.1, width);
        }
    }
}

/// Draws a line of text into line `idx` of the grid, from its byte `left` on:
/// each byte is a char, a tab reaches the next column that is a multiple of
/// four, a newline shows nothing, other chars take their width (one when
/// they have none); the rest of the line is blank, and the last column shows
/// whether the line goes on. A char that lands past the last column is not
/// drawn.
pub fn draw_line(buf: &mut UIBuffer, line: &[u8], idx: usize, left: usize)
    requires
        old(buf).wf(),
        old(buf).width >= 1,
        old(buf).width + 256 <= usize::MAX,
        idx < old(buf).height,
    ensures
        final(buf).wf(),
        final(buf).width == old(buf).width,
        final(buf).height == old(buf).height,
        forall|y: int, x: int|
            0 <= y < old(buf).height && y != idx && 0 <= x < old(buf).width ==> #[trigger] final(buf).cell(
                x,
                y,
            ) == old(buf).cell(x, y),
        row_chars(*final(buf), idx as int) == drawn_line(row_chars(*old(buf), idx as int), line@, left as int),
        forall|x: int|
            0 <= x < old(buf).width ==> (#[trigger] final(buf).cell(x, idx as int)).fg == old(buf).cell(
                x,
                idx as int,
            ).fg && final(buf).cell(x, idx as int).bg == old(buf).cell(x, idx as int).bg,
{
    let ghost row0 = row_chars(*buf, idx as int);
    let ghost u0 = *buf;
    let width = buf.width - 1;
    let ghost target = drawn_run(row0, line@, left as int, 0, width as int);
    let mut x: usize = 0;
    let mut i: usize = left;
    let mut done = false;
    while !done && i < line.len()
        invariant
            buf.wf(),
            buf.width == old(buf).width,
            buf.height == old(buf).height,
            width == buf.width - 1,
            buf.width + 256 <= usize::MAX,
            idx < buf.height,
            x <= width,
            u0 == *old(buf),
            forall|y: int, c: int|
                0 <= y < buf.height && y != idx && 0 <= c < buf.width ==> #[trigger] buf.cell(c, y)
                    == old(buf).cell(c, y),
            forall|c: int|
                0 <= c < buf.width ==> (#[trigger] buf.cell(c, idx as int)).fg == u0.cell(c, idx as int).fg
                    && buf.cell(c, idx as int).bg == u0.cell(c, idx as int).bg,
            !done ==> drawn_run(row_chars(*buf, idx as int), line@, i as int, x as int, width as int) == target,
            done ==> (row_chars(*buf, idx as int), x as int) == target,
        decreases line@.len() - i,
    {
        let ghost row1 = row_chars(*buf, idx as int);
        let ghost x1 = x as int;
        let ch = line[i] as char;
        if ch == '\t' {
            let w = 4 - x % 4;
            let mut k: usize = 0;
            while k < w
                invariant
                    buf.wf(),
                    buf.width == old(buf).width,
                    buf.height == old(buf).height,
                    width == buf.width - 1,
                    buf.width + 256 <= usize::MAX,
                    idx < buf.height,
                    x == x1 + k,
                    x1 <= width,
                    k <= w <= 4,
                    w == 4 - x1 % 4,
                    row1.len() == buf.width,
                    u0 == *old(buf),
                    forall|y: int, c: int|
                        0 <= y < buf.height && y != idx && 0 <= c < buf.width ==> #[trigger] buf.cell(c, y)
                            == old(buf).cell(c, y),
                    forall|c: int|
                        0 <= c < buf.width ==> (#[trigger] buf.cell(c, idx as int)).fg == u0.cell(c, idx as int).fg
                            && buf.cell(c, idx as int).bg == u0.cell(c, idx as int).bg,
                    row_chars(*buf, idx as int) == Seq::new(
                        row1.len(),
                        |c: int| if x1 <= c < x1 + k { ' ' } else { row1[c] },
                    ),
                decreases w - k,
            {
                let ghost before = *buf;
                if x < buf.width {
                    buf.update_cell_content(x, idx, ' ');
                    proof {
                        lemma_row_after_write(before, *buf, x as int, idx as int, ' ');
                    }
                }
                x = x + 1;
                k = k + 1;
                proof {
                    assert(row_chars(*buf, idx as int) =~= Seq::new(
                        row1.len(),
                        |c: int| if x1 <= c < x1 + k { ' ' } else { row1[c] },
                    ));
                }
            }
        } else if ch == '\n' {
        } else {
            let ghost before = *buf;
            if x < buf.width {
                buf.update_cell_content(x, idx, ch);
                proof {
                    lemma_row_after_write(before, *buf, x as int, idx as int, ch);
                }
            }
            let w = match char_unicode_width(ch) {
                Some(w) => w,
                None => 1,
            };
            x = x + w;
        }
        if x >= width {
            done = true;
            x = width;
        }
        i = i + 1;
    }
    let ghost xf = x as int;
    let ghost r = target.0;
    proof {
        lemma_drawn_run_len(row0, line@, left as int, 0, width as int);
        assert(row_chars(*buf, idx as int) =~= Seq::new(r.len(), |c: int| if xf <= c < x { ' ' } else { r[c] }));
    }
    // Replace any cells after end of line with ' '
    while x < width
        invariant
            buf.wf(),
            buf.width == old(buf).width,
            buf.height == old(buf).height,
            width == buf.width - 1,
            buf.width + 256 <= usize::MAX,
            idx < buf.height,
            xf <= x <= width,
            u0 == *old(buf),
            r.len() == buf.width,
            target == (r, xf),
            forall|y: int, c: int|
                0 <= y < buf.height && y != idx && 0 <= c < buf.width ==> #[trigger] buf.cell(c, y)
                    == old(buf).cell(c, y),
            forall|c: int|
                0 <= c < buf.width ==> (#[trigger] buf.cell(c, idx as int)).fg == u0.cell(c, idx as int).fg
                    && buf.cell(c, idx as int).bg == u0.cell(c, idx as int).bg,
            row_chars(*buf, idx as int) == Seq::new(r.len(), |c: int| if xf <= c < x { ' ' } else { r[c] }),
        decreases width - x,
    {
        let ghost before = *buf;
        buf.update_cell_content(x, idx, ' ');
        proof {
            lemma_row_after_write(before, *buf, x as int, idx as int, ' ');
        }
        x = x + 1;
        proof {
            assert(row_chars(*buf, idx as int) =~= Seq::new(r.len(), |c: int| if xf <= c < x { ' ' } else { r[c] }));
        }
    }
    // If the line is too long to fit on the screen, show an indicator
    let indicator = if line.len() as u128 > width as u128 + left as u128 {
        '→'
    } else {
        ' '
    };
    let ghost before = *buf;
    buf.update_cell_content(width, idx, indicator);
    proof {
        lemma_row_after_write(before, *buf, width as int, idx as int, indicator);
        assert(row_chars(*buf, idx as int) =~= drawn_line(row0, line@, left as int));
    }
}

/// Where the `k`th line of a text starts (counted from 0), as the lines of a
/// buffer come one after the other; one past the end of the text once they
/// are used up.
pub open spec fn line_tail(t: Seq<u8>, k: nat) -> int
    decreases k,
{
    if k == 0 {
        0
    } else {
        let p = line_tail(t, (k - 1) as nat);
        if p >= t.len() + 1 {
            p
        } else {
            first_nl_from(t, p) + 1
        }
    }
}

/// The bytes of the `k`th line of a text, with its newline (the last line has
/// none); nothing past the last line.
pub open spec fn nth_line(t: Seq<u8>, k: nat) -> Seq<u8> {
    let p = line_tail(t, k);
    if p >= t.len() + 1 {
        seq![]
    } else {
        let e = first_nl_from(t, p);
        t.subrange(p, if e + 1 == t.len() + 1 {
            e
        } else {
            e + 1
        })
    }
}

/// A column or line number as the status line shows it: counted from 1.
pub open spec fn shown(c: usize) -> nat {
    if c < usize::MAX {
        (c + 1) as nat
    } else {
        c as nat
    }
}

/// The text of the status line: the buffer's file (or that it has none),
/// then the column and line of the cursor, counted from 1 (`1, 1` when the
/// cursor is not set).
pub open spec fn status_line(buffer: Buffer, cursor: Mark) -> Seq<char> {
    let (cx, cy) = if buffer.marks_view().contains_key(mark_key(cursor)) {
        let p = buffer.marks_view()[mark_key(cursor)];
        ((p.pos() - p.line_start()) as usize, p.line_num())
    } else {
        (0usize, 0usize)
    };
    (match buffer.path_view() {
        Some(p) => "["@ + p + "] "@,
        None => "untitled "@,
    }) + " ("@ + decimal(shown(cx)) + ", "@ + decimal(shown(cy)) + ")"@
}

/// The char of the status line at column `x`: the status text, then blanks.
pub open spec fn status_char(text: Seq<char>, x: int) -> char {
    if x < text.len() {
        text[x]
    } else {
        ' '
    }
}

/// From `before` to `after`, the text between the mark `cursor` and where
/// `object` lies was removed; when the object lies before the mark, the mark
/// moves to it. Where the mark is not set or the object lies nowhere (or at
/// the mark), nothing changes.
pub open spec fn deleted_to_object(before: Buffer, after: Buffer, cursor: Mark, object: TextObject) -> bool {
    let c = before.marks_view()[mark_key(cursor)].pos();
    let o = before.spec_object_index(object);
    if before.marks_view().contains_key(mark_key(cursor)) && o is Some && o->0.pos() > c {
        exists|r: Option<Vec<u8>>| removed_range(before, after, c, o->0.pos(), r)
    } else if before.marks_view().contains_key(mark_key(cursor)) && o is Some && o->0.pos() < c {
        exists|mid: Buffer, r: Option<Vec<u8>>|
            #![trigger removed_range(before, mid, o->0.pos(), c, r)]
            removed_range(before, mid, o->0.pos(), c, r) && after.text_view() == mid.text_view()
                && after.log_view() == mid.log_view() && after.marks_view() == mid.marks_view().insert(
                mark_key(cursor),
                spec_line_info(mid.text_view(), o->0.pos() as int),
            )
    } else {
        same_buffer(before, after)
    }
}

/// From `before` to `after`, the text from where `object` starts to where it
/// ends was removed; where either lies nowhere, nothing changes.
pub open spec fn deleted_object(before: Buffer, after: Buffer, object: TextObject) -> bool {
    let s = before.spec_object_index(
        TextObject { kind: object.kind.spec_with_anchor(Anchor::Start), offset: object.offset },
    );
    let e = before.spec_object_index(
        TextObject { kind: object.kind.spec_with_anchor(Anchor::End), offset: object.offset },
    );
    if s is Some && e is Some {
        exists|r: Option<Vec<u8>>| removed_range(before, after, s->0.pos(), e->0.pos(), r)
    } else {
        same_buffer(before, after)
    }
}

/// From `before` to `after`, the last change to the buffer was undone: its
/// reverse was played on the text, the log moved it to the redo stack, and
/// the cursor went back to where the change began. With nothing to undo,
/// nothing changes.
pub open spec fn undone(before: View, after: View) -> bool {
    &&& after.cursor == before.cursor
    &&& before.buffer.log_view().undo.len() == 0 ==> {
        &&& after.buffer.text_view() == before.buffer.text_view()
        &&& after.buffer.log_view() == before.buffer.log_view()
        &&& after.buffer.marks_view() == before.buffer.marks_view()
        &&& after.top_left == before.top_left
    }
    &&& before.buffer.log_view().undo.len() > 0 ==> {
        let top = before.buffer.log_view().undo.last();
        &&& after.buffer.text_view() == apply_changes(before.buffer.text_view(), reverse_changes(top.changes))
        &&& after.buffer.log_view() == before.buffer.log_view().after_undo()
        &&& after.buffer.marks_view()[mark_key(before.cursor)].pos() == top.init_point
    }
}

/// From `before` to `after`, the last undone change was redone: the reverse
/// of the top of the redo stack was played on the text, the log moved it back
/// to the undo stack, and the cursor went to where it began. With nothing to
/// redo, nothing changes.
pub open spec fn redone(before: View, after: View) -> bool {
    &&& after.cursor == before.cursor
    &&& before.buffer.log_view().redo.len() == 0 ==> {
        &&& after.buffer.text_view() == before.buffer.text_view()
        &&& after.buffer.log_view() == before.buffer.log_view()
        &&& after.buffer.marks_view() == before.buffer.marks_view()
        &&& after.top_left == before.top_left
    }
    &&& before.buffer.log_view().redo.len() > 0 ==> {
        let top = before.buffer.log_view().redo.last();
        &&& after.buffer.text_view() == apply_changes(before.buffer.text_view(), reverse_changes(top.changes))
        &&& after.buffer.log_view() == before.buffer.log_view().after_redo()
        &&& after.buffer.marks_view()[mark_key(before.cursor)].pos() == top.init_point
    }
}

/// A View is an abstract Window (into a Buffer).
///
/// It draws a portion of a Buffer to a UIBuffer which in turn is drawn to the
/// screen. It maintains the status bar for the current view, and the overlay
/// that takes the keys while it is open.
pub struct View {
    pub buffer: Buffer,
    pub last_buffer: Option<Buffer>,
    pub overlay: Option<CommandPrompt>,
    /// The column and line shown in the upper-left corner
    pub top_left: Position,
    /// The mark of the View's cursor in the buffer
    pub cursor: Mark,
    /// The UIBuffer to which the View is drawn
    pub uibuf: UIBuffer,
    /// Number of lines from the top/bottom of the View after which vertical
    /// scrolling begins.
    pub threshold: usize,
}

impl View {
    /// The view's parts are sound: the buffers are well formed, the grid has
    /// room for text, a status line and a prompt line, and an open prompt is
    /// well formed.
    pub open spec fn wf(&self) -> bool {
        &&& self.buffer.wf()
        &&& (self.last_buffer matches Some(b) ==> b.wf())
        &&& (self.overlay matches Some(o) ==> o.wf())
        &&& self.uibuf.wf()
        &&& self.uibuf.height >= 3
        &&& self.uibuf.width >= 1
        &&& self.uibuf.width + 256 <= usize::MAX
    }

    /// The cursor's column and line in the text, where it is set.
    pub open spec fn cursor_coords(&self) -> Option<(int, int)> {
        if self.buffer.marks_view().contains_key(mark_key(self.cursor)) {
            let p = self.buffer.marks_view()[mark_key(self.cursor)];
            Some(((p.pos() - p.line_start()) as usize as int, p.line_num() as int))
        } else {
            None
        }
    }

    /// A view of `buffer` on a screen `width` by `height`, with its cursor at
    /// the start of the text, showing the text from its start.
    pub fn new(buffer: Buffer, width: usize, height: usize) -> (r: View)
        requires
            buffer.wf(),
            width >= 1,
            width + 256 <= usize::MAX,
            height >= 3,
        ensures
            r.wf(),
            r.buffer.text_view() == buffer.text_view(),
            r.buffer.log_view() == buffer.log_view(),
            r.buffer.path_view() == buffer.path_view(),
            r.cursor == Mark::Cursor(0),
            r.buffer.marks_view() == buffer.marks_view().insert(
                mark_key(Mark::Cursor(0)),
                spec_line_info(buffer.text_view(), 0),
            ),
            r.last_buffer is None,
            r.overlay is None,
            r.top_left == (Position { x: 0, y: 0 }),
            r.uibuf.width == width,
            r.uibuf.height == height,
            r.threshold == 5,
    {
        let mut buffer = buffer;
        let cursor = Mark::Cursor(0);
        buffer.set_mark(cursor, 0);
        View {
            buffer: buffer,
            last_buffer: None,
            top_left: Position::origin(),
            cursor: cursor,
            uibuf: UIBuffer::new(width, height),
            overlay: None,
            threshold: 5,
        }
    }

    /// Shows another buffer; the one shown before becomes the last buffer.
    pub fn set_buffer(&mut self, buffer: Buffer)
        requires
            old(self).wf(),
            buffer.wf(),
        ensures
            final(self).wf(),
            final(self).buffer == buffer,
            final(self).last_buffer == Some(old(self).buffer),
            final(self).overlay == old(self).overlay,
            final(self).top_left == old(self).top_left,
            final(self).cursor == old(self).cursor,
            final(self).uibuf == old(self).uibuf,
    {
        let mut b = buffer;
        std::mem::swap(&mut self.buffer, &mut b);
        self.last_buffer = Some(b);
    }

    /// Swaps the shown buffer with the last one, if there is one.
    pub fn switch_last_buffer(&mut self)
        requires
            old(self).wf(),
        ensures
            final(self).wf(),
            match old(self).last_buffer {
                Some(last) => final(self).buffer == last && final(self).last_buffer == Some(
                    old(self).buffer,
                ),
                None => final(self).buffer == old(self).buffer && final(self).last_buffer is None,
            },
            final(self).overlay == old(self).overlay,
            final(self).top_left == old(self).top_left,
            final(self).cursor == old(self).cursor,
            final(self).uibuf == old(self).uibuf,
    {
        let last = self.last_buffer.take();
        match last {
            Some(mut b) => {
                std::mem::swap(&mut self.buffer, &mut b);
                self.last_buffer = Some(b);
            },
            None => {},
        }
    }

    /// Get the height of the View.
    ///
    /// This is the height of the UIBuffer minus the status bar height.
    pub fn get_height(&self) -> (r: usize)
        requires
            self.wf(),
        ensures
            r == self.uibuf.height - 1,
    {
        let status_bar_height: usize = 1;
        let uibuf_height = self.uibuf.get_height();
        uibuf_height - status_bar_height
    }

    /// Get the width of the View.
    pub fn get_width(&self) -> (r: usize)
        ensures
            r == self.uibuf.width,
    {
        self.uibuf.get_width()
    }

    /// Resize the view
    ///
    /// This involves simply changing the size of the associated UIBuffer
    pub fn resize(&mut self, width: usize, height: usize)
        requires
            old(self).wf(),
            width >= 1,
            width + 256 <= usize::MAX,
            height >= 3,
        ensures
            final(self).wf(),
            final(self).uibuf.width == width,
            final(self).uibuf.height == height,
            final(self).buffer == old(self).buffer,
            final(self).last_buffer == old(self).last_buffer,
            final(self).overlay == old(self).overlay,
            final(self).top_left == old(self).top_left,
            final(self).cursor == old(self).cursor,
    {
        let uibuf = UIBuffer::new(width, height);
        self.uibuf = uibuf;
    }

    /// Clear the buffer
    ///
    /// Fills every cell in the UIBuffer with the space (' ') char, and draws it.
    pub fn clear<T: Frontend>(&mut self, screen: &mut Screen<T>)
        requires
            old(self).wf(),
        ensures
            final(self).wf(),
            final(self).buffer == old(self).buffer,
            final(self).last_buffer == old(self).last_buffer,
            final(self).overlay == old(self).overlay,
            final(self).top_left == old(self).top_left,
            final(self).cursor == old(self).cursor,
            final(self).uibuf.width == old(self).uibuf.width,
            final(self).uibuf.height == old(self).uibuf.height,
            forall|y: int, x: int|
                0 <= y < old(self).uibuf.height && 0 <= x < old(self).uibuf.width
                    ==> #[trigger] final(self).uibuf.cell(x, y).ch == ' ' && !final(self).uibuf.cell(
                    x,
                    y,
                ).dirty,
    {
        self.uibuf.fill(' ');
        let ghost filled = self.uibuf;
        self.uibuf.draw_everything(screen);
        proof {
            assert forall|y: int, x: int|
                0 <= y < old(self).uibuf.height && 0 <= x < old(self).uibuf.width
                    implies #[trigger] self.uibuf.cell(x, y).ch == ' ' && !self.uibuf.cell(x, y).dirty by {
                assert(filled.rows@[y]@.len() == filled.width);
                assert(filled.cell(x, y) == with_char(old(self).uibuf.cell(x, y), ' '));
                assert(filled.cell(x, y).ch == ' ');
                assert(self.uibuf.rows@[y]@ == super::uibuf::cleaned(filled.rows@[y]@));
                assert(self.uibuf.rows@[y]@[x] == super::uibuf::cleaned(filled.rows@[y]@)[x]);
            }
        }
    }

    /// Draws the text, the overlay (or the cursor), and the status line.
    pub fn draw<T: Frontend>(&mut self, screen: &mut Screen<T>)
        requires
            old(self).wf(),
        ensures
            final(self).wf(),
            final(self).buffer == old(self).buffer,
            final(self).last_buffer == old(self).last_buffer,
            final(self).top_left == old(self).top_left,
            final(self).cursor == old(self).cursor,
            final(self).uibuf.width == old(self).uibuf.width,
            final(self).uibuf.height == old(self).uibuf.height,
            forall|x: int|
                #![trigger final(self).uibuf.cell(x, old(self).uibuf.height - 2)]
                0 <= x < old(self).uibuf.width ==> {
                    let c = final(self).uibuf.cell(x, old(self).uibuf.height - 2);
                    &&& c.ch == status_char(status_line(old(self).buffer, old(self).cursor), x)
                    &&& c.fg == CharColor::Black
                    &&& c.bg == CharColor::Blue
                    &&& !c.dirty
                },
            old(self).overlay is None ==> forall|y: int|
                0 <= y < old(self).uibuf.height - 2 ==> #[trigger] row_chars(final(self).uibuf, y)
                    == drawn_line(
                    row_chars(old(self).uibuf, y),
                    nth_line(old(self).buffer.text_view(), (old(self).top_left.y + y) as nat),
                    old(self).top_left.x as int,
                ),
    {
        let ghost t = self.buffer.text_view();
        let ghost u0 = self.uibuf;
        let height = self.get_height() - 1;
        let left = self.top_left.x;
        let mut lines = self.buffer.lines();
        let mut skipped: usize = 0;
        while skipped < self.top_left.y
            invariant
                lines.tail <= lines.head,
                lines.head == gap_contents(*lines.buffer).len() + 1,
                gap_contents(*lines.buffer) == t,
                skipped <= self.top_left.y,
                lines.tail == line_tail(t, skipped as nat),
            decreases self.top_left.y - skipped,
        {
            let _ = lines.next();
            skipped = skipped + 1;
        }
        let mut y: usize = 0;
        while y < height
            invariant
                self.wf(),
                self.buffer == old(self).buffer,
                self.last_buffer == old(self).last_buffer,
                self.top_left == old(self).top_left,
                self.cursor == old(self).cursor,
                self.overlay == old(self).overlay,
                self.uibuf.width == old(self).uibuf.width,
                self.uibuf.height == old(self).uibuf.height,
                height == self.uibuf.height - 2,
                lines.tail <= lines.head,
                lines.head == gap_contents(*lines.buffer).len() + 1,
                gap_contents(*lines.buffer) == t,
                t == old(self).buffer.text_view(),
                u0 == old(self).uibuf,
                y <= height,
                lines.tail == line_tail(t, (self.top_left.y + y) as nat),
                forall|j: int|
                    0 <= j < self.uibuf.height ==> #[trigger] row_chars(self.uibuf, j) == (if j < y {
                        drawn_line(row_chars(u0, j), nth_line(t, (self.top_left.y + j) as nat), left as int)
                    } else {
                        row_chars(u0, j)
                    }),
            decreases height - y,
        {
            let ghost before = self.uibuf;
            let ghost k = (self.top_left.y + y) as nat;
            match lines.next() {
                Some(line) => {
                    proof {
                        assert(line@ == nth_line(t, k));
                    }
                    draw_line(&mut self.uibuf, line.as_slice(), y, left)
                },
                None => {
                    let empty: Vec<u8> = Vec::new();
                    proof {
                        assert(empty@ =~= nth_line(t, k));
                    }
                    draw_line(&mut self.uibuf, empty.as_slice(), y, left)
                },
            }
            proof {
                assert forall|j: int| 0 <= j < self.uibuf.height && j != y implies #[trigger] row_chars(
                    self.uibuf,
                    j,
                ) == row_chars(before, j) by {
                    assert(row_chars(self.uibuf, j) =~= row_chars(before, j));
                }
            }
            y = y + 1;
        }
        let ghost text_drawn = self.uibuf;
        if self.overlay.is_none() {
            self.draw_cursor(screen);
        } else {
            if let Some(o) = &mut self.overlay {
                o.draw(&mut self.uibuf);
                o.draw_cursor(screen);
            }
        }
        self.draw_status(screen);
        let ghost mid = self.uibuf;
        self.uibuf.draw_everything(screen);
        proof {
            if old(self).overlay is None {
                assert forall|j: int| 0 <= j < mid.height - 2 implies #[trigger] row_chars(self.uibuf, j)
                    == row_chars(text_drawn, j) by {
                    assert(mid.rows@[j]@.len() == mid.width);
                    assert(self.uibuf.rows@[j]@ == cleaned(mid.rows@[j]@));
                    assert(row_chars(self.uibuf, j) =~= row_chars(mid, j));
                    assert(row_chars(mid, j) =~= row_chars(text_drawn, j));
                }
            }
            let h = mid.height - 2;
            assert forall|x: int| 0 <= x < mid.width implies #[trigger] self.uibuf.cell(x, h)
                == Cell { dirty: false, ..mid.cell(x, h) } by {
                assert(mid.rows@[h]@.len() == mid.width);
                assert(self.uibuf.rows@[h]@ == cleaned(mid.rows@[h]@));
                assert(cleaned(mid.rows@[h]@)[x] == Cell { dirty: false, ..mid.rows@[h]@[x] });
            }
        }
    }

    /// Writes the buffer's status and the cursor's place into the status line,
    /// and draws that line.
    fn draw_status<T: Frontend>(&mut self, screen: &mut Screen<T>)
        requires
            old(self).wf(),
        ensures
            final(self).wf(),
            final(self).buffer == old(self).buffer,
            final(self).last_buffer == old(self).last_buffer,
            final(self).overlay == old(self).overlay,
            final(self).top_left == old(self).top_left,
            final(self).cursor == old(self).cursor,
            final(self).uibuf.width == old(self).uibuf.width,
            final(self).uibuf.height == old(self).uibuf.height,
            forall|y: int, x: int|
                0 <= y < old(self).uibuf.height && 0 <= x < old(self).uibuf.width
                    ==> #[trigger] final(self).uibuf.cell(x, y) == (if y == old(self).uibuf.height - 2 {
                    Cell {
                        dirty: false,
                        ..with_char_colors(
                            old(self).uibuf.cell(x, y),
                            status_char(status_line(old(self).buffer, old(self).cursor), x),
                            CharColor::Black,
                            CharColor::Blue,
                        )
                    }
                } else {
                    old(self).uibuf.cell(x, y)
                }),
    {
        let ghost line = status_line(self.buffer, self.cursor);
        let ghost u0 = self.uibuf;
        let (cx, cy) = match self.buffer.get_mark_display_coords(self.cursor) {
            Some(c) => c,
            None => (0, 0),
        };
        let mut status = self.buffer.status_text();
        string_push_str(&mut status, " (");
        push_decimal(&mut status, if cx < usize::MAX { cx + 1 } else { cx });
        string_push_str(&mut status, ", ");
        push_decimal(&mut status, if cy < usize::MAX { cy + 1 } else { cy });
        string_push(&mut status, ')');
        proof {
            reveal_strlit(" (");
            reveal_strlit(", ");
            reveal_strlit("[");
            reveal_strlit("] ");
            reveal_strlit("untitled ");
            reveal_strlit(")");
            assert(status@ =~= line);
        }
        let status_text = data_from_str(status.as_str());
        let width = self.get_width();
        let height = self.get_height() - 1;
        let mut index: usize = 0;
        while index < width
            invariant
                self.wf(),
                self.buffer == old(self).buffer,
                self.last_buffer == old(self).last_buffer,
                self.overlay == old(self).overlay,
                self.top_left == old(self).top_left,
                self.cursor == old(self).cursor,
                self.uibuf.width == old(self).uibuf.width,
                self.uibuf.height == old(self).uibuf.height,
                width == self.uibuf.width,
                height == self.uibuf.height - 2,
                status_text@ == line,
                index <= width,
                u0 == old(self).uibuf,
                forall|y: int, x: int|
                    0 <= y < self.uibuf.height && 0 <= x < self.uibuf.width ==> #[trigger] self.uibuf.cell(
                        x,
                        y,
                    ) == (if y == height && x < index {
                        with_char_colors(u0.cell(x, y), status_char(line, x), CharColor::Black, CharColor::Blue)
                    } else {
                        u0.cell(x, y)
                    }),
            decreases width - index,
        {
            let ch = if index < status_text.len() {
                status_text[index]
            } else {
                ' '
            };
            self.uibuf.update_cell(index, height, ch, CharColor::Black, CharColor::Blue);
            index = index + 1;
        }
        let ghost mid = self.uibuf;
        self.uibuf.draw_range(screen, height, height + 1);
        proof {
            assert forall|y: int, x: int|
                0 <= y < self.uibuf.height && 0 <= x < self.uibuf.width implies #[trigger] self.uibuf.cell(
                    x,
                    y,
                ) == (if y == height {
                    Cell { dirty: false, ..mid.cell(x, y) }
                } else {
                    mid.cell(x, y)
                }) by {
                assert(mid.rows@[y]@.len() == mid.width);
                if y == height {
                    assert(self.uibuf.rows@[y]@ == cleaned(mid.rows@[y]@));
                    assert(cleaned(mid.rows@[y]@)[x] == Cell { dirty: false, ..mid.rows@[y]@[x] });
                }
            }
        }
    }

    /// Places the frontend's cursor where the buffer's cursor shows.
    fn draw_cursor<T: Frontend>(&mut self, screen: &mut Screen<T>)
        requires
            old(self).wf(),
        ensures
            *final(self) == *old(self),
            final(screen).drawn() == old(screen).drawn(),
            final(screen).placed() == (match old(self).cursor_coords() {
                Some((cx, cy)) => {
                    let x = if cx >= old(self).top_left.x { cx - old(self).top_left.x } else { 0 };
                    let y = if cy >= old(self).top_left.y { cy - old(self).top_left.y } else { 0 };
                    if x <= isize::MAX && y <= isize::MAX {
                        old(screen).placed().push((x as isize, y as isize))
                    } else {
                        old(screen).placed()
                    }
                },
                None => old(screen).placed(),
            }),
    {
        if let Some((cx, cy)) = self.buffer.get_mark_display_coords(self.cursor) {
            let x = if cx >= self.top_left.x {
                cx - self.top_left.x
            } else {
                0
            };
            let y = if cy >= self.top_left.y {
                cy - self.top_left.y
            } else {
                0
            };
            if x <= isize::MAX as usize && y <= isize::MAX as usize {
                screen.draw_cursor(x as isize, y as isize);
            }
        }
    }

    /// Opens an overlay of the given kind.
    pub fn set_overlay(&mut self, overlay_type: OverlayType)
        requires
            old(self).wf(),
        ensures
            final(self).wf(),
            final(self).overlay matches Some(o) && o.wf() && o.data@.len() == 0 && o.selected_index
                == 0 && o.cursor_x == 1,
            final(self).buffer == old(self).buffer,
            final(self).last_buffer == old(self).last_buffer,
            final(self).top_left == old(self).top_left,
            final(self).cursor == old(self).cursor,
            final(self).uibuf == old(self).uibuf,
    {
        match overlay_type {
            OverlayType::CommandPrompt => {
                self.overlay = Some(CommandPrompt::new());
            },
        }
    }

    /// Moves the cursor to where `object` lies, if it lies anywhere.
    pub fn set_cursor_to_object(&mut self, object: TextObject)
        requires
            old(self).wf(),
            old(self).buffer.object_safe(object),
        ensures
            final(self).wf(),
            final(self).buffer.text_view() == old(self).buffer.text_view(),
            final(self).buffer.log_view() == old(self).buffer.log_view(),
            final(self).buffer.marks_view() == (match old(self).buffer.spec_object_index(object) {
                Some(p) => old(self).buffer.marks_view().insert(
                    mark_key(old(self).cursor),
                    spec_line_info(old(self).buffer.text_view(), p.pos() as int),
                ),
                None => old(self).buffer.marks_view(),
            }),
            final(self).cursor == old(self).cursor,
            final(self).top_left == old(self).top_left,
    {
        self.buffer.set_mark_to_object(self.cursor, object);
    }

    /// Scroll (vertically and horizontally) if necessary to keep the cursor
    /// on the screen.
    fn maybe_move_screen(&mut self)
        requires
            old(self).wf(),
        ensures
            final(self).wf(),
            final(self).buffer == old(self).buffer,
            final(self).last_buffer == old(self).last_buffer,
            final(self).overlay == old(self).overlay,
            final(self).cursor == old(self).cursor,
            final(self).uibuf == old(self).uibuf,
            final(self).top_left == (match old(self).cursor_coords() {
                Some((cx, cy)) => Position {
                    x: scrolled(
                        cx,
                        old(self).top_left.x as int,
                        old(self).uibuf.width as int,
                        old(self).threshold as int,
                    ) as usize,
                    y: scrolled(
                        cy,
                        old(self).top_left.y as int,
                        old(self).uibuf.height - 1,
                        old(self).threshold as int,
                    ) as usize,
                },
                None => old(self).top_left,
            }),
    {
        if let Some((cursor_x, cursor_y)) = self.buffer.get_mark_display_coords(self.cursor) {
            let width = self.get_width();
            let height = self.get_height();
            let threshold = self.threshold;
            // Horizontal scrolling
            self.top_left.x = scroll(cursor_x, self.top_left.x, width, threshold);
            // Vertical scrolling
            self.top_left.y = scroll(cursor_y, self.top_left.y, height, threshold);
        }
    }

    /// Delete chars from the first index of object to the last index of object
    pub fn delete_object(&mut self, object: TextObject)
        requires
            old(self).wf(),
            old(self).buffer.object_safe(
                TextObject { kind: object.kind.spec_with_anchor(Anchor::Start), offset: object.offset },
            ),
            old(self).buffer.object_safe(
                TextObject { kind: object.kind.spec_with_anchor(Anchor::End), offset: object.offset },
            ),
        ensures
            final(self).wf(),
            deleted_object(old(self).buffer, final(self).buffer, object),
            final(self).cursor == old(self).cursor,
            final(self).top_left == old(self).top_left,
    {
        let r = self.buffer.remove_object(object);
        proof {
            let s = old(self).buffer.spec_object_index(
                TextObject { kind: object.kind.spec_with_anchor(Anchor::Start), offset: object.offset },
            );
            let e = old(self).buffer.spec_object_index(
                TextObject { kind: object.kind.spec_with_anchor(Anchor::End), offset: object.offset },
            );
            if s is Some && e is Some {
                assert(removed_range(old(self).buffer, self.buffer, s->0.pos(), e->0.pos(), r));
            }
        }
    }

    /// Deletes the text between the cursor and where `object` lies; when the
    /// object lies before the cursor, the cursor moves back to it.
    pub fn delete_from_cursor_to_object(&mut self, object: TextObject)
        requires
            old(self).wf(),
            old(self).buffer.object_safe(object),
        ensures
            final(self).wf(),
            final(self).cursor == old(self).cursor,
            final(self).top_left == old(self).top_left,
            deleted_to_object(old(self).buffer, final(self).buffer, old(self).cursor, object),
    {
        let cur = self.buffer.mark_position(self.cursor);
        let obj = self.buffer.get_object_index(object);
        match (cur, obj) {
            (Some(c), Some(o)) => {
                let c = c.index();
                let o = o.index();
                if o > c {
                    let r = self.buffer.remove_range(c, o);
                    proof {
                        assert(removed_range(old(self).buffer, self.buffer, c, o, r));
                    }
                } else if o < c {
                    let r = self.buffer.remove_range(o, c);
                    let ghost mid = self.buffer;
                    self.buffer.set_mark(self.cursor, o);
                    proof {
                        assert(removed_range(old(self).buffer, mid, o, c, r));
                    }
                } else {
                    proof {
                        lemma_same_buffer_refl(self.buffer);
                    }
                }
            },
            _ => {
                proof {
                    lemma_same_buffer_refl(self.buffer);
                }
            },
        }
    }

    /// Insert a character into the buffer & update cursor position accordingly.
    pub fn insert_char(&mut self, ch: char)
        requires
            old(self).wf(),
            old(self).buffer.marks_view().contains_key(mark_key(old(self).cursor)) ==> {
                &&& old(self).buffer.marks_view()[mark_key(old(self).cursor)].pos()
                    <= old(self).buffer.text_view().len()
                &&& old(self).buffer.text_view().len() + 1 <= isize::MAX
            },
        ensures
            final(self).wf(),
            final(self).cursor == old(self).cursor,
            final(self).top_left == old(self).top_left,
            old(self).buffer.marks_view().contains_key(mark_key(old(self).cursor)) ==> {
                let p = old(self).buffer.marks_view()[mark_key(old(self).cursor)].pos();
                &&& final(self).buffer.text_view() == old(self).buffer.text_view().insert(
                    p as int,
                    ch as u8,
                )
                &&& final(self).buffer.marks_view().contains_key(mark_key(old(self).cursor))
                &&& final(self).buffer.marks_view()[mark_key(old(self).cursor)].pos() == p + 1
            },
            !old(self).buffer.marks_view().contains_key(mark_key(old(self).cursor)) ==> same_buffer(
                old(self).buffer,
                final(self).buffer,
            ),
    {
        let p = self.buffer.mark_position(self.cursor);
        self.buffer.insert_char(self.cursor, ch as u8);
        if let Some(pos) = p {
            self.buffer.set_mark(self.cursor, pos.index() + 1);
        }
    }

    /// Undoes the last change to the buffer, moving the cursor to where it
    /// was made and scrolling to keep it in sight.
    pub fn undo(&mut self)
        requires
            old(self).wf(),
        ensures
            final(self).wf(),
            undone(*old(self), *final(self)),
    {
        let point = match self.buffer.undo() {
            Some(entry) => entry.end_point(),
            None => {
                return;
            },
        };
        self.buffer.set_mark(self.cursor, point);
        self.maybe_move_screen();
    }

    /// Redoes the last undone change, moving the cursor to where it was made
    /// and scrolling to keep it in sight.
    pub fn redo(&mut self)
        requires
            old(self).wf(),
        ensures
            final(self).wf(),
            redone(*old(self), *final(self)),
    {
        let point = match self.buffer.redo() {
            Some(entry) => entry.end_point(),
            None => {
                return;
            },
        };
        self.buffer.set_mark(self.cursor, point);
        self.maybe_move_screen();
    }

    /// Whether the buffer can be written now: it can when it has a file path;
    /// without one, a file name has to be asked for first.
    pub fn try_save_buffer(&mut self) -> (r: bool)
        ensures
            r == (old(self).buffer.path_view() is Some),
            *final(self) == *old(self),
    {
        self.buffer.has_path()
    }
}

} // verus!
