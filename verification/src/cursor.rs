//! The cursor controller: the navigation state machine over a text buffer.
//!
//! The cursor owns a logical position (row, grapheme column) and the derived
//! visual x-offset, a cache recomputed through the layout capability after
//! every mutation. All movements clamp at the buffer's boundaries; none of
//! them can fail once the cursor satisfies its validity invariant, which
//! every operation here preserves.

use crate::buffer::spec_insert;
use crate::buffer::spec_merge;
use crate::buffer::spec_remove;
use crate::buffer::spec_split_line;
use crate::buffer::TextBuffer;
use crate::layout::x_of;
use crate::layout::LayoutProvider;
use crate::segment::cluster_of_char;
use vstd::prelude::*;

verus! {

/// The caret's logical position: a row into the buffer and a grapheme column
/// into that row (the column may equal the line's length: the caret after
/// the last character), with the cached pixel x-offset of that position.
#[derive(Clone, Copy, Debug, PartialEq, Eq, Structural)]
pub struct Cursor {
    /// The row index into the buffer.
    pub row: usize,
    /// The grapheme-cluster index into the row's line.
    pub column: usize,
    /// The last-computed pixel x-offset of (row, column); a cache, never an
    /// independent source of truth.
    pub x_offset: u64,
}

impl Cursor {
    /// A cursor at the origin of the buffer.
    pub fn new() -> (c: Cursor)
        ensures
            c == (Cursor { row: 0, column: 0, x_offset: 0 }),
    {
        Cursor { row: 0, column: 0, x_offset: 0 }
    }

    /// The cursor points into the buffer: its row exists and its column is
    /// at most the row's length.
    pub open spec fn valid(self, buf: Seq<Seq<Seq<char>>>) -> bool {
        &&& self.row < buf.len()
        &&& self.column <= buf[self.row as int].len()
    }

    /// The cached x-offset agrees with what the layout provider reports for
    /// (row, column).
    pub open spec fn synced<L: LayoutProvider>(self, l: L, buf: Seq<Seq<Seq<char>>>) -> bool {
        self.x_offset == x_of(l, buf[self.row as int], self.column as int)
    }
}

/// Where `MoveLeft` takes the cursor: one column left, or to the end of the
/// previous line at column 0, or nowhere at the buffer's start.
pub open spec fn move_left_spec<L: LayoutProvider>(
    l: L,
    buf: Seq<Seq<Seq<char>>>,
    c: Cursor,
) -> Cursor {
    if c.column > 0 {
        Cursor {
            row: c.row,
            column: (c.column - 1) as usize,
            x_offset: x_of(l, buf[c.row as int], c.column - 1),
        }
    } else if c.row > 0 {
        let r = c.row - 1;
        Cursor {
            row: (c.row - 1) as usize,
            column: buf[r].len() as usize,
            x_offset: x_of(l, buf[r], buf[r].len() as int),
        }
    } else {
        c
    }
}

/// Where `MoveRight` takes the cursor: one column right while a cluster
/// stands at the column, else to the start of the next line, or nowhere at
/// the last row's end.
pub open spec fn move_right_spec<L: LayoutProvider>(
    l: L,
    buf: Seq<Seq<Seq<char>>>,
    c: Cursor,
) -> Cursor {
    if c.column < buf[c.row as int].len() {
        Cursor {
            row: c.row,
            column: (c.column + 1) as usize,
            x_offset: x_of(l, buf[c.row as int], c.column + 1),
        }
    } else if c.row + 1 < buf.len() {
        Cursor { row: (c.row + 1) as usize, column: 0, x_offset: 0 }
    } else {
        c
    }
}

/// Where `MoveUp` takes the cursor: to the previous row, keeping the column
/// when that row is long enough and clamping to its end otherwise; nowhere
/// at the first row.
pub open spec fn move_up_spec<L: LayoutProvider>(
    l: L,
    buf: Seq<Seq<Seq<char>>>,
    c: Cursor,
) -> Cursor {
    if c.row == 0 {
        c
    } else {
        let r = c.row - 1;
        if c.column <= buf[r].len() {
            Cursor { row: (c.row - 1) as usize, column: c.column, x_offset: x_of(l, buf[r], c.column as int) }
        } else {
            Cursor {
                row: (c.row - 1) as usize,
                column: buf[r].len() as usize,
                x_offset: x_of(l, buf[r], buf[r].len() as int),
            }
        }
    }
}

/// Where `MoveDown` takes the cursor: to the next row, keeping the column
/// when that row is long enough and clamping to its end otherwise; nowhere
/// at the last row.
pub open spec fn move_down_spec<L: LayoutProvider>(
    l: L,
    buf: Seq<Seq<Seq<char>>>,
    c: Cursor,
) -> Cursor {
    if c.row + 1 >= buf.len() {
        c
    } else {
        let r = c.row + 1;
        if c.column <= buf[r].len() {
            Cursor { row: (c.row + 1) as usize, column: c.column, x_offset: x_of(l, buf[r], c.column as int) }
        } else {
            Cursor {
                row: (c.row + 1) as usize,
                column: buf[r].len() as usize,
                x_offset: x_of(l, buf[r], buf[r].len() as int),
            }
        }
    }
}

/// What `Backspace` does: the left-movement is computed first and the
/// cluster now under the cursor is removed; when the movement crosses a row
/// boundary, the row is merged onto the previous one instead and the cursor
/// lands on the former split point. At the buffer's origin, nothing.
pub open spec fn backspace_spec<L: LayoutProvider>(
    l: L,
    buf: Seq<Seq<Seq<char>>>,
    c: Cursor,
) -> (Seq<Seq<Seq<char>>>, Cursor) {
    if c.column > 0 {
        let b = spec_remove(buf, c.row as int, c.column - 1);
        (
            b,
            Cursor {
                row: c.row,
                column: (c.column - 1) as usize,
                x_offset: x_of(l, b[c.row as int], c.column - 1),
            },
        )
    } else if c.row > 0 {
        let plen = buf[c.row - 1].len();
        let b = spec_merge(buf, c.row as int);
        (
            b,
            Cursor {
                row: (c.row - 1) as usize,
                column: plen as usize,
                x_offset: x_of(l, b[c.row - 1], plen as int),
            },
        )
    } else {
        (buf, c)
    }
}

/// What inserting one character does: the character becomes a cluster of its
/// own at the cursor's column, and the cursor re-syncs just past it.
pub open spec fn insert_char_spec<L: LayoutProvider>(
    l: L,
    buf: Seq<Seq<Seq<char>>>,
    c: Cursor,
    ch: char,
) -> (Seq<Seq<Seq<char>>>, Cursor) {
    let b = spec_insert(buf, c.row as int, c.column as int, seq![ch]);
    (
        b,
        Cursor {
            row: c.row,
            column: (c.column + 1) as usize,
            x_offset: x_of(l, b[c.row as int], c.column + 1),
        },
    )
}

/// What inserting a line break does: the line splits at the cursor and the
/// cursor lands at the start of the new suffix line.
pub open spec fn insert_line_break_spec(buf: Seq<Seq<Seq<char>>>, c: Cursor) -> (
    Seq<Seq<Seq<char>>>,
    Cursor,
) {
    (spec_split_line(buf, c.row as int, c.column as int), Cursor {
        row: (c.row + 1) as usize,
        column: 0,
        x_offset: 0,
    })
}

/// Moves the cursor one position left, crossing to the end of the previous
/// line at column 0; a no-op at the buffer's origin.
pub fn move_left<L: LayoutProvider>(buffer: &TextBuffer, layout: &L, cursor: &mut Cursor)
    requires
        buffer.wf(),
        old(cursor).valid(buffer@),
    ensures
        *final(cursor) == move_left_spec(*layout, buffer@, *old(cursor)),
        final(cursor).valid(buffer@),
{
    if cursor.column > 0 {
        let col = cursor.column - 1;
        let x = match layout.x_at(buffer.line(cursor.row), col) {
            Some(x) => x,
            None => 0,
        };
        cursor.column = col;
        cursor.x_offset = x;
    } else if cursor.row > 0 {
        let row = cursor.row - 1;
        let len = buffer.line_len(row);
        let x = match layout.x_at(buffer.line(row), len) {
            Some(x) => x,
            None => 0,
        };
        cursor.row = row;
        cursor.column = len;
        cursor.x_offset = x;
    }
}

/// Moves the cursor one position right, crossing to the start of the next
/// line from a line's end; a no-op at the last row's end.
pub fn move_right<L: LayoutProvider>(buffer: &TextBuffer, layout: &L, cursor: &mut Cursor)
    requires
        buffer.wf(),
        old(cursor).valid(buffer@),
    ensures
        *final(cursor) == move_right_spec(*layout, buffer@, *old(cursor)),
        final(cursor).valid(buffer@),
{
    let len = buffer.line_len(cursor.row);
    if cursor.column < len {
        let col = cursor.column + 1;
        let x = match layout.x_at(buffer.line(cursor.row), col) {
            Some(x) => x,
            None => 0,
        };
        cursor.column = col;
        cursor.x_offset = x;
    } else {
        let rows = buffer.line_count();
        if cursor.row + 1 < rows {
            cursor.row = cursor.row + 1;
            cursor.column = 0;
            cursor.x_offset = 0;
        }
    }
}

/// Moves the cursor one row up, keeping the column when the row above is
/// long enough and clamping to its end otherwise; a no-op at the first row.
pub fn move_up<L: LayoutProvider>(buffer: &TextBuffer, layout: &L, cursor: &mut Cursor)
    requires
        buffer.wf(),
        old(cursor).valid(buffer@),
    ensures
        *final(cursor) == move_up_spec(*layout, buffer@, *old(cursor)),
        final(cursor).valid(buffer@),
{
    if cursor.row == 0 {
        return ;
    }
    let row = cursor.row - 1;
    match layout.x_at(buffer.line(row), cursor.column) {
        Some(x) => {
            cursor.row = row;
            cursor.x_offset = x;
        },
        None => {
            let len = buffer.line_len(row);
            let x = match layout.x_at(buffer.line(row), len) {
                Some(x) => x,
                None => 0,
            };
            cursor.row = row;
            cursor.column = len;
            cursor.x_offset = x;
        },
    }
}

/// Moves the cursor one row down, keeping the column when the row below is
/// long enough and clamping to its end otherwise; a no-op at the last row.
pub fn move_down<L: LayoutProvider>(buffer: &TextBuffer, layout: &L, cursor: &mut Cursor)
    requires
        buffer.wf(),
        old(cursor).valid(buffer@),
    ensures
        *final(cursor) == move_down_spec(*layout, buffer@, *old(cursor)),
        final(cursor).valid(buffer@),
{
    let rows = buffer.line_count();
    if cursor.row + 1 >= rows {
        return ;
    }
    let row = cursor.row + 1;
    match layout.x_at(buffer.line(row), cursor.column) {
        Some(x) => {
            cursor.row = row;
            cursor.x_offset = x;
        },
        None => {
            let len = buffer.line_len(row);
            let x = match layout.x_at(buffer.line(row), len) {
                Some(x) => x,
                None => 0,
            };
            cursor.row = row;
            cursor.column = len;
            cursor.x_offset = x;
        },
    }
}

/// Deletes backwards: removes the cluster left of the cursor, or merges the
/// current line onto the previous one at column 0, placing the cursor at the
/// former split point; a no-op at the buffer's origin.
pub fn backspace<L: LayoutProvider>(buffer: &mut TextBuffer, layout: &L, cursor: &mut Cursor)
    requires
        old(buffer).wf(),
        old(cursor).valid(old(buffer)@),
    ensures
        final(buffer).wf(),
        (final(buffer)@, *final(cursor)) == backspace_spec(*layout, old(buffer)@, *old(cursor)),
        final(cursor).valid(final(buffer)@),
{
    if cursor.column > 0 {
        let col = cursor.column - 1;
        buffer.remove_cluster_at(cursor.row, col);
        let x = match layout.x_at(buffer.line(cursor.row), col) {
            Some(x) => x,
            None => 0,
        };
        cursor.column = col;
        cursor.x_offset = x;
    } else if cursor.row > 0 {
        let prev = cursor.row - 1;
        let plen = buffer.line_len(prev);
        buffer.merge_at(cursor.row);
        let x = match layout.x_at(buffer.line(prev), plen) {
            Some(x) => x,
            None => 0,
        };
        cursor.row = prev;
        cursor.column = plen;
        cursor.x_offset = x;
    }
}

/// Inserts one character at the cursor and re-syncs the cursor just past it.
pub fn insert_char<L: LayoutProvider>(
    buffer: &mut TextBuffer,
    layout: &L,
    cursor: &mut Cursor,
    ch: char,
)
    requires
        old(buffer).wf(),
        old(cursor).valid(old(buffer)@),
    ensures
        final(buffer).wf(),
        (final(buffer)@, *final(cursor)) == insert_char_spec(
            *layout,
            old(buffer)@,
            *old(cursor),
            ch,
        ),
        final(cursor).valid(final(buffer)@),
{
    let g = cluster_of_char(ch);
    buffer.insert_cluster_at(cursor.row, cursor.column, g);
    // the grown line's length bounds the new column, so the sum fits
    let _len = buffer.line_len(cursor.row);
    let col = cursor.column + 1;
    let x = match layout.x_at(buffer.line(cursor.row), col) {
        Some(x) => x,
        None => 0,
    };
    cursor.column = col;
    cursor.x_offset = x;
}

/// Inserts a line break at the cursor: the line splits and the cursor lands
/// at the start of the new suffix line, whose left origin needs no
/// measurement.
pub fn insert_line_break(buffer: &mut TextBuffer, cursor: &mut Cursor)
    requires
        old(buffer).wf(),
        old(cursor).valid(old(buffer)@),
    ensures
        final(buffer).wf(),
        (final(buffer)@, *final(cursor)) == insert_line_break_spec(old(buffer)@, *old(cursor)),
        final(cursor).valid(final(buffer)@),
{
    buffer.split_line_at(cursor.row, cursor.column);
    // the grown buffer's row count bounds the new row, so the sum fits
    let _rows = buffer.line_count();
    let row = cursor.row + 1;
    cursor.row = row;
    cursor.column = 0;
    cursor.x_offset = 0;
}

/// Horizontal movement clamps at the buffer's extremities: MoveLeft at the
/// buffer's origin and MoveRight at the last row's end leave the cursor
/// unchanged.
pub proof fn lemma_moves_clamp_at_extremities<L: LayoutProvider>(
    l: L,
    buf: Seq<Seq<Seq<char>>>,
    c: Cursor,
)
    requires
        c.valid(buf),
    ensures
        c.row == 0 && c.column == 0 ==> move_left_spec(l, buf, c) == c,
        c.row + 1 == buf.len() && c.column == buf[c.row as int].len() ==> move_right_spec(
            l,
            buf,
            c,
        ) == c,
{
}

/// MoveLeft then MoveRight restores the cursor at any interior position:
/// from a synced cursor with `column > 0`, the two movements are inverse,
/// row, column and x-offset included.
pub proof fn lemma_move_left_right_inverse<L: LayoutProvider>(
    l: L,
    buf: Seq<Seq<Seq<char>>>,
    c: Cursor,
)
    requires
        c.valid(buf),
        c.column > 0,
        c.synced(l, buf),
    ensures
        move_right_spec(l, buf, move_left_spec(l, buf, c)) == c,
{
}

/// Line-break insertion is the inverse of the backspace merge: from any
/// synced cursor, inserting a line break and then backspacing restores the
/// buffer and the cursor exactly.
pub proof fn lemma_line_break_backspace_inverse<L: LayoutProvider>(
    l: L,
    buf: Seq<Seq<Seq<char>>>,
    c: Cursor,
)
    requires
        c.valid(buf),
        c.synced(l, buf),
        c.row < usize::MAX,
    ensures
        ({
            let (b, c2) = insert_line_break_spec(buf, c);
            backspace_spec(l, b, c2)
        }) == (buf, c),
{
    let (b, c2) = insert_line_break_spec(buf, c);
    let (b3, c3) = backspace_spec(l, b, c2);
    assert(c2.column == 0 && c2.row == c.row + 1);
    let plen = b[c2.row - 1].len();
    assert(b[c2.row - 1] == buf[c.row as int].take(c.column as int));
    assert(plen == c.column);
    assert(b3 == spec_merge(b, c2.row as int));
    assert(b3[c.row as int] =~= buf[c.row as int].take(c.column as int) + buf[c.row as int].skip(
        c.column as int,
    ));
    assert(buf[c.row as int].take(c.column as int) + buf[c.row as int].skip(c.column as int)
        =~= buf[c.row as int]);
    assert(b3 =~~= buf);
    assert(c3 == c);
}

} // verus!
