//! Key and character events: the dispatch layer over the cursor controller,
//! and a text-area state bundling a buffer, a cursor and its layout.

use crate::buffer::split_lines;
use crate::buffer::TextBuffer;
use crate::cursor::backspace;
use crate::cursor::backspace_spec;
use crate::cursor::insert_char;
use crate::cursor::insert_char_spec;
use crate::cursor::insert_line_break;
use crate::cursor::insert_line_break_spec;
use crate::cursor::move_down;
use crate::cursor::move_down_spec;
use crate::cursor::move_left;
use crate::cursor::move_left_spec;
use crate::cursor::move_right;
use crate::cursor::move_right_spec;
use crate::cursor::move_up;
use crate::cursor::move_up_spec;
use crate::cursor::Cursor;
use crate::layout::max_line_length;
use crate::layout::LayoutProvider;
use crate::layout::MonoLayout;
use crate::segment::grapheme_clusters;
use vstd::prelude::*;

verus! {

/// A discrete navigation or deletion event delivered by the input layer.
#[derive(Clone, Copy, Debug, PartialEq, Eq, Structural)]
pub enum InputEvent {
    MoveUp,
    MoveDown,
    MoveLeft,
    MoveRight,
    Backspace,
}

/// What one navigation or deletion event does to the buffer and the cursor.
pub open spec fn input_special_spec<L: LayoutProvider>(
    l: L,
    buf: Seq<Seq<Seq<char>>>,
    c: Cursor,
    key: InputEvent,
) -> (Seq<Seq<Seq<char>>>, Cursor) {
    match key {
        InputEvent::MoveUp => (buf, move_up_spec(l, buf, c)),
        InputEvent::MoveDown => (buf, move_down_spec(l, buf, c)),
        InputEvent::MoveLeft => (buf, move_left_spec(l, buf, c)),
        InputEvent::MoveRight => (buf, move_right_spec(l, buf, c)),
        InputEvent::Backspace => backspace_spec(l, buf, c),
    }
}

/// What one character event does to the buffer and the cursor: the delete
/// control character deletes backwards, a carriage return breaks the line,
/// anything else is inserted at the cursor.
pub open spec fn input_char_spec<L: LayoutProvider>(
    l: L,
    buf: Seq<Seq<Seq<char>>>,
    c: Cursor,
    ch: char,
) -> (Seq<Seq<Seq<char>>>, Cursor) {
    if ch == '\u{7f}' {
        backspace_spec(l, buf, c)
    } else if ch == '\r' {
        insert_line_break_spec(buf, c)
    } else {
        insert_char_spec(l, buf, c, ch)
    }
}

/// Applies one navigation or deletion event.
pub fn input_special<L: LayoutProvider>(
    key: InputEvent,
    buffer: &mut TextBuffer,
    cursor: &mut Cursor,
    layout: &L,
)
    requires
        old(buffer).wf(),
        old(cursor).valid(old(buffer)@),
    ensures
        final(buffer).wf(),
        (final(buffer)@, *final(cursor)) == input_special_spec(
            *layout,
            old(buffer)@,
            *old(cursor),
            key,
        ),
        final(cursor).valid(final(buffer)@),
{
    match key {
        InputEvent::MoveUp => move_up(buffer, layout, cursor),
        InputEvent::MoveDown => move_down(buffer, layout, cursor),
        InputEvent::MoveLeft => move_left(buffer, layout, cursor),
        InputEvent::MoveRight => move_right(buffer, layout, cursor),
        InputEvent::Backspace => backspace(buffer, layout, cursor),
    }
}

/// Applies one character event and returns the buffer's new maximum line
/// width, for the collaborator's scroll-bound computation.
pub fn input_char<L: LayoutProvider>(
    ch: char,
    buffer: &mut TextBuffer,
    cursor: &mut Cursor,
    layout: &L,
) -> (w: u64)
    requires
        old(buffer).wf(),
        old(cursor).valid(old(buffer)@),
    ensures
        final(buffer).wf(),
        (final(buffer)@, *final(cursor)) == input_char_spec(
            *layout,
            old(buffer)@,
            *old(cursor),
            ch,
        ),
        final(cursor).valid(final(buffer)@),
        forall|i: int|
            0 <= i < final(buffer)@.len() ==> #[trigger] layout.spec_line_width(final(buffer)@[i])
                <= w,
        w == 0 || exists|i: int|
            0 <= i < final(buffer)@.len() && #[trigger] layout.spec_line_width(final(buffer)@[i])
                == w,
{
    if ch == '\u{7f}' {
        backspace(buffer, layout, cursor);
    } else if ch == '\r' {
        insert_line_break(buffer, cursor);
    } else {
        insert_char(buffer, layout, cursor, ch);
    }
    max_line_length(buffer, layout)
}

/// A component that consumes key and character events.
pub trait TextInput {
    /// The component's own consistency condition, kept by every event.
    spec fn wf(&self) -> bool;

    /// Consumes one navigation or deletion event.
    fn input_special(&mut self, key: InputEvent)
        requires
            old(self).wf(),
        ensures
            final(self).wf(),
    ;

    /// Consumes one character event.
    fn input_char(&mut self, ch: char)
        requires
            old(self).wf(),
        ensures
            final(self).wf(),
    ;
}

/// An editable text area: a buffer with a cursor, a fixed-advance layout and
/// the cached maximum line width. A single-line area must be built from
/// source without a line terminator.
pub struct TextArea {
    /// The lines being edited.
    pub buffer: TextBuffer,
    /// The caret.
    pub cursor: Cursor,
    /// The measurement capability, injected at construction.
    pub layout: MonoLayout,
    /// The width of the widest line, recomputed after character events.
    pub max_line_length: u64,
    /// Whether the area accepts more than one line.
    pub multiline: bool,
}

impl TextArea {
    /// The area's consistency condition: the buffer is well-formed and the
    /// cursor points into it.
    pub open spec fn area_wf(&self) -> bool {
        &&& self.buffer.wf()
        &&& self.cursor.valid(self.buffer@)
    }

    /// Builds an area from initial source text, with the cursor at the
    /// origin and the maximum line width computed.
    pub fn _new(text: &str, layout: MonoLayout, multiline: bool) -> (t: TextArea)
        requires
            multiline || split_lines(text@).len() == 1,
        ensures
            t.area_wf(),
            t.buffer@ == split_lines(text@).map_values(|p: Seq<char>| grapheme_clusters(p)),
            t.cursor == (Cursor { row: 0, column: 0, x_offset: 0 }),
            t.layout == layout,
            t.multiline == multiline,
            forall|i: int|
                0 <= i < t.buffer@.len() ==> #[trigger] layout.spec_line_width(t.buffer@[i])
                    <= t.max_line_length,
    {
        let buffer = TextBuffer::from_source(text);
        let max_width = max_line_length(&buffer, &layout);
        TextArea {
            buffer,
            cursor: Cursor::new(),
            layout,
            max_line_length: max_width,
            multiline,
        }
    }
}

impl TextInput for TextArea {
    open spec fn wf(&self) -> bool {
        self.area_wf()
    }

    fn input_special(&mut self, key: InputEvent)
        ensures
            (final(self).buffer@, final(self).cursor) == input_special_spec(
                old(self).layout,
                old(self).buffer@,
                old(self).cursor,
                key,
            ),
            final(self).layout == old(self).layout,
            final(self).multiline == old(self).multiline,
            final(self).max_line_length == old(self).max_line_length,
    {
        input_special(key, &mut self.buffer, &mut self.cursor, &self.layout);
    }

    fn input_char(&mut self, ch: char)
        ensures
            (final(self).buffer@, final(self).cursor) == input_char_spec(
                old(self).layout,
                old(self).buffer@,
                old(self).cursor,
                ch,
            ),
            final(self).layout == old(self).layout,
            final(self).multiline == old(self).multiline,
            forall|i: int|
                0 <= i < final(self).buffer@.len() ==> #[trigger] old(
                    self,
                ).layout.spec_line_width(final(self).buffer@[i]) <= final(self).max_line_length,
    {
        self.max_line_length = input_char(ch, &mut self.buffer, &mut self.cursor, &self.layout);
    }
}

} // verus!
