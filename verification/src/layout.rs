//! The layout capability: pixel measurement of lines and caret positions.
//!
//! The cursor controller never measures text itself; it is handed a
//! `LayoutProvider`, injected at construction by the owning widget, and asks
//! it for the pixel x-offset of a glyph boundary. Pixel positions are whole
//! units (a renderer working in fractional pixels scales them at the
//! boundary).

use crate::buffer::TextBuffer;
use crate::line::Line;
use vstd::prelude::*;

verus! {

/// The externally supplied measurement capability: translates a grapheme
/// column within a line into the pixel x-offset of the glyph boundary
/// there, measured from the line's left origin, and measures a line's total
/// rendered width. A provider is a pure function of its inputs.
pub trait LayoutProvider: Sized {
    /// The pixel x-offset of the glyph boundary at grapheme index `column`
    /// of a line, or `None` when `column` exceeds the line's cluster count.
    spec fn spec_x_at(&self, line: Seq<Seq<char>>, column: int) -> Option<u64>;

    /// The total rendered width of a line, in pixels.
    spec fn spec_line_width(&self, line: Seq<Seq<char>>) -> u64;

    /// Measures the glyph boundary at `column`: `Some` exactly for the
    /// columns within the line (the position after the last cluster
    /// included), and 0 at the line's left origin.
    fn x_at(&self, line: &Line, column: usize) -> (r: Option<u64>)
        ensures
            r == self.spec_x_at(line@, column as int),
            r is Some <==> column <= line@.len(),
            column == 0 ==> r == Some(0u64),
    ;

    /// Measures the total rendered width of `line`.
    fn line_width(&self, line: &Line) -> (r: u64)
        ensures
            r == self.spec_line_width(line@),
    ;
}

/// The pixel x-offset a provider reports at `column`, with the left origin
/// for an out-of-range column: the value the cursor's `x_offset` cache takes.
pub open spec fn x_of<L: LayoutProvider>(l: L, line: Seq<Seq<char>>, column: int) -> u64 {
    match l.spec_x_at(line, column) {
        Option::Some(x) => x,
        Option::None => 0,
    }
}

/// The product of a column count and an advance width, saturated at the
/// widest representable pixel offset.
pub open spec fn spec_advance_product(column: int, advance: int) -> u64 {
    if column * advance > u64::MAX {
        u64::MAX
    } else {
        (column * advance) as u64
    }
}

/// A fixed-advance (monospace) layout: every grapheme cluster is rendered
/// `advance` pixels wide.
pub struct MonoLayout {
    /// The advance width of one grapheme cluster, in pixels.
    pub advance: u32,
}

impl MonoLayout {
    /// A monospace layout whose clusters are `advance` pixels wide.
    pub fn new(advance: u32) -> (l: MonoLayout)
        ensures
            l.advance == advance,
    {
        MonoLayout { advance }
    }
}

impl LayoutProvider for MonoLayout {
    open spec fn spec_x_at(&self, line: Seq<Seq<char>>, column: int) -> Option<u64> {
        if 0 <= column <= line.len() {
            Some(spec_advance_product(column, self.advance as int))
        } else {
            None
        }
    }

    open spec fn spec_line_width(&self, line: Seq<Seq<char>>) -> u64 {
        spec_advance_product(line.len() as int, self.advance as int)
    }

    fn x_at(&self, line: &Line, column: usize) -> (r: Option<u64>)
    {
        if column > line.len() {
            None
        } else if column == 0 {
            proof {
                assert(0int * (self.advance as int) == 0) by (nonlinear_arith);
            }
            Some(0)
        } else {
            match (column as u64).checked_mul(self.advance as u64) {
                Some(x) => Some(x),
                None => Some(u64::MAX),
            }
        }
    }

    fn line_width(&self, line: &Line) -> (r: u64)
    {
        let n = line.len();
        match (n as u64).checked_mul(self.advance as u64) {
            Some(x) => x,
            None => u64::MAX,
        }
    }
}

/// The rendered width of one line under the given provider.
pub fn line_length<L: LayoutProvider>(line: &Line, layout: &L) -> (w: u64)
    ensures
        w == layout.spec_line_width(line@),
{
    layout.line_width(line)
}

/// The widest rendered line of the buffer: an upper bound on every line's
/// width, and the width of some line unless it is 0. Feeds the collaborator's
/// horizontal scroll bound.
pub fn max_line_length<L: LayoutProvider>(buffer: &TextBuffer, layout: &L) -> (w: u64)
    ensures
        forall|i: int|
            0 <= i < buffer@.len() ==> #[trigger] layout.spec_line_width(buffer@[i]) <= w,
        w == 0 || exists|i: int|
            0 <= i < buffer@.len() && #[trigger] layout.spec_line_width(buffer@[i]) == w,
{
    let n = buffer.line_count();
    let mut w: u64 = 0;
    let mut i: usize = 0;
    while i < n
        invariant
            i <= n,
            n == buffer@.len(),
            forall|j: int|
                0 <= j < i ==> #[trigger] layout.spec_line_width(buffer@[j]) <= w,
            w == 0 || exists|j: int|
                0 <= j < i && #[trigger] layout.spec_line_width(buffer@[j]) == w,
        decreases n - i,
    {
        let lw = layout.line_width(buffer.line(i));
        if lw > w {
            w = lw;
        }
        i += 1;
    }
    w
}

/// The pixel x-offset of a caret standing at `(row, column)`, or `None` when
/// `column` exceeds the line's cluster count.
pub fn cursor_x_position<L: LayoutProvider>(
    row: usize,
    column: usize,
    buffer: &TextBuffer,
    layout: &L,
) -> (r: Option<u64>)
    requires
        row < buffer@.len(),
    ensures
        r == layout.spec_x_at(buffer@[row as int], column as int),
        r is Some <==> column <= buffer@[row as int].len(),
{
    layout.x_at(buffer.line(row), column)
}

} // verus!
