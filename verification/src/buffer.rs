//! The editable text buffer: an ordered sequence of lines, never empty.

use crate::line::Line;
use crate::segment::grapheme_clusters;
use vstd::prelude::*;
use vstd::string::StrSliceExecFns;

verus! {

/// The error kind of the buffer's edit operations: a row or column argument
/// outside its valid range. A rejected edit leaves the buffer unchanged.
#[derive(Clone, Copy, Debug, PartialEq, Eq, Structural)]
pub enum EditError {
    OutOfBounds,
}

/// Strips one trailing carriage return from a piece of text, as splitting on
/// a `\r\n` terminator leaves one on the piece before the `\n`.
pub open spec fn strip_cr(p: Seq<char>) -> Seq<char> {
    if p.len() > 0 && p.last() == '\r' {
        p.drop_last()
    } else {
        p
    }
}

/// The lines of a source text: the pieces separated by `\n` (a `\r`
/// immediately before a separator is dropped), the piece after the last
/// separator kept verbatim. A source that ends with a terminator thus yields
/// one empty trailing line, and an empty source yields one empty line.
pub open spec fn split_lines(s: Seq<char>) -> Seq<Seq<char>>
    decreases s.len(),
{
    if s.len() == 0 {
        seq![Seq::<char>::empty()]
    } else if s[0] == '\n' {
        seq![Seq::<char>::empty()] + split_lines(s.skip(1))
    } else if s[0] == '\r' && s.len() >= 2 && s[1] == '\n' {
        seq![Seq::<char>::empty()] + split_lines(s.skip(2))
    } else {
        let rest = split_lines(s.skip(1));
        rest.update(0, seq![s[0]] + rest[0])
    }
}

/// A source text always splits into at least one line.
pub proof fn lemma_split_lines_len(s: Seq<char>)
    ensures
        split_lines(s).len() >= 1,
    decreases s.len(),
{
    if s.len() == 0 {
    } else if s[0] == '\n' {
        lemma_split_lines_len(s.skip(1));
    } else if s[0] == '\r' && s.len() >= 2 && s[1] == '\n' {
        lemma_split_lines_len(s.skip(2));
    } else {
        lemma_split_lines_len(s.skip(1));
    }
}

/// How `split_lines` consumes its first line: if no separator stands before
/// index `k`, and `k` is either a separator or the end of the text, the first
/// line is the piece before `k` (with a trailing `\r` dropped when `k` is a
/// separator) and the rest are the lines of what follows the separator.
pub proof fn lemma_split_lines_head(s: Seq<char>, k: int)
    requires
        0 <= k <= s.len(),
        forall|j: int| 0 <= j < k ==> s[j] != '\n',
        k < s.len() ==> s[k] == '\n',
    ensures
        k == s.len() ==> split_lines(s) == seq![s],
        k < s.len() ==> split_lines(s) == seq![strip_cr(s.take(k))] + split_lines(s.skip(k + 1)),
    decreases k,
{
    lemma_split_lines_len(s);
    if k == 0 {
        if s.len() == 0 {
            assert(split_lines(s) =~~= seq![s]);
        } else {
            assert(s[0] == '\n');
            assert(strip_cr(s.take(0)) =~= Seq::<char>::empty());
            assert(split_lines(s) =~~= seq![strip_cr(s.take(0))] + split_lines(s.skip(1)));
        }
    } else {
        assert(s[0] != '\n');
        if s[0] == '\r' && s.len() >= 2 && s[1] == '\n' {
            assert(k == 1);
            assert(s.take(1) =~= seq![s[0]]);
            assert(strip_cr(s.take(1)) =~= Seq::<char>::empty());
            assert(split_lines(s) =~~= seq![strip_cr(s.take(1))] + split_lines(s.skip(2)));
        } else {
            let t = s.skip(1);
            lemma_split_lines_head(t, k - 1);
            let rest = split_lines(t);
            assert(split_lines(s) == rest.update(0, seq![s[0]] + rest[0]));
            if k == s.len() {
                assert(rest == seq![t]);
                assert(seq![s[0]] + t =~= s);
                assert(split_lines(s) =~~= seq![s]);
            } else {
                assert(rest == seq![strip_cr(t.take(k - 1))] + split_lines(t.skip(k)));
                assert(t.skip(k) =~= s.skip(k + 1));
                // the first pieces agree: prepending s[0] commutes with
                // dropping a trailing carriage return
                let p = t.take(k - 1);
                let q = s.take(k);
                assert(q =~= seq![s[0]] + p);
                if p.len() > 0 && p.last() == '\r' {
                    assert(q.last() == '\r');
                    assert(seq![s[0]] + strip_cr(p) =~= strip_cr(q));
                } else {
                    // if q ended in '\r' with p empty, then s[0] == '\r' and
                    // k == 1, so s[1] == '\n', which is the CRLF branch
                    if q.len() > 0 && q.last() == '\r' {
                        assert(p.len() == 0);
                        assert(s[0] == '\r' && k == 1);
                        assert(s[1] == '\n');
                        assert(false);
                    }
                    assert(seq![s[0]] + strip_cr(p) =~= strip_cr(q));
                }
                assert(split_lines(s) =~~= seq![strip_cr(s.take(k))] + split_lines(s.skip(k + 1)));
            }
        }
    }
}

/// The buffer after a grapheme cluster `g` is inserted at `column` in line
/// `row`.
pub open spec fn spec_insert(
    buf: Seq<Seq<Seq<char>>>,
    row: int,
    column: int,
    g: Seq<char>,
) -> Seq<Seq<Seq<char>>> {
    buf.update(row, buf[row].insert(column, g))
}

/// The buffer after the grapheme cluster at `column` in line `row` is
/// removed.
pub open spec fn spec_remove(buf: Seq<Seq<Seq<char>>>, row: int, column: int) -> Seq<
    Seq<Seq<char>>,
> {
    buf.update(row, buf[row].remove(column))
}

/// The buffer after line `row` is split at `column`: the prefix stays at
/// `row` and the suffix becomes a new line at `row + 1`.
pub open spec fn spec_split_line(buf: Seq<Seq<Seq<char>>>, row: int, column: int) -> Seq<
    Seq<Seq<char>>,
> {
    buf.update(row, buf[row].take(column)).insert(row + 1, buf[row].skip(column))
}

/// The buffer after line `row` is appended onto line `row - 1` and removed.
pub open spec fn spec_merge(buf: Seq<Seq<Seq<char>>>, row: int) -> Seq<Seq<Seq<char>>> {
    buf.update(row - 1, buf[row - 1] + buf[row]).remove(row)
}

/// The text model: an ordered sequence of lines, each a sequence of grapheme
/// clusters. There is always at least one line: an empty document is one
/// empty line. Viewed as the sequence of its lines' views.
pub struct TextBuffer {
    lines: Vec<Line>,
}

impl View for TextBuffer {
    type V = Seq<Seq<Seq<char>>>;

    closed spec fn view(&self) -> Seq<Seq<Seq<char>>> {
        self.lines.deep_view()
    }
}

impl TextBuffer {
    /// The buffer's structural invariant: it never has zero lines.
    pub open spec fn wf(&self) -> bool {
        self@.len() >= 1
    }

    /// Builds the buffer from initial source text, splitting on line
    /// terminators; a source that ends with a terminator gets one extra
    /// empty trailing line, and an empty source gives one empty line.
    pub fn from_source(s: &str) -> (t: TextBuffer)
        ensures
            t.wf(),
            t@ == split_lines(s@).map_values(|p: Seq<char>| grapheme_clusters(p)),
    {
        let n = s.unicode_len();
        let mut lines: Vec<Line> = Vec::new();
        let ghost mut pieces: Seq<Seq<char>> = Seq::empty();
        let mut start: usize = 0;
        let mut i: usize = 0;
        proof {
            assert(s@.skip(0) =~= s@);
        }
        while i < n
            invariant
                start <= i <= n,
                n == s@.len(),
                forall|j: int| start <= j < i ==> s@[j] != '\n',
                lines.deep_view() == pieces.map_values(|p: Seq<char>| grapheme_clusters(p)),
                split_lines(s@) == pieces + split_lines(s@.skip(start as int)),
            decreases n - i,
        {
            if s.get_char(i) == '\n' {
                let end = if i > start && s.get_char(i - 1) == '\r' {
                    i - 1
                } else {
                    i
                };
                let piece = s.substring_char(start, end);
                let l = Line::from_str(piece);
                let ghost prev = lines.deep_view();
                lines.push(l);
                proof {
                    let rest = s@.skip(start as int);
                    let k = i - start;
                    lemma_split_lines_head(rest, k as int);
                    assert(rest.take(k as int) =~= s@.subrange(start as int, i as int));
                    assert(strip_cr(rest.take(k as int)) =~= piece@);
                    assert(rest.skip(k + 1) =~= s@.skip(i + 1));
                    pieces = pieces.push(piece@);
                    assert(lines.deep_view() =~= prev.push(l@));
                    assert(lines.deep_view() =~= pieces.map_values(
                        |p: Seq<char>| grapheme_clusters(p),
                    ));
                    assert(split_lines(s@) =~~= pieces + split_lines(s@.skip(i + 1)));
                }
                start = i + 1;
            }
            i += 1;
        }
        let piece = s.substring_char(start, n);
        let l = Line::from_str(piece);
        let ghost prev = lines.deep_view();
        lines.push(l);
        let t = TextBuffer { lines };
        proof {
            let rest = s@.skip(start as int);
            lemma_split_lines_head(rest, n - start);
            assert(rest =~= s@.subrange(start as int, n as int));
            pieces = pieces.push(rest);
            assert(t@ =~= prev.push(l@));
            assert(t@ =~= pieces.map_values(|p: Seq<char>| grapheme_clusters(p)));
            assert(split_lines(s@) =~~= pieces);
            assert(t@ =~~= split_lines(s@).map_values(|p: Seq<char>| grapheme_clusters(p)));
            lemma_split_lines_len(s@);
        }
        t
    }

    /// The number of lines; at least 1 for a well-formed buffer.
    pub fn line_count(&self) -> (n: usize)
        ensures
            n == self@.len(),
    {
        proof {
            assert(self@.len() == self.lines@.len());
        }
        self.lines.len()
    }

    /// The line at `row`.
    pub fn line(&self, row: usize) -> (l: &Line)
        requires
            row < self@.len(),
        ensures
            l@ == self@[row as int],
    {
        &self.lines[row]
    }

    /// The number of grapheme clusters in the line at `row`.
    pub fn line_len(&self, row: usize) -> (n: usize)
        requires
            row < self@.len(),
        ensures
            n == self@[row as int].len(),
    {
        self.lines[row].len()
    }

    /// The content of the line at `row` as a string.
    pub fn line_text(&self, row: usize) -> (s: String)
        requires
            row < self@.len(),
        ensures
            s@ == self@[row as int].flatten(),
    {
        self.lines[row].text()
    }

    /// Inserts the grapheme cluster `g` at `column` in line `row`; the
    /// caller has already checked the bounds.
    pub(crate) fn insert_cluster_at(&mut self, row: usize, column: usize, g: String)
        requires
            old(self).wf(),
            row < old(self)@.len(),
            column <= old(self)@[row as int].len(),
        ensures
            final(self).wf(),
            final(self)@ == spec_insert(old(self)@, row as int, column as int, g@),
    {
        let ghost prev = self.lines.deep_view();
        let ghost gv = g@;
        let mut l = self.lines.remove(row);
        l.insert(column, g);
        self.lines.insert(row, l);
        proof {
            assert(self.lines@ =~= old(self).lines@.update(row as int, l));
            assert(self@ =~~= spec_insert(prev, row as int, column as int, gv));
        }
    }

    /// Removes the grapheme cluster at `column` in line `row`; the caller
    /// has already checked the bounds.
    pub(crate) fn remove_cluster_at(&mut self, row: usize, column: usize)
        requires
            old(self).wf(),
            row < old(self)@.len(),
            column < old(self)@[row as int].len(),
        ensures
            final(self).wf(),
            final(self)@ == spec_remove(old(self)@, row as int, column as int),
    {
        let ghost prev = self.lines.deep_view();
        let mut l = self.lines.remove(row);
        let _ = l.remove(column);
        self.lines.insert(row, l);
        proof {
            assert(self.lines@ =~= old(self).lines@.update(row as int, l));
            assert(self@ =~~= spec_remove(prev, row as int, column as int));
        }
    }

    /// Splits line `row` at `column`; the caller has already checked the
    /// bounds.
    pub(crate) fn split_line_at(&mut self, row: usize, column: usize)
        requires
            old(self).wf(),
            row < old(self)@.len(),
            column <= old(self)@[row as int].len(),
        ensures
            final(self).wf(),
            final(self)@ == spec_split_line(old(self)@, row as int, column as int),
    {
        let ghost prev = self.lines.deep_view();
        let mut l = self.lines.remove(row);
        let suffix = l.split_off(column);
        self.lines.insert(row, suffix);
        self.lines.insert(row, l);
        proof {
            assert(self.lines@ =~= old(self).lines@.update(row as int, l).insert(
                row + 1,
                suffix,
            ));
            assert(self@ =~~= spec_split_line(prev, row as int, column as int));
        }
    }

    /// Appends line `row` onto line `row - 1` and removes line `row`; the
    /// caller has already checked that `1 <= row < line count`.
    pub(crate) fn merge_at(&mut self, row: usize)
        requires
            old(self).wf(),
            1 <= row < old(self)@.len(),
        ensures
            final(self).wf(),
            final(self)@ == spec_merge(old(self)@, row as int),
    {
        let ghost prev = self.lines.deep_view();
        let merged = self.lines.remove(row);
        let mut l = self.lines.remove(row - 1);
        l.append(merged);
        self.lines.insert(row - 1, l);
        proof {
            assert(self.lines@ =~= old(self).lines@.update(row - 1, l).remove(row as int));
            assert(self@ =~~= spec_merge(prev, row as int));
        }
    }

    /// Inserts one character at the grapheme-boundary index `column` in line
    /// `row`, as a cluster of its own. Fails with `OutOfBounds`, leaving the
    /// buffer unchanged, exactly when `row` or `column` is out of range.
    pub fn insert(&mut self, row: usize, column: usize, ch: char) -> (r: Result<(), EditError>)
        requires
            old(self).wf(),
        ensures
            final(self).wf(),
            r is Ok <==> row < old(self)@.len() && column <= old(self)@[row as int].len(),
            r is Ok ==> final(self)@ == spec_insert(old(self)@, row as int, column as int, seq![ch]),
            r is Err ==> final(self)@ == old(self)@ && r == Err::<(), EditError>(
                EditError::OutOfBounds,
            ),
    {
        if row >= self.line_count() {
            return Err(EditError::OutOfBounds);
        }
        if column > self.line_len(row) {
            return Err(EditError::OutOfBounds);
        }
        let g = crate::segment::cluster_of_char(ch);
        self.insert_cluster_at(row, column, g);
        Ok(())
    }

    /// Removes the grapheme cluster at index `column` in line `row`. Fails
    /// with `OutOfBounds`, leaving the buffer unchanged, exactly when `row`
    /// or `column` is out of range.
    pub fn remove(&mut self, row: usize, column: usize) -> (r: Result<(), EditError>)
        requires
            old(self).wf(),
        ensures
            final(self).wf(),
            r is Ok <==> row < old(self)@.len() && column < old(self)@[row as int].len(),
            r is Ok ==> final(self)@ == spec_remove(old(self)@, row as int, column as int),
            r is Err ==> final(self)@ == old(self)@ && r == Err::<(), EditError>(
                EditError::OutOfBounds,
            ),
    {
        if row >= self.line_count() {
            return Err(EditError::OutOfBounds);
        }
        if column >= self.line_len(row) {
            return Err(EditError::OutOfBounds);
        }
        self.remove_cluster_at(row, column);
        Ok(())
    }

    /// Splits line `row` at grapheme index `column`: the prefix remains at
    /// `row`, the suffix becomes a new line at `row + 1`. Fails with
    /// `OutOfBounds`, leaving the buffer unchanged, exactly when `row` or
    /// `column` is out of range.
    pub fn split_line(&mut self, row: usize, column: usize) -> (r: Result<(), EditError>)
        requires
            old(self).wf(),
        ensures
            final(self).wf(),
            r is Ok <==> row < old(self)@.len() && column <= old(self)@[row as int].len(),
            r is Ok ==> final(self)@ == spec_split_line(old(self)@, row as int, column as int),
            r is Err ==> final(self)@ == old(self)@ && r == Err::<(), EditError>(
                EditError::OutOfBounds,
            ),
    {
        if row >= self.line_count() {
            return Err(EditError::OutOfBounds);
        }
        if column > self.line_len(row) {
            return Err(EditError::OutOfBounds);
        }
        self.split_line_at(row, column);
        Ok(())
    }

    /// Appends line `row`'s content onto line `row - 1` and removes line
    /// `row`. At `row == 0` it succeeds without changing anything. Fails
    /// with `OutOfBounds`, leaving the buffer unchanged, exactly when `row`
    /// is out of range.
    pub fn merge_with_previous(&mut self, row: usize) -> (r: Result<(), EditError>)
        requires
            old(self).wf(),
        ensures
            final(self).wf(),
            r is Ok <==> row < old(self)@.len(),
            r is Ok && row > 0 ==> final(self)@ == spec_merge(old(self)@, row as int),
            r is Ok && row == 0 ==> final(self)@ == old(self)@,
            r is Err ==> final(self)@ == old(self)@ && r == Err::<(), EditError>(
                EditError::OutOfBounds,
            ),
    {
        if row >= self.line_count() {
            return Err(EditError::OutOfBounds);
        }
        if row == 0 {
            return Ok(());
        }
        self.merge_at(row);
        Ok(())
    }
}

} // verus!
