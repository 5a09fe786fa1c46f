use code_view::buffer::EditError;
use code_view::buffer::TextBuffer;
use code_view::line::Line;

#[test]
fn empty_source_gives_one_empty_line() {
    let b = TextBuffer::from_source("");
    assert_eq!(b.line_count(), 1);
    assert_eq!(b.line_len(0), 0);
    assert_eq!(b.line_text(0), "");
}

#[test]
fn split_on_line_feed() {
    let b = TextBuffer::from_source("ab\ncd");
    assert_eq!(b.line_count(), 2);
    assert_eq!(b.line_text(0), "ab");
    assert_eq!(b.line_text(1), "cd");
}

#[test]
fn trailing_terminator_appends_empty_line() {
    let b = TextBuffer::from_source("ab\n");
    assert_eq!(b.line_count(), 2);
    assert_eq!(b.line_text(0), "ab");
    assert_eq!(b.line_text(1), "");
}

#[test]
fn crlf_is_one_terminator() {
    let b = TextBuffer::from_source("a\r\nb");
    assert_eq!(b.line_count(), 2);
    assert_eq!(b.line_text(0), "a");
    assert_eq!(b.line_text(1), "b");
}

#[test]
fn lone_carriage_return_stays_in_line() {
    let b = TextBuffer::from_source("a\rb");
    assert_eq!(b.line_count(), 1);
    assert_eq!(b.line_text(0), "a\rb");
}

#[test]
fn blank_lines_are_kept() {
    let b = TextBuffer::from_source("a\n\nb\n");
    assert_eq!(b.line_count(), 4);
    assert_eq!(b.line_text(0), "a");
    assert_eq!(b.line_text(1), "");
    assert_eq!(b.line_text(2), "b");
    assert_eq!(b.line_text(3), "");
}

#[test]
fn combining_character_is_one_cluster() {
    // 'e' followed by a combining acute accent: two chars, one grapheme
    let b = TextBuffer::from_source("e\u{0301}x");
    assert_eq!(b.line_len(0), 2);
    assert_eq!(b.line(0).cluster(0), "e\u{0301}");
    assert_eq!(b.line(0).cluster(1), "x");
}

#[test]
fn insert_within_line() {
    let mut b = TextBuffer::from_source("ac");
    assert_eq!(b.insert(0, 1, 'b'), Ok(()));
    assert_eq!(b.line_text(0), "abc");
}

#[test]
fn insert_at_line_end() {
    let mut b = TextBuffer::from_source("ab");
    assert_eq!(b.insert(0, 2, 'c'), Ok(()));
    assert_eq!(b.line_text(0), "abc");
}

#[test]
fn insert_out_of_bounds_row_is_rejected() {
    let mut b = TextBuffer::from_source("ab");
    assert_eq!(b.insert(1, 0, 'x'), Err(EditError::OutOfBounds));
    assert_eq!(b.line_count(), 1);
    assert_eq!(b.line_text(0), "ab");
}

#[test]
fn insert_out_of_bounds_column_is_rejected() {
    let mut b = TextBuffer::from_source("ab");
    assert_eq!(b.insert(0, 3, 'x'), Err(EditError::OutOfBounds));
    assert_eq!(b.line_text(0), "ab");
}

#[test]
fn remove_within_line() {
    let mut b = TextBuffer::from_source("abc");
    assert_eq!(b.remove(0, 1), Ok(()));
    assert_eq!(b.line_text(0), "ac");
}

#[test]
fn remove_at_length_is_rejected() {
    let mut b = TextBuffer::from_source("ab");
    assert_eq!(b.remove(0, 2), Err(EditError::OutOfBounds));
    assert_eq!(b.line_text(0), "ab");
}

#[test]
fn remove_whole_combining_cluster() {
    let mut b = TextBuffer::from_source("ae\u{0301}b");
    assert_eq!(b.remove(0, 1), Ok(()));
    assert_eq!(b.line_text(0), "ab");
}

#[test]
fn split_line_inserts_suffix_after() {
    let mut b = TextBuffer::from_source("abcd");
    assert_eq!(b.split_line(0, 2), Ok(()));
    assert_eq!(b.line_count(), 2);
    assert_eq!(b.line_text(0), "ab");
    assert_eq!(b.line_text(1), "cd");
}

#[test]
fn split_line_out_of_bounds_is_rejected() {
    let mut b = TextBuffer::from_source("ab");
    assert_eq!(b.split_line(0, 3), Err(EditError::OutOfBounds));
    assert_eq!(b.split_line(1, 0), Err(EditError::OutOfBounds));
    assert_eq!(b.line_count(), 1);
}

#[test]
fn merge_appends_onto_previous() {
    let mut b = TextBuffer::from_source("ab\ncd");
    assert_eq!(b.merge_with_previous(1), Ok(()));
    assert_eq!(b.line_count(), 1);
    assert_eq!(b.line_text(0), "abcd");
}

#[test]
fn merge_at_first_row_is_a_noop() {
    let mut b = TextBuffer::from_source("ab\ncd");
    assert_eq!(b.merge_with_previous(0), Ok(()));
    assert_eq!(b.line_count(), 2);
    assert_eq!(b.line_text(0), "ab");
}

#[test]
fn merge_out_of_bounds_is_rejected() {
    let mut b = TextBuffer::from_source("ab");
    assert_eq!(b.merge_with_previous(1), Err(EditError::OutOfBounds));
    assert_eq!(b.line_count(), 1);
}

#[test]
fn line_count_never_drops_below_one() {
    // repeated merges collapse everything into a single line, never zero
    let mut b = TextBuffer::from_source("a\nb\nc\n");
    assert_eq!(b.line_count(), 4);
    while b.line_count() > 1 {
        let last = b.line_count() - 1;
        assert_eq!(b.merge_with_previous(last), Ok(()));
    }
    assert_eq!(b.line_count(), 1);
    assert_eq!(b.line_text(0), "abc");
    assert_eq!(b.merge_with_previous(0), Ok(()));
    assert_eq!(b.line_count(), 1);
}

#[test]
fn line_ops_edit_clusters() {
    let mut l = Line::from_str("ad");
    l.insert(1, String::from("b"));
    l.insert(2, String::from("c"));
    assert_eq!(l.len(), 4);
    assert_eq!(l.text(), "abcd");
    let removed = l.remove(0);
    assert_eq!(removed, "a");
    let suffix = l.split_off(1);
    assert_eq!(l.text(), "b");
    assert_eq!(suffix.text(), "cd");
    l.append(suffix);
    assert_eq!(l.text(), "bcd");
    let empty = Line::new();
    assert_eq!(empty.len(), 0);
    assert_eq!(empty.text(), "");
}
