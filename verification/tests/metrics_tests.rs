use code_view::buffer::TextBuffer;
use code_view::cursor::Cursor;
use code_view::input::InputEvent;
use code_view::input::TextArea;
use code_view::input::TextInput;
use code_view::layout::cursor_x_position;
use code_view::layout::line_length;
use code_view::layout::max_line_length;
use code_view::layout::LayoutProvider;
use code_view::layout::MonoLayout;
use code_view::metrics::advance_product;
use code_view::metrics::clamp_scroll;
use code_view::metrics::cursor_pixel_position;
use code_view::metrics::decimal_digit_count;
use code_view::metrics::line_number_width;
use code_view::metrics::scroll_lower_bound;

#[test]
fn x_at_reports_boundaries_within_the_line() {
    let b = TextBuffer::from_source("abc");
    let l = MonoLayout::new(7);
    assert_eq!(l.x_at(b.line(0), 0), Some(0));
    assert_eq!(l.x_at(b.line(0), 2), Some(14));
    assert_eq!(l.x_at(b.line(0), 3), Some(21));
    assert_eq!(l.x_at(b.line(0), 4), None);
}

#[test]
fn x_at_on_empty_line_is_zero() {
    let b = TextBuffer::from_source("");
    let l = MonoLayout::new(7);
    assert_eq!(l.x_at(b.line(0), 0), Some(0));
    assert_eq!(l.x_at(b.line(0), 1), None);
}

#[test]
fn line_length_measures_clusters_not_chars() {
    // two clusters: 'e' with a combining accent, then 'x'
    let b = TextBuffer::from_source("e\u{0301}x");
    let l = MonoLayout::new(10);
    assert_eq!(line_length(b.line(0), &l), 20);
}

#[test]
fn max_line_length_finds_the_widest_row() {
    let b = TextBuffer::from_source("hi\nhello\nbye");
    let l = MonoLayout::new(4);
    assert_eq!(max_line_length(&b, &l), 20);
}

#[test]
fn cursor_x_position_matches_the_provider() {
    let b = TextBuffer::from_source("ab\nhello");
    let l = MonoLayout::new(5);
    assert_eq!(cursor_x_position(1, 3, &b, &l), Some(15));
    assert_eq!(cursor_x_position(0, 3, &b, &l), None);
}

#[test]
fn digit_counts() {
    assert_eq!(decimal_digit_count(0), 1);
    assert_eq!(decimal_digit_count(9), 1);
    assert_eq!(decimal_digit_count(10), 2);
    assert_eq!(decimal_digit_count(12345), 5);
    assert_eq!(decimal_digit_count(u64::MAX), 20);
}

#[test]
fn advance_product_saturates() {
    assert_eq!(advance_product(3, 8), 24);
    assert_eq!(advance_product(u64::MAX, 2), u64::MAX);
    assert_eq!(advance_product(0, 1000), 0);
}

#[test]
fn gutter_width_covers_every_row_number() {
    // rows 0..100: the widest number, 99, has two digits
    assert_eq!(line_number_width(100, 8), 16);
    assert_eq!(line_number_width(1, 8), 8);
    assert_eq!(line_number_width(101, 8), 24);
}

#[test]
fn cursor_pixel_position_scales_rows() {
    let c = Cursor { row: 3, column: 2, x_offset: 34 };
    assert_eq!(cursor_pixel_position(&c, 16), (34, 48));
}

#[test]
fn scroll_lower_bound_is_the_negated_overhang() {
    assert_eq!(scroll_lower_bound(100, 60), -40);
    assert_eq!(scroll_lower_bound(50, 60), 0);
    assert_eq!(scroll_lower_bound(60, 60), 0);
}

#[test]
fn clamp_scroll_stays_between_lower_and_zero() {
    assert_eq!(clamp_scroll(5, -40), 0);
    assert_eq!(clamp_scroll(-10, -40), -10);
    assert_eq!(clamp_scroll(-50, -40), -40);
    assert_eq!(clamp_scroll(0, 0), 0);
}

#[test]
fn text_area_tracks_events_and_max_width() {
    let mut t = TextArea::_new("hi\nhello", MonoLayout::new(6), true);
    assert_eq!(t.buffer.line_count(), 2);
    assert_eq!(t.cursor, Cursor { row: 0, column: 0, x_offset: 0 });
    assert_eq!(t.max_line_length, 30);
    t.input_special(InputEvent::MoveRight);
    assert_eq!(t.cursor, Cursor { row: 0, column: 1, x_offset: 6 });
    t.input_char('x');
    assert_eq!(t.buffer.line_text(0), "hxi");
    assert_eq!(t.cursor, Cursor { row: 0, column: 2, x_offset: 12 });
    assert_eq!(t.max_line_length, 30);
    t.input_char('\r');
    assert_eq!(t.buffer.line_count(), 3);
    assert_eq!(t.cursor, Cursor { row: 1, column: 0, x_offset: 0 });
}

#[test]
fn single_line_text_area() {
    let t = TextArea::_new("abc", MonoLayout::new(6), false);
    assert_eq!(t.buffer.line_count(), 1);
    assert_eq!(t.max_line_length, 18);
    assert!(!t.multiline);
}
