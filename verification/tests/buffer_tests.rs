//! Tests for the text buffer.

use numr::TextBuffer;

#[test]
fn test_insert_char() {
    let mut buf = TextBuffer::new();
    buf.insert_char('a');
    buf.insert_char('b');
    assert_eq!(buf.current_line(), "ab");
    assert_eq!(buf.cursor_x, 2);
    assert!(buf.dirty);
}

#[test]
fn test_delete_char() {
    let mut buf = TextBuffer::from_content("abc");
    buf.cursor_x = 2;
    buf.delete_char();
    assert_eq!(buf.current_line(), "ac");
    assert_eq!(buf.cursor_x, 1);
}

#[test]
fn test_new_line() {
    let mut buf = TextBuffer::from_content("hello world");
    buf.cursor_x = 5;
    buf.new_line();
    assert_eq!(buf.lines.len(), 2);
    assert_eq!(buf.lines[0], "hello");
    assert_eq!(buf.lines[1], " world");
    assert_eq!(buf.cursor_y, 1);
    assert_eq!(buf.cursor_x, 0);
}

#[test]
fn test_delete_line() {
    let mut buf = TextBuffer::from_content("line1\nline2\nline3");
    buf.cursor_y = 1;
    buf.delete_line();
    assert_eq!(buf.lines.len(), 2);
    assert_eq!(buf.lines[0], "line1");
    assert_eq!(buf.lines[1], "line3");
}

#[test]
fn test_move_cursor() {
    let mut buf = TextBuffer::from_content("abc\ndef");
    buf.move_down();
    assert_eq!(buf.cursor_y, 1);
    buf.move_right();
    buf.move_right();
    assert_eq!(buf.cursor_x, 2);
    buf.move_up();
    assert_eq!(buf.cursor_y, 0);
    assert_eq!(buf.cursor_x, 2);
}

#[test]
fn test_unicode() {
    let mut buf = TextBuffer::from_content("héllo");
    buf.cursor_x = 2;
    buf.insert_char('x');
    assert_eq!(buf.current_line(), "héxllo");
}

#[test]
fn test_content_round_trip() {
    let buf = TextBuffer::from_content("one\ntwo\nthree");
    assert_eq!(buf.content(), "one\ntwo\nthree");
}

#[test]
fn test_carriage_returns() {
    // a \r that ends a line is dropped; one inside a line is kept
    let buf = numr::TextBuffer::from_content("one\r\ntwo\rmid\r\nlast");
    assert_eq!(buf.lines.len(), 3);
    assert_eq!(buf.lines[0], "one");
    assert_eq!(buf.lines[1], "two\rmid");
    assert_eq!(buf.lines[2], "last");
}

#[test]
fn test_cursor_clamps_to_shorter_line() {
    let mut buf = numr::TextBuffer::from_content("longer line\nab");
    buf.cursor_x = 8;
    buf.move_down();
    assert_eq!(buf.cursor_y, 1);
    assert_eq!(buf.cursor_x, 2);
    buf.move_up();
    assert_eq!(buf.cursor_y, 0);
    assert_eq!(buf.cursor_x, 2);
}
