use rdit::iota::cursor::{Cursor, CursorData, Line};
use rdit::iota::log::{Log, Transaction};
use rdit::iota::utils::data_from_str;

fn setup_cursor<F>(mut f: F)
where
    F: FnMut(Cursor, Transaction),
{
    let line = Line::new(data_from_str("test"), 1);
    let cursor = Cursor::new(line, 0);
    let log = Log::new();
    let position = cursor.get_position();
    f(cursor, log.start(position.offset));
}

#[test]
fn test_moving_right() {
    setup_cursor(|mut cursor, _| {
        assert_eq!(cursor.offset, 0);
        cursor.move_right();
        assert_eq!(cursor.offset, 1);
    });
}

#[test]
fn test_moving_left() {
    setup_cursor(|mut cursor, _| {
        cursor.set_offset(1);

        assert_eq!(cursor.offset, 1);
        cursor.move_left();
        assert_eq!(cursor.offset, 0);
    });
}

#[test]
fn test_get_position() {
    setup_cursor(|cursor, _| {
        assert_eq!(cursor.get_position(), CursorData { linenum: 1, offset: 0 });
    });
}

#[test]
fn test_get_linenum() {
    setup_cursor(|cursor, _| {
        assert_eq!(cursor.get_linenum(), 1);
    });
}

#[test]
fn test_get_offset() {
    setup_cursor(|cursor, _| assert_eq!(cursor.get_offset(), 0));
}

#[test]
fn test_set_offset() {
    setup_cursor(|mut cursor, _| {
        cursor.set_offset(3);

        assert_eq!(cursor.offset, 3);
    });
}

#[test]
fn test_moving_to_end_of_line_when_set() {
    let line = Line::new(data_from_str("test"), 1);
    let cursor = Cursor::new(line, 10);

    assert_eq!(cursor.offset, 10);
    assert_eq!(cursor.get_offset(), 4);
}

#[test]
fn test_get_line_length() {
    setup_cursor(|cursor, _| {
        assert_eq!(cursor.get_line_length(), 4);
    });
}

#[test]
fn test_delete_backward_char() {
    setup_cursor(|mut cursor, mut transaction| {
        cursor.offset = 1;
        cursor.delete_backward_char(&mut transaction);
        assert_eq!(cursor.line.data, data_from_str("est"));
    });
}

#[test]
fn test_delete_forward_char() {
    setup_cursor(|mut cursor, mut transaction| {
        cursor.delete_forward_char(&mut transaction);
        assert_eq!(cursor.line.data, data_from_str("est"));
    });
}

#[test]
fn cursor_test_insert_char() {
    setup_cursor(|mut cursor, mut transaction| {
        cursor.insert_char(&mut transaction, 'x');
        assert_eq!(cursor.line.data, data_from_str("xtest"));
    });
}

#[test]
fn test_get_status_text() {
    setup_cursor(|cursor, _| {
        assert_eq!(cursor.get_status_text(), "(1, 2)".to_string());
    });
}

#[test]
fn test_tab_width() {
    let line = Line::new(data_from_str("a\ttest"), 1);
    let cursor = Cursor::new(line, 2);
    assert_eq!(cursor.get_visible_offset(), 4)
}

#[test]
fn cursor_insert_past_end_keeps_offset() {
    let line = Line::new(data_from_str("ab"), 0);
    let mut cursor = Cursor::new(line, 7);
    let log = Log::new();
    let mut transaction = log.start(0);
    cursor.insert_char(&mut transaction, 'c');
    assert_eq!(cursor.line.data, data_from_str("abc"));
    assert_eq!(cursor.offset, 7);
    assert_eq!(cursor.get_offset(), 3);
}

#[test]
fn cursor_delete_backward_at_line_start_removes_first_char() {
    let line = Line::new(data_from_str("xyz"), 3);
    let mut cursor = Cursor::new(line, 0);
    let log = Log::new();
    let mut transaction = log.start(0);
    cursor.delete_backward_char(&mut transaction);
    assert_eq!(cursor.line.data, data_from_str("yz"));
    assert_eq!(cursor.get_status_text(), "(1, 4)".to_string());
}

#[test]
fn cursor_line_length_counts_utf8_bytes() {
    let line = Line::new(data_from_str("é"), 0);
    assert_eq!(line.len(), 2);
    let cursor = Cursor::new(Line::new(data_from_str("é!"), 0), 10);
    assert_eq!(cursor.get_line_length(), 3);
    assert_eq!(cursor.get_offset(), 3);
}

#[test]
fn cursor_steps_over_a_whole_char() {
    let mut cursor = Cursor::new(Line::new(data_from_str("é!"), 0), 0);
    cursor.inc_offset();
    assert_eq!(cursor.offset, 2);
    cursor.move_right();
    assert_eq!(cursor.offset, 3);
    cursor.move_right();
    assert_eq!(cursor.offset, 3);
    cursor.move_left();
    assert_eq!(cursor.offset, 2);
    cursor.dec_offset();
    assert_eq!(cursor.offset, 0);
    cursor.move_left();
    assert_eq!(cursor.offset, 0);
}

#[test]
fn cursor_edits_multibyte_chars() {
    let mut cursor = Cursor::new(Line::new(data_from_str("aé"), 0), 1);
    let log = Log::new();
    let mut transaction = log.start(1);
    cursor.insert_char(&mut transaction, 'ü');
    assert_eq!(cursor.line.data, data_from_str("aüé"));
    assert_eq!(cursor.offset, 3);
    cursor.delete_forward_char(&mut transaction);
    assert_eq!(cursor.line.data, data_from_str("aü"));
    assert_eq!(cursor.offset, 3);
    cursor.delete_backward_char(&mut transaction);
    assert_eq!(cursor.line.data, data_from_str("a"));
    assert_eq!(cursor.offset, 1);
    let cursor = Cursor::new(Line::new(data_from_str("é\tx"), 0), 3);
    assert_eq!(cursor.get_visible_offset(), 4);
}
