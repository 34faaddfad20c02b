use gapbuffer::GapBuffer;
use rdit::iota::buffer::{get_line_info, Buffer, Mark, MarkPosition};
use rdit::iota::log::Change;
use rdit::iota::textobject::{Anchor, Kind, Offset, TextObject};

fn setup_buffer(testcase: &'static str) -> Buffer {
    let mut buffer = Buffer::from_bytes(testcase.as_bytes());
    buffer.set_mark(Mark::Cursor(0), 0);
    buffer
}

#[test]
fn move_mark_char_right() {
    let mut buffer = setup_buffer("Some test content");
    let mark = Mark::Cursor(0);
    let obj = TextObject {
        kind: Kind::Char,
        offset: Offset::Forward(1, mark),
    };

    buffer.set_mark_to_object(mark, obj);

    assert_eq!(buffer.mark_position(mark).unwrap(), MarkPosition::from((1, 0, 0)));
    assert_eq!(buffer.get_mark_display_coords(mark).unwrap(), (1, 0));
}

#[test]
fn move_mark_char_left() {
    let mut buffer = setup_buffer("Some test content");
    let mark = Mark::Cursor(0);
    let obj = TextObject {
        kind: Kind::Char,
        offset: Offset::Backward(1, mark),
    };

    buffer.set_mark(mark, 3);
    buffer.set_mark_to_object(mark, obj);

    assert_eq!(buffer.mark_position(mark).unwrap(), MarkPosition::from((2, 0, 0)));
    assert_eq!(buffer.get_mark_display_coords(mark).unwrap(), (2, 0));
}

#[test]
fn move_mark_five_chars_right() {
    let mut buffer = setup_buffer("Some test content");
    let mark = Mark::Cursor(0);
    let obj = TextObject {
        kind: Kind::Char,
        offset: Offset::Forward(5, mark),
    };

    buffer.set_mark_to_object(mark, obj);

    assert_eq!(buffer.mark_position(mark).unwrap(), MarkPosition::from((5, 0, 0)));
    assert_eq!(buffer.get_mark_display_coords(mark).unwrap(), (5, 0));
}

#[test]
fn move_mark_line_down() {
    let mut buffer = setup_buffer("Some test content\nwith new\nlines!");
    let mark = Mark::Cursor(0);
    let obj = TextObject {
        kind: Kind::Line(Anchor::Same),
        offset: Offset::Forward(1, mark),
    };

    buffer.set_mark_to_object(mark, obj);

    assert_eq!(buffer.mark_position(mark).unwrap(), MarkPosition::from((18, 18, 1)));
    assert_eq!(buffer.get_mark_display_coords(mark).unwrap(), (0, 1));
}

#[test]
fn move_mark_line_up() {
    let mut buffer = setup_buffer("Some test content\nnew lines!");
    let mark = Mark::Cursor(0);
    let obj = TextObject {
        kind: Kind::Line(Anchor::Same),
        offset: Offset::Backward(1, mark),
    };

    buffer.set_mark(mark, 18);
    buffer.set_mark_to_object(mark, obj);

    assert_eq!(buffer.mark_position(mark).unwrap(), MarkPosition::from((0, 0, 0)));
    assert_eq!(buffer.get_mark_display_coords(mark).unwrap(), (0, 0));
}

#[test]
fn move_mark_two_lines_down() {
    let mut buffer = setup_buffer("Some test content\nwith new\nlines!");
    let mark = Mark::Cursor(0);
    let obj = TextObject {
        kind: Kind::Line(Anchor::Same),
        offset: Offset::Forward(2, mark),
    };

    buffer.set_mark_to_object(mark, obj);

    assert_eq!(buffer.mark_position(mark).unwrap(), MarkPosition::from((27, 27, 2)));
    assert_eq!(buffer.get_mark_display_coords(mark).unwrap(), (0, 2));
}

#[test]
fn move_mark_two_words_right() {
    let mut buffer = setup_buffer("Some test content\nwith new\nlines!");
    let mark = Mark::Cursor(0);
    let obj = TextObject {
        kind: Kind::Word(Anchor::Start),
        offset: Offset::Forward(2, mark),
    };

    buffer.set_mark_to_object(mark, obj);

    assert_eq!(buffer.mark_position(mark).unwrap(), MarkPosition::from((10, 0, 0)));
    assert_eq!(buffer.get_mark_display_coords(mark).unwrap(), (10, 0));
}

#[test]
fn move_mark_two_words_left() {
    let mut buffer = setup_buffer("Some test content\nwith new\nlines!");
    let mark = Mark::Cursor(0);
    let obj = TextObject {
        kind: Kind::Word(Anchor::Start),
        offset: Offset::Backward(2, mark),
    };

    buffer.set_mark(mark, 18);
    buffer.set_mark_to_object(mark, obj);

    assert_eq!(buffer.mark_position(mark).unwrap(), MarkPosition::from((5, 0, 0)));
    assert_eq!(buffer.get_mark_display_coords(mark).unwrap(), (5, 0));
}

#[test]
fn move_mark_move_word_left_at_start_of_buffer() {
    let mut buffer = setup_buffer("Some test content\nwith new\nlines!");
    let mark = Mark::Cursor(0);
    let obj = TextObject {
        kind: Kind::Word(Anchor::Start),
        offset: Offset::Backward(1, mark),
    };

    buffer.set_mark(mark, 5);
    buffer.set_mark_to_object(mark, obj);

    assert_eq!(buffer.mark_position(mark).unwrap(), MarkPosition::from((0, 0, 0)));
    assert_eq!(buffer.get_mark_display_coords(mark).unwrap(), (0, 0));
}

#[test]
fn move_mark_move_word_right_past_end_of_buffer() {
    let mut buffer = setup_buffer("Some test content\nwith new\nlines!");
    let mark = Mark::Cursor(0);
    let obj = TextObject {
        kind: Kind::Word(Anchor::Start),
        offset: Offset::Forward(8, mark),
    };

    buffer.set_mark(mark, 28);
    buffer.set_mark_to_object(mark, obj);

    assert_eq!(buffer.mark_position(mark).unwrap(), MarkPosition::from((33, 27, 2)));
    assert_eq!(buffer.get_mark_display_coords(mark).unwrap(), (6, 2));
}

#[test]
fn move_mark_second_word_in_buffer() {
    let mut buffer = setup_buffer("Some test content\nwith new\nlines!");
    let mark = Mark::Cursor(0);
    let obj = TextObject {
        kind: Kind::Word(Anchor::Start),
        offset: Offset::Absolute(2),
    };

    buffer.set_mark(mark, 18);
    buffer.set_mark_to_object(mark, obj);

    assert_eq!(buffer.mark_position(mark).unwrap(), MarkPosition::from((5, 0, 0)));
    assert_eq!(buffer.get_mark_display_coords(mark).unwrap(), (5, 0));
}

#[test]
fn move_mark_fifth_word_in_buffer() {
    let mut buffer = setup_buffer("Some test content\nwith new\nlines!");
    let mark = Mark::Cursor(0);
    let obj = TextObject {
        kind: Kind::Word(Anchor::Start),
        offset: Offset::Absolute(5),
    };

    buffer.set_mark(mark, 18);
    buffer.set_mark_to_object(mark, obj);

    assert_eq!(buffer.mark_position(mark).unwrap(), MarkPosition::from((23, 18, 1)));
    assert_eq!(buffer.get_mark_display_coords(mark).unwrap(), (5, 1));
}

#[test]
fn move_mark_second_line_in_buffer() {
    let mut buffer = setup_buffer("Some test content\nwith new\nlines!");
    let mark = Mark::Cursor(0);
    let obj = TextObject {
        kind: Kind::Line(Anchor::Start),
        offset: Offset::Absolute(2),
    };

    buffer.set_mark_to_object(mark, obj);

    assert_eq!(buffer.mark_position(mark).unwrap(), MarkPosition::from((18, 18, 1)));
    assert_eq!(buffer.get_mark_display_coords(mark).unwrap(), (0, 1));
}

#[test]
fn move_mark_second_char_in_buffer() {
    let mut buffer = setup_buffer("Some test content\nwith new\nlines!");
    let mark = Mark::Cursor(0);
    let obj = TextObject {
        kind: Kind::Char,
        offset: Offset::Absolute(2),
    };

    buffer.set_mark(mark, 18);
    buffer.set_mark_to_object(mark, obj);

    assert_eq!(buffer.mark_position(mark).unwrap(), MarkPosition::from((2, 0, 0)));
    assert_eq!(buffer.get_mark_display_coords(mark).unwrap(), (2, 0));
}

#[test]
fn move_mark_end_of_line() {
    let mut buffer = setup_buffer("Some test content\nwith new\nlines!");
    let mark = Mark::Cursor(0);
    let obj = TextObject {
        kind: Kind::Line(Anchor::End),
        offset: Offset::Forward(0, mark),
    };

    buffer.set_mark(mark, 19);
    buffer.set_mark_to_object(mark, obj);

    assert_eq!(buffer.mark_position(mark).unwrap(), MarkPosition::from((26, 18, 1)));
    assert_eq!(buffer.get_mark_display_coords(mark).unwrap(), (8, 1));
}

#[test]
fn move_mark_start_of_line() {
    let mut buffer = setup_buffer("Some test content\nwith new\nlines!");
    let mark = Mark::Cursor(0);
    let obj = TextObject {
        kind: Kind::Line(Anchor::Start),
        offset: Offset::Backward(0, mark),
    };

    buffer.set_mark(mark, 19);
    buffer.set_mark_to_object(mark, obj);

    assert_eq!(buffer.mark_position(mark).unwrap(), MarkPosition::from((18, 18, 1)));
    assert_eq!(buffer.get_mark_display_coords(mark).unwrap(), (0, 1));
}

#[test]
fn move_mark_past_last_line() {
    let mut buffer = setup_buffer("Some test content\n");
    let mark = Mark::Cursor(0);
    let obj = TextObject {
        kind: Kind::Line(Anchor::Same),
        offset: Offset::Forward(6, mark),
    };

    buffer.set_mark_to_object(mark, obj);

    assert_eq!(buffer.mark_position(mark).unwrap(), MarkPosition::from((18, 18, 1)));
    assert_eq!(buffer.get_mark_display_coords(mark).unwrap(), (0, 1));
}

#[test]
fn move_mark_line_up_middle_of_file() {
    let mut buffer = setup_buffer("Some\ntest\ncontent");
    let mark = Mark::Cursor(0);
    let obj = TextObject {
        kind: Kind::Line(Anchor::Same),
        offset: Offset::Backward(1, mark),
    };

    buffer.set_mark(mark, 10);
    buffer.set_mark_to_object(mark, obj);

    assert_eq!(buffer.mark_position(mark).unwrap(), MarkPosition::from((5, 5, 1)));
    assert_eq!(buffer.get_mark_display_coords(mark).unwrap(), (0, 1));
}

#[test]
fn move_mark_line_up_past_first_line() {
    let mut buffer = setup_buffer("Some\ntest\ncontent");
    let mark = Mark::Cursor(0);
    let obj = TextObject {
        kind: Kind::Line(Anchor::Same),
        offset: Offset::Backward(1, mark),
    };

    buffer.set_mark_to_object(mark, obj);

    assert_eq!(buffer.mark_position(mark).unwrap(), MarkPosition::from((0, 0, 0)));
    assert_eq!(buffer.get_mark_display_coords(mark).unwrap(), (0, 0));
}

#[test]
fn test_insert() {
    let mut buffer = setup_buffer("");
    buffer.insert_char(Mark::Cursor(0), b'A');
    assert_eq!(buffer.len(), 2);
    assert_eq!(buffer.lines().next().unwrap(), [b'A']);
}

#[test]
fn test_remove() {
    let mut buffer = setup_buffer("ABCD");
    let mark = Mark::Cursor(0);
    let obj = TextObject {
        kind: Kind::Char,
        offset: Offset::Forward(1, mark)
    };
    buffer.remove_from_mark_to_object(mark, obj);

    assert_eq!(buffer.len(), 4);
    assert_eq!(buffer.lines().next().unwrap(), [b'B', b'C', b'D']);
}

#[test]
fn test_set_mark() {
    let mut buffer = setup_buffer("Test");
    buffer.set_mark(Mark::Cursor(0), 2);

    assert_eq!(buffer.get_mark_idx(Mark::Cursor(0)).unwrap(), 2);
    assert_eq!(buffer.mark_position(Mark::Cursor(0)).unwrap().absolute, 2);
}

#[test]
fn test_to_lines() {
    let buffer = setup_buffer("Test\nA\nTest");
    let mut lines = buffer.lines();

    assert_eq!(lines.next().unwrap(), [b'T',b'e',b's',b't',b'\n']);
    assert_eq!(lines.next().unwrap(), [b'A',b'\n']);
    assert_eq!(lines.next().unwrap(), [b'T',b'e',b's',b't']);
}

#[test]
fn test_to_lines_from() {
    let mut buffer = setup_buffer("Test\nA\nTest");
    buffer.set_mark(Mark::Cursor(0), 6);
    let mut lines = buffer.lines_from(Mark::Cursor(0)).unwrap();

    assert_eq!(lines.next().unwrap(), [b'\n']);
    assert_eq!(lines.next().unwrap(), [b'T',b'e',b's',b't']);
}

#[test]
fn test_line_down() {
    let mut buffer = setup_buffer("Some\ntest\ncontent");
    let mark = Mark::Cursor(0);
    let obj = TextObject {
        kind: Kind::Line(Anchor::Same),
        offset: Offset::Forward(1, mark),
    };

    buffer.set_mark_to_object(mark, obj);

    assert_eq!(buffer.mark_position(mark).unwrap(), MarkPosition::from((5, 5, 1)));
    assert_eq!(buffer.get_mark_display_coords(mark).unwrap(), (0, 1));

    let obj = TextObject {
        kind: Kind::Char,
        offset: Offset::Forward(1, mark),
    };

    buffer.set_mark_to_object(mark, obj);

    assert_eq!(buffer.mark_position(mark).unwrap(), MarkPosition::from((6, 5, 1)));
    assert_eq!(buffer.get_mark_display_coords(mark).unwrap(), (1, 1));
}

#[test]
fn test_get_line_info() {
    let mut buffer = setup_buffer("Test\nA\nTest");
    buffer.set_mark(Mark::Cursor(0), 10);
    let mut text = GapBuffer::new();
    text.extend("Test\nA\nTest".bytes());

    let mark_pos = MarkPosition::from((10, 7, 2));

    assert_eq!(mark_pos, get_line_info(10, &text).unwrap());
}

#[test]
fn get_move_word_forward_emtpy_buffer() {
    let mut buffer = setup_buffer("");
    let mark = Mark::Cursor(0);
    buffer.set_mark(Mark::Cursor(0), 0);

    let obj = TextObject {
        kind: Kind::Word(Anchor::Start),
        offset: Offset::Forward(1, mark),
    };

    buffer.set_mark_to_object(mark, obj);

    assert_eq!(buffer.mark_position(mark).unwrap(), MarkPosition::from((0, 0, 0)));
    assert_eq!(buffer.get_mark_display_coords(mark).unwrap(), (0, 0));
}

#[test]
fn buffer_text_bytes_give_the_text_back() {
    let text = "héllo\nwörld";
    let buffer = Buffer::from_bytes(text.as_bytes());
    assert_eq!(buffer.text_bytes(), text.as_bytes().to_vec());
    assert_eq!(Buffer::new().text_bytes(), Vec::<u8>::new());
}

#[test]
fn undo_after_insert_char_restores_the_text() {
    let mut buffer = setup_buffer("abc");
    buffer.set_mark(Mark::Cursor(0), 1);
    buffer.insert_char(Mark::Cursor(0), b'X');
    assert_eq!(buffer.text_bytes(), b"aXbc".to_vec());
    let entry = buffer.undo().unwrap();
    assert!(matches!(entry.changes.as_slice(), [Change::Remove(1, 'X')]));
    assert_eq!(buffer.text_bytes(), b"abc".to_vec());
    assert!(buffer.redo().is_some());
    assert_eq!(buffer.text_bytes(), b"aXbc".to_vec());
}
