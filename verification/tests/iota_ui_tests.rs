use rdit::iota::buffer::Buffer;
use rdit::iota::uibuf::{CharColor, UIBuffer};
use rdit::iota::view::View;

fn setup_uibuf() -> UIBuffer {
    UIBuffer::new(50, 50)
}

#[test]
fn grid_is_created_correctly() {
    let uibuf = setup_uibuf();
    assert_eq!(uibuf.height, 50);
    assert_eq!(uibuf.width, 50);
    assert_eq!(uibuf.rows.len(), 50);
    assert_eq!(uibuf.rows[0][5].ch, ' ');
}

#[test]
fn fill_updates_contents_of_all_cells() {
    let mut uibuf = setup_uibuf();
    uibuf.fill('x');

    // check some random cells
    assert_eq!(uibuf.rows[20][5].ch, 'x');
    assert_eq!(uibuf.rows[0][30].ch, 'x');
}

#[test]
fn update_cell_content_updates_a_single_cell() {
    let mut uibuf = setup_uibuf();
    // update cell 10 in row 32
    uibuf.update_cell_content(10, 32, 'y');

    assert_eq!(uibuf.rows[32][10].ch, 'y');
}

#[test]
fn update_cell_updates_all_attrs_of_cell() {
    let mut uibuf = setup_uibuf();
    let cell_num = 10;
    let row_num = 0;
    let ch = 'q';
    let fg = CharColor::White;
    let bg = CharColor::Blue;

    uibuf.update_cell(cell_num, row_num, ch, fg, bg);

    let cell = &uibuf.rows[row_num][cell_num];
    assert_eq!(cell.ch, ch);
    assert_eq!(cell.fg, fg);
    assert_eq!(cell.bg, bg);
}

fn setup_view(testcase: &'static str) -> View {
    let buffer = Buffer::new();
    let mut view = View::new(buffer, 50, 50);
    for ch in testcase.chars() {
        view.insert_char(ch);
    }
    let cursor = view.cursor;
    view.buffer.set_mark(cursor, 0);
    view
}

#[test]
fn view_test_insert_char() {
    let mut view = setup_view("test\nsecond");
    view.insert_char('t');

    assert_eq!(view.buffer.lines().next().unwrap(), b"ttest\n");
}

#[test]
fn view_insert_char_moves_the_cursor_past_the_new_char() {
    let mut view = setup_view("ab");
    view.insert_char('x');
    assert_eq!(view.buffer.get_mark_idx(view.cursor), Some(1));
    assert_eq!(view.buffer.lines().next().unwrap(), b"xab");
}

use rdit::iota::frontends::{CharStyle, EditorEvent, Frontend, Screen};
use rdit::iota::overlay::{CommandPrompt, Overlay};
use rdit::iota::view::draw_line;

struct RecordingFrontend {
    drawn: Vec<(usize, usize, char)>,
    cursor: Option<(isize, isize)>,
}

impl Frontend for RecordingFrontend {
    fn poll_event(&self) -> EditorEvent {
        EditorEvent::UnSupported
    }
    fn present(&self) {}
    fn get_window_height(&self) -> usize {
        5
    }
    fn get_window_width(&self) -> usize {
        30
    }
    fn draw_cursor(&mut self, offset: isize, linenum: isize) {
        self.cursor = Some((offset, linenum));
    }
    fn draw_char(&mut self, offset: usize, linenum: usize, ch: char, _fg: CharColor, _bg: CharColor, _style: CharStyle) {
        self.drawn.push((offset, linenum, ch));
    }
}

fn row_string(uibuf: &UIBuffer, y: usize) -> String {
    uibuf.rows[y].iter().map(|c| c.ch).collect()
}

#[test]
fn draw_line_lays_out_tabs_and_marks_long_lines() {
    let mut buf = UIBuffer::new(6, 2);
    draw_line(&mut buf, b"a\tbcdefg", 0, 0);
    assert_eq!(row_string(&buf, 0), "a   b\u{2192}");
    assert_eq!(row_string(&buf, 1), "      ");
    draw_line(&mut buf, b"xy\n", 1, 0);
    assert_eq!(row_string(&buf, 1), "xy    ");
    draw_line(&mut buf, b"hello", 1, 3);
    assert_eq!(row_string(&buf, 1), "lo    ");
}

#[test]
fn prompt_draws_its_completion_box() {
    let mut buf = UIBuffer::new(30, 5);
    let prompt = CommandPrompt::new();
    prompt.draw(&mut buf);
    assert_eq!(row_string(&buf, 4), ":                             ");
    let write_row = row_string(&buf, 3);
    assert!(write_row.starts_with("\u{2502}write"));
    assert_eq!(buf.rows[3][21].ch, '\u{2502}');
    assert_eq!(buf.rows[2][1].ch, 'q');
    assert_eq!(buf.rows[1][0].ch, '\u{256d}');
    assert_eq!(buf.rows[1][20].ch, '\u{2500}');
    assert_eq!(buf.rows[1][21].ch, '\u{256e}');
    assert_eq!(buf.rows[0][0].ch, ' ');
}

#[test]
fn view_draws_the_status_line() {
    let mut view = View::new(Buffer::new(), 30, 5);
    let mut screen = Screen::new(RecordingFrontend { drawn: Vec::new(), cursor: None });
    view.draw(&mut screen);
    assert!(row_string(&view.uibuf, 3).starts_with("untitled  (1, 1)"));
    assert_eq!(view.uibuf.rows[3][0].bg, CharColor::Blue);
    assert!(view.uibuf.rows.iter().all(|r| r.iter().all(|c| !c.dirty)));
    assert_eq!(screen.frontend.cursor, Some((0, 0)));
    // every cell of the fresh grid was waiting to be drawn
    assert_eq!(screen.frontend.drawn.len(), 30 * 5);
}

#[test]
fn status_bar_is_written_black_on_blue() {
    let mut buf = UIBuffer::new(8, 3);
    buf.draw_status_bar(&['a', 'b'], 2, 1, 5);
    assert_eq!(row_string(&buf, 1), "ab      ");
    assert_eq!(buf.rows[1][0].bg, CharColor::Blue);
    assert_eq!(buf.rows[1][4].bg, CharColor::Blue);
    assert_eq!(buf.rows[1][5].bg, CharColor::Black);
}

#[test]
fn view_draws_the_lines_of_its_buffer() {
    let mut view = View::new(Buffer::from_bytes(b"ab\ncd"), 10, 5);
    let mut screen = Screen::new(RecordingFrontend { drawn: Vec::new(), cursor: None });
    view.draw(&mut screen);
    assert_eq!(row_string(&view.uibuf, 0), "ab        ");
    assert_eq!(row_string(&view.uibuf, 1), "cd        ");
    assert_eq!(row_string(&view.uibuf, 2), "          ");
    // the status line is cut at the edge of the screen
    assert_eq!(row_string(&view.uibuf, 3), "untitled  ");
}

use rdit::iota::editor::{Editor, EditorEffect, EditorMode};
use rdit::iota::keyboard::Key;
use rdit::iota::modes::{NormalMode, StandardMode};

fn first_line(editor: &Editor) -> Vec<u8> {
    editor.view.buffer.lines().next().unwrap()
}

#[test]
fn editor_types_chars_and_undoes_them() {
    let mut editor = Editor::new(Buffer::new(), EditorMode::Standard(StandardMode::new()), 20, 6);
    let mut screen = Screen::new(RecordingFrontend { drawn: Vec::new(), cursor: None });
    assert!(editor.handle_key_event(Key::Char('h'), &mut screen).is_ok());
    assert!(editor.handle_key_event(Key::Char('i'), &mut screen).is_ok());
    assert_eq!(editor.command_queue.len(), 2);
    while let Some(r) = editor.handle_next_command(&mut screen) {
        assert!(matches!(r, Ok(EditorEffect::Done)));
    }
    assert_eq!(first_line(&editor), b"hi");
    assert!(editor.handle_key_event(Key::Ctrl('z'), &mut screen).is_ok());
    let _ = editor.handle_next_command(&mut screen);
    assert_eq!(first_line(&editor), b"h");
    assert!(editor.handle_key_event(Key::Ctrl('r'), &mut screen).is_ok());
    let _ = editor.handle_next_command(&mut screen);
    assert_eq!(first_line(&editor), b"hi");
}

#[test]
fn editor_quits_only_without_unsaved_changes() {
    let mut editor = Editor::new(Buffer::new(), EditorMode::Standard(StandardMode::new()), 20, 6);
    let mut screen = Screen::new(RecordingFrontend { drawn: Vec::new(), cursor: None });
    let _ = editor.handle_key_event(Key::Ctrl('q'), &mut screen);
    let _ = editor.handle_key_event(Key::Ctrl('c'), &mut screen);
    let _ = editor.handle_next_command(&mut screen);
    assert!(!editor.running);

    let mut editor = Editor::new(Buffer::new(), EditorMode::Standard(StandardMode::new()), 20, 6);
    let _ = editor.handle_key_event(Key::Char('a'), &mut screen);
    let _ = editor.handle_key_event(Key::Ctrl('q'), &mut screen);
    let _ = editor.handle_key_event(Key::Ctrl('c'), &mut screen);
    while editor.handle_next_command(&mut screen).is_some() {}
    assert!(editor.running);
    assert_eq!(editor.message.as_deref(), Some("Unsaved changes"));
}

#[test]
fn editor_save_asks_for_a_write_only_with_a_file() {
    let mut editor = Editor::new(Buffer::new(), EditorMode::Standard(StandardMode::new()), 20, 6);
    let mut screen = Screen::new(RecordingFrontend { drawn: Vec::new(), cursor: None });
    let _ = editor.handle_key_event(Key::Ctrl('s'), &mut screen);
    assert!(matches!(editor.handle_next_command(&mut screen), Some(Ok(EditorEffect::Done))));
    editor.view.buffer.file_path = Some("out.txt".to_string());
    let _ = editor.handle_key_event(Key::Ctrl('s'), &mut screen);
    assert!(matches!(editor.handle_next_command(&mut screen), Some(Ok(EditorEffect::SaveBuffer))));
}

#[test]
fn normal_mode_moves_and_opens_the_prompt() {
    let mut editor = Editor::new(
        Buffer::from_bytes(b"one\ntwo\nthree"),
        EditorMode::Normal(NormalMode::new()),
        20,
        6,
    );
    let mut screen = Screen::new(RecordingFrontend { drawn: Vec::new(), cursor: None });
    let _ = editor.handle_key_event(Key::Char('2'), &mut screen);
    let _ = editor.handle_key_event(Key::Char('j'), &mut screen);
    while editor.handle_next_command(&mut screen).is_some() {}
    assert_eq!(editor.view.buffer.get_mark_display_coords(editor.view.cursor), Some((0, 2)));
    let _ = editor.handle_key_event(Key::Char('i'), &mut screen);
    while editor.handle_next_command(&mut screen).is_some() {}
    assert!(editor.view.overlay.is_some());
    // the prompt takes the keys now: typing `quit` and Enter leaves
    for c in "quit".chars() {
        let _ = editor.handle_key_event(Key::Char(c), &mut screen);
    }
    let _ = editor.handle_key_event(Key::Enter, &mut screen);
    assert!(editor.view.overlay.is_none());
    while editor.handle_next_command(&mut screen).is_some() {}
    assert!(!editor.running);
}

#[test]
fn tab_types_its_four_spaces_once_per_repeat() {
    let mut editor = Editor::new(Buffer::new(), EditorMode::Standard(StandardMode::new()), 40, 6);
    let mut screen = Screen::new(RecordingFrontend { drawn: Vec::new(), cursor: None });
    let _ = editor.handle_key_event(Key::Tab, &mut screen);
    while editor.handle_next_command(&mut screen).is_some() {}
    // the command's number (4) both repeats the command and the insertion
    assert_eq!(first_line(&editor), vec![b' '; 16]);
    assert_eq!(editor.view.buffer.get_mark_idx(editor.view.cursor), Some(16));
}

#[test]
fn backspace_deletes_before_the_cursor_and_typing_goes_on() {
    let mut editor = Editor::new(Buffer::new(), EditorMode::Standard(StandardMode::new()), 20, 6);
    let mut screen = Screen::new(RecordingFrontend { drawn: Vec::new(), cursor: None });
    for c in "abc".chars() {
        let _ = editor.handle_key_event(Key::Char(c), &mut screen);
    }
    let _ = editor.handle_key_event(Key::Left, &mut screen);
    let _ = editor.handle_key_event(Key::Backspace, &mut screen);
    while let Some(r) = editor.handle_next_command(&mut screen) {
        assert!(r.is_ok());
    }
    // Backspace is bound last to the forward deletion
    assert_eq!(first_line(&editor), b"ab");
    let mut emacs = Editor::new(Buffer::new(), EditorMode::Emacs(rdit::iota::modes::EmacsMode::new()), 20, 6);
    for c in "abc".chars() {
        let _ = emacs.handle_key_event(Key::Char(c), &mut screen);
    }
    let _ = emacs.handle_key_event(Key::Backspace, &mut screen);
    let _ = emacs.handle_key_event(Key::Char('d'), &mut screen);
    while let Some(r) = emacs.handle_next_command(&mut screen) {
        assert!(r.is_ok());
    }
    assert_eq!(first_line(&emacs), b"abd");
}

#[test]
fn prompt_places_the_cursor_after_what_was_typed() {
    let mut prompt = CommandPrompt::new();
    let _ = prompt.handle_key_event(Key::Char('w'));
    let mut screen = Screen::new(RecordingFrontend { drawn: Vec::new(), cursor: None });
    prompt.draw_cursor(&mut screen);
    // the recording frontend's window is 5 lines high
    assert_eq!(screen.frontend.cursor, Some((2, 4)));
    assert!(screen.frontend.drawn.is_empty());
}

use rdit::iota::command::{Action, Command, Instruction, Operation};
use rdit::iota::textobject::{Kind, Offset, TextObject};

#[test]
fn editor_queues_the_command_of_a_bound_key() {
    let mut editor = Editor::new(Buffer::new(), EditorMode::Standard(StandardMode::new()), 20, 6);
    let mut screen = Screen::new(RecordingFrontend { drawn: Vec::new(), cursor: None });
    assert!(editor.handle_key_event(Key::Ctrl('s'), &mut screen).is_ok());
    assert!(editor.handle_key_event(Key::Left, &mut screen).is_ok());
    assert!(editor.handle_key_event(Key::Ctrl('q'), &mut screen).is_ok());
    assert_eq!(editor.command_queue.len(), 2);
    assert!(matches!(editor.command_queue[0].action, Action::Instruction(Instruction::SaveBuffer)));
    assert!(matches!(editor.command_queue[1].action, Action::Instruction(Instruction::SetMark(_))));
}

#[test]
fn editor_switches_to_the_last_buffer_and_deletes_objects() {
    let mut editor = Editor::new(Buffer::from_bytes(b"one"), EditorMode::Standard(StandardMode::new()), 20, 6);
    let mut screen = Screen::new(RecordingFrontend { drawn: Vec::new(), cursor: None });
    editor.view.set_buffer(Buffer::from_bytes(b"two words"));
    assert_eq!(first_line(&editor), b"two words");
    let switch = Command { number: 0, action: Action::Instruction(Instruction::SwitchToLastBuffer), object: None };
    assert!(editor.handle_command(switch, &mut screen).is_ok());
    assert_eq!(first_line(&editor), b"one");
    let switch = Command { number: 0, action: Action::Instruction(Instruction::SwitchToLastBuffer), object: None };
    assert!(editor.handle_command(switch, &mut screen).is_ok());
    assert_eq!(first_line(&editor), b"two words");
    let switch = Command { number: 3, action: Action::Instruction(Instruction::SwitchToLastBuffer), object: None };
    assert!(editor.handle_command(switch, &mut screen).is_ok());
    assert_eq!(first_line(&editor), b"one");
    let cursor = editor.view.cursor;
    let typing = Command { number: 2, action: Action::Operation(Operation::Insert('x')), object: None };
    assert!(editor.handle_command(typing, &mut screen).is_ok());
    assert_eq!(first_line(&editor), b"xxxxone");
    let undo = Command { number: 2, action: Action::Operation(Operation::Undo), object: None };
    assert!(editor.handle_command(undo, &mut screen).is_ok());
    assert_eq!(first_line(&editor), b"xxone");
    let delete = Command {
        number: 1,
        action: Action::Operation(Operation::DeleteFromMark(cursor)),
        object: Some(TextObject { kind: Kind::Char, offset: Offset::Forward(2, cursor) }),
    };
    assert!(editor.handle_command(delete, &mut screen).is_ok());
    assert_eq!(first_line(&editor).len(), 3);
}
