use rdit::iota::chained_command::ChainedCmdBuilder;
use rdit::iota::command::{Action, BuilderArgs, BuilderEvent, Instruction, Operation};
use rdit::iota::keyboard::Key;
use rdit::iota::keymap::{CommandInfo, KeyMap, KeyMapState};
use rdit::iota::modes::{EmacsMode, InsertMode, Mode, ModeType, NormalMode, StandardMode};
use rdit::iota::textobject::{Anchor, Kind, Offset, TextObject};
use rdit::iota::buffer::Mark;

fn info(name: &str) -> CommandInfo {
    CommandInfo { command_name: name.to_string(), args: None }
}

#[test]
fn chained_write_then_quit() {
    let mut b = ChainedCmdBuilder::new();
    let cmds = b.parse("wq");
    assert_eq!(cmds.len(), 2);
    assert!(matches!(cmds[0].action, Action::Instruction(Instruction::SaveBuffer)));
    assert!(matches!(cmds[1].action, Action::Instruction(Instruction::ExitEditor)));
    assert_eq!((cmds[0].number, cmds[1].number), (0, 0));
    assert_eq!((cmds[0].object, cmds[1].object), (None, None));
}

#[test]
fn chained_line_number_moves_to_line_start() {
    let mut b = ChainedCmdBuilder::new();
    let cmds = b.parse("42");
    assert_eq!(cmds.len(), 1);
    assert_eq!(cmds[0].number, 1);
    assert!(matches!(cmds[0].action, Action::Instruction(Instruction::SetMark(Mark::Cursor(0)))));
    assert_eq!(
        cmds[0].object,
        Some(TextObject { kind: Kind::Line(Anchor::Start), offset: Offset::Absolute(42) })
    );
}

#[test]
fn chained_write_with_line_argument() {
    let mut b = ChainedCmdBuilder::new();
    let cmds = b.parse("w 12");
    assert_eq!(cmds.len(), 2);
    assert_eq!(
        cmds[0].object,
        Some(TextObject { kind: Kind::Line(Anchor::Start), offset: Offset::Absolute(12) })
    );
    assert!(matches!(cmds[1].action, Action::Instruction(Instruction::SaveBuffer)));
}

#[test]
fn chained_long_quit_with_trailing_space() {
    let mut b = ChainedCmdBuilder::new();
    let cmds = b.parse("quit ");
    assert_eq!(cmds.len(), 1);
    assert!(matches!(cmds[0].action, Action::Instruction(Instruction::ExitEditor)));
}

#[test]
fn chained_nothing_asked_gives_noop() {
    let mut b = ChainedCmdBuilder::new();
    let cmds = b.parse(" ");
    assert_eq!(cmds.len(), 1);
    assert!(matches!(cmds[0].action, Action::Instruction(Instruction::Nothing)));
    assert_eq!(cmds[0].number, 0);
    assert_eq!(cmds[0].object, None);
}

#[test]
fn special_codes_map_to_keys() {
    assert_eq!(Key::from_special_code(1), Some(Key::Ctrl('a')));
    assert_eq!(Key::from_special_code(9), Some(Key::Tab));
    assert_eq!(Key::from_special_code(13), Some(Key::Enter));
    assert_eq!(Key::from_special_code(27), Some(Key::Esc));
    assert_eq!(Key::from_special_code(32), Some(Key::Char(' ')));
    assert_eq!(Key::from_special_code(127), Some(Key::Backspace));
    assert_eq!(Key::from_special_code(65514), Some(Key::Right));
    assert_eq!(Key::from_special_code(65522), Some(Key::Delete));
    assert_eq!(Key::from_special_code(15), None);
    assert_eq!(Key::from_special_code(1000), None);
}

#[test]
fn escape_chords_map_to_ctrl_arrows() {
    let up = vec!['\x1b', '[', '1', ';', '5', 'A'];
    let left = vec!['\x1b', '[', '1', ';', '5', 'D'];
    let other = vec!['\x1b', '[', 'x'];
    assert_eq!(Key::from_chord_chars(&up, 0x1b), Some(Key::CtrlUp));
    assert_eq!(Key::from_chord_chars(&left, 0x1b), Some(Key::CtrlLeft));
    assert_eq!(Key::from_chord_chars(&other, 0x1b), Some(Key::Esc));
}

#[test]
fn event_parts_give_chars_and_special_keys() {
    let none: Vec<char> = Vec::new();
    assert_eq!(Key::from_event_parts(0, 'x' as u32, &none), Some(Key::Char('x')));
    assert_eq!(Key::from_event_parts(0, 0xD800, &none), None);
    assert_eq!(Key::from_event_parts(13, 0, &none), Some(Key::Enter));
}

#[test]
fn keymap_matches_a_two_key_binding() {
    let mut km = KeyMap::new();
    km.bind_keys(&[Key::Ctrl('x'), Key::Ctrl('c')], info("editor::exit"));
    assert!(matches!(km.check_key(Key::Ctrl('x')), KeyMapState::Continue));
    match km.check_key(Key::Ctrl('c')) {
        KeyMapState::Match(c) => assert_eq!(c.command_name, "editor::exit"),
        _ => panic!("expected a match"),
    }
    assert!(matches!(km.check_key(Key::Ctrl('c')), KeyMapState::NoMatch));
}

#[test]
fn keymap_rebinding_overwrites() {
    let mut km = KeyMap::new();
    km.bind_key(Key::Tab, info("first"));
    km.bind_key(Key::Tab, info("second"));
    match km.check_key(Key::Tab) {
        KeyMapState::Match(c) => assert_eq!(c.command_name, "second"),
        _ => panic!("expected a match"),
    }
}

#[test]
fn standard_mode_inserts_chars_and_quits_on_ctrl_q_ctrl_c() {
    let mut m = StandardMode::new();
    match m.handle_key_event(Key::Char('z')) {
        BuilderEvent::Complete(c) => {
            assert_eq!(c.command_name, "buffer::insert_char");
            assert_eq!(c.args.unwrap().char_args, Some('z'));
        }
        _ => panic!("expected a command"),
    }
    assert!(matches!(m.handle_key_event(Key::Ctrl('q')), BuilderEvent::Incomplete));
    match m.handle_key_event(Key::Ctrl('c')) {
        BuilderEvent::Complete(c) => assert_eq!(c.command_name, "editor::quit"),
        _ => panic!("expected a command"),
    }
    assert!(matches!(m.handle_key_event(Key::CtrlUp), BuilderEvent::Incomplete));
    assert!(matches!(m.handle_key_event(Key::Ctrl('c')), BuilderEvent::Incomplete));
}

#[test]
fn emacs_mode_arrows_move_their_way() {
    let mut m = EmacsMode::new();
    match m.handle_key_event(Key::Left) {
        BuilderEvent::Complete(c) => assert_eq!(c.command_name, "buffer::move_cursor_backward_char"),
        _ => panic!("expected a command"),
    }
    match m.handle_key_event(Key::Right) {
        BuilderEvent::Complete(c) => assert_eq!(c.command_name, "buffer::move_cursor_forward_char"),
        _ => panic!("expected a command"),
    }
    assert!(matches!(m.handle_key_event(Key::Ctrl('x')), BuilderEvent::Incomplete));
    match m.handle_key_event(Key::Ctrl('c')) {
        BuilderEvent::Complete(c) => assert_eq!(c.command_name, "editor::exit"),
        _ => panic!("expected a command"),
    }
}

#[test]
fn normal_mode_counts_are_carried_by_the_motion() {
    let mut m = NormalMode::new();
    assert!(m.accepts_key(Key::Char('3')));
    assert!(matches!(m.handle_key_event(Key::Char('3')), BuilderEvent::Incomplete));
    assert!(matches!(m.handle_key_event(Key::Char('0')), BuilderEvent::Incomplete));
    match m.handle_key_event(Key::Char('j')) {
        BuilderEvent::Complete(c) => {
            assert_eq!(c.command_name, "buffer::move_cursor");
            let a = c.args.unwrap();
            assert_eq!(a.number, Some(30));
            assert_eq!(a.kind, Some(Kind::Line(Anchor::Same)));
            assert_eq!(a.offset, Some(Offset::Forward(1, Mark::Cursor(0))));
        }
        _ => panic!("expected a command"),
    }
}

#[test]
fn normal_mode_i_opens_the_prompt() {
    let mut m = NormalMode::new();
    match m.handle_key_event(Key::Char('i')) {
        BuilderEvent::Complete(c) => assert_eq!(c.command_name, "editor::set_overlay"),
        _ => panic!("expected a command"),
    }
}

#[test]
fn insert_mode_escape_goes_to_normal() {
    let mut m = InsertMode::new();
    match m.handle_key_event(Key::Esc) {
        BuilderEvent::Complete(c) => {
            assert_eq!(c.command_name, "editor::set_mode");
            assert_eq!(c.args.unwrap().mode_args, Some(ModeType::Normal));
        }
        _ => panic!("expected a command"),
    }
    match m.handle_key_event(Key::Char('a')) {
        BuilderEvent::Complete(c) => assert_eq!(c.command_name, "buffer::insert_char"),
        _ => panic!("expected a command"),
    }
}

#[test]
fn emacs_mode_chords() {
    let mut m = EmacsMode::new();
    assert!(matches!(m.handle_key_event(Key::Ctrl('x')), BuilderEvent::Incomplete));
    match m.handle_key_event(Key::Ctrl('s')) {
        BuilderEvent::Complete(c) => assert_eq!(c.command_name, "editor::save_buffer"),
        _ => panic!("expected a command"),
    }
    match m.handle_key_event(Key::Ctrl('f')) {
        BuilderEvent::Complete(c) => assert_eq!(c.command_name, "buffer::move_cursor_forward_char"),
        _ => panic!("expected a command"),
    }
}

#[test]
fn builder_args_setters() {
    let a = BuilderArgs::new().with_char_arg('q').with_number(7).with_kind(Kind::Char);
    assert_eq!(a.char_args, Some('q'));
    assert_eq!(a.number, Some(7));
    assert_eq!(a.kind, Some(Kind::Char));
    assert_eq!(a.offset, None);
    let _ = Operation::Undo;
}
