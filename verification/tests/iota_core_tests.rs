use rdit::iota::api::{rpc_method, unknown_command, Response, RpcMethod};
use rdit::iota::editor::{command_for, EditorError};
use rdit::iota::command::{Action, BuilderArgs, Instruction, Operation};
use rdit::iota::keyboard::Key;
use rdit::iota::keymap::CommandInfo;
use rdit::iota::log::{Change, Log};
use rdit::iota::overlay::{CommandPrompt, Overlay};
use rdit::iota::command::BuilderEvent;
use rdit::iota::server::{Interest, IotaClient, ReadOutcome, WriteOutcome};
use rdit::iota::textobject::{Anchor, Kind, Offset};
use rdit::iota::buffer::Mark;
use rdit::iota::utils::{char_width, data_from_str, push_decimal, rgb_to_short, str_width, try_rgb_to_short};

#[test]
fn rgb_to_short_picks_the_nearest_cube_entry() {
    assert_eq!(rgb_to_short("000000"), 16);
    assert_eq!(rgb_to_short("ff0000"), 196);
    assert_eq!(rgb_to_short("ffffff"), 231);
    assert_eq!(rgb_to_short("5f87af"), 67);
    assert_eq!(rgb_to_short("d7af87"), 180);
    // 0x2f is nearer 0x00, 0x30 nearer 0x5f
    assert_eq!(rgb_to_short("2f0000"), 16);
    assert_eq!(rgb_to_short("300000"), 52);
}

#[test]
fn try_rgb_to_short_refuses_what_is_no_colour() {
    assert_eq!(try_rgb_to_short("00005f"), Some(17));
    assert_eq!(try_rgb_to_short("zz0000"), None);
    assert_eq!(try_rgb_to_short("abc"), None);
}

#[test]
fn char_widths() {
    assert_eq!(char_width('a', false, 4, 0), Some(1));
    assert_eq!(char_width('\t', false, 4, 1), Some(3));
    assert_eq!(char_width('\t', false, 4, 4), Some(4));
    assert_eq!(char_width('\n', false, 4, 0), Some(1));
    assert_eq!(char_width('中', false, 4, 0), Some(2));
    assert_eq!(char_width('\x07', false, 4, 0), None);
}

#[test]
fn str_width_lays_out_tabs() {
    let s = data_from_str("a\tb");
    assert_eq!(str_width(&s, false, 4), 5);
    assert_eq!(str_width(&[], false, 4), 0);
}

#[test]
fn data_from_str_and_decimals() {
    assert_eq!(data_from_str("héllo"), vec!['h', 'é', 'l', 'l', 'o']);
    let mut s = String::from("x");
    push_decimal(&mut s, 1203);
    assert_eq!(s, "x1203");
    let mut z = String::new();
    push_decimal(&mut z, 0);
    assert_eq!(z, "0");
}

#[test]
fn log_undo_then_redo() {
    let mut log = Log::new();
    let mut t = log.start(0);
    t.log(Change::Insert(0, 'a'), 1);
    t.log(Change::Insert(1, 'b'), 2);
    t.commit(&mut log);

    let undone = log.undo().unwrap();
    assert_eq!(undone.init_point(), 2);
    assert_eq!(undone.end_point(), 0);
    assert_eq!(undone.num_changes(), 2);
    assert_eq!(undone.change(0), Change::Remove(1, 'b'));
    assert_eq!(undone.change(1), Change::Remove(0, 'a'));
    assert!(log.undo().is_none());

    let redone = log.redo().unwrap();
    assert_eq!(redone.init_point(), 0);
    assert_eq!(redone.end_point(), 2);
    assert_eq!(redone.change(0), Change::Insert(0, 'a'));
    assert_eq!(redone.change(1), Change::Insert(1, 'b'));
    assert!(log.redo().is_none());
}

#[test]
fn empty_transaction_leaves_the_log() {
    let mut log = Log::new();
    let t = log.start(3);
    t.commit(&mut log);
    assert!(log.undo().is_none());
}

#[test]
fn new_commit_clears_redo() {
    let mut log = Log::new();
    let mut t = log.start(0);
    t.log(Change::Insert(0, 'a'), 1);
    t.commit(&mut log);
    let _ = log.undo();
    let mut t2 = log.start(0);
    t2.log(Change::Remove(0, 'q'), 0);
    t2.commit(&mut log);
    assert!(log.redo().is_none());
}

#[test]
fn change_reverse_twice_is_identity() {
    let c = Change::Insert(4, 'x');
    assert_eq!(c.reverse(), Change::Remove(4, 'x'));
    assert_eq!(c.reverse().reverse(), c);
}

#[test]
fn rpc_methods() {
    assert_eq!(rpc_method("create_buffer"), Some(RpcMethod::CreateBuffer));
    assert_eq!(rpc_method("list_workspaces"), Some(RpcMethod::ListWorkspaces));
    assert_eq!(rpc_method("create"), None);
    assert!(matches!(unknown_command(), Response::Error("Unknown command")));
}

#[test]
fn client_connection_round() {
    let mut c = IotaClient::new();
    assert_eq!(c.interest, Interest { readable: true, writable: false });
    c.read(ReadOutcome::WouldBlock);
    assert_eq!(c.read_bytes(b"{not json"), None);
    assert_eq!(c.interest, Interest { readable: true, writable: false });
    assert_eq!(
        c.read_bytes(br#"{"command": "create_buffer", "args": {"path": "a.txt"}}"#),
        Some(("create_buffer".to_string(), Some("a.txt".to_string())))
    );
    assert_eq!(c.interest, Interest { readable: false, writable: true });
    c.result = Some(Response::Empty);
    c.write(WriteOutcome::WouldBlock);
    assert_eq!(c.interest, Interest { readable: false, writable: true });
    c.write(WriteOutcome::Wrote(0));
    assert_eq!(c.interest, Interest { readable: false, writable: true });
    c.write(WriteOutcome::Wrote(12));
    assert_eq!(c.interest, Interest { readable: true, writable: false });
    assert!(!c.finished());
    c.read(ReadOutcome::Closed);
    assert!(c.finished());
}

#[test]
fn client_reads_requests_from_json_bytes() {
    let mut c = IotaClient::new();
    assert_eq!(
        c.read_bytes(br#"{"command": "list_workspaces", "args": []}"#),
        Some(("list_workspaces".to_string(), None))
    );
    assert_eq!(c.interest, Interest { readable: false, writable: true });
    let mut c = IotaClient::new();
    assert_eq!(c.read_bytes(br#"{"command": "list_workspaces"}"#), None);
    assert_eq!(c.interest, Interest { readable: false, writable: true });
    assert_eq!(c.read_bytes(br#"{"command": 3, "args": {}}"#), None);
    assert_eq!(c.read_bytes(br#"["command", "args"]"#), None);
    assert_eq!(
        c.read_bytes(br#"{"args": {"path": 7}, "command": "x"}"#),
        Some(("x".to_string(), None))
    );
}

fn info(name: &str, args: Option<BuilderArgs>) -> CommandInfo {
    CommandInfo { command_name: name.to_string(), args }
}

#[test]
fn command_names_build_commands() {
    let quit = command_for(&info("editor::quit", None)).ok().unwrap();
    assert!(matches!(quit.action, Action::Instruction(Instruction::ExitEditor)));
    let tab = command_for(&info("buffer::insert_tab", None)).ok().unwrap();
    assert_eq!(tab.number, 4);
    assert!(matches!(tab.action, Action::Operation(Operation::Insert(' '))));
    let undo = command_for(&info("editor::undo", None)).ok().unwrap();
    assert!(matches!(undo.action, Action::Operation(Operation::Undo)));
    let args = BuilderArgs::new()
        .with_kind(Kind::Line(Anchor::Same))
        .with_offset(Offset::Forward(1, Mark::Cursor(0)))
        .with_number(3);
    let mv = command_for(&info("buffer::move_cursor", Some(args))).ok().unwrap();
    assert_eq!(mv.number, 3);
    assert!(matches!(mv.action, Action::Instruction(Instruction::SetMark(Mark::Cursor(0)))));
}

#[test]
fn command_errors() {
    match command_for(&info("editor::fly", None)) {
        Err(EditorError::UnknownCommand(n)) => assert_eq!(n, "editor::fly"),
        _ => panic!("expected an unknown command"),
    }
    match command_for(&info("buffer::insert_char", None)) {
        Err(EditorError::MissingArguments(n)) => assert_eq!(n, "buffer::insert_char"),
        _ => panic!("expected missing arguments"),
    }
    match command_for(&info("buffer::move_cursor", Some(BuilderArgs::new()))) {
        Err(EditorError::MissingArguments(_)) => {}
        _ => panic!("expected missing arguments"),
    }
}

#[test]
fn prompt_completes_and_chooses_commands() {
    let mut p = CommandPrompt::new();
    let names = p.get_filtered_command_names();
    assert_eq!(names, vec!["write".to_string(), "quit".to_string()]);
    assert!(matches!(p.handle_key_event(Key::Char('q')), BuilderEvent::Incomplete));
    assert_eq!(p.data, "q");
    assert_eq!(p.cursor_x, 2);
    assert_eq!(p.get_filtered_command_names(), vec!["quit".to_string()]);
    // nothing is named "q": Enter waits
    assert!(matches!(p.handle_key_event(Key::Enter), BuilderEvent::Incomplete));
    assert!(matches!(p.handle_key_event(Key::Up), BuilderEvent::Incomplete));
    assert_eq!(p.selected_index, 1);
    assert!(matches!(p.handle_key_event(Key::Tab), BuilderEvent::Incomplete));
    assert_eq!(p.data, "quit");
    match p.handle_key_event(Key::Enter) {
        BuilderEvent::Complete(c) => assert_eq!(c.command_name, "editor::quit"),
        _ => panic!("expected a command"),
    }
}

#[test]
fn prompt_backspace_and_escape() {
    let mut p = CommandPrompt::new();
    let _ = p.handle_key_event(Key::Char('w'));
    let _ = p.handle_key_event(Key::Backspace);
    assert_eq!(p.data, "");
    assert_eq!(p.cursor_x, 1);
    let _ = p.handle_key_event(Key::Backspace);
    assert_eq!(p.data, "");
    match p.handle_key_event(Key::Esc) {
        BuilderEvent::Complete(c) => assert_eq!(c.command_name, "editor::noop"),
        _ => panic!("expected a command"),
    }
}

use rdit::iota::api::ServerApi;
use rdit::iota::buffer::Buffer;

#[test]
fn server_api_creates_buffers_in_the_default_workspace() {
    let mut api = ServerApi::new();
    let listed = api.list_workspaces();
    assert_eq!(listed.len(), 1);
    assert_eq!(listed[0].0, "default");
    assert!(listed[0].1.is_empty());

    assert!(matches!(api.create_buffer(None), Response::Error("Could not create buffer")));
    let mut b = Buffer::from_bytes(b"text");
    b.file_path = Some("notes.txt".to_string());
    assert!(matches!(api.create_buffer(Some(b)), Response::Empty));
    assert!(matches!(api.create_buffer(Some(Buffer::new())), Response::Empty));

    let listed = api.list_workspaces();
    assert_eq!(listed[0].1.len(), 2);
    let mut paths: Vec<Option<String>> = listed[0].1.iter().map(|(_, p)| p.clone()).collect();
    paths.sort();
    assert_eq!(paths, vec![None, Some("notes.txt".to_string())]);
    assert_ne!(listed[0].1[0].0, listed[0].1[1].0);
    assert!(api.workspaces[0].buffers.contains_key(&listed[0].1[0].0));
}

#[test]
fn server_api_without_a_default_workspace_refuses() {
    let mut api = ServerApi::new();
    api.workspaces[0].name = "other".to_string();
    assert!(matches!(api.create_buffer(Some(Buffer::new())), Response::Error("No workspace with that name")));
}
