//! The editor: it turns keys into commands through the current mode or the
//! open overlay, queues the commands, and carries them out on the view.

use vstd::prelude::*;
use vstd::view::View as _;

use super::buffer::{
    lemma_object_index_view, mark_key, object_index, removed_range, spec_line_info, Buffer, Mark,
    MarkPosition,
};
use super::command::{Action, BuilderArgs, BuilderEvent, Command, Instruction, Operation};
use super::frontends::{Frontend, Screen};
use super::keyboard::Key;
use super::keymap::CommandInfo;
use super::modes::emacs::emacs_handles;
use super::modes::insert::insert_handles;
use super::modes::normal::normal_handles;
use super::modes::standard::standard_handles;
use super::modes::{is_insert_char_info, EmacsMode, InsertMode, Mode, ModeType, NormalMode, StandardMode};
use super::overlay::{prompt_handles, CommandPrompt, Overlay, OverlayType};
use super::textobject::{Anchor, Kind, Offset, TextObject};
use super::view::{
    deleted_object, deleted_to_object, drawn_line, nth_line, redone, row_chars, status_char, status_line, undone, View,
};

verus! {

/// The mode the editor reads keys in.
pub enum EditorMode {
    Standard(StandardMode),
    Normal(NormalMode),
    Insert(InsertMode),
    Emacs(EmacsMode),
}

/// Why a key or a command could not be carried out.
pub enum EditorError {
    /// No command has the name.
    UnknownCommand(String),
    /// The command needs arguments that were not given.
    MissingArguments(String),
    /// The mode or overlay cannot take the key.
    KeyRefused,
    /// Where the text object lies cannot be found.
    ObjectUnavailable,
    /// The cursor is not where a char can be inserted.
    CursorUnavailable,
}

/// What the editor asks of its surroundings after a command.
#[derive(Copy, Clone, Debug, PartialEq, Eq, Structural)]
pub enum EditorEffect {
    /// Nothing.
    Done,
    /// Write the buffer to its file.
    SaveBuffer,
}

/// Whether a command info has the given name.
fn is_named(info: &CommandInfo, name: &str) -> (r: bool)
    ensures
        r == (info.command_name@ == name@),
{
    info.command_name == name.to_string()
}

/// A command with a number, an action and no object.
fn plain(number: i32, action: Action) -> (r: Command)
    ensures
        r == (Command { number, action, object: None }),
{
    Command { number, action, object: None }
}

/// A command that moves the cursor to a text object.
fn motion(kind: Kind, offset: Offset) -> (r: Command)
    ensures
        r == (Command {
            number: 1,
            action: Action::Instruction(Instruction::SetMark(Mark::Cursor(0))),
            object: Some(TextObject { kind, offset }),
        }),
{
    Command {
        number: 1,
        action: Action::Instruction(Instruction::SetMark(Mark::Cursor(0))),
        object: Some(TextObject { kind, offset }),
    }
}

/// A command that deletes from the cursor to a text object.
fn deletion(kind: Kind, offset: Offset) -> (r: Command)
    ensures
        r == (Command {
            number: 1,
            action: Action::Operation(Operation::DeleteFromMark(Mark::Cursor(0))),
            object: Some(TextObject { kind, offset }),
        }),
{
    Command {
        number: 1,
        action: Action::Operation(Operation::DeleteFromMark(Mark::Cursor(0))),
        object: Some(TextObject { kind, offset }),
    }
}

/// The arguments, when they hold a kind and an offset.
pub open spec fn has_motion(args: Option<BuilderArgs>) -> bool {
    args matches Some(a) && a.kind is Some && a.offset is Some
}

/// What a command name stands for: which command it builds from its
/// arguments (`None` when it needs arguments that are missing), or that no
/// command has the name (the outer `None`).
pub open spec fn command_of(info: CommandInfo) -> Option<Option<Command>> {
    let n = info.command_name@;
    let a = info.args;
    let c0 = Mark::Cursor(0);
    if n == "editor::quit"@ || n == "editor::exit"@ {
        Some(Some(Command { number: 0, action: Action::Instruction(Instruction::ExitEditor), object: None }))
    } else if n == "editor::save_buffer"@ {
        Some(Some(Command { number: 0, action: Action::Instruction(Instruction::SaveBuffer), object: None }))
    } else if n == "editor::set_mode"@ {
        Some(if a matches Some(x) && x.mode_args is Some {
            Some(Command { number: 0, action: Action::Instruction(Instruction::SetMode(a->0.mode_args->0)), object: None })
        } else {
            None
        })
    } else if n == "editor::set_overlay"@ {
        Some(if a matches Some(x) && x.overlay_args is Some {
            Some(Command { number: 0, action: Action::Instruction(Instruction::SetOverlay(a->0.overlay_args->0)), object: None })
        } else {
            None
        })
    } else if n == "editor::set_overlay_command_prompt"@ {
        Some(Some(Command { number: 0, action: Action::Instruction(Instruction::SetOverlay(OverlayType::CommandPrompt)), object: None }))
    } else if n == "editor::undo"@ {
        Some(Some(Command { number: 1, action: Action::Operation(Operation::Undo), object: None }))
    } else if n == "editor::redo"@ {
        Some(Some(Command { number: 1, action: Action::Operation(Operation::Redo), object: None }))
    } else if n == "editor::switch_to_last_buffer"@ {
        Some(Some(Command { number: 0, action: Action::Instruction(Instruction::SwitchToLastBuffer), object: None }))
    } else if n == "editor::noop"@ {
        Some(Some(Command { number: 0, action: Action::Instruction(Instruction::Nothing), object: None }))
    } else if n == "buffer::insert_char"@ {
        Some(if a matches Some(x) && x.char_args is Some {
            Some(Command { number: 1, action: Action::Operation(Operation::Insert(a->0.char_args->0)), object: None })
        } else {
            None
        })
    } else if n == "buffer::insert_tab"@ {
        Some(Some(Command { number: 4, action: Action::Operation(Operation::Insert(' ')), object: None }))
    } else if n == "buffer::insert_newline"@ {
        Some(Some(Command { number: 1, action: Action::Operation(Operation::Insert('\n')), object: None }))
    } else if n == "buffer::delete_char"@ {
        Some(if has_motion(a) {
            Some(Command {
                number: 1,
                action: Action::Operation(Operation::DeleteFromMark(c0)),
                object: Some(TextObject { kind: a->0.kind->0, offset: a->0.offset->0 }),
            })
        } else {
            None
        })
    } else if n == "buffer::delete_backward_char"@ {
        Some(Some(Command { number: 1, action: Action::Operation(Operation::DeleteFromMark(c0)), object: Some(TextObject { kind: Kind::Char, offset: Offset::Backward(1, c0) }) }))
    } else if n == "buffer::delete_forward_char"@ {
        Some(Some(Command { number: 1, action: Action::Operation(Operation::DeleteFromMark(c0)), object: Some(TextObject { kind: Kind::Char, offset: Offset::Forward(1, c0) }) }))
    } else if n == "buffer::move_cursor"@ {
        Some(if has_motion(a) {
            Some(Command {
                number: match a->0.number {
                    Some(k) => k,
                    None => 1,
                },
                action: Action::Instruction(Instruction::SetMark(c0)),
                object: Some(TextObject { kind: a->0.kind->0, offset: a->0.offset->0 }),
            })
        } else {
            None
        })
    } else if n == "buffer::move_cursor_forward_char"@ {
        Some(Some(Command { number: 1, action: Action::Instruction(Instruction::SetMark(c0)), object: Some(TextObject { kind: Kind::Char, offset: Offset::Forward(1, c0) }) }))
    } else if n == "buffer::move_cursor_backward_char"@ {
        Some(Some(Command { number: 1, action: Action::Instruction(Instruction::SetMark(c0)), object: Some(TextObject { kind: Kind::Char, offset: Offset::Backward(1, c0) }) }))
    } else if n == "buffer::move_cursor_forward_line"@ {
        Some(Some(Command { number: 1, action: Action::Instruction(Instruction::SetMark(c0)), object: Some(TextObject { kind: Kind::Line(Anchor::Same), offset: Offset::Forward(1, c0) }) }))
    } else if n == "buffer::move_cursor_backward_line"@ {
        Some(Some(Command { number: 1, action: Action::Instruction(Instruction::SetMark(c0)), object: Some(TextObject { kind: Kind::Line(Anchor::Same), offset: Offset::Backward(1, c0) }) }))
    } else if n == "buffer::move_cursor_line_end"@ {
        Some(Some(Command { number: 1, action: Action::Instruction(Instruction::SetMark(c0)), object: Some(TextObject { kind: Kind::Line(Anchor::End), offset: Offset::Forward(0, c0) }) }))
    } else if n == "buffer::move_cursor_line_start"@ {
        Some(Some(Command { number: 1, action: Action::Instruction(Instruction::SetMark(c0)), object: Some(TextObject { kind: Kind::Line(Anchor::Start), offset: Offset::Backward(0, c0) }) }))
    } else {
        None
    }
}

/// What the mode `before` does with `key`: the event it gives, and the mode it
/// becomes.
pub open spec fn mode_handles(before: EditorMode, after: EditorMode, key: Key, ev: BuilderEvent) -> bool {
    match (before, after) {
        (EditorMode::Standard(b), EditorMode::Standard(a)) => standard_handles(b, a, key, ev),
        (EditorMode::Normal(b), EditorMode::Normal(a)) => normal_handles(b, a, key, ev),
        (EditorMode::Insert(b), EditorMode::Insert(a)) => insert_handles(b, a, key, ev),
        (EditorMode::Emacs(b), EditorMode::Emacs(a)) => emacs_handles(b, a, key, ev),
        _ => false,
    }
}

/// The mode can take `key` (normal mode refuses a digit whose repeat count
/// would not fit).
pub open spec fn mode_accepts(mode: EditorMode, key: Key) -> bool {
    match mode {
        EditorMode::Normal(m) => m.accepts(key),
        _ => true,
    }
}

/// What the event a key gave does to the command queue and to the result: a
/// completed command is queued; a name that needs missing arguments or that no
/// command has is an error, and nothing is queued; any other event queues
/// nothing.
pub open spec fn key_outcome(q0: Seq<Command>, q1: Seq<Command>, ev: BuilderEvent, r: Result<(), EditorError>) -> bool {
    match ev {
        BuilderEvent::Complete(info) => match command_of(info) {
            Some(Some(c)) => r is Ok && q1 == q0.push(c),
            Some(None) => (r matches Err(EditorError::MissingArguments(n)) && n@ == info.command_name@)
                && q1 == q0,
            None => (r matches Err(EditorError::UnknownCommand(n)) && n@ == info.command_name@) && q1 == q0,
        },
        _ => r is Ok && q1 == q0,
    }
}

/// The mode turns `key` into the command that types its char: a char key,
/// in a mode that inserts chars and is not in the middle of a key sequence.
pub open spec fn types_char(mode: EditorMode, key: Key) -> bool {
    key is Char && match mode {
        EditorMode::Standard(m) => !m.in_progress(),
        EditorMode::Emacs(m) => !m.in_progress(),
        EditorMode::Insert(_) => true,
        EditorMode::Normal(_) => false,
    }
}

/// The command that types the char `c` once.
pub open spec fn typing(c: char) -> Command {
    Command { number: 1, action: Action::Operation(Operation::Insert(c)), object: None }
}

/// The command a typed char queues is carried out once and types its char
/// once.
pub proof fn law_typing_types_once(c: char)
    ensures
        typing(c).action == Action::Operation(Operation::Insert(c)),
        repeat_count(typing(c).number) * insert_count(typing(c).number) == 1,
{
    assert(repeat_count(1) == 1 && insert_count(1) == 1);
    assert(1int * 1int == 1);
}

/// The command info that inserts `c` builds the command that types it.
proof fn lemma_insert_char_command(info: CommandInfo, c: char)
    requires
        is_insert_char_info(info, c),
    ensures
        command_of(info) == Some(Some(typing(c))),
{
    reveal_strlit("buffer::insert_char");
    reveal_strlit("editor::quit");
    reveal_strlit("editor::exit");
    reveal_strlit("editor::save_buffer");
    reveal_strlit("editor::set_mode");
    reveal_strlit("editor::set_overlay");
    reveal_strlit("editor::set_overlay_command_prompt");
    reveal_strlit("editor::undo");
    reveal_strlit("editor::redo");
    reveal_strlit("editor::switch_to_last_buffer");
    reveal_strlit("editor::noop");
    let n = info.command_name@;
    assert(n[0] == 'b');
    assert("editor::quit"@[0] == 'e');
}

/// The command a command name stands for, built from its arguments.
pub fn command_for(info: &CommandInfo) -> (r: Result<Command, EditorError>)
    ensures
        match command_of(*info) {
            Some(Some(c)) => r == Ok::<Command, EditorError>(c),
            Some(None) => r matches Err(EditorError::MissingArguments(n)) && n@ == info.command_name@,
            None => r matches Err(EditorError::UnknownCommand(n)) && n@ == info.command_name@,
        },
{
    let c0 = Mark::Cursor(0);
    let missing = EditorError::MissingArguments(info.command_name.clone());
    if is_named(info, "editor::quit") || is_named(info, "editor::exit") {
        Ok(plain(0, Action::Instruction(Instruction::ExitEditor)))
    } else if is_named(info, "editor::save_buffer") {
        Ok(plain(0, Action::Instruction(Instruction::SaveBuffer)))
    } else if is_named(info, "editor::set_mode") {
        match &info.args {
            Some(a) => match a.mode_args {
                Some(m) => Ok(plain(0, Action::Instruction(Instruction::SetMode(m)))),
                None => Err(missing),
            },
            None => Err(missing),
        }
    } else if is_named(info, "editor::set_overlay") {
        match &info.args {
            Some(a) => match a.overlay_args {
                Some(o) => Ok(plain(0, Action::Instruction(Instruction::SetOverlay(o)))),
                None => Err(missing),
            },
            None => Err(missing),
        }
    } else if is_named(info, "editor::set_overlay_command_prompt") {
        Ok(plain(0, Action::Instruction(Instruction::SetOverlay(OverlayType::CommandPrompt))))
    } else if is_named(info, "editor::undo") {
        Ok(plain(1, Action::Operation(Operation::Undo)))
    } else if is_named(info, "editor::redo") {
        Ok(plain(1, Action::Operation(Operation::Redo)))
    } else if is_named(info, "editor::switch_to_last_buffer") {
        Ok(plain(0, Action::Instruction(Instruction::SwitchToLastBuffer)))
    } else if is_named(info, "editor::noop") {
        Ok(plain(0, Action::Instruction(Instruction::Nothing)))
    } else if is_named(info, "buffer::insert_char") {
        match &info.args {
            Some(a) => match a.char_args {
                Some(c) => Ok(plain(1, Action::Operation(Operation::Insert(c)))),
                None => Err(missing),
            },
            None => Err(missing),
        }
    } else if is_named(info, "buffer::insert_tab") {
        Ok(plain(4, Action::Operation(Operation::Insert(' '))))
    } else if is_named(info, "buffer::insert_newline") {
        Ok(plain(1, Action::Operation(Operation::Insert('\n'))))
    } else if is_named(info, "buffer::delete_char") {
        match &info.args {
            Some(a) => match (a.kind, a.offset) {
                (Some(k), Some(o)) => Ok(deletion(k, o)),
                _ => Err(missing),
            },
            None => Err(missing),
        }
    } else if is_named(info, "buffer::delete_backward_char") {
        Ok(deletion(Kind::Char, Offset::Backward(1, c0)))
    } else if is_named(info, "buffer::delete_forward_char") {
        Ok(deletion(Kind::Char, Offset::Forward(1, c0)))
    } else if is_named(info, "buffer::move_cursor") {
        match &info.args {
            Some(a) => match (a.kind, a.offset) {
                (Some(k), Some(o)) => {
                    let mut c = motion(k, o);
                    c.number = match a.number {
                        Some(n) => n,
                        None => 1,
                    };
                    Ok(c)
                },
                _ => Err(missing),
            },
            None => Err(missing),
        }
    } else if is_named(info, "buffer::move_cursor_forward_char") {
        Ok(motion(Kind::Char, Offset::Forward(1, c0)))
    } else if is_named(info, "buffer::move_cursor_backward_char") {
        Ok(motion(Kind::Char, Offset::Backward(1, c0)))
    } else if is_named(info, "buffer::move_cursor_forward_line") {
        Ok(motion(Kind::Line(Anchor::Same), Offset::Forward(1, c0)))
    } else if is_named(info, "buffer::move_cursor_backward_line") {
        Ok(motion(Kind::Line(Anchor::Same), Offset::Backward(1, c0)))
    } else if is_named(info, "buffer::move_cursor_line_end") {
        Ok(motion(Kind::Line(Anchor::End), Offset::Forward(0, c0)))
    } else if is_named(info, "buffer::move_cursor_line_start") {
        Ok(motion(Kind::Line(Anchor::Start), Offset::Backward(0, c0)))
    } else {
        Err(EditorError::UnknownCommand(info.command_name.clone()))
    }
}

/// What carrying out a command with action `action` did, from `before` to
/// `after`, with the effect `effect` asked of the surroundings: leaving stops
/// the editor unless the buffer has unsaved changes (then a message says so);
/// saving changes nothing in the editor and asks for the write when the
/// buffer has a file; a mode or an overlay is switched to; a message is
/// shown; doing nothing changes nothing; an operation asks for nothing.
pub open spec fn ran_command(before: Editor, after: Editor, action: Action, effect: EditorEffect) -> bool {
    match action {
        Action::Instruction(Instruction::ExitEditor) => {
            &&& effect == EditorEffect::Done
            &&& after.view.buffer == before.view.buffer
            &&& after.mode == before.mode
            &&& if before.view.buffer.dirty_view() {
                &&& after.running == before.running
                &&& after.message matches Some(m) && m@ == "Unsaved changes"@
            } else {
                !after.running
            }
        },
        Action::Instruction(Instruction::SaveBuffer) => {
            &&& effect == (if before.view.buffer.path_view() is Some {
                EditorEffect::SaveBuffer
            } else {
                EditorEffect::Done
            })
            &&& after == before
        },
        Action::Instruction(Instruction::SetMode(m)) => {
            &&& effect == EditorEffect::Done
            &&& after.view == before.view
            &&& after.running == before.running
            &&& match m {
                ModeType::Insert => after.mode is Insert,
                ModeType::Normal => after.mode is Normal,
            }
        },
        Action::Instruction(Instruction::SetOverlay(_)) => {
            &&& effect == EditorEffect::Done
            &&& after.view.overlay is Some
            &&& after.view.buffer == before.view.buffer
            &&& after.running == before.running
            &&& after.mode == before.mode
        },
        Action::Instruction(Instruction::ShowMessage(msg)) => {
            &&& effect == EditorEffect::Done
            &&& after.message matches Some(m) && m@ == msg@
            &&& after.view == before.view
            &&& after.running == before.running
        },
        Action::Instruction(Instruction::Nothing) => effect == EditorEffect::Done && after == before,
        Action::Instruction(_) => effect == EditorEffect::Done,
        Action::Operation(_) => effect == EditorEffect::Done && after.running == before.running,
    }
}

/// From `before` to `after`, the char `c` (as its byte) was typed `k` times
/// at the cursor: the cursor moved past what was typed. Where the cursor is
/// not set, the text stays as it was.
pub open spec fn inserted(before: Editor, after: Editor, c: char, k: int) -> bool {
    let b = before.view.buffer;
    let a = after.view.buffer;
    let key = mark_key(before.view.cursor);
    &&& after.view.cursor == before.view.cursor
    &&& if b.marks_view().contains_key(key) {
        let p = b.marks_view()[key].pos() as int;
        &&& a.marks_view().contains_key(key)
        &&& a.marks_view()[key].pos() == p + k
        &&& if k == 0 {
            a.text_view() == b.text_view()
        } else {
            &&& p <= b.text_view().len()
            &&& a.text_view() == b.text_view().subrange(0, p) + Seq::new(k as nat, |_i: int| c as u8)
                + b.text_view().subrange(p, b.text_view().len() as int)
        }
    } else {
        &&& a.text_view() == b.text_view()
        &&& !a.marks_view().contains_key(key)
    }
}

/// The number of times an insertion command types its char.
pub open spec fn insert_count(number: i32) -> int {
    if number > 0 {
        number as int
    } else {
        0
    }
}

/// The number of times a command is carried out.
pub open spec fn repeat_count(number: i32) -> int {
    if number > 0 {
        number as int
    } else {
        1
    }
}

proof fn lemma_inserted_none(e: Editor, c: char)
    ensures
        inserted(e, e, c, 0),
{
}

proof fn lemma_inserted_trans(e0: Editor, e1: Editor, e2: Editor, c: char, k1: int, k2: int)
    requires
        inserted(e0, e1, c, k1),
        inserted(e1, e2, c, k2),
        0 <= k1,
        0 <= k2,
    ensures
        inserted(e0, e2, c, k1 + k2),
{
    let key = mark_key(e0.view.cursor);
    if e0.view.buffer.marks_view().contains_key(key) && k1 > 0 && k2 > 0 {
        let t = e0.view.buffer.text_view();
        let p = e0.view.buffer.marks_view()[key].pos() as int;
        let t1 = e1.view.buffer.text_view();
        let q = p + k1;
        assert(t1.len() == t.len() + k1);
        assert(t1.subrange(0, q) =~= t.subrange(0, p) + Seq::new(k1 as nat, |_i: int| c as u8));
        assert(t1.subrange(q, t1.len() as int) =~= t.subrange(p, t.len() as int));
        assert(e2.view.buffer.text_view() =~= t.subrange(0, p) + Seq::new((k1 + k2) as nat, |_i: int| c as u8)
            + t.subrange(p, t.len() as int));
    }
}

/// The marks of a buffer whose text is `t` once `mark` was moved to where
/// `obj` lies `n` times over (a move to an object that lies nowhere leaves the
/// marks as they are).
pub open spec fn moved_marks(t: Seq<u8>, marks: Map<u128, MarkPosition>, mark: Mark, obj: TextObject, n: nat) -> Map<
    u128,
    MarkPosition,
>
    decreases n,
{
    if n == 0 {
        marks
    } else {
        let m = moved_marks(t, marks, mark, obj, (n - 1) as nat);
        match object_index(t, m, obj) {
            Some(p) => m.insert(mark_key(mark), spec_line_info(t, p.pos() as int)),
            None => m,
        }
    }
}

/// From `before` to `after`, the mark `m` was moved `n` times to where the
/// object (if any) lies; the text, the undo log and the cursor stay.
pub open spec fn marked(before: Editor, after: Editor, m: Mark, object: Option<TextObject>, n: nat) -> bool {
    let b = before.view.buffer;
    let a = after.view.buffer;
    &&& a.text_view() == b.text_view()
    &&& a.log_view() == b.log_view()
    &&& after.view.cursor == before.view.cursor
    &&& a.marks_view() == match object {
        Some(o) => moved_marks(b.text_view(), b.marks_view(), m, o, n),
        None => b.marks_view(),
    }
}

/// From `before` to `after`, the text between the positions `x` and `y` (in
/// either order) was removed, `r` holding it.
pub open spec fn removed_between(before: Buffer, after: Buffer, x: usize, y: usize, r: Option<Vec<u8>>) -> bool {
    if x < y {
        removed_range(before, after, x, y, r)
    } else {
        removed_range(before, after, y, x, r)
    }
}

/// From `before` to `after`, the text between the mark `m` and where `object`
/// lies was removed (the mark is set and the object lies somewhere).
pub open spec fn deleted_from_mark(before: Buffer, after: Buffer, m: Mark, object: TextObject) -> bool {
    let k = mark_key(m);
    &&& before.marks_view().contains_key(k)
    &&& before.spec_object_index(object) is Some
    &&& exists|r: Option<Vec<u8>>|
        #[trigger] removed_between(
            before,
            after,
            before.marks_view()[k].pos(),
            before.spec_object_index(object)->0.pos(),
            r,
        )
}

/// What carrying out `action` once did to the view, for the actions that
/// change the text or the buffer shown: undoing, redoing, deleting an object,
/// deleting from a mark to an object (from the cursor the cursor follows a
/// deletion backwards), switching to the last buffer. The cursor stays.
pub open spec fn op_step(before: View, after: View, action: Action, object: Option<TextObject>) -> bool {
    match action {
        Action::Operation(Operation::Undo) => undone(before, after),
        Action::Operation(Operation::Redo) => redone(before, after),
        Action::Operation(Operation::DeleteObject) => after.cursor == before.cursor && match object {
            Some(o) => deleted_object(before.buffer, after.buffer, o),
            None => after.buffer == before.buffer,
        },
        Action::Operation(Operation::DeleteFromMark(m)) => after.cursor == before.cursor && match object {
            Some(o) => if m == before.cursor {
                deleted_to_object(before.buffer, after.buffer, m, o)
            } else {
                deleted_from_mark(before.buffer, after.buffer, m, o)
            },
            None => after.buffer == before.buffer,
        },
        Action::Instruction(Instruction::SwitchToLastBuffer) => after.cursor == before.cursor
            && match before.last_buffer {
            Some(l) => after.buffer == l && after.last_buffer == Some(before.buffer),
            None => after.buffer == before.buffer && after.last_buffer is None,
        },
        _ => true,
    }
}

/// The views `vs` lead from `before` to `after` by `n` carryings-out of
/// `action`, one view after another.
pub open spec fn op_chain(
    vs: Seq<View>,
    before: View,
    after: View,
    action: Action,
    object: Option<TextObject>,
    n: nat,
) -> bool {
    &&& vs.len() == n + 1
    &&& vs[0] == before
    &&& vs[n as int] == after
    &&& forall|j: int| 0 <= j < n ==> #[trigger] op_step(vs[j], vs[j + 1], action, object)
}

/// `action` was carried out `n` times over, from `before` to `after`.
pub open spec fn op_steps(before: View, after: View, action: Action, object: Option<TextObject>, n: nat) -> bool {
    exists|vs: Seq<View>| #[trigger] op_chain(vs, before, after, action, object, n)
}

/// Carrying out `action` no times leaves the view as it is.
proof fn lemma_op_steps_zero(v: View, action: Action, object: Option<TextObject>)
    ensures
        op_steps(v, v, action, object, 0),
{
    assert(op_chain(seq![v], v, v, action, object, 0));
}

/// Carrying out `action` once more extends `n` carryings-out by one.
proof fn lemma_op_steps_next(
    before: View,
    mid: View,
    after: View,
    action: Action,
    object: Option<TextObject>,
    n: nat,
)
    requires
        op_steps(before, mid, action, object, n),
        op_step(mid, after, action, object),
    ensures
        op_steps(before, after, action, object, n + 1),
{
    let vs = choose|vs: Seq<View>| #[trigger] op_chain(vs, before, mid, action, object, n);
    let ws = vs.push(after);
    assert forall|j: int| 0 <= j < n + 1 implies #[trigger] op_step(ws[j], ws[j + 1], action, object) by {
        if j < n {
            assert(op_step(vs[j], vs[j + 1], action, object));
        }
    }
    assert(op_chain(ws, before, after, action, object, n + 1));
}

/// Typing `k` chars at the cursor fits: where the cursor's mark is set, it
/// lies within the text, and the text can grow by `k` bytes.
pub open spec fn insert_fits(e: Editor, k: int) -> bool {
    let b = e.view.buffer;
    let key = mark_key(e.view.cursor);
    b.marks_view().contains_key(key) ==> b.marks_view()[key].pos() <= b.text_view().len() && b.text_view().len()
        + k <= isize::MAX
}

/// The action is one that cannot fail.
pub open spec fn never_fails(action: Action) -> bool {
    match action {
        Action::Instruction(Instruction::SetMark(_)) => false,
        Action::Operation(Operation::Undo) | Action::Operation(Operation::Redo) => true,
        Action::Operation(_) => false,
        Action::Instruction(_) => true,
    }
}

/// The main Editor structure
///
/// This is the top-most structure in Iota.
pub struct Editor {
    pub view: View,
    pub running: bool,
    pub mode: EditorMode,
    /// The commands still to carry out, the next one first.
    pub command_queue: Vec<Command>,
    /// The last message for the user, if any.
    pub message: Option<String>,
}

impl Editor {
    /// The editor's view is sound.
    pub open spec fn wf(&self) -> bool {
        self.view.wf()
    }

    /// An editor for `buffer` on a screen `width` by `height`, reading keys in `mode`.
    pub fn new(buffer: Buffer, mode: EditorMode, width: usize, height: usize) -> (r: Editor)
        requires
            buffer.wf(),
            width >= 1,
            width + 256 <= usize::MAX,
            height >= 3,
        ensures
            r.wf(),
            r.running,
            r.command_queue@.len() == 0,
            r.message is None,
            r.view.buffer.text_view() == buffer.text_view(),
            r.view.overlay is None,
    {
        let view = View::new(buffer, width, height);
        Editor { view, running: true, mode, command_queue: Vec::new(), message: None }
    }

    /// Handle key events
    ///
    /// Key events can be handled in an Overlay, OR in the current Mode.
    ///
    /// If there is an active Overlay, the key event is sent there, which gives
    /// back a BuilderEvent. If the Overlay is finished, it is closed and the
    /// screen cleared. A completed command is queued.
    pub fn handle_key_event<F: Frontend>(&mut self, key: Key, screen: &mut Screen<F>) -> (r: Result<(), EditorError>)
        requires
            old(self).wf(),
        ensures
            final(self).wf(),
            final(self).running == old(self).running,
            final(self).view.buffer == old(self).view.buffer,
            final(self).command_queue@.len() == old(self).command_queue@.len()
                || final(self).command_queue@.len() == old(self).command_queue@.len() + 1,
            final(self).command_queue@.subrange(0, old(self).command_queue@.len() as int)
                == old(self).command_queue@,
            final(self).command_queue@.len() == old(self).command_queue@.len() + 1 ==> r is Ok
                && exists|info: CommandInfo| command_of(info) == Some(Some(#[trigger] final(self).command_queue@.last())),
            old(self).view.overlay is None ==> final(self).view.overlay is None,
            old(self).view.overlay is None && types_char(old(self).mode, key) ==> r is Ok
                && final(self).command_queue@ == old(self).command_queue@.push(typing(key->Char_0)),
            old(self).view.overlay is None ==> if mode_accepts(old(self).mode, key) {
                exists|ev: BuilderEvent|
                    #[trigger] mode_handles(old(self).mode, final(self).mode, key, ev) && key_outcome(
                        old(self).command_queue@,
                        final(self).command_queue@,
                        ev,
                        r,
                    )
            } else {
                (r matches Err(EditorError::KeyRefused)) && final(self).command_queue@
                    == old(self).command_queue@ && final(self).mode == old(self).mode
            },
            old(self).view.overlay matches Some(o) ==> final(self).mode == old(self).mode && if o.accepts(key) {
                exists|p: CommandPrompt, ev: BuilderEvent|
                    #[trigger] prompt_handles(o, p, key, ev) && key_outcome(
                        old(self).command_queue@,
                        final(self).command_queue@,
                        ev,
                        r,
                    ) && final(self).view.overlay == (if ev is Complete {
                        None::<CommandPrompt>
                    } else {
                        Some(p)
                    })
            } else {
                (r matches Err(EditorError::KeyRefused)) && final(self).command_queue@
                    == old(self).command_queue@ && final(self).view.overlay == old(self).view.overlay
            },
    {
        let ghost mut p_after: Option<CommandPrompt> = None;
        let event = if self.view.overlay.is_some() {
            let mut overlay = self.view.overlay.take();
            let ev = match &mut overlay {
                Some(o) => {
                    if !o.accepts_key(key) {
                        self.view.overlay = overlay;
                        return Err(EditorError::KeyRefused);
                    }
                    let e = o.handle_key_event(key);
                    proof {
                        p_after = Some(*o);
                    }
                    e
                },
                None => BuilderEvent::Incomplete,
            };
            self.view.overlay = overlay;
            ev
        } else {
            match &mut self.mode {
                EditorMode::Standard(m) => m.handle_key_event(key),
                EditorMode::Normal(m) => {
                    if !m.accepts_key(key) {
                        return Err(EditorError::KeyRefused);
                    }
                    m.handle_key_event(key)
                },
                EditorMode::Insert(m) => m.handle_key_event(key),
                EditorMode::Emacs(m) => m.handle_key_event(key),
            }
        };
        proof {
            if old(self).view.overlay is Some {
                assert(prompt_handles(old(self).view.overlay->0, p_after->0, key, event));
            } else {
                assert(mode_handles(old(self).mode, self.mode, key, event));
            }
        }
        if let BuilderEvent::Complete(info) = event {
            self.view.overlay = None;
            self.view.clear(screen);
            proof {
                if old(self).view.overlay is None && types_char(old(self).mode, key) {
                    lemma_insert_char_command(info, key->Char_0);
                }
            }
            match command_for(&info) {
                Ok(cmd) => {
                    self.command_queue.push(cmd);
                    assert(command_of(info) == Some(Some(self.command_queue@.last())));
                },
                Err(e) => {
                    return Err(e);
                },
            }
        }
        Ok(())
    }

    /// Handle resize events
    ///
    /// width and height represent the new height of the window.
    pub fn handle_resize_event(&mut self, width: usize, height: usize)
        requires
            old(self).wf(),
            width >= 1,
            width + 256 <= usize::MAX,
            height >= 3,
        ensures
            final(self).wf(),
            final(self).view.uibuf.width == width,
            final(self).view.uibuf.height == height,
            final(self).view.buffer == old(self).view.buffer,
    {
        self.view.resize(width, height);
    }

    /// Draw the current view to the frontend
    pub fn draw<F: Frontend>(&mut self, screen: &mut Screen<F>)
        requires
            old(self).wf(),
        ensures
            final(self).wf(),
            final(self).view.buffer == old(self).view.buffer,
            final(self).running == old(self).running,
            final(self).view.cursor == old(self).view.cursor,
            final(self).view.top_left == old(self).view.top_left,
            forall|x: int|
                #![trigger final(self).view.uibuf.cell(x, old(self).view.uibuf.height - 2)]
                0 <= x < old(self).view.uibuf.width ==> final(self).view.uibuf.cell(
                    x,
                    old(self).view.uibuf.height - 2,
                ).ch == status_char(status_line(old(self).view.buffer, old(self).view.cursor), x),
            old(self).view.overlay is None ==> forall|y: int|
                0 <= y < old(self).view.uibuf.height - 2 ==> #[trigger] row_chars(final(self).view.uibuf, y)
                    == drawn_line(
                    row_chars(old(self).view.uibuf, y),
                    nth_line(old(self).view.buffer.text_view(), (old(self).view.top_left.y + y) as nat),
                    old(self).view.top_left.x as int,
                ),
    {
        self.view.draw(screen);
    }

    /// Carries out the next queued command, if there is one.
    pub fn handle_next_command<F: Frontend>(&mut self, screen: &mut Screen<F>) -> (r: Option<
        Result<EditorEffect, EditorError>,
    >)
        requires
            old(self).wf(),
        ensures
            final(self).wf(),
            old(self).command_queue@.len() == 0 <==> r is None,
            old(self).command_queue@.len() > 0 ==> final(self).command_queue@
                == old(self).command_queue@.drop_first(),
            old(self).command_queue@.len() > 0 && never_fails(old(self).command_queue@[0].action)
                ==> r matches Some(Ok(_)),
            old(self).command_queue@.len() > 0 ==> (old(self).command_queue@[0].action matches Action::Operation(
                Operation::Insert(c),
            ) ==> r matches Some(Ok(_)) ==> inserted(
                *old(self),
                *final(self),
                c,
                repeat_count(old(self).command_queue@[0].number) * insert_count(
                    old(self).command_queue@[0].number,
                ),
            )),
            old(self).command_queue@.len() > 0 ==> (old(self).command_queue@[0].action matches Action::Instruction(
                Instruction::SetMark(m),
            ) ==> r matches Some(Ok(_)) ==> marked(
                *old(self),
                *final(self),
                m,
                old(self).command_queue@[0].object,
                repeat_count(old(self).command_queue@[0].number) as nat,
            )),
            old(self).command_queue@.len() > 0 ==> (r matches Some(Ok(_)) ==> op_steps(
                old(self).view,
                final(self).view,
                old(self).command_queue@[0].action,
                old(self).command_queue@[0].object,
                repeat_count(old(self).command_queue@[0].number) as nat,
            )),
            old(self).command_queue@.len() > 0 ==> (old(self).command_queue@[0].action matches Action::Operation(
                Operation::Insert(_),
            ) ==> insert_fits(
                *old(self),
                repeat_count(old(self).command_queue@[0].number) * insert_count(old(self).command_queue@[0].number),
            ) ==> r matches Some(Ok(_))),
    {
        if self.command_queue.len() == 0 {
            return None;
        }
        let command = self.command_queue.remove(0);
        Some(self.handle_command(command, screen))
    }

    /// Handle the given command, performing the associated action as many
    /// times as its number says (once when it says none).
    pub fn handle_command<F: Frontend>(&mut self, command: Command, screen: &mut Screen<F>) -> (r: Result<
        EditorEffect,
        EditorError,
    >)
        requires
            old(self).wf(),
        ensures
            final(self).wf(),
            final(self).command_queue == old(self).command_queue,
            r is Ok ==> ran_command(*old(self), *final(self), command.action, r->Ok_0),
            never_fails(command.action) ==> r is Ok,
            command.action matches Action::Operation(Operation::Insert(c)) ==> r is Ok ==> inserted(
                *old(self),
                *final(self),
                c,
                repeat_count(command.number) * insert_count(command.number),
            ),
            command.action matches Action::Instruction(Instruction::SetMark(m)) ==> r is Ok ==> marked(
                *old(self),
                *final(self),
                m,
                command.object,
                repeat_count(command.number) as nat,
            ),
            command.action matches Action::Operation(Operation::Undo) && repeat_count(command.number) == 1
                ==> undone(old(self).view, final(self).view),
            command.action matches Action::Operation(Operation::Redo) && repeat_count(command.number) == 1
                ==> redone(old(self).view, final(self).view),
            command.action == Action::Operation(Operation::DeleteFromMark(old(self).view.cursor))
                && repeat_count(command.number) == 1 ==> (command.object matches Some(o) ==> (r is Ok
                <==> old(self).view.buffer.object_safe(o)) && (r is Ok ==> deleted_to_object(
                old(self).view.buffer,
                final(self).view.buffer,
                old(self).view.cursor,
                o,
            ))),
            r is Ok ==> op_steps(
                old(self).view,
                final(self).view,
                command.action,
                command.object,
                repeat_count(command.number) as nat,
            ),
            command.action matches Action::Operation(Operation::Insert(_)) && insert_fits(
                *old(self),
                repeat_count(command.number) * insert_count(command.number),
            ) ==> r is Ok,
            command.action == Action::Operation(Operation::DeleteObject) && repeat_count(command.number)
                == 1 ==> match command.object {
                Some(o) => r is Ok <==> (old(self).view.buffer.object_safe(
                    TextObject { kind: o.kind.spec_with_anchor(Anchor::Start), offset: o.offset },
                ) && old(self).view.buffer.object_safe(
                    TextObject { kind: o.kind.spec_with_anchor(Anchor::End), offset: o.offset },
                )),
                None => r is Ok,
            },
            command.action matches Action::Operation(Operation::DeleteFromMark(m)) ==> repeat_count(
                command.number,
            ) == 1 ==> match command.object {
                Some(o) => r is Ok <==> (old(self).view.buffer.object_safe(o) && (m != old(self).view.cursor
                    ==> old(self).view.buffer.marks_view().contains_key(mark_key(m))
                    && old(self).view.buffer.spec_object_index(o) is Some)),
                None => r is Ok,
            },
    {
        let repeat: i32 = if command.number > 0 {
            command.number
        } else {
            1
        };
        let mut effect = EditorEffect::Done;
        let mut i: i32 = 0;
        proof {
            lemma_op_steps_zero(self.view, command.action, command.object);
            if let Action::Operation(Operation::Insert(c)) = command.action {
                lemma_inserted_none(*self, c);
            }
        }
        while i < repeat
            invariant
                self.wf(),
                0 <= i <= repeat,
                self.command_queue == old(self).command_queue,
                i == 0 ==> *self == *old(self) && effect == EditorEffect::Done,
                i > 0 ==> ran_command(*old(self), *self, command.action, effect),
                repeat == repeat_count(command.number),
                command.action matches Action::Operation(Operation::Insert(c)) ==> inserted(
                    *old(self),
                    *self,
                    c,
                    i * insert_count(command.number),
                ),
                command.action matches Action::Instruction(Instruction::SetMark(m)) ==> marked(
                    *old(self),
                    *self,
                    m,
                    command.object,
                    i as nat,
                ),
                command.action matches Action::Operation(Operation::Undo) && i == 1 ==> undone(
                    old(self).view,
                    self.view,
                ),
                command.action matches Action::Operation(Operation::Redo) && i == 1 ==> redone(
                    old(self).view,
                    self.view,
                ),
                command.action == Action::Operation(Operation::DeleteFromMark(old(self).view.cursor)) && i
                    == 1 ==> (command.object matches Some(o) ==> old(self).view.buffer.object_safe(o)
                    && deleted_to_object(old(self).view.buffer, self.view.buffer, old(self).view.cursor, o)),
                op_steps(old(self).view, self.view, command.action, command.object, i as nat),
                self.view.cursor == old(self).view.cursor,
                command.action == Action::Operation(Operation::DeleteObject) && i == 1 ==> (
                command.object matches Some(o) ==> old(self).view.buffer.object_safe(
                    TextObject { kind: o.kind.spec_with_anchor(Anchor::Start), offset: o.offset },
                ) && old(self).view.buffer.object_safe(
                    TextObject { kind: o.kind.spec_with_anchor(Anchor::End), offset: o.offset },
                )),
                command.action matches Action::Operation(Operation::DeleteFromMark(m)) ==> i == 1 ==> (
                command.object matches Some(o) ==> old(self).view.buffer.object_safe(o) && (m
                    != old(self).view.cursor ==> old(self).view.buffer.marks_view().contains_key(mark_key(m))
                    && old(self).view.buffer.spec_object_index(o) is Some)),
                command.action matches Action::Operation(Operation::Insert(_)) && insert_fits(
                    *old(self),
                    repeat * insert_count(command.number),
                ) ==> insert_fits(*self, (repeat - i) * insert_count(command.number)),
            decreases repeat - i,
        {
            let ghost before = *self;
            proof {
                if let Action::Operation(Operation::Insert(_)) = command.action {
                    let n = insert_count(command.number);
                    if insert_fits(*old(self), repeat * n) {
                        assert((repeat - i) * n >= n) by (nonlinear_arith)
                            requires
                                repeat - i >= 1,
                                n >= 0,
                        ;
                    }
                }
            }
            let step = match command.action {
                Action::Instruction(_) => self.handle_instruction(&command, screen),
                Action::Operation(_) => self.handle_operation(&command),
            };
            match step {
                Ok(EditorEffect::SaveBuffer) => {
                    effect = EditorEffect::SaveBuffer;
                },
                Ok(EditorEffect::Done) => {},
                Err(e) => {
                    return Err(e);
                },
            }
            proof {
                lemma_op_steps_next(old(self).view, before.view, self.view, command.action, command.object, i as nat);
                if let Action::Operation(Operation::Insert(c)) = command.action {
                    let n = insert_count(command.number);
                    assert((repeat - i) * n == (repeat - (i + 1)) * n + n) by (nonlinear_arith);
                    lemma_inserted_trans(*old(self), before, *self, c, i * n, n);
                    assert(i * n + n == (i + 1) * n) by (nonlinear_arith);
                    assert(0 <= i * n) by (nonlinear_arith)
                        requires
                            0 <= i,
                            0 <= n,
                    ;
                }
                if let Action::Instruction(Instruction::SetMark(m)) = command.action {
                    reveal_with_fuel(moved_marks, 2);
                    if let Some(o) = command.object {
                        let t0 = old(self).view.buffer.text_view();
                        let k0 = old(self).view.buffer.marks_view();
                        assert(moved_marks(t0, k0, m, o, (i + 1) as nat) == (match object_index(
                            t0,
                            moved_marks(t0, k0, m, o, i as nat),
                            o,
                        ) {
                            Some(p) => moved_marks(t0, k0, m, o, i as nat).insert(
                                mark_key(m),
                                spec_line_info(t0, p.pos() as int),
                            ),
                            None => moved_marks(t0, k0, m, o, i as nat),
                        }));
                    }
                }
            }
            i = i + 1;
        }
        Ok(effect)
    }

    /// Carries out an instruction: saving, leaving (only when nothing is
    /// unsaved; else a message says so), moving a mark, opening an overlay,
    /// switching mode or buffer, showing a message.
    fn handle_instruction<F: Frontend>(&mut self, command: &Command, screen: &mut Screen<F>) -> (r: Result<
        EditorEffect,
        EditorError,
    >)
        requires
            old(self).wf(),
            command.action is Instruction,
        ensures
            final(self).wf(),
            final(self).command_queue == old(self).command_queue,
            r is Ok ==> ran_command(*old(self), *final(self), command.action, r->Ok_0),
            never_fails(command.action) ==> r is Ok,
            command.action matches Action::Instruction(Instruction::ExitEditor) ==> r is Ok && (
            if old(self).view.buffer.dirty_view() {
                final(self).running == old(self).running && (final(self).message matches Some(m)
                    && m@ == "Unsaved changes"@)
            } else {
                !final(self).running
            }),
            command.action matches Action::Instruction(Instruction::SaveBuffer) ==> r == (if old(
                self,
            ).view.buffer.path_view() is Some {
                Ok::<EditorEffect, EditorError>(EditorEffect::SaveBuffer)
            } else {
                Ok::<EditorEffect, EditorError>(EditorEffect::Done)
            }),
            command.action matches Action::Instruction(Instruction::SetMode(m)) ==> r is Ok && (match m {
                ModeType::Insert => final(self).mode is Insert,
                ModeType::Normal => final(self).mode is Normal,
            }),
            command.action matches Action::Instruction(Instruction::SetOverlay(_)) ==> r is Ok
                && final(self).view.overlay is Some,
            command.action matches Action::Instruction(Instruction::SetMark(_)) ==> (r is Ok
                <==> (command.object is None || old(self).view.buffer.object_safe(command.object->0))),
            command.action matches Action::Instruction(Instruction::SetMark(m)) ==> r is Ok ==> marked(
                *old(self),
                *final(self),
                m,
                command.object,
                1,
            ),
            r is Ok ==> op_step(old(self).view, final(self).view, command.action, command.object),
            final(self).view.cursor == old(self).view.cursor,
    {
        match &command.action {
            Action::Instruction(Instruction::SaveBuffer) => {
                if self.view.try_save_buffer() {
                    Ok(EditorEffect::SaveBuffer)
                } else {
                    Ok(EditorEffect::Done)
                }
            },
            Action::Instruction(Instruction::ExitEditor) => {
                if self.view.buffer.is_dirty() {
                    self.message = Some("Unsaved changes".to_string());
                } else {
                    self.running = false;
                }
                Ok(EditorEffect::Done)
            },
            Action::Instruction(Instruction::SetMark(mark)) => {
                if let Some(object) = command.object {
                    if !self.view.buffer.object_is_safe(object) {
                        return Err(EditorError::ObjectUnavailable);
                    }
                    proof {
                        lemma_object_index_view(self.view.buffer, object);
                        reveal_with_fuel(moved_marks, 2);
                    }
                    self.view.buffer.set_mark_to_object(*mark, object);
                }
                Ok(EditorEffect::Done)
            },
            Action::Instruction(Instruction::SetOverlay(overlay_type)) => {
                self.view.set_overlay(*overlay_type);
                Ok(EditorEffect::Done)
            },
            Action::Instruction(Instruction::SetMode(mode)) => {
                match mode {
                    ModeType::Insert => {
                        self.mode = EditorMode::Insert(InsertMode::new());
                    },
                    ModeType::Normal => {
                        self.mode = EditorMode::Normal(NormalMode::new());
                    },
                }
                Ok(EditorEffect::Done)
            },
            Action::Instruction(Instruction::SwitchToLastBuffer) => {
                self.view.switch_last_buffer();
                self.view.clear(screen);
                Ok(EditorEffect::Done)
            },
            Action::Instruction(Instruction::ShowMessage(msg)) => {
                self.message = Some(msg.clone());
                Ok(EditorEffect::Done)
            },
            _ => Ok(EditorEffect::Done),
        }
    }

    /// Carries out an operation on the buffer: inserting a char (as many
    /// times as the command's number), deleting an object or from a mark to
    /// an object, undoing or redoing.
    fn handle_operation(&mut self, command: &Command) -> (r: Result<EditorEffect, EditorError>)
        requires
            old(self).wf(),
            command.action is Operation,
        ensures
            final(self).wf(),
            final(self).command_queue == old(self).command_queue,
            final(self).running == old(self).running,
            r is Ok ==> r == Ok::<EditorEffect, EditorError>(EditorEffect::Done),
            command.action matches Action::Operation(Operation::Insert(c)) ==> r is Ok ==> inserted(
                *old(self),
                *final(self),
                c,
                insert_count(command.number),
            ),
            command.action matches Action::Operation(Operation::Undo) ==> r is Ok && undone(
                old(self).view,
                final(self).view,
            ),
            command.action matches Action::Operation(Operation::Redo) ==> r is Ok && redone(
                old(self).view,
                final(self).view,
            ),
            command.action == Action::Operation(Operation::DeleteFromMark(old(self).view.cursor)) ==> (
            command.object matches Some(o) ==> (r is Ok <==> old(self).view.buffer.object_safe(o))
                && (r is Ok ==> deleted_to_object(
                old(self).view.buffer,
                final(self).view.buffer,
                old(self).view.cursor,
                o,
            ) && final(self).view.cursor == old(self).view.cursor)),
            r is Ok ==> op_step(old(self).view, final(self).view, command.action, command.object),
            final(self).view.cursor == old(self).view.cursor,
            command.action matches Action::Operation(Operation::Insert(_)) && insert_fits(
                *old(self),
                insert_count(command.number),
            ) ==> r is Ok,
            command.action == Action::Operation(Operation::DeleteObject) ==> match command.object {
                Some(o) => r is Ok <==> (old(self).view.buffer.object_safe(
                    TextObject { kind: o.kind.spec_with_anchor(Anchor::Start), offset: o.offset },
                ) && old(self).view.buffer.object_safe(
                    TextObject { kind: o.kind.spec_with_anchor(Anchor::End), offset: o.offset },
                )),
                None => r is Ok,
            },
            command.action matches Action::Operation(Operation::DeleteFromMark(m)) ==> match command.object {
                Some(o) => r is Ok <==> (old(self).view.buffer.object_safe(o) && (m != old(self).view.cursor
                    ==> old(self).view.buffer.marks_view().contains_key(mark_key(m))
                    && old(self).view.buffer.spec_object_index(o) is Some)),
                None => r is Ok,
            },
    {
        match &command.action {
            Action::Operation(Operation::Insert(c)) => {
                let mut k: i32 = 0;
                proof {
                    lemma_inserted_none(*self, *c);
                }
                while k < command.number
                    invariant
                        self.wf(),
                        self.running == old(self).running,
                        self.command_queue == old(self).command_queue,
                        command.action == Action::Operation(Operation::Insert(*c)),
                        0 <= k,
                        k <= command.number || k == 0,
                        inserted(*old(self), *self, *c, k as int),
                        self.view.cursor == old(self).view.cursor,
                    decreases command.number - k,
                {
                    let ghost before = *self;
                    let cursor = self.view.cursor;
                    let len = self.view.buffer.len();
                    if let Some(p) = self.view.buffer.mark_position(cursor) {
                        if p.index() >= len || len > isize::MAX as usize {
                            return Err(EditorError::CursorUnavailable);
                        }
                    }
                    self.view.insert_char(*c);
                    proof {
                        let b = before.view.buffer;
                        let key = mark_key(before.view.cursor);
                        if b.marks_view().contains_key(key) {
                            let q = b.marks_view()[key].pos() as int;
                            assert(b.text_view().insert(q, *c as u8) =~= b.text_view().subrange(0, q) + Seq::new(
                                1,
                                |_i: int| *c as u8,
                            ) + b.text_view().subrange(q, b.text_view().len() as int));
                        }
                        assert(inserted(before, *self, *c, 1));
                        lemma_inserted_trans(*old(self), before, *self, *c, k as int, 1);
                    }
                    k = k + 1;
                }
                Ok(EditorEffect::Done)
            },
            Action::Operation(Operation::DeleteObject) => {
                if let Some(obj) = command.object {
                    let start = TextObject { kind: obj.kind.with_anchor(Anchor::Start), offset: obj.offset };
                    let end = TextObject { kind: obj.kind.with_anchor(Anchor::End), offset: obj.offset };
                    if !self.view.buffer.object_is_safe(start) || !self.view.buffer.object_is_safe(end) {
                        return Err(EditorError::ObjectUnavailable);
                    }
                    self.view.delete_object(obj);
                }
                Ok(EditorEffect::Done)
            },
            Action::Operation(Operation::DeleteFromMark(m)) => {
                if let Some(obj) = command.object {
                    if !self.view.buffer.object_is_safe(obj) {
                        return Err(EditorError::ObjectUnavailable);
                    }
                    if *m == self.view.cursor {
                        // from the view's cursor: the cursor follows a deletion backwards
                        self.view.delete_from_cursor_to_object(obj);
                        return Ok(EditorEffect::Done);
                    }
                    if self.view.buffer.mark_position(*m).is_none() {
                        return Err(EditorError::CursorUnavailable);
                    }
                    if self.view.buffer.get_object_index(obj).is_none() {
                        return Err(EditorError::ObjectUnavailable);
                    }
                    let removed = self.view.buffer.remove_from_mark_to_object(*m, obj);
                    proof {
                        let b = old(self).view.buffer;
                        assert(removed_between(
                            b,
                            self.view.buffer,
                            b.marks_view()[mark_key(*m)].pos(),
                            b.spec_object_index(obj)->0.pos(),
                            removed,
                        ));
                    }
                }
                Ok(EditorEffect::Done)
            },
            Action::Operation(Operation::Undo) => {
                self.view.undo();
                Ok(EditorEffect::Done)
            },
            Action::Operation(Operation::Redo) => {
                self.view.redo();
                Ok(EditorEffect::Done)
            },
            _ => Ok(EditorEffect::Done),
        }
    }
}

} // verus!
