//! Commands: what the editor is asked to do, built from the arguments a key
//! binding carries.

use vstd::prelude::*;

use super::buffer::Mark;
use super::keymap::CommandInfo;
use super::modes::ModeType;
use super::overlay::OverlayType;
use super::textobject::{Kind, Offset, TextObject};

verus! {

/// Instructions for the Editor.
/// These do NOT alter the text, but may change editor/view state
pub enum Instruction {
    SaveBuffer,
    ExitEditor,
    SetMark(Mark),
    SetOverlay(OverlayType),
    SetMode(ModeType),
    ShowMessage(String),
    SwitchToLastBuffer,
    /// Do nothing
    Nothing,
}

/// Operations on the Buffer.
/// These DO alter the text, but otherwise may NOT change editor/view state
/// Note that these differ from `log::Change` in that they are higher-level
/// operations dependent on state (cursor/mark locations, etc.), as opposed
/// to concrete operations on absolute indexes (insert 'a' at index 158, etc.)
#[derive(Copy, Clone, PartialEq, Eq, Debug, Structural)]
pub enum Operation {
    /// insert text
    Insert(char),
    /// delete some object
    DeleteObject,
    /// delete from some mark to an object
    DeleteFromMark(Mark),
    /// rewind buffer transaction log
    Undo,
    /// replay buffer transaction log
    Redo,
}

/// What a command does.
pub enum Action {
    Operation(Operation),
    Instruction(Instruction),
}

/// A complete, actionable command
pub struct Command {
    /// numeric paramter, line number, repeat count, etc.
    pub number: i32,
    /// what to do
    pub action: Action,
    /// where to do it
    pub object: Option<TextObject>,
}

impl Command {
    /// Display a message
    pub fn show_message(args: Option<BuilderArgs>) -> (r: Command)
        requires
            args matches Some(a) && a.str_args is Some,
        ensures
            r.number == 0,
            r.object is None,
            r.action == Action::Instruction(Instruction::ShowMessage(args->0.str_args->0)),
    {
        let args = args.unwrap();
        let message = args.str_args.unwrap();
        Command { action: Action::Instruction(Instruction::ShowMessage(message)), number: 0, object: None }
    }

    /// Shortcut to create an ExitEditor command
    pub fn exit_editor(_args: Option<BuilderArgs>) -> (r: Command)
        ensures
            r.number == 0,
            r.object is None,
            r.action == Action::Instruction(Instruction::ExitEditor),
    {
        Command { action: Action::Instruction(Instruction::ExitEditor), number: 0, object: None }
    }

    /// Shortcut to create a SaveBuffer command
    pub fn save_buffer(_args: Option<BuilderArgs>) -> (r: Command)
        ensures
            r.number == 0,
            r.object is None,
            r.action == Action::Instruction(Instruction::SaveBuffer),
    {
        Command { action: Action::Instruction(Instruction::SaveBuffer), number: 0, object: None }
    }

    /// Shortcut to create SetMode command
    pub fn set_mode(args: Option<BuilderArgs>) -> (r: Command)
        requires
            args matches Some(a) && a.mode_args is Some,
        ensures
            r.number == 0,
            r.object is None,
            r.action == Action::Instruction(Instruction::SetMode(args->0.mode_args->0)),
    {
        let args = args.unwrap();
        let mode_type = args.mode_args.unwrap();
        Command { action: Action::Instruction(Instruction::SetMode(mode_type)), number: 0, object: None }
    }

    /// Shortcut to change the active overlay
    pub fn set_overlay(args: Option<BuilderArgs>) -> (r: Command)
        requires
            args matches Some(a) && a.overlay_args is Some,
        ensures
            r.number == 0,
            r.object is None,
            r.action == Action::Instruction(Instruction::SetOverlay(args->0.overlay_args->0)),
    {
        let args = args.unwrap();
        let overlay = args.overlay_args.unwrap();
        Command { action: Action::Instruction(Instruction::SetOverlay(overlay)), number: 0, object: None }
    }

    /// Shortcut to create a Delete command
    pub fn delete_char(args: Option<BuilderArgs>) -> (r: Command)
        requires
            args matches Some(a) && a.kind is Some && a.offset is Some,
        ensures
            r.number == 1,
            r.action == Action::Operation(Operation::DeleteFromMark(Mark::Cursor(0))),
            r.object == Some(TextObject { kind: args->0.kind->0, offset: args->0.offset->0 }),
    {
        let args = args.unwrap();
        let kind = args.kind.unwrap();
        let offset = args.offset.unwrap();
        Command {
            number: 1,
            action: Action::Operation(Operation::DeleteFromMark(Mark::Cursor(0))),
            object: Some(TextObject { kind: kind, offset: offset }),
        }
    }

    /// Shortcut to create an Insert command
    pub fn insert_char(args: Option<BuilderArgs>) -> (r: Command)
        requires
            args matches Some(a) && a.char_args is Some,
        ensures
            r.number == 1,
            r.object is None,
            r.action == Action::Operation(Operation::Insert(args->0.char_args->0)),
    {
        let args = args.unwrap();
        let c = args.char_args.unwrap();
        Command { number: 1, action: Action::Operation(Operation::Insert(c)), object: None }
    }

    /// Shortcut to create a Delete command, repeated `number` times (once by default)
    pub fn delete(args: Option<BuilderArgs>) -> (r: Command)
        requires
            args matches Some(a) && a.kind is Some && a.offset is Some,
        ensures
            r.number == (match args->0.number {
                Some(n) => n,
                None => 1,
            }),
            r.action == Action::Operation(Operation::DeleteFromMark(Mark::Cursor(0))),
            r.object == Some(TextObject { kind: args->0.kind->0, offset: args->0.offset->0 }),
    {
        let args = args.unwrap();
        let kind = args.kind.unwrap();
        let offset = args.offset.unwrap();
        let repeat = match args.number {
            Some(n) => n,
            None => 1,
        };
        Command {
            number: repeat,
            action: Action::Operation(Operation::DeleteFromMark(Mark::Cursor(0))),
            object: Some(TextObject { kind: kind, offset: offset }),
        }
    }

    /// Shortcut to create an Insert command that puts in four spaces
    pub fn insert_tab(_args: Option<BuilderArgs>) -> (r: Command)
        ensures
            r.number == 4,
            r.object is None,
            r.action == Action::Operation(Operation::Insert(' ')),
    {
        Command { number: 4, action: Action::Operation(Operation::Insert(' ')), object: None }
    }

    /// Shortcut to create Undo command
    pub fn undo(_args: Option<BuilderArgs>) -> (r: Command)
        ensures
            r.number == 1,
            r.object is None,
            r.action == Action::Operation(Operation::Undo),
    {
        Command { number: 1, action: Action::Operation(Operation::Undo), object: None }
    }

    /// Shortcut to create Redo command
    pub fn redo(_args: Option<BuilderArgs>) -> (r: Command)
        ensures
            r.number == 1,
            r.object is None,
            r.action == Action::Operation(Operation::Redo),
    {
        Command { number: 1, action: Action::Operation(Operation::Redo), object: None }
    }

    /// Shortcut to move the cursor mark to an object, `number` times (once by default)
    pub fn move_cursor(args: Option<BuilderArgs>) -> (r: Command)
        requires
            args matches Some(a) && a.kind is Some && a.offset is Some,
        ensures
            r.number == (match args->0.number {
                Some(n) => n,
                None => 1,
            }),
            r.action == Action::Instruction(Instruction::SetMark(Mark::Cursor(0))),
            r.object == Some(TextObject { kind: args->0.kind->0, offset: args->0.offset->0 }),
    {
        let args = args.unwrap();
        let kind = args.kind.unwrap();
        let offset = args.offset.unwrap();
        let repeat = match args.number {
            Some(n) => n,
            None => 1,
        };
        Command {
            number: repeat,
            action: Action::Instruction(Instruction::SetMark(Mark::Cursor(0))),
            object: Some(TextObject { kind: kind, offset: offset }),
        }
    }

    /// A command that does nothing
    pub fn noop(_args: Option<BuilderArgs>) -> (r: Command)
        ensures
            r.number == 0,
            r.object is None,
            r.action == Action::Instruction(Instruction::Nothing),
    {
        Command { number: 0, action: Action::Instruction(Instruction::Nothing), object: None }
    }
}

/// The arguments a command is built from.
pub struct BuilderArgs {
    pub char_args: Option<char>,
    pub number: Option<i32>,
    pub str_args: Option<String>,
    pub mode_args: Option<ModeType>,
    pub overlay_args: Option<OverlayType>,
    pub kind: Option<Kind>,
    pub offset: Option<Offset>,
}

impl BuilderArgs {
    /// `other` holds the same arguments, its message compared by content.
    pub open spec fn same_as(self, other: BuilderArgs) -> bool {
        &&& self.char_args == other.char_args
        &&& self.number == other.number
        &&& self.mode_args == other.mode_args
        &&& self.overlay_args == other.overlay_args
        &&& self.kind == other.kind
        &&& self.offset == other.offset
        &&& match (self.str_args, other.str_args) {
            (Some(a), Some(b)) => a@ == b@,
            (None, None) => true,
            _ => false,
        }
    }

    /// No arguments at all.
    pub fn new() -> (r: BuilderArgs)
        ensures
            r.char_args is None,
            r.number is None,
            r.str_args is None,
            r.mode_args is None,
            r.overlay_args is None,
            r.kind is None,
            r.offset is None,
    {
        BuilderArgs {
            char_args: None,
            number: None,
            str_args: None,
            mode_args: None,
            overlay_args: None,
            kind: None,
            offset: None,
        }
    }

    /// A copy of these arguments.
    pub fn duplicate(&self) -> (r: BuilderArgs)
        ensures
            r.same_as(*self),
    {
        let str_args = match &self.str_args {
            Some(s) => Some(s.clone()),
            None => None,
        };
        BuilderArgs {
            char_args: self.char_args,
            number: self.number,
            str_args,
            mode_args: self.mode_args,
            overlay_args: self.overlay_args,
            kind: self.kind,
            offset: self.offset,
        }
    }

    pub fn with_char_arg(self, c: char) -> (r: BuilderArgs)
        ensures
            r == (BuilderArgs { char_args: Some(c), ..self }),
    {
        let mut s = self;
        s.char_args = Some(c);
        s
    }

    pub fn with_str(self, s: String) -> (r: BuilderArgs)
        ensures
            r == (BuilderArgs { str_args: Some(s), ..self }),
    {
        let mut a = self;
        a.str_args = Some(s);
        a
    }

    pub fn with_number(self, n: i32) -> (r: BuilderArgs)
        ensures
            r == (BuilderArgs { number: Some(n), ..self }),
    {
        let mut a = self;
        a.number = Some(n);
        a
    }

    pub fn with_kind(self, kind: Kind) -> (r: BuilderArgs)
        ensures
            r == (BuilderArgs { kind: Some(kind), ..self }),
    {
        let mut a = self;
        a.kind = Some(kind);
        a
    }

    pub fn with_offset(self, offset: Offset) -> (r: BuilderArgs)
        ensures
            r == (BuilderArgs { offset: Some(offset), ..self }),
    {
        let mut a = self;
        a.offset = Some(offset);
        a
    }

    pub fn with_mode(self, mode: ModeType) -> (r: BuilderArgs)
        ensures
            r == (BuilderArgs { mode_args: Some(mode), ..self }),
    {
        let mut a = self;
        a.mode_args = Some(mode);
        a
    }

    pub fn with_overlay(self, overlay: OverlayType) -> (r: BuilderArgs)
        ensures
            r == (BuilderArgs { overlay_args: Some(overlay), ..self }),
    {
        let mut a = self;
        a.overlay_args = Some(overlay);
        a
    }
}

/// The outcome of feeding a key to a mode or an overlay.
pub enum BuilderEvent {
    /// cannot find a valid interpretation
    Invalid,
    /// needs more information
    Incomplete,
    /// command is finished
    Complete(CommandInfo),
}

} // verus!
