//! A small terminal text editor library: line and gap-buffer text models,
//! cursors, marks, text objects, undo/redo logs, key maps, editing modes and
//! simple syntax lexers, with their behaviour stated and proved.

use vstd::prelude::*;

pub mod buffer;
pub mod cursor;
pub mod view;
pub mod iota;
pub mod keyboard;
pub mod rdit;

verus! {

/// What the editor does after an event: go on, or stop.
#[derive(Copy, Clone, Debug, PartialEq, Eq, Structural)]
pub enum Response {
    Continue,
    Quit,
}

} // verus!
