//! What the editor does after an event.

use vstd::prelude::*;

verus! {

/// What the editor does after an event: go on, or stop.
#[derive(Copy, Clone, Debug, PartialEq, Eq, Structural)]
pub enum Response {
    Continue,
    Quit,
}

} // verus!
