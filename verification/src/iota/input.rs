//! Where the editor's first buffer comes from.

use vstd::prelude::*;

verus! {

/// The standard input stream of the process.
#[verifier::external_type_specification]
#[verifier::external_body]
pub struct ExStdin(std::io::Stdin);

/// A source of Input for the Editor.
///
/// This is used at startup, where the user can either open a file, or
/// start Iota with data from stdin.
pub enum Input {
    /// A Filename
    Filename(Option<String>),
    /// The stdin reader
    Stdin(std::io::Stdin),
}

} // verus!
