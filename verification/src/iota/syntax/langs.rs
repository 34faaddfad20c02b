//! The lexers of the languages that are known.

pub use super::python::PythonSyntax;
pub use super::rust::RustSyntax;
