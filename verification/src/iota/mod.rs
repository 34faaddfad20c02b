//! Iota: a highly customisable text editor built with modern hardware in mind.

pub mod api;
pub mod buffer;
pub mod chained_command;
pub mod command;

pub mod cursor;
pub mod editor;
pub mod frontends;
pub mod input;
pub mod iterators;
pub mod keyboard;
pub mod keymap;
pub mod lexer;
pub mod log;
pub mod modes;
pub mod overlay;
pub mod server;
pub mod syntax;
pub mod textobject;
pub mod uibuf;
pub mod utils;
pub mod view;
