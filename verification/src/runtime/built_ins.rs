//! The words that are built into the interpreter.

pub mod base_words;
pub mod ffi_words;
pub mod io_words;
pub mod terminal_words;
