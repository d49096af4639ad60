//! The language front end: source buffers, tokens, bytecode and its construction.

pub mod source_buffer;
pub mod tokenizing;
pub mod code;
pub mod compilation;
pub mod rendering;
