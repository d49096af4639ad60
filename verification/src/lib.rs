//! A runtime for a concatenative, stack-based scripting language: a tokenizer,
//! a compiler that lowers tokens to bytecode, and a bytecode interpreter with
//! lexically scoped dictionaries and variables.

pub mod text;
pub mod lang;
pub mod runtime;
