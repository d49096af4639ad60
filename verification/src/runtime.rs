//! The runtime: values, scoped containers, errors and the interpreter.

pub mod built_ins;
pub mod data_structures;
pub mod error;
pub mod host;
pub mod interpreter;
pub mod paths;
