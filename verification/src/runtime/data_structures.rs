//! The data structures of the runtime.

pub mod byte_buffer;
pub mod contextual_data;
pub mod contextual_list;
pub mod data_object;
pub mod dictionary;
pub mod display;
pub mod heap;
pub mod value;
pub mod value_hash;
pub mod value_vec;
