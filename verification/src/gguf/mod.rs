//! Model files: their layout, number formats and the tokenizer.

pub mod file;
pub mod half;
pub mod round_trip;
pub mod saved;
pub mod tokenizer;
