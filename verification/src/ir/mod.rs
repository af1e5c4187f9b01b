//! Graph primitives and the kernel intermediate representation.

pub mod dtype;
pub mod kernel;
pub mod graph;
pub mod laws;
