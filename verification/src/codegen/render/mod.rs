//! From a kernel body to kernel source.

pub mod helpers;
pub mod expr;
pub mod scan;
pub mod stmt;
pub mod kernel;
