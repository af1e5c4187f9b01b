//! Launching kernels: the calls of the engine, the kernels they need, and launch grids.

pub mod buffer;
pub mod call;
pub mod kernel;
pub mod launch;
pub mod queue;
pub mod warm;
