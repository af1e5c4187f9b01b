//! From a scheduled kernel to its body.

pub mod block;
pub mod norm;
pub mod elem;
pub mod sdpa;
pub mod matvec;
pub mod fused;
pub mod kernels;
