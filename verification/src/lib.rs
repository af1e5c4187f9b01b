//! A kernel compiler for Gemma-class inference, and the serving logic around it.

pub mod codegen;
pub mod ir;
pub mod server;
pub mod text;
pub mod kernels;
pub mod gemma;
pub mod gguf;
pub mod cli;
pub mod decimal;
