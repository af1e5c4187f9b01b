//! The model: its dimensions, its caches, and the plan of a forward pass.

pub mod chunk_meaning;
pub mod config;
pub mod kv_pool;
pub mod meaning;
pub mod model;
pub mod forward;
pub mod prefill;
pub mod session;
pub mod generate;
pub mod load;
pub mod uploads;
pub mod sample;
