//! From graph regions to kernel source: schedule, lower, render, search.

pub mod error;
pub mod schedule;
pub mod lower;
pub mod render;
pub mod beam;
pub mod plan_cache;
pub mod pipeline;
pub mod laws;
pub mod layer;
