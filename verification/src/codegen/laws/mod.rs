//! What kernels compute: a meaning of kernel bodies over any arithmetic, and the laws that hold of
//! the bodies that are written.

pub mod argmax;
pub mod attention;
pub mod coop;
pub mod elementwise;
pub mod fused;
pub mod gated;
pub mod group;
pub mod heads;
pub mod literals;
pub mod machine;
pub mod matvec;
pub mod meaning;
pub mod norm;
pub mod packed;
pub mod per_head;
pub mod product;
pub mod projected;
pub mod qkv;
pub mod reductions;
pub mod rows;
pub mod solo;
pub mod simdgroups;
pub mod softmax;
pub mod source;
pub mod streams;
pub mod sums;
pub mod sweep;
pub mod tiles;
pub mod twice;
pub mod written;
pub mod written_blocks;
pub mod written_dots;
pub mod written_kernels;
