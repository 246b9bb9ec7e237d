//! Sampling and multi-pass pointer-chain resolution over the memory image of
//! another process. The memory reads themselves are performed by the caller:
//! every function here computes which addresses to read next, or settles the
//! values that came back into records.
pub mod batch;
pub mod dtb;
pub mod entities;
pub mod enumerate;
pub mod geometry;
pub mod globals;
pub mod offsets;
pub mod resolution;
pub mod resolver;
pub mod sampler;
pub mod snapshot;
