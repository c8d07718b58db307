//! Bloom filters that summarise the zones of a columnar file, and the skip index built on them.

pub mod bits;
pub mod bloom_filter;
pub mod bloom_i64;
pub mod dtype;
pub mod error;
pub mod hash;
pub mod le;
pub mod nonzero;
pub mod scalar;
pub mod skip_index;
pub mod text;
