//! Split block Bloom filter aggregate for zoned layouts.

pub mod aggregate;
pub mod canonical;
pub mod constant;
pub mod laws;
pub mod options;
pub mod partial;
pub mod scalar;
