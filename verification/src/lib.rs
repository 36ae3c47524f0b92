//! Verified compute kernels for on-chain contracts: a fixed-capacity Merkle
//! tree over 256-bit words, and a seeded square-matrix product.

pub mod error;
pub mod hash;
pub mod matrix;
pub mod merkle;
pub mod store;
pub mod tree;
pub mod word;
