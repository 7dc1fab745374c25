//! A binary hash tree over an ordered list of byte strings: the tree, its
//! root digest, and inclusion proofs for single items.

pub mod error;
pub mod hash_data_structures;
pub mod hash_function;
pub mod laws;
pub mod levels;
pub mod merkle_proof;
pub mod merkle_tree;
pub mod node;
pub mod padding;
pub mod utils;
