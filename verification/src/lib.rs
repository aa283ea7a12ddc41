//! Node-level building blocks of a Merkle Patricia Trie: the fixed-capacity
//! buffer used to reference one node from another, and the branch, extension
//! and leaf node representations.

pub mod branch;
pub mod extension;
pub mod leaf;
pub mod rlp;
