//! The terminal node: a single nibble of key and a fixed-size value slot.

use vstd::prelude::*;

verus! {

/// A leaf node: one nibble of key (construction discards the upper nibble
/// of the input byte) and a fixed 33-byte value slot.
#[derive(Debug, Clone, PartialEq, Eq)]
pub struct LeafNode {
    /// The key for this leaf node, always a single nibble.
    pub key: u8,
    /// The node value.
    pub value: [u8; 33],
}

impl LeafNode {
    /// Creates a leaf node keyed by the low nibble of `key`, holding a copy
    /// of the given value.
    pub fn new(key: u8, value: &[u8; 33]) -> (r: Self)
        ensures
            r.key == key % 16,
            r.key < 16,
            r.value == *value,
    {
        let value = *value;
        let key = Self::extract_key(key);
        LeafNode { key, value }
    }

    /// The low nibble of a key byte.
    pub fn extract_key(key: u8) -> (r: u8)
        ensures
            r == key % 16,
            r < 16,
    {
        proof {
            assert(key & 0x0F == key % 16 && key % 16 < 16) by (bit_vector);
        }
        key & 0x0F
    }
}

} // verus!
