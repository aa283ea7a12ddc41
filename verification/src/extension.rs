//! The path-compression node: a packed two-nibble key and a single child
//! reference.

use vstd::prelude::*;

use crate::rlp::RlpNodes;
use crate::rlp::hash_part;
use crate::rlp::is_hash_ref;

verus! {

/// An extension node: a one-byte key holding two nibbles and exactly one
/// child reference.
#[derive(Debug, Clone, PartialEq, Eq)]
pub struct ExtensionNode {
    /// The key for this extension node, two nibbles packed into one byte.
    pub key: u8,
    /// The single child reference.
    pub child: RlpNodes,
}

impl ExtensionNode {
    /// Creates an extension node with the given key and child reference.
    pub fn new(key: u8, child: RlpNodes) -> (r: Self)
        ensures
            r.key == key,
            r.child == child,
    {
        ExtensionNode { key, child }
    }

    /// Extracts one nibble of a key byte: the upper nibble when the flag is
    /// set, together with `false` (no nibble remains after the upper one);
    /// the lower nibble otherwise, together with `true` (the upper nibble
    /// was already consumed).
    pub fn extract_key(key: u8, flag: bool) -> (r: (u8, bool))
        ensures
            flag ==> r == ((key / 16) as u8, false),
            !flag ==> r == ((key % 16) as u8, true),
            r.0 < 16,
    {
        proof {
            assert(key >> 4 == key / 16 && key & 0x0F == key % 16 && key / 16 < 16 && key % 16
                < 16) by (bit_vector);
        }
        if flag {
            (key >> 4, false)
        } else {
            (key & 0x0F, true)
        }
    }

    /// The upper nibble (bits 4 to 7) of the key.
    pub fn get_upper_nibble(&self) -> (r: u8)
        ensures
            r == self.key / 16,
            r < 16,
    {
        proof {
            let key = self.key;
            assert(key >> 4 == key / 16 && key / 16 < 16) by (bit_vector);
        }
        self.key >> 4
    }

    /// The lower nibble (bits 0 to 3) of the key.
    pub fn get_lower_nibble(&self) -> (r: u8)
        ensures
            r == self.key % 16,
            r < 16,
    {
        proof {
            let key = self.key;
            assert(key & 0x0F == key % 16 && key % 16 < 16) by (bit_vector);
        }
        self.key & 0x0F
    }

    /// Whether the child is stored as a tagged digest rather than inline.
    pub fn has_hashed_child(&self) -> (r: bool)
        ensures
            r == is_hash_ref(self.child@),
    {
        self.child.as_hash().is_some()
    }

    /// The child's digest, when the child is stored as a tagged digest.
    pub fn child_hash(&self) -> (r: Option<[u8; 32]>)
        ensures
            r is Some <==> is_hash_ref(self.child@),
            r is Some ==> r.unwrap()@ == hash_part(self.child@),
    {
        self.child.as_hash()
    }
}

} // verus!
