//! The fixed-capacity buffer that holds either a small node encoding inline
//! or a tagged 32-byte digest referencing a larger node.

use vstd::prelude::*;

verus! {

/// Capacity of a node buffer: a 32-byte digest plus its one-byte marker.
pub const MAX_NODE_LEN: usize = 33;

/// Content strictly shorter than this threshold is stored inline by the
/// encode-or-hash rule; anything at or above it is referenced by digest.
pub const HASH_THRESHOLD: usize = 32;

/// First byte of a buffer that holds a digest rather than inline content.
pub const HASH_MARKER: u8 = 0x80;

/// Keccak-256 digest of a byte sequence, as computed by the external hash
/// function; it depends on the input bytes alone.
pub uninterp spec fn keccak256_of(bytes: Seq<u8>) -> [u8; 32];

/// The given bytes followed by zero filler up to the 33-byte capacity.
pub open spec fn padded(bytes: Seq<u8>) -> Seq<u8>
    recommends
        bytes.len() <= 33,
{
    bytes + Seq::new((33 - bytes.len()) as nat, |i: int| 0u8)
}

/// A buffer holding the marker byte followed by the 32-byte word.
pub open spec fn word_ref(word: Seq<u8>) -> Seq<u8>
    recommends
        word.len() == 32,
{
    seq![HASH_MARKER] + word
}

/// Whether a buffer is a tagged digest reference.
pub open spec fn is_hash_ref(buf: Seq<u8>) -> bool {
    buf.len() == 33 && buf[0] == HASH_MARKER
}

/// The digest carried by a tagged buffer.
pub open spec fn hash_part(buf: Seq<u8>) -> Seq<u8>
    recommends
        buf.len() == 33,
{
    buf.subrange(1, 33)
}

/// The inline-or-reference rule: encodings shorter than 32 bytes are stored
/// inline (zero padded); anything else is replaced by its tagged digest.
pub open spec fn encode_or_hash(bytes: Seq<u8>) -> Seq<u8> {
    if bytes.len() < 32 {
        padded(bytes)
    } else {
        word_ref(keccak256_of(bytes)@)
    }
}

/// Errors of node-buffer construction.
#[derive(Debug, Clone, Copy, PartialEq, Eq)]
pub enum RlpError {
    /// The source bytes do not fit into the 33-byte buffer.
    NodeTooLarge,
}

/// An RLP-encoded node reference: a 33-byte buffer holding either a short
/// node encoding inline (zero padded) or a marker byte followed by the
/// Keccak-256 digest of a larger encoding.
#[derive(Debug, Clone, Copy, PartialEq, Eq)]
pub struct RlpNodes([u8; 33]);

impl View for RlpNodes {
    type V = Seq<u8>;

    closed spec fn view(&self) -> Seq<u8> {
        self.0@
    }
}

/// Relies on alloy_primitives::keccak256: the 32-byte Keccak-256 digest of
/// the input, a function of the input bytes alone.
#[verifier::external_body]
fn keccak256_digest(bytes: &[u8]) -> (r: [u8; 32])
    ensures
        r == keccak256_of(bytes@),
{
    alloy_primitives::keccak256(bytes).0
}

impl RlpNodes {
    /// Creates a node buffer from the given bytes, which succeeds exactly
    /// when they fit; shorter content is zero padded on the right.
    pub fn from_raw(src: &[u8]) -> (r: Option<Self>)
        ensures
            r is Some <==> src@.len() <= 33,
            r is Some ==> r.unwrap()@ == padded(src@),
    {
        if src.len() <= MAX_NODE_LEN {
            let mut dst = [0u8; 33];
            let mut i: usize = 0;
            while i < src.len()
                invariant
                    i <= src.len() <= 33,
                    dst@.len() == 33,
                    forall|j: int| 0 <= j < i ==> dst@[j] == src@[j],
                    forall|j: int| i <= j < 33 ==> dst@[j] == 0u8,
                decreases src.len() - i,
            {
                dst[i] = src[i];
                i += 1;
            }
            proof {
                assert(dst@ =~= padded(src@));
            }
            Some(RlpNodes(dst))
        } else {
            None
        }
    }

    /// Like `from_raw`, reporting oversized content as an error value.
    pub fn from_raw_rlp(data: &[u8]) -> (r: Result<Self, RlpError>)
        ensures
            r is Ok <==> data@.len() <= 33,
            r is Ok ==> r.unwrap()@ == padded(data@),
            r is Err ==> r == Result::<Self, RlpError>::Err(RlpError::NodeTooLarge),
    {
        match Self::from_raw(data) {
            Some(node) => Ok(node),
            None => Err(RlpError::NodeTooLarge),
        }
    }

    /// Given an RLP-encoded node, returns it inline when it is shorter than
    /// 32 bytes and as its tagged Keccak-256 digest otherwise.
    pub fn from_rlp(rlp: &[u8]) -> (r: Self)
        ensures
            r@ == encode_or_hash(rlp@),
    {
        if rlp.len() < HASH_THRESHOLD {
            Self::from_raw(rlp).unwrap()
        } else {
            let digest = keccak256_digest(rlp);
            Self::word_rlp(&digest)
        }
    }

    /// Wraps a 32-byte word as a tagged digest reference: the marker byte
    /// followed by the word.
    pub fn word_rlp(word: &[u8; 32]) -> (r: Self)
        ensures
            r@ == word_ref(word@),
            is_hash_ref(r@),
            hash_part(r@) == word@,
    {
        let mut arr = [0u8; 33];
        arr[0] = HASH_MARKER;
        let mut i: usize = 0;
        while i < 32
            invariant
                i <= 32,
                arr@.len() == 33,
                arr@[0] == HASH_MARKER,
                forall|j: int| 0 <= j < i ==> arr@[j + 1] == word@[j],
            decreases 32 - i,
        {
            arr[i + 1] = word[i];
            i += 1;
        }
        proof {
            assert(arr@ =~= word_ref(word@));
            assert(hash_part(arr@) =~= word@);
        }
        RlpNodes(arr)
    }

    /// The full 33-byte buffer, filler included.
    pub fn as_slice(&self) -> (r: &[u8])
        ensures
            r@ == self@,
    {
        self.0.as_slice()
    }

    /// Returns the digest exactly when the buffer is a tagged digest
    /// reference, i.e. when its first byte is the marker.
    pub fn as_hash(&self) -> (r: Option<[u8; 32]>)
        ensures
            r is Some <==> is_hash_ref(self@),
            r is Some ==> r.unwrap()@ == hash_part(self@),
    {
        if self.0[0] == HASH_MARKER {
            let mut digest = [0u8; 32];
            let mut i: usize = 0;
            while i < 32
                invariant
                    i <= 32,
                    digest@.len() == 32,
                    self@.len() == 33,
                    forall|j: int| 0 <= j < i ==> digest@[j] == self@[j + 1],
                decreases 32 - i,
            {
                digest[i] = self.0[i + 1];
                i += 1;
            }
            proof {
                assert(digest@ =~= hash_part(self@));
            }
            Some(digest)
        } else {
            None
        }
    }
}

/// An inline encoding never reads as a digest reference: storing fewer than
/// 32 bytes whose first byte is not the marker (or no bytes at all) yields a
/// buffer that `as_hash` rejects.
pub proof fn lemma_inline_is_not_hash(bytes: Seq<u8>)
    requires
        bytes.len() < 32,
        bytes.len() == 0 || bytes[0] != HASH_MARKER,
    ensures
        !is_hash_ref(encode_or_hash(bytes)),
{
    if bytes.len() == 0 {
        assert(encode_or_hash(bytes)[0] == 0u8);
    } else {
        assert(encode_or_hash(bytes)[0] == bytes[0]);
    }
}

/// A long encoding is always stored as the tagged digest of its bytes.
pub proof fn lemma_hashed_ref(bytes: Seq<u8>)
    requires
        bytes.len() >= 32,
    ensures
        is_hash_ref(encode_or_hash(bytes)),
        hash_part(encode_or_hash(bytes)) == keccak256_of(bytes)@,
{
    assert(hash_part(word_ref(keccak256_of(bytes)@)) =~= keccak256_of(bytes)@);
}

/// Round trip: wrapping any 32-byte word and reading the digest back returns
/// the word unchanged.
pub proof fn lemma_word_round_trip(word: Seq<u8>)
    requires
        word.len() == 32,
    ensures
        is_hash_ref(word_ref(word)),
        hash_part(word_ref(word)) == word,
{
    assert(hash_part(word_ref(word)) =~= word);
}

} // verus!
