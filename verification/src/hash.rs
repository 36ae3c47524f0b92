//! The combining function of the tree: Keccak-256 over two encoded words.

use vstd::prelude::*;
use crate::word::Word;

verus! {

/// The Keccak-256 digest of a byte sequence.
pub uninterp spec fn keccak256(bytes: Seq<u8>) -> Seq<u8>;

/// The parent of two nodes: the digest of the left encoding followed by the
/// right one.
pub open spec fn combine(left: Seq<u8>, right: Seq<u8>) -> Seq<u8> {
    keccak256(left + right)
}

/// Calls `stylus_sdk::crypto::keccak`, which hands the bytes to
/// `alloy_primitives::keccak256`, and returns the 32 bytes of the digest.
/// Trusted: the result is the Keccak-256 digest of `bytes`, a function of
/// the bytes alone.
#[verifier::external_body]
fn keccak_digest(bytes: &[u8]) -> (digest: [u8; 32])
    ensures
        digest@ == keccak256(bytes@),
{
    stylus_sdk::crypto::keccak(bytes).0
}

/// The 64 bytes that are hashed for a pair of nodes.
pub fn pair_preimage(left: &Word, right: &Word) -> (bytes: Vec<u8>)
    ensures
        bytes@ == left@ + right@,
{
    let l = left.to_be_bytes();
    let r = right.to_be_bytes();
    let mut bytes: Vec<u8> = Vec::with_capacity(64);
    let mut i: usize = 0;
    while i < 32
        invariant
            i <= 32,
            bytes@ == l@.take(i as int),
        decreases 32 - i,
    {
        bytes.push(l[i]);
        i += 1;
    }
    let mut j: usize = 0;
    while j < 32
        invariant
            j <= 32,
            bytes@ == l@ + r@.take(j as int),
        decreases 32 - j,
    {
        bytes.push(r[j]);
        j += 1;
    }
    bytes
}

/// Hashes two nodes together and returns their parent node.
///
/// The order of the operands matters: the left encoding comes first.
pub fn hash_nodes(left: Word, right: Word) -> (parent: Word)
    ensures
        parent@ == combine(left@, right@),
{
    let preimage = pair_preimage(&left, &right);
    let digest = keccak_digest(preimage.as_slice());
    Word::from_be_bytes(digest)
}

} // verus!
