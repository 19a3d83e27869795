//! The key transform: every key that a program names is hashed before it is
//! used as a key of the storage map.

use sp_core::{Blake2Hasher, Hasher};
use vstd::prelude::*;

verus! {

/// The number of bytes of a hashed key.
pub const HASH_LEN: usize = 32;

/// The Blake2b hash of 256 bits of `data`, as `sp-core` computes it.
pub uninterp spec fn blake2_256(data: Seq<u8>) -> Seq<u8>;

/// `sp_core::Blake2Hasher::hash`, with the hash copied into a vector.
/// Trusted: the result is the Blake2b-256 hash of the input, which has 32
/// bytes and depends on the input alone.
#[verifier::external_body]
pub(crate) fn hash_key(key: &[u8]) -> (hash: Vec<u8>)
    ensures
        hash@ == blake2_256(key@),
        hash@.len() == HASH_LEN,
{
    Blake2Hasher::hash(key)[..].to_vec()
}

} // verus!
