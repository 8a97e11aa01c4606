//! Hashing of coverage bitmaps, and the entropy seed for fresh workers.

use vstd::prelude::*;

verus! {

/// The 64-bit xxh3 digest of a byte string.  Stated without a definition:
/// the digest depends on the bytes alone, and nothing here claims what it
/// is on any given input.
pub uninterp spec fn xxh3_of(key: Seq<u8>) -> u64;

/// Relies on xxhash_rust's xxh3_64: the digest of exactly the given bytes,
/// a pure function of them.
#[verifier::external_body]
pub fn hash64(key: &[u8], len: usize) -> (r: u64)
    requires
        len <= key@.len(),
    ensures
        r == xxh3_of(key@.take(len as int)),
{
    xxhash_rust::xxh3::xxh3_64(&key[..len])
}

/// Relies on rand::random: one machine-entropy word to seed a worker's
/// PRNG.  Nothing is promised of the value.
#[verifier::external_body]
pub fn entropy_seed() -> u64 {
    rand::random::<u64>()
}

} // verus!
