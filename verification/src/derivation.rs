//! The attribute derivation function: a pure map from a randomness seed, an
//! owner identity and a sequence index to a 16-byte payload, through a
//! one-way hash.

use vstd::prelude::*;
use vstd::bytes::spec_u32_to_le_bytes;
use vstd::bytes::spec_u64_to_le_bytes;
use vstd::bytes::u32_to_le_bytes;
use vstd::bytes::u64_to_le_bytes;
use vstd::bytes::lemma_auto_spec_u32_to_from_le_bytes;
use vstd::bytes::lemma_auto_spec_u64_to_from_le_bytes;
use vstd::bytes::spec_u32_from_le_bytes;
use vstd::bytes::spec_u64_from_le_bytes;
use crate::hashing::blake2_128_of;
use crate::hashing::blake2_128_hash;

verus! {

/// The byte buffer the derivation hashes: the seed bytes, then the owner
/// identity's canonical (little-endian) encoding, then the sequence index's.
pub open spec fn derivation_input(seed: Seq<u8>, owner: u64, idx: u32) -> Seq<u8> {
    seed + spec_u64_to_le_bytes(owner) + spec_u32_to_le_bytes(idx)
}

/// Derive a record's 16-byte payload from the environment's randomness seed,
/// the caller's identity and the execution sequence index: the derivation
/// buffer is hashed with the 128-bit one-way hash and the digest is the
/// payload. Pure: the result is a function of the three arguments alone.
pub fn derive(seed: &[u8], owner: u64, idx: u32) -> (r: [u8; 16])
    ensures
        r@ == blake2_128_of(derivation_input(seed@, owner, idx)),
{
    let mut buf: Vec<u8> = Vec::new();
    let mut i: usize = 0;
    while i < seed.len()
        invariant
            i <= seed@.len(),
            buf@ == seed@.take(i as int),
        decreases seed@.len() - i,
    {
        let b: u8 = seed[i];
        buf.push(b);
        i = i + 1;
        proof {
            assert(buf@ =~= seed@.take(i as int));
        }
    }
    proof {
        assert(buf@ =~= seed@);
    }
    let mut owner_bytes: Vec<u8> = u64_to_le_bytes(owner);
    buf.append(&mut owner_bytes);
    let mut idx_bytes: Vec<u8> = u32_to_le_bytes(idx);
    buf.append(&mut idx_bytes);
    proof {
        assert(buf@ =~= derivation_input(seed@, owner, idx));
    }
    blake2_128_hash(buf.as_slice())
}

/// Determinism of derivation: identical inputs yield the identical payload.
/// Together with `derive`'s postcondition, two calls of `derive` on equal
/// arguments return byte-identical results.
pub proof fn lemma_derive_deterministic(
    seed1: Seq<u8>,
    owner1: u64,
    idx1: u32,
    seed2: Seq<u8>,
    owner2: u64,
    idx2: u32,
)
    requires
        seed1 == seed2,
        owner1 == owner2,
        idx1 == idx2,
    ensures
        blake2_128_of(derivation_input(seed1, owner1, idx1)) == blake2_128_of(
            derivation_input(seed2, owner2, idx2),
        ),
{
}

/// Sensitivity, up to the hash: the derivation buffer separates its inputs.
/// Changing the seed, the owner or the index changes the buffer handed to the
/// one-way hash (that the digest then differs holds only with overwhelming
/// probability and is not stated here).
pub proof fn lemma_derivation_input_injective(
    seed1: Seq<u8>,
    owner1: u64,
    idx1: u32,
    seed2: Seq<u8>,
    owner2: u64,
    idx2: u32,
)
    requires
        derivation_input(seed1, owner1, idx1) == derivation_input(seed2, owner2, idx2),
    ensures
        seed1 == seed2,
        owner1 == owner2,
        idx1 == idx2,
{
    lemma_auto_spec_u32_to_from_le_bytes();
    lemma_auto_spec_u64_to_from_le_bytes();
    let b1 = derivation_input(seed1, owner1, idx1);
    let b2 = derivation_input(seed2, owner2, idx2);
    assert(b1.len() == seed1.len() + 12);
    assert(b2.len() == seed2.len() + 12);
    let n = seed1.len() as int;
    assert(seed1 =~= b1.subrange(0, n));
    assert(seed2 =~= b2.subrange(0, n));
    assert(spec_u64_to_le_bytes(owner1) =~= b1.subrange(n, n + 8));
    assert(spec_u64_to_le_bytes(owner2) =~= b2.subrange(n, n + 8));
    assert(spec_u32_to_le_bytes(idx1) =~= b1.subrange(n + 8, n + 12));
    assert(spec_u32_to_le_bytes(idx2) =~= b2.subrange(n + 8, n + 12));
    assert(owner1 == spec_u64_from_le_bytes(spec_u64_to_le_bytes(owner1)));
    assert(owner2 == spec_u64_from_le_bytes(spec_u64_to_le_bytes(owner2)));
    assert(idx1 == spec_u32_from_le_bytes(spec_u32_to_le_bytes(idx1)));
    assert(idx2 == spec_u32_from_le_bytes(spec_u32_to_le_bytes(idx2)));
}

} // verus!
