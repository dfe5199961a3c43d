//! The one-way hash behind the attribute derivation.

use vstd::prelude::*;

verus! {

/// The 16-byte digest that the 128-bit Blake2b hash computes for a byte
/// sequence. The digest is a function of the input bytes alone.
pub uninterp spec fn blake2_128_of(data: Seq<u8>) -> Seq<u8>;

/// Relies on sp_io::hashing::blake2_128: the 128-bit Blake2b digest of the
/// input, 16 bytes that depend on the input bytes alone.
#[verifier::external_body]
pub(crate) fn blake2_128_hash(data: &[u8]) -> (r: [u8; 16])
    ensures
        r@ == blake2_128_of(data@),
{
    sp_io::hashing::blake2_128(data)
}

} // verus!
