//! The Keccak-256 digest that turns a shared point into a scalar.
use vstd::prelude::*;
use tiny_keccak::Hasher;

verus! {

/// The Keccak-256 digest of `input` (the original Keccak padding, not SHA3-256).
pub uninterp spec fn keccak256_of(input: Seq<u8>) -> Seq<u8>;

/// Relies on tiny_keccak's `Keccak::v256`: `update` with the input, then
/// `finalize` writes the 32-byte digest, which depends on the input alone.
#[verifier::external_body]
pub(crate) fn keccak256(input: &[u8]) -> (r: [u8; 32])
    ensures
        r@ == keccak256_of(input@),
{
    let mut hash = [0u8; 32];
    let mut hasher = tiny_keccak::Keccak::v256();
    hasher.update(input);
    hasher.finalize(&mut hash);
    hash
}

} // verus!
