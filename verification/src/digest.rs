//! BLAKE3 digests.

use vstd::prelude::*;

verus! {

/// `blake3::Hasher`, an incremental hash state.
#[verifier::external_type_specification]
#[verifier::external_body]
pub struct ExHasher(blake3::Hasher);

/// The bytes that a hash state has taken in so far.
pub uninterp spec fn absorbed(h: blake3::Hasher) -> Seq<u8>;

/// What `blake3::hash` gives for `data`, and so does `blake3::Hasher::finalize` for a
/// state that took in `data`.
pub uninterp spec fn blake3_hash(data: Seq<u8>) -> Seq<u8>;

/// `blake3::hash`: the 32-byte hash of `data`, named `blake3_hash`.
#[verifier::external_body]
pub(crate) fn hash_of(data: &[u8]) -> (h: [u8; 32])
    ensures
        h@ == blake3_hash(data@),
{
    *blake3::hash(data).as_bytes()
}

/// `blake3::Hasher::new`: a state that has taken in nothing.
#[verifier::external_body]
pub(crate) fn hasher_new() -> (h: blake3::Hasher)
    ensures
        absorbed(h) == Seq::<u8>::empty(),
{
    blake3::Hasher::new()
}

/// `blake3::Hasher::update`: takes in `data` after what came before.
#[verifier::external_body]
pub(crate) fn hasher_update(h: &mut blake3::Hasher, data: &[u8])
    ensures
        absorbed(*final(h)) == absorbed(*old(h)) + data@,
{
    h.update(data);
}

/// `blake3::Hasher::finalize`: the 32-byte hash of the bytes taken in, the same
/// that `blake3::hash` gives for them. Nothing is said of a state whose input offset was moved,
/// which no function here can make.
#[verifier::external_body]
pub(crate) fn hasher_finalize(h: &blake3::Hasher) -> (d: [u8; 32])
    ensures
        d@ == blake3_hash(absorbed(*h)),
{
    *h.finalize().as_bytes()
}

} // verus!
