//! SHA-256.
use sha2::{Digest, Sha256};
use vstd::prelude::*;

verus! {

/// The hasher of `sha2`, which takes bytes in piece by piece.
#[verifier::external_type_specification]
#[verifier::external_body]
pub struct ExSha256(Sha256);

/// The SHA-256 of some bytes.
pub uninterp spec fn sha256(bytes: Seq<u8>) -> Seq<u8>;

/// The bytes that a hasher has collected.
pub uninterp spec fn collected(hasher: Sha256) -> Seq<u8>;

/// `sha2::Sha256::new`: a hasher that has collected nothing.
#[verifier::external_body]
pub(crate) fn new_hasher() -> (r: Sha256)
    ensures
        collected(r) == Seq::<u8>::empty(),
{
    Sha256::new()
}

/// `sha2::Sha256::update`: the bytes come behind those that the hasher has
/// collected.
#[verifier::external_body]
pub(crate) fn collect_bytes(hasher: &mut Sha256, bytes: &[u8])
    ensures
        collected(*final(hasher)) == collected(*old(hasher)) + bytes@,
{
    hasher.update(bytes);
}

/// `sha2::Sha256::finalize`, on a copy: a function of the collected bytes alone,
/// thirty-two bytes long.
#[verifier::external_body]
pub(crate) fn digest_of(hasher: &Sha256) -> (r: Vec<u8>)
    ensures
        r@ == sha256(collected(*hasher)),
        r@.len() == 32,
{
    hasher.clone().finalize().to_vec()
}

} // verus!
