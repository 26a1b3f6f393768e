//! SHA3-256, computed by the `sha3` crate.
use digest::Digest;
use sha3::Sha3_256;
use vstd::prelude::*;

verus! {

/// Length in bytes of a SHA3-256 digest.
pub const SHA3_256_LENGTH: usize = 32;

/// A SHA3-256 computation in progress: a `sha3::Sha3_256` and nothing else.
#[verifier::external_body]
pub struct Sha3Hasher {
    inner: Sha3_256,
}

/// The bytes that a hasher has taken in so far, in order.
pub uninterp spec fn hasher_input(hasher: Sha3Hasher) -> Seq<u8>;

/// The SHA3-256 digest of `data`.
pub uninterp spec fn sha3_256_spec(data: Seq<u8>) -> Seq<u8>;

/// `Sha3_256::default()`: a hasher that has taken in nothing.
#[verifier::external_body]
pub(crate) fn sha3_new() -> (hasher: Sha3Hasher)
    ensures
        hasher_input(hasher) == Seq::<u8>::empty(),
{
    Sha3Hasher { inner: Sha3_256::default() }
}

/// `Digest::update`: the hasher takes in `data` behind what it has.
#[verifier::external_body]
pub(crate) fn sha3_update(hasher: &mut Sha3Hasher, data: &[u8])
    ensures
        hasher_input(*final(hasher)) == hasher_input(*old(hasher)) + data@,
{
    hasher.inner.update(data);
}

/// `Digest::finalize`: the digest of everything the hasher has taken in. It
/// depends on those bytes alone; the contract only names it.
#[verifier::external_body]
pub(crate) fn sha3_finalize(hasher: Sha3Hasher) -> (digest: [u8; SHA3_256_LENGTH])
    ensures
        digest@ == sha3_256_spec(hasher_input(hasher)),
{
    hasher.inner.finalize().into()
}

/// The SHA3-256 digest of `data`.
pub fn sha3_256(data: &[u8]) -> (digest: [u8; SHA3_256_LENGTH])
    ensures
        digest@ == sha3_256_spec(data@),
{
    let mut hasher = sha3_new();
    sha3_update(&mut hasher, data);
    assert(hasher_input(hasher) =~= data@);
    sha3_finalize(hasher)
}

} // verus!
