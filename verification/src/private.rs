//! Seals the set of attestation kinds.
use vstd::prelude::*;

verus! {

/// Implemented by the attestation kinds of this crate and by nothing else.
pub trait SealedAuthoritySignInfoTrait {

}

} // verus!
