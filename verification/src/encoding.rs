//! Base64 text for bytes, made by the `base64ct` crate.
use base64ct::{Base64, Encoding};
use vstd::prelude::*;

verus! {

/// The standard, padded Base64 text of `bytes`.
pub uninterp spec fn base64_spec(bytes: Seq<u8>) -> Seq<char>;

/// `Base64::encode_string`: the padded Base64 text of `bytes`. The text
/// depends on `bytes` alone; the contract only names it. The outside
/// function refuses inputs longer than a quarter of the address space.
#[verifier::external_body]
pub(crate) fn base64_encode(bytes: &[u8]) -> (text: String)
    requires
        bytes@.len() <= usize::MAX / 4,
    ensures
        text@ == base64_spec(bytes@),
{
    Base64::encode_string(bytes)
}

} // verus!
