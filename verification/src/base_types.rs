//! Identities: account addresses and validator names.
use crate::bls::BLS_PUBLIC_KEY_LENGTH;
use crate::bytes::bytes_eq;
use crate::hash::{sha3_256, sha3_256_spec};
use vstd::prelude::*;

verus! {

/// Length in bytes of an account address.
pub const SUI_ADDRESS_LENGTH: usize = 20;

/// Length in bytes of a validator's encoded public key, which is its name.
pub const AUTHORITY_PUBLIC_KEY_LENGTH: usize = BLS_PUBLIC_KEY_LENGTH;

/// The address that belongs to an encoded public key: the leading
/// `SUI_ADDRESS_LENGTH` bytes of the key's SHA3-256 digest.
pub open spec fn address_of(public_key: Seq<u8>) -> Seq<u8> {
    sha3_256_spec(public_key).subrange(0, SUI_ADDRESS_LENGTH as int)
}

/// An account identity, derived from the account's public key.
#[derive(Clone, Copy, Debug)]
pub struct SuiAddress(pub [u8; SUI_ADDRESS_LENGTH]);

impl View for SuiAddress {
    type V = Seq<u8>;

    open spec fn view(&self) -> Seq<u8> {
        self.0@
    }
}

impl SuiAddress {
    /// Derives the address of the account that owns `public_key`.
    pub fn from_public_key_bytes(public_key: &[u8]) -> (address: SuiAddress)
        ensures
            address@ == address_of(public_key@),
    {
        let digest = sha3_256(public_key);
        let mut bytes = [0u8; SUI_ADDRESS_LENGTH];
        let mut i: usize = 0;
        while i < SUI_ADDRESS_LENGTH
            invariant
                i <= SUI_ADDRESS_LENGTH,
                forall|j: int| 0 <= j < i ==> bytes@[j] == digest@[j],
            decreases SUI_ADDRESS_LENGTH - i,
        {
            bytes[i] = digest[i];
            i += 1;
        }
        assert(bytes@ =~= digest@.subrange(0, SUI_ADDRESS_LENGTH as int));
        SuiAddress(bytes)
    }

    /// The address as bytes.
    pub fn as_bytes(&self) -> (out: &[u8])
        ensures
            out@ == self@,
    {
        self.0.as_slice()
    }

    /// Whether two addresses hold the same bytes.
    pub fn same_as(&self, other: &SuiAddress) -> (same: bool)
        ensures
            same == (self@ == other@),
    {
        bytes_eq(self.0.as_slice(), other.0.as_slice())
    }
}

/// The encoded public key of a validator. It names the validator within an
/// epoch; nothing here promises that the bytes decode to a key.
#[derive(Clone, Copy, Debug)]
pub struct AuthorityPublicKeyBytes(pub [u8; AUTHORITY_PUBLIC_KEY_LENGTH]);

/// A validator is named by its encoded public key.
pub type AuthorityName = AuthorityPublicKeyBytes;

impl View for AuthorityPublicKeyBytes {
    type V = Seq<u8>;

    open spec fn view(&self) -> Seq<u8> {
        self.0@
    }
}

impl AuthorityPublicKeyBytes {
    /// The name as bytes.
    pub fn as_bytes(&self) -> (out: &[u8])
        ensures
            out@ == self@,
    {
        self.0.as_slice()
    }

    /// Whether two names hold the same bytes.
    pub fn same_as(&self, other: &AuthorityPublicKeyBytes) -> (same: bool)
        ensures
            same == (self@ == other@),
    {
        bytes_eq(self.0.as_slice(), other.0.as_slice())
    }

    /// The account address that belongs to this key.
    pub fn into_sui_address(&self) -> (address: SuiAddress)
        ensures
            address@ == address_of(self@),
    {
        SuiAddress::from_public_key_bytes(self.0.as_slice())
    }
}

} // verus!
