//! What a validator signs with and is known by: single signatures, aggregate
//! signatures and decoded public keys.
use crate::base_types::{AuthorityPublicKeyBytes, AUTHORITY_PUBLIC_KEY_LENGTH};
use crate::bls::{
    bls_add_aggregate, bls_add_aggregate_spec, bls_add_signature, bls_add_signature_spec,
    bls_default_aggregate, bls_public_key_decodes, bls_public_key_decodes_spec, bls_sign,
    bls_sign_spec, bls_verify, bls_verify_spec, infinity_signature, BLS_SIGNATURE_LENGTH,
};
use crate::error::{SuiError, SuiResult};
use crate::keys::AuthorityKeyPair;
use crate::signable::Signable;
use vstd::prelude::*;

verus! {

/// The public key of a validator, decoded once from the validator's name.
///
/// Every value of this type holds bytes that decode to a key.
#[derive(Clone, Copy, Debug)]
pub struct AuthorityPublicKey {
    pub(crate) bytes: [u8; AUTHORITY_PUBLIC_KEY_LENGTH],
}

impl View for AuthorityPublicKey {
    type V = Seq<u8>;

    closed spec fn view(&self) -> Seq<u8> {
        self.bytes@
    }
}

impl AuthorityPublicKey {
    /// Every key holds bytes that decode.
    #[verifier::type_invariant]
    pub open spec fn decodes(&self) -> bool {
        bls_public_key_decodes_spec(self@)
    }

    /// What [`AuthorityPublicKey::try_from_bytes`] answers on `name`, seen
    /// through the key's bytes.
    pub open spec fn parse_spec(name: Seq<u8>) -> SuiResult<Seq<u8>> {
        if bls_public_key_decodes_spec(name) {
            Ok(name)
        } else {
            Err(SuiError::InvalidAddress)
        }
    }

    /// Decodes the key that `name` encodes; `InvalidAddress` if it encodes none.
    pub fn try_from_bytes(name: &AuthorityPublicKeyBytes) -> (result: SuiResult<
        AuthorityPublicKey,
    >)
        ensures
            bls_public_key_decodes_spec(name@) ==> result is Ok && result.unwrap()@ == name@,
            !bls_public_key_decodes_spec(name@) ==> result == Err::<AuthorityPublicKey, SuiError>(
                SuiError::InvalidAddress,
            ),
    {
        if bls_public_key_decodes(&name.0) {
            Ok(AuthorityPublicKey { bytes: name.0 })
        } else {
            Err(SuiError::InvalidAddress)
        }
    }

    /// The encoded key.
    pub fn as_bytes(&self) -> (out: &[u8])
        ensures
            out@ == self@,
            bls_public_key_decodes_spec(self@),
    {
        proof {
            use_type_invariant(self);
        }
        self.bytes.as_slice()
    }

    /// The name of the validator that owns this key.
    pub fn to_name(&self) -> (name: AuthorityPublicKeyBytes)
        ensures
            name@ == self@,
            bls_public_key_decodes_spec(name@),
    {
        proof {
            use_type_invariant(self);
        }
        AuthorityPublicKeyBytes(self.bytes)
    }
}

/// One validator's signature, in compressed form. Nothing here promises that
/// the bytes decode; a signature that does not is rejected where it is used.
#[derive(Clone, Copy, Debug)]
pub struct AuthoritySignature(pub [u8; BLS_SIGNATURE_LENGTH]);

impl View for AuthoritySignature {
    type V = Seq<u8>;

    open spec fn view(&self) -> Seq<u8> {
        self.0@
    }
}

/// What a validator's signature type can do: be made over a message with a
/// key pair, and be checked against the signer's name.
pub trait SuiAuthoritySignature: Sized {
    /// Whether the value is what `secret` signs over `message`.
    spec fn signed_by(&self, secret: AuthorityKeyPair, message: Seq<u8>) -> bool;

    /// What [`SuiAuthoritySignature::verify`] answers.
    spec fn verify_spec(&self, message: Seq<u8>, author: Seq<u8>) -> SuiResult<()>;

    /// Signs the canonical bytes of `value` with `secret`.
    fn new<T: Signable<Vec<u8>>>(value: &T, secret: &AuthorityKeyPair) -> (signature: Self)
        ensures
            signature.signed_by(*secret, value.signable_bytes()),
    ;

    /// Checks the signature over the canonical bytes of `value` under the
    /// key that `author` names.
    fn verify<T: Signable<Vec<u8>>>(&self, value: &T, author: AuthorityPublicKeyBytes) -> (result:
        SuiResult<()>)
        ensures
            result == self.verify_spec(value.signable_bytes(), author@),
    ;
}

impl SuiAuthoritySignature for AuthoritySignature {
    open spec fn signed_by(&self, secret: AuthorityKeyPair, message: Seq<u8>) -> bool {
        self@ == bls_sign_spec(secret.secret_bytes(), message)
    }

    /// `InvalidAddress` if `author` encodes no key; otherwise
    /// `InvalidSignature` unless the signature is valid under that key.
    open spec fn verify_spec(&self, message: Seq<u8>, author: Seq<u8>) -> SuiResult<()> {
        if !bls_public_key_decodes_spec(author) {
            Err(SuiError::InvalidAddress)
        } else if bls_verify_spec(author, message, self@) {
            Ok(())
        } else {
            Err(SuiError::InvalidSignature)
        }
    }

    fn new<T: Signable<Vec<u8>>>(value: &T, secret: &AuthorityKeyPair) -> (signature: Self) {
        let mut message: Vec<u8> = Vec::new();
        value.write(&mut message);
        assert(message@ =~= value.signable_bytes());
        match bls_sign(secret.secret_array(), message.as_slice()) {
            Some(bytes) => AuthoritySignature(bytes),
            None => vstd::pervasive::unreached(),
        }
    }

    fn verify<T: Signable<Vec<u8>>>(&self, value: &T, author: AuthorityPublicKeyBytes) -> (result:
        SuiResult<()>) {
        if !bls_public_key_decodes(&author.0) {
            return Err(SuiError::InvalidAddress);
        }
        let mut message: Vec<u8> = Vec::new();
        value.write(&mut message);
        assert(message@ =~= value.signable_bytes());
        if bls_verify(&author.0, message.as_slice(), &self.0) {
            Ok(())
        } else {
            Err(SuiError::InvalidSignature)
        }
    }
}

/// The aggregate of any number of validators' signatures, in compressed form.
#[derive(Clone, Copy, Debug)]
pub struct AggregateAuthoritySignature(pub [u8; BLS_SIGNATURE_LENGTH]);

impl View for AggregateAuthoritySignature {
    type V = Seq<u8>;

    open spec fn view(&self) -> Seq<u8> {
        self.0@
    }
}

impl Default for AggregateAuthoritySignature {
    /// The aggregate of no signatures.
    fn default() -> (aggregate: Self)
        ensures
            aggregate@ == infinity_signature(),
    {
        AggregateAuthoritySignature(bls_default_aggregate())
    }
}

impl AggregateAuthoritySignature {
    /// Adds one validator's signature to the aggregate. On failure the
    /// aggregate is left as it was.
    pub fn add_signature(&mut self, signature: &AuthoritySignature) -> (result: SuiResult<()>)
        ensures
            match bls_add_signature_spec(old(self)@, signature@) {
                Some(sum) => result == Ok::<(), SuiError>(()) && final(self)@ == sum,
                None => result == Err::<(), SuiError>(SuiError::InvalidSignature) && *final(self)
                    == *old(self),
            },
    {
        match bls_add_signature(&self.0, &signature.0) {
            Some(sum) => {
                self.0 = sum;
                Ok(())
            },
            None => Err(SuiError::InvalidSignature),
        }
    }

    /// Adds another aggregate to this one. On failure the aggregate is left
    /// as it was.
    pub fn add_aggregate(&mut self, other: &AggregateAuthoritySignature) -> (result: SuiResult<()>)
        ensures
            match bls_add_aggregate_spec(old(self)@, other@) {
                Some(sum) => result == Ok::<(), SuiError>(()) && final(self)@ == sum,
                None => result == Err::<(), SuiError>(SuiError::InvalidSignature) && *final(self)
                    == *old(self),
            },
    {
        match bls_add_aggregate(&self.0, &other.0) {
            Some(sum) => {
                self.0 = sum;
                Ok(())
            },
            None => Err(SuiError::InvalidSignature),
        }
    }
}

} // verus!
