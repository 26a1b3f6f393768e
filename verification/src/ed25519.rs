//! The Ed25519 scheme that accounts sign with, as `fastcrypto` implements it.
use fastcrypto::ed25519::{Ed25519KeyPair, Ed25519PublicKey, Ed25519Signature};
use fastcrypto::traits::{KeyPair, Signer, ToFromBytes, VerifyingKey};
use rand::rngs::StdRng;
use vstd::prelude::*;

verus! {

/// Length in bytes of an Ed25519 private key.
pub const ED25519_PRIVATE_KEY_LENGTH: usize = 32;

/// Length in bytes of an Ed25519 public key.
pub const ED25519_PUBLIC_KEY_LENGTH: usize = 32;

/// Length in bytes of an Ed25519 signature.
pub const ED25519_SIGNATURE_LENGTH: usize = 64;

/// Whether `signature` is accepted for `message` under `public_key`: both
/// decode and `Ed25519PublicKey::verify` succeeds.
pub uninterp spec fn ed25519_verify_spec(
    public_key: Seq<u8>,
    message: Seq<u8>,
    signature: Seq<u8>,
) -> bool;

/// The signature that the private key `secret` makes over `message`.
pub uninterp spec fn ed25519_sign_spec(secret: Seq<u8>, message: Seq<u8>) -> Seq<u8>;

/// The public key that belongs to the private key `secret`.
pub uninterp spec fn ed25519_public_key_spec(secret: Seq<u8>) -> Seq<u8>;

/// Decodes the key with `Ed25519PublicKey::from_bytes` and the signature with
/// `Ed25519Signature::from_bytes`, then calls `VerifyingKey::verify`. The
/// answer is `true` only if all three succeed; it depends on the three byte
/// strings alone, and the contract only names it.
#[verifier::external_body]
pub(crate) fn ed25519_verify(
    public_key: &[u8; ED25519_PUBLIC_KEY_LENGTH],
    message: &[u8],
    signature: &[u8; ED25519_SIGNATURE_LENGTH],
) -> (valid: bool)
    ensures
        valid == ed25519_verify_spec(public_key@, message@, signature@),
{
    match (Ed25519PublicKey::from_bytes(public_key), Ed25519Signature::from_bytes(signature)) {
        (Ok(key), Ok(sig)) => key.verify(message, &sig).is_ok(),
        _ => false,
    }
}

/// Rebuilds the key pair with `Ed25519KeyPair::from_bytes` and signs with
/// `Signer::sign`. Signing is deterministic, so the signature is named by the
/// private key and the message. A 32-byte private key always decodes, hence
/// the result is never `None`.
#[verifier::external_body]
pub(crate) fn ed25519_sign(secret: &[u8; ED25519_PRIVATE_KEY_LENGTH], message: &[u8]) -> (signature:
    Option<[u8; ED25519_SIGNATURE_LENGTH]>)
    ensures
        signature is Some,
        signature.unwrap()@ == ed25519_sign_spec(secret@, message@),
{
    Ed25519KeyPair::from_bytes(secret).ok().map(|pair| pair.sign(message).sig.to_bytes())
}

/// Rebuilds the key pair with `Ed25519KeyPair::from_bytes` and reads its
/// public half (`KeyPair::public`). A 32-byte private key always decodes,
/// hence the result is never `None`.
#[verifier::external_body]
pub(crate) fn ed25519_public_key(secret: &[u8; ED25519_PRIVATE_KEY_LENGTH]) -> (public: Option<
    [u8; ED25519_PUBLIC_KEY_LENGTH],
>)
    ensures
        public is Some,
        public.unwrap()@ == ed25519_public_key_spec(secret@),
{
    Ed25519KeyPair::from_bytes(secret).ok().map(|pair| pair.public().0.to_bytes())
}

/// Draws a fresh key pair from `rng` with `Ed25519KeyPair::generate` and
/// returns its private key. Which key comes out depends on the generator's
/// state, so nothing is promised about it.
#[verifier::external_body]
pub(crate) fn ed25519_generate(rng: &mut StdRng) -> (secret: [u8; ED25519_PRIVATE_KEY_LENGTH]) {
    Ed25519KeyPair::generate(rng).private().0.to_bytes()
}

} // verus!
