//! The BLS12-381 scheme that validators sign with (signatures in G1, public
//! keys in G2), as `fastcrypto` implements it.
use crate::authority::{AggregateAuthoritySignature, AuthorityPublicKey, AuthoritySignature};
use fastcrypto::bls12381::min_sig::{
    BLS12381AggregateSignature, BLS12381KeyPair, BLS12381PrivateKey, BLS12381PublicKey,
    BLS12381Signature,
};
use fastcrypto::traits::{AggregateAuthenticator, KeyPair, Signer, ToFromBytes, VerifyingKey};
use rand::rngs::StdRng;
use vstd::prelude::*;

verus! {

/// Length in bytes of a BLS12-381 private key.
pub const BLS_PRIVATE_KEY_LENGTH: usize = 32;

/// Length in bytes of a compressed BLS12-381 public key.
pub const BLS_PUBLIC_KEY_LENGTH: usize = 96;

/// Length in bytes of a compressed BLS12-381 signature, single or aggregate.
pub const BLS_SIGNATURE_LENGTH: usize = 48;

/// The plain bytes of an optional byte array.
pub open spec fn bytes_of<const N: usize>(value: Option<[u8; N]>) -> Option<Seq<u8>> {
    match value {
        Some(bytes) => Some(bytes@),
        None => None,
    }
}

/// The byte strings that a list of signatures holds, in order.
pub open spec fn signature_bytes(signatures: Seq<AuthoritySignature>) -> Seq<Seq<u8>> {
    Seq::new(signatures.len(), |i: int| signatures[i]@)
}

/// The compressed encoding of the point at infinity, which is the aggregate
/// of no signatures.
pub open spec fn infinity_signature() -> Seq<u8> {
    Seq::new(BLS_SIGNATURE_LENGTH as nat, |i: int| if i == 0 { 0xc0u8 } else { 0u8 })
}

/// Whether `bytes` decode to a public key.
pub uninterp spec fn bls_public_key_decodes_spec(bytes: Seq<u8>) -> bool;

/// Whether `signature` is accepted for `message` under `public_key`: both
/// decode and `BLS12381PublicKey::verify` succeeds.
pub uninterp spec fn bls_verify_spec(
    public_key: Seq<u8>,
    message: Seq<u8>,
    signature: Seq<u8>,
) -> bool;

/// Whether `bytes` decode to a private key.
pub uninterp spec fn bls_private_key_decodes_spec(bytes: Seq<u8>) -> bool;

/// The signature that the private key `secret` makes over `message`;
/// meaningful where `secret` decodes.
pub uninterp spec fn bls_sign_spec(secret: Seq<u8>, message: Seq<u8>) -> Seq<u8>;

/// The public key that belongs to the private key `secret`; meaningful where
/// `secret` decodes.
pub uninterp spec fn bls_public_key_spec(secret: Seq<u8>) -> Seq<u8>;

/// The aggregate of `signatures`, if all of them decode and there is at
/// least one.
pub uninterp spec fn bls_aggregate_spec(signatures: Seq<Seq<u8>>) -> Option<Seq<u8>>;

/// The aggregate `aggregate` with the single `signature` added, if both decode.
pub uninterp spec fn bls_add_signature_spec(aggregate: Seq<u8>, signature: Seq<u8>) -> Option<
    Seq<u8>,
>;

/// The aggregate `aggregate` with the aggregate `other` added, if both decode.
pub uninterp spec fn bls_add_aggregate_spec(aggregate: Seq<u8>, other: Seq<u8>) -> Option<
    Seq<u8>,
>;

/// Reports whether `BLS12381PublicKey::from_bytes` accepts `bytes`. The
/// answer depends on `bytes` alone; the contract only names it.
#[verifier::external_body]
pub(crate) fn bls_public_key_decodes(bytes: &[u8; BLS_PUBLIC_KEY_LENGTH]) -> (decodes: bool)
    ensures
        decodes == bls_public_key_decodes_spec(bytes@),
{
    BLS12381PublicKey::from_bytes(bytes).is_ok()
}

/// Decodes the key with `BLS12381PublicKey::from_bytes` and the signature
/// with `BLS12381Signature::from_bytes`, then calls `VerifyingKey::verify`.
/// The answer is `true` only if all three succeed; it depends on the three
/// byte strings alone, and the contract only names it.
#[verifier::external_body]
pub(crate) fn bls_verify(
    public_key: &[u8; BLS_PUBLIC_KEY_LENGTH],
    message: &[u8],
    signature: &[u8; BLS_SIGNATURE_LENGTH],
) -> (valid: bool)
    ensures
        valid == bls_verify_spec(public_key@, message@, signature@),
{
    match (BLS12381PublicKey::from_bytes(public_key), BLS12381Signature::from_bytes(signature)) {
        (Ok(key), Ok(sig)) => key.verify(message, &sig).is_ok(),
        _ => false,
    }
}

/// Decodes the private key with `BLS12381PrivateKey::from_bytes` and signs
/// with `Signer::sign`; `None` exactly if the key does not decode. Signing is
/// deterministic, so the signature is named by the key and the message.
#[verifier::external_body]
pub(crate) fn bls_sign(secret: &[u8; BLS_PRIVATE_KEY_LENGTH], message: &[u8]) -> (signature:
    Option<[u8; BLS_SIGNATURE_LENGTH]>)
    ensures
        signature is Some <==> bls_private_key_decodes_spec(secret@),
        signature is Some ==> signature.unwrap()@ == bls_sign_spec(secret@, message@),
{
    BLS12381PrivateKey::from_bytes(secret).ok().map(|key| key.sign(message).sig.to_bytes())
}

/// Rebuilds the key pair with `BLS12381KeyPair::from_bytes`, which decodes
/// the private key with `BLS12381PrivateKey::from_bytes`, and reads its
/// public half (`KeyPair::public`); `None` exactly if the private key does
/// not decode. The key depends on `secret` alone; the contract only names it.
#[verifier::external_body]
pub(crate) fn bls_public_key(secret: &[u8; BLS_PRIVATE_KEY_LENGTH]) -> (public: Option<
    [u8; BLS_PUBLIC_KEY_LENGTH],
>)
    ensures
        public is Some <==> bls_private_key_decodes_spec(secret@),
        public is Some ==> public.unwrap()@ == bls_public_key_spec(secret@),
{
    BLS12381KeyPair::from_bytes(secret).ok().map(|pair| pair.public().pubkey.to_bytes())
}

/// Draws a fresh key pair from `rng` with `BLS12381KeyPair::generate` and
/// returns its private key. Which key comes out depends on the generator's
/// state; whatever it is, it is a private key that decodes again, as
/// `KeyPair::private` itself relies on.
#[verifier::external_body]
pub(crate) fn bls_generate(rng: &mut StdRng) -> (secret: [u8; BLS_PRIVATE_KEY_LENGTH])
    ensures
        bls_private_key_decodes_spec(secret@),
{
    BLS12381KeyPair::generate(rng).private().privkey.to_bytes()
}

/// Decodes every signature with `BLS12381Signature::from_bytes` and combines
/// them with `BLS12381AggregateSignature::aggregate`; `None` if one does not
/// decode or aggregation fails. The outcome depends on the list alone and is
/// named; an empty list is always refused.
#[verifier::external_body]
pub(crate) fn bls_aggregate(signatures: &Vec<AuthoritySignature>) -> (aggregate: Option<
    [u8; BLS_SIGNATURE_LENGTH],
>)
    ensures
        bytes_of(aggregate) == bls_aggregate_spec(signature_bytes(signatures@)),
        signatures@.len() == 0 ==> aggregate is None,
{
    let parsed: Result<Vec<BLS12381Signature>, _> =
        signatures.iter().map(|s| BLS12381Signature::from_bytes(&s.0)).collect();
    parsed.and_then(|sigs| BLS12381AggregateSignature::aggregate(&sigs)).ok().map(
        |aggregate| aggregate.sig.to_bytes(),
    )
}

/// Decodes both arguments (`from_bytes`) and adds the single signature with
/// `AggregateAuthenticator::add_signature`; `None` if either does not decode
/// or the addition fails. The outcome depends on the two byte strings alone;
/// the contract only names it.
#[verifier::external_body]
pub(crate) fn bls_add_signature(
    aggregate: &[u8; BLS_SIGNATURE_LENGTH],
    signature: &[u8; BLS_SIGNATURE_LENGTH],
) -> (sum: Option<[u8; BLS_SIGNATURE_LENGTH]>)
    ensures
        bytes_of(sum) == bls_add_signature_spec(aggregate@, signature@),
{
    match (
        BLS12381AggregateSignature::from_bytes(aggregate),
        BLS12381Signature::from_bytes(signature),
    ) {
        (Ok(mut sum), Ok(sig)) => sum.add_signature(sig).ok().map(|_| sum.sig.to_bytes()),
        _ => None,
    }
}

/// Decodes both arguments (`from_bytes`) and adds the second aggregate with
/// `AggregateAuthenticator::add_aggregate`; `None` if either does not decode
/// or the addition fails. The outcome depends on the two byte strings alone;
/// the contract only names it.
#[verifier::external_body]
pub(crate) fn bls_add_aggregate(
    aggregate: &[u8; BLS_SIGNATURE_LENGTH],
    other: &[u8; BLS_SIGNATURE_LENGTH],
) -> (sum: Option<[u8; BLS_SIGNATURE_LENGTH]>)
    ensures
        bytes_of(sum) == bls_add_aggregate_spec(aggregate@, other@),
{
    match (
        BLS12381AggregateSignature::from_bytes(aggregate),
        BLS12381AggregateSignature::from_bytes(other),
    ) {
        (Ok(mut sum), Ok(more)) => sum.add_aggregate(more).ok().map(|_| sum.sig.to_bytes()),
        _ => None,
    }
}

/// The bytes of `BLS12381AggregateSignature::default()`, which is the point
/// at infinity in compressed form.
#[verifier::external_body]
pub(crate) fn bls_default_aggregate() -> (aggregate: [u8; BLS_SIGNATURE_LENGTH])
    ensures
        aggregate@ == infinity_signature(),
{
    BLS12381AggregateSignature::default().sig.to_bytes()
}

/// Decodes every aggregate and every key (`from_bytes`) and checks all
/// triples at once with `BLS12381AggregateSignature::batch_verify`; `false`
/// if anything does not decode or the check fails. The check draws random
/// coefficients, so its outcome is not named. One thing holds whatever they
/// are: a batch without entries is accepted.
#[verifier::external_body]
pub(crate) fn bls_batch_verify(
    signatures: &Vec<AggregateAuthoritySignature>,
    public_keys: &Vec<Vec<AuthorityPublicKey>>,
    messages: &Vec<Vec<u8>>,
) -> (accepted: bool)
    ensures
        signatures@.len() == 0 && public_keys@.len() == 0 && messages@.len() == 0 ==> accepted,
{
    let sigs: Option<Vec<_>> =
        signatures.iter().map(|s| BLS12381AggregateSignature::from_bytes(&s.0).ok()).collect();
    let keys: Option<Vec<Vec<_>>> = public_keys.iter().map(
        |list| list.iter().map(|k| BLS12381PublicKey::from_bytes(&k.bytes).ok()).collect()
    ).collect();
    let texts: Vec<_> = messages.iter().map(Vec::as_slice).collect();
    match (sigs, keys) {
        (Some(sigs), Some(keys)) => BLS12381AggregateSignature::batch_verify(
            &sigs.iter().collect::<Vec<_>>(),
            keys.iter().map(|list| list.iter()).collect(),
            &texts
        ).is_ok(),
        _ => false
    }
}

} // verus!
