//! Key pairs of accounts and validators, and their generation.
use crate::base_types::{
    address_of, AuthorityPublicKeyBytes, SuiAddress, AUTHORITY_PUBLIC_KEY_LENGTH,
};
use crate::bls::{
    bls_generate, bls_private_key_decodes_spec, bls_public_key, bls_public_key_spec,
    BLS_PRIVATE_KEY_LENGTH,
};
use crate::bytes::to_array;
use crate::ed25519::{
    ed25519_generate, ed25519_public_key, ed25519_public_key_spec, ED25519_PRIVATE_KEY_LENGTH,
    ED25519_PUBLIC_KEY_LENGTH,
};
use crate::error::{SuiError, SuiResult};
use rand::rngs::StdRng;
use rand::SeedableRng;
use vstd::prelude::*;

verus! {

/// The standard random number generator of the `rand` crate; key generation
/// draws from it.
#[verifier::external_type_specification]
#[verifier::external_body]
pub struct ExStdRng(StdRng);

/// `SeedableRng::from_entropy` for `StdRng`: a generator seeded by the
/// operating system. Nothing is known about what it will yield.
#[verifier::external_body]
pub(crate) fn rng_from_entropy() -> (rng: StdRng) {
    StdRng::from_entropy()
}

/// A key pair of some signature scheme, held as the bytes of its two keys.
pub trait SuiKeyPair: Sized {
    /// The private key.
    spec fn secret_spec(&self) -> Seq<u8>;

    /// The public key.
    spec fn public_spec(&self) -> Seq<u8>;

    /// Whether `bytes` are a private key of the scheme.
    spec fn decodable(bytes: Seq<u8>) -> bool;

    /// The public key that the scheme derives from a private key.
    spec fn derived_public(secret: Seq<u8>) -> Seq<u8>;

    /// A fresh pair drawn from `rng`.
    fn generate(rng: &mut StdRng) -> (pair: Self)
        ensures
            Self::decodable(pair.secret_spec()),
            pair.public_spec() == Self::derived_public(pair.secret_spec()),
    ;

    /// The pair of the private key `bytes`, if `bytes` are one.
    fn generate_from_bytes(bytes: &[u8]) -> (pair: Option<Self>)
        ensures
            pair is Some <==> Self::decodable(bytes@),
            pair is Some ==> pair.unwrap().secret_spec() == bytes@ && pair.unwrap().public_spec()
                == Self::derived_public(bytes@),
    ;

    /// The address of the account that the public key owns.
    fn sui_address(&self) -> (address: SuiAddress)
        ensures
            address@ == address_of(self.public_spec()),
    ;
}

/// `num` fresh key pairs, drawn from one generator that the operating
/// system seeds.
pub fn random_key_pairs<K: SuiKeyPair>(num: usize) -> (pairs: Vec<K>)
    ensures
        pairs@.len() == num,
        forall|i: int|
            0 <= i < num ==> K::decodable((#[trigger] pairs@[i]).secret_spec())
                && pairs@[i].public_spec() == K::derived_public(pairs@[i].secret_spec()),
{
    let mut rng = rng_from_entropy();
    let mut pairs: Vec<K> = Vec::new();
    let mut items: usize = num;
    while items != 0
        invariant
            items <= num,
            pairs@.len() == num - items,
            forall|i: int|
                0 <= i < pairs@.len() ==> K::decodable((#[trigger] pairs@[i]).secret_spec())
                    && pairs@[i].public_spec() == K::derived_public(pairs@[i].secret_spec()),
        decreases items,
    {
        items -= 1;
        let (_, pair) = get_key_pair_from_rng::<K>(&mut rng);
        pairs.push(pair);
    }
    pairs
}

/// A fresh key pair and its address, drawn from a generator that the
/// operating system seeds.
pub fn get_key_pair<K: SuiKeyPair>() -> (generated: (SuiAddress, K))
    ensures
        K::decodable(generated.1.secret_spec()),
        generated.1.public_spec() == K::derived_public(generated.1.secret_spec()),
        generated.0@ == address_of(generated.1.public_spec()),
{
    let mut rng = rng_from_entropy();
    get_key_pair_from_rng(&mut rng)
}

/// A fresh key pair and its address, drawn from `csprng`. Seed the generator
/// to get the same pair again.
pub fn get_key_pair_from_rng<K: SuiKeyPair>(csprng: &mut StdRng) -> (generated: (SuiAddress, K))
    ensures
        K::decodable(generated.1.secret_spec()),
        generated.1.public_spec() == K::derived_public(generated.1.secret_spec()),
        generated.0@ == address_of(generated.1.public_spec()),
{
    let kp = K::generate(csprng);
    (kp.sui_address(), kp)
}

/// The key pair of the private key `bytes` and its address;
/// `InvalidKeypair` if `bytes` are no private key of the scheme.
pub fn get_key_pair_from_bytes<K: SuiKeyPair>(bytes: &[u8]) -> (result: SuiResult<(SuiAddress, K)>)
    ensures
        K::decodable(bytes@) ==> result is Ok && result.unwrap().1.secret_spec() == bytes@
            && result.unwrap().1.public_spec() == K::derived_public(bytes@) && result.unwrap().0@
            == address_of(K::derived_public(bytes@)),
        !K::decodable(bytes@) ==> result is Err && result->Err_0 == SuiError::InvalidKeypair,
{
    match K::generate_from_bytes(bytes) {
        Some(kp) => Ok((kp.sui_address(), kp)),
        None => Err(SuiError::InvalidKeypair),
    }
}

/// An Ed25519 key pair, as accounts use it.
pub struct AccountKeyPair {
    secret: [u8; ED25519_PRIVATE_KEY_LENGTH],
    public: [u8; ED25519_PUBLIC_KEY_LENGTH],
}

impl AccountKeyPair {
    #[verifier::type_invariant]
    spec fn matching(&self) -> bool {
        self.public@ == ed25519_public_key_spec(self.secret@)
    }

    /// The private key.
    pub closed spec fn secret_bytes(&self) -> Seq<u8> {
        self.secret@
    }

    /// The public key.
    pub closed spec fn public_bytes(&self) -> Seq<u8> {
        self.public@
    }

    /// The pair that belongs to the private key `secret`.
    pub fn from_secret(secret: [u8; ED25519_PRIVATE_KEY_LENGTH]) -> (pair: AccountKeyPair)
        ensures
            pair.secret_bytes() == secret@,
            pair.public_bytes() == ed25519_public_key_spec(secret@),
    {
        match ed25519_public_key(&secret) {
            Some(public) => AccountKeyPair { secret, public },
            None => vstd::pervasive::unreached(),
        }
    }

    /// The private key.
    pub fn secret_array(&self) -> (out: &[u8; ED25519_PRIVATE_KEY_LENGTH])
        ensures
            out@ == self.secret_bytes(),
    {
        &self.secret
    }

    /// The public key, which is the one that belongs to the private key.
    pub fn public_key_array(&self) -> (out: [u8; ED25519_PUBLIC_KEY_LENGTH])
        ensures
            out@ == self.public_bytes(),
            out@ == ed25519_public_key_spec(self.secret_bytes()),
    {
        proof {
            use_type_invariant(self);
        }
        self.public
    }
}

impl SuiKeyPair for AccountKeyPair {
    open spec fn secret_spec(&self) -> Seq<u8> {
        self.secret_bytes()
    }

    open spec fn public_spec(&self) -> Seq<u8> {
        self.public_bytes()
    }

    /// Every 32 bytes are an Ed25519 private key.
    open spec fn decodable(bytes: Seq<u8>) -> bool {
        bytes.len() == ED25519_PRIVATE_KEY_LENGTH
    }

    open spec fn derived_public(secret: Seq<u8>) -> Seq<u8> {
        ed25519_public_key_spec(secret)
    }

    fn generate(rng: &mut StdRng) -> (pair: Self) {
        AccountKeyPair::from_secret(ed25519_generate(rng))
    }

    fn generate_from_bytes(bytes: &[u8]) -> (pair: Option<Self>) {
        match to_array::<ED25519_PRIVATE_KEY_LENGTH>(bytes) {
            Some(secret) => Some(AccountKeyPair::from_secret(secret)),
            None => None,
        }
    }

    fn sui_address(&self) -> (address: SuiAddress) {
        let public = self.public_key_array();
        SuiAddress::from_public_key_bytes(public.as_slice())
    }
}

/// A BLS12-381 key pair, as validators use it.
pub struct AuthorityKeyPair {
    secret: [u8; BLS_PRIVATE_KEY_LENGTH],
    public: [u8; AUTHORITY_PUBLIC_KEY_LENGTH],
}

impl AuthorityKeyPair {
    #[verifier::type_invariant]
    spec fn matching(&self) -> bool {
        bls_private_key_decodes_spec(self.secret@) && self.public@ == bls_public_key_spec(
            self.secret@,
        )
    }

    /// The private key.
    pub closed spec fn secret_bytes(&self) -> Seq<u8> {
        self.secret@
    }

    /// The public key.
    pub closed spec fn public_bytes(&self) -> Seq<u8> {
        self.public@
    }

    /// The pair that belongs to the private key `secret`, if `secret`
    /// decodes to a private key.
    pub fn from_secret(secret: [u8; BLS_PRIVATE_KEY_LENGTH]) -> (pair: Option<AuthorityKeyPair>)
        ensures
            pair is Some <==> bls_private_key_decodes_spec(secret@),
            pair is Some ==> pair.unwrap().secret_bytes() == secret@
                && pair.unwrap().public_bytes() == bls_public_key_spec(secret@),
    {
        match bls_public_key(&secret) {
            Some(public) => Some(AuthorityKeyPair { secret, public }),
            None => None,
        }
    }

    /// The private key, which decodes.
    pub fn secret_array(&self) -> (out: &[u8; BLS_PRIVATE_KEY_LENGTH])
        ensures
            out@ == self.secret_bytes(),
            bls_private_key_decodes_spec(out@),
    {
        proof {
            use_type_invariant(self);
        }
        &self.secret
    }

    /// The validator name that belongs to this pair.
    pub fn public_key_bytes(&self) -> (name: AuthorityPublicKeyBytes)
        ensures
            name@ == self.public_bytes(),
            name@ == bls_public_key_spec(self.secret_bytes()),
    {
        proof {
            use_type_invariant(self);
        }
        AuthorityPublicKeyBytes(self.public)
    }
}

impl SuiKeyPair for AuthorityKeyPair {
    open spec fn secret_spec(&self) -> Seq<u8> {
        self.secret_bytes()
    }

    open spec fn public_spec(&self) -> Seq<u8> {
        self.public_bytes()
    }

    open spec fn decodable(bytes: Seq<u8>) -> bool {
        bytes.len() == BLS_PRIVATE_KEY_LENGTH && bls_private_key_decodes_spec(bytes)
    }

    open spec fn derived_public(secret: Seq<u8>) -> Seq<u8> {
        bls_public_key_spec(secret)
    }

    fn generate(rng: &mut StdRng) -> (pair: Self) {
        match AuthorityKeyPair::from_secret(bls_generate(rng)) {
            Some(pair) => pair,
            None => vstd::pervasive::unreached(),
        }
    }

    fn generate_from_bytes(bytes: &[u8]) -> (pair: Option<Self>) {
        match to_array::<BLS_PRIVATE_KEY_LENGTH>(bytes) {
            Some(secret) => AuthorityKeyPair::from_secret(secret),
            None => None,
        }
    }

    fn sui_address(&self) -> (address: SuiAddress) {
        self.public_key_bytes().into_sui_address()
    }
}

} // verus!
