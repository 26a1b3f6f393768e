//! Scheme-tagged account signatures.
//!
//! An encoded signature is `flag || signature || public key`. The two flag
//! bytes name the scheme, and the scheme fixes the length of the other two
//! parts, so flag and total length decide how the bytes are read.
use crate::base_types::{address_of, SuiAddress};
use crate::ed25519::{
    ed25519_sign, ed25519_sign_spec, ed25519_verify, ed25519_verify_spec,
    ED25519_PUBLIC_KEY_LENGTH, ED25519_SIGNATURE_LENGTH,
};
use crate::encoding::{base64_encode, base64_spec};
use crate::error::{SuiError, SuiResult};
use crate::keys::AccountKeyPair;
use crate::signable::Signable;
use vstd::prelude::*;
use vstd::slice::slice_subrange;
use vstd::string::StringExecFns;

verus! {

/// Number of bytes of the scheme flag that opens every encoded signature.
pub const FLAG_LENGTH: usize = 2;

/// The flag of the Ed25519 scheme.
pub const ED25519_FLAG: [u8; 2] = [0xed, 0x25];

/// Total length of an encoded Ed25519 signature.
pub const ED25519_SUI_SIGNATURE_LENGTH: usize = ED25519_PUBLIC_KEY_LENGTH
    + ED25519_SIGNATURE_LENGTH + FLAG_LENGTH;

/// The encoding of an Ed25519 signature made of the given parts.
pub open spec fn ed25519_encoding(signature: Seq<u8>, public_key: Seq<u8>) -> Seq<u8> {
    ED25519_FLAG@ + signature + public_key
}

/// An encoded Ed25519 signature together with the signer's public key.
///
/// The bytes are held as they came; only [`Signature::from_bytes`] looks at
/// the flag.
#[derive(Clone, Copy, Debug)]
pub struct Ed25519SuiSignature([u8; ED25519_SUI_SIGNATURE_LENGTH]);

impl View for Ed25519SuiSignature {
    type V = Seq<u8>;

    closed spec fn view(&self) -> Seq<u8> {
        self.0@
    }
}

impl Ed25519SuiSignature {
    /// The encoding always has the scheme's fixed length.
    pub proof fn lemma_length(self)
        ensures
            self@.len() == ED25519_SUI_SIGNATURE_LENGTH,
    {
    }

    /// Two values with the same encoding are the same value.
    pub proof fn lemma_view_injective(self, other: Self)
        requires
            self@ == other@,
        ensures
            self == other,
    {
        assert(self.0 =~= other.0);
    }

    /// The flag part of the encoding.
    pub open spec fn flag_bytes_spec(self) -> Seq<u8> {
        self@.subrange(0, FLAG_LENGTH as int)
    }

    /// The signature part of the encoding.
    pub open spec fn signature_bytes_spec(self) -> Seq<u8> {
        self@.subrange(FLAG_LENGTH as int, FLAG_LENGTH + ED25519_SIGNATURE_LENGTH)
    }

    /// The public-key part of the encoding.
    pub open spec fn public_key_bytes_spec(self) -> Seq<u8> {
        self@.subrange(
            FLAG_LENGTH + ED25519_SIGNATURE_LENGTH,
            ED25519_SUI_SIGNATURE_LENGTH as int,
        )
    }

    /// What [`Ed25519SuiSignature::verify`] answers.
    pub open spec fn verify_spec(self, message: Seq<u8>, author: Seq<u8>) -> SuiResult<()> {
        if address_of(self.public_key_bytes_spec()) != author {
            Err(SuiError::IncorrectSigner)
        } else if ed25519_verify_spec(
            self.public_key_bytes_spec(),
            message,
            self.signature_bytes_spec(),
        ) {
            Ok(())
        } else {
            Err(SuiError::InvalidSignature)
        }
    }

    /// The whole encoding.
    pub fn bytes(&self) -> (out: &[u8])
        ensures
            out@ == self@,
    {
        self.0.as_slice()
    }

    /// The leading `FLAG_LENGTH` bytes.
    pub fn flag_bytes(&self) -> (out: &[u8])
        ensures
            out@ == self.flag_bytes_spec(),
    {
        slice_subrange(self.0.as_slice(), 0, FLAG_LENGTH)
    }

    /// The bytes of the signature proper.
    pub fn signature_bytes(&self) -> (out: &[u8])
        ensures
            out@ == self.signature_bytes_spec(),
    {
        slice_subrange(self.0.as_slice(), FLAG_LENGTH, FLAG_LENGTH + ED25519_SIGNATURE_LENGTH)
    }

    /// The bytes of the signer's public key.
    pub fn public_key_bytes(&self) -> (out: &[u8])
        ensures
            out@ == self.public_key_bytes_spec(),
    {
        slice_subrange(
            self.0.as_slice(),
            FLAG_LENGTH + ED25519_SIGNATURE_LENGTH,
            ED25519_SUI_SIGNATURE_LENGTH,
        )
    }

    /// Takes over `bytes` if they have the scheme's length; the flag is not
    /// inspected.
    pub fn from_bytes(bytes: &[u8]) -> (result: SuiResult<Ed25519SuiSignature>)
        ensures
            bytes@.len() == ED25519_SUI_SIGNATURE_LENGTH ==> result is Ok && result.unwrap()@
                == bytes@,
            bytes@.len() != ED25519_SUI_SIGNATURE_LENGTH ==> result == Err::<
                Ed25519SuiSignature,
                SuiError,
            >(SuiError::InvalidSignature),
    {
        if bytes.len() != ED25519_SUI_SIGNATURE_LENGTH {
            return Err(SuiError::InvalidSignature);
        }
        let mut result_bytes = [0u8; ED25519_SUI_SIGNATURE_LENGTH];
        let mut i: usize = 0;
        while i < ED25519_SUI_SIGNATURE_LENGTH
            invariant
                i <= ED25519_SUI_SIGNATURE_LENGTH,
                bytes@.len() == ED25519_SUI_SIGNATURE_LENGTH,
                forall|j: int| 0 <= j < i ==> result_bytes@[j] == bytes@[j],
            decreases ED25519_SUI_SIGNATURE_LENGTH - i,
        {
            result_bytes[i] = bytes[i];
            i += 1;
        }
        assert(result_bytes@ =~= bytes@);
        Ok(Ed25519SuiSignature(result_bytes))
    }

    /// Lays out flag, signature and public key, in that order.
    pub fn from_parts(
        signature: &[u8; ED25519_SIGNATURE_LENGTH],
        public_key: &[u8; ED25519_PUBLIC_KEY_LENGTH],
    ) -> (encoded: Ed25519SuiSignature)
        ensures
            encoded@ == ed25519_encoding(signature@, public_key@),
            encoded.flag_bytes_spec() == ED25519_FLAG@,
            encoded.signature_bytes_spec() == signature@,
            encoded.public_key_bytes_spec() == public_key@,
    {
        let mut result_bytes = [0u8; ED25519_SUI_SIGNATURE_LENGTH];
        result_bytes[0] = ED25519_FLAG[0];
        result_bytes[1] = ED25519_FLAG[1];
        let mut i: usize = 0;
        while i < ED25519_SIGNATURE_LENGTH
            invariant
                i <= ED25519_SIGNATURE_LENGTH,
                result_bytes@[0] == ED25519_FLAG@[0],
                result_bytes@[1] == ED25519_FLAG@[1],
                forall|j: int| 0 <= j < i ==> result_bytes@[FLAG_LENGTH + j] == signature@[j],
            decreases ED25519_SIGNATURE_LENGTH - i,
        {
            result_bytes[FLAG_LENGTH + i] = signature[i];
            i += 1;
        }
        let mut k: usize = 0;
        while k < ED25519_PUBLIC_KEY_LENGTH
            invariant
                k <= ED25519_PUBLIC_KEY_LENGTH,
                result_bytes@[0] == ED25519_FLAG@[0],
                result_bytes@[1] == ED25519_FLAG@[1],
                forall|j: int|
                    0 <= j < ED25519_SIGNATURE_LENGTH ==> result_bytes@[FLAG_LENGTH + j]
                        == signature@[j],
                forall|j: int|
                    0 <= j < k ==> result_bytes@[FLAG_LENGTH + ED25519_SIGNATURE_LENGTH + j]
                        == public_key@[j],
            decreases ED25519_PUBLIC_KEY_LENGTH - k,
        {
            result_bytes[FLAG_LENGTH + ED25519_SIGNATURE_LENGTH + k] = public_key[k];
            k += 1;
        }
        let encoded = Ed25519SuiSignature(result_bytes);
        proof {
            assert(encoded@ =~= ed25519_encoding(signature@, public_key@));
            assert(encoded.flag_bytes_spec() =~= ED25519_FLAG@);
            assert(encoded.signature_bytes_spec() =~= signature@);
            assert(encoded.public_key_bytes_spec() =~= public_key@);
        }
        encoded
    }

    /// Checks that the embedded key belongs to `author`, and hands out what
    /// the cryptographic check needs: the canonical bytes of `value`, the
    /// signature and the key.
    pub fn get_verification_inputs<T: Signable<Vec<u8>>>(
        &self,
        value: &T,
        author: SuiAddress,
    ) -> (result: SuiResult<
        (Vec<u8>, [u8; ED25519_SIGNATURE_LENGTH], [u8; ED25519_PUBLIC_KEY_LENGTH]),
    >)
        ensures
            address_of(self.public_key_bytes_spec()) != author@ ==> result == Err::<
                (Vec<u8>, [u8; ED25519_SIGNATURE_LENGTH], [u8; ED25519_PUBLIC_KEY_LENGTH]),
                SuiError,
            >(SuiError::IncorrectSigner),
            address_of(self.public_key_bytes_spec()) == author@ ==> result is Ok && ({
                let (m, s, k) = result.unwrap();
                m@ == value.signable_bytes() && s@ == self.signature_bytes_spec() && k@
                    == self.public_key_bytes_spec()
            }),
    {
        let received_addr = SuiAddress::from_public_key_bytes(self.public_key_bytes());
        if !received_addr.same_as(&author) {
            return Err(SuiError::IncorrectSigner);
        }
        let mut signature = [0u8; ED25519_SIGNATURE_LENGTH];
        let mut i: usize = 0;
        while i < ED25519_SIGNATURE_LENGTH
            invariant
                i <= ED25519_SIGNATURE_LENGTH,
                forall|j: int| 0 <= j < i ==> signature@[j] == self.0@[FLAG_LENGTH + j],
            decreases ED25519_SIGNATURE_LENGTH - i,
        {
            signature[i] = self.0[FLAG_LENGTH + i];
            i += 1;
        }
        let mut public_key = [0u8; ED25519_PUBLIC_KEY_LENGTH];
        let mut k: usize = 0;
        while k < ED25519_PUBLIC_KEY_LENGTH
            invariant
                k <= ED25519_PUBLIC_KEY_LENGTH,
                forall|j: int|
                    0 <= j < k ==> public_key@[j] == self.0@[FLAG_LENGTH
                        + ED25519_SIGNATURE_LENGTH + j],
            decreases ED25519_PUBLIC_KEY_LENGTH - k,
        {
            public_key[k] = self.0[FLAG_LENGTH + ED25519_SIGNATURE_LENGTH + k];
            k += 1;
        }
        let mut message: Vec<u8> = Vec::new();
        value.write(&mut message);
        proof {
            assert(message@ =~= value.signable_bytes());
            assert(signature@ =~= self.signature_bytes_spec());
            assert(public_key@ =~= self.public_key_bytes_spec());
        }
        Ok((message, signature, public_key))
    }

    /// Accepts the signature only if the embedded key belongs to `author`
    /// and the signature is valid for the canonical bytes of `value` under
    /// that key.
    pub fn verify<T: Signable<Vec<u8>>>(&self, value: &T, author: SuiAddress) -> (result: SuiResult<
        (),
    >)
        ensures
            result == self.verify_spec(value.signable_bytes(), author@),
    {
        match self.get_verification_inputs(value, author) {
            Err(e) => Err(e),
            Ok((message, signature, public_key)) => {
                if ed25519_verify(&public_key, message.as_slice(), &signature) {
                    Ok(())
                } else {
                    Err(SuiError::InvalidSignature)
                }
            },
        }
    }
}

/// A signature under any supported scheme, or none at all.
///
/// `Empty` stands for "not yet signed"; it never verifies and has no
/// encoding that decodes.
#[derive(Clone, Copy, Debug)]
pub enum Signature {
    Ed25519(Ed25519SuiSignature),
    Empty,
}

impl Signature {
    /// The encoding of the signature; empty for `Empty`.
    pub open spec fn encoding(self) -> Seq<u8> {
        match self {
            Signature::Ed25519(sig) => sig@,
            Signature::Empty => Seq::<u8>::empty(),
        }
    }

    /// The flag part of the encoding; empty for `Empty`.
    pub open spec fn flag_bytes_spec(self) -> Seq<u8> {
        match self {
            Signature::Ed25519(sig) => sig.flag_bytes_spec(),
            Signature::Empty => Seq::<u8>::empty(),
        }
    }

    /// The signature part of the encoding; empty for `Empty`.
    pub open spec fn signature_bytes_spec(self) -> Seq<u8> {
        match self {
            Signature::Ed25519(sig) => sig.signature_bytes_spec(),
            Signature::Empty => Seq::<u8>::empty(),
        }
    }

    /// The public-key part of the encoding; empty for `Empty`.
    pub open spec fn public_key_bytes_spec(self) -> Seq<u8> {
        match self {
            Signature::Ed25519(sig) => sig.public_key_bytes_spec(),
            Signature::Empty => Seq::<u8>::empty(),
        }
    }

    /// What [`Signature::verify`] answers.
    pub open spec fn verify_spec(self, message: Seq<u8>, author: Seq<u8>) -> SuiResult<()> {
        match self {
            Signature::Ed25519(sig) => sig.verify_spec(message, author),
            Signature::Empty => Err(SuiError::InvalidSignature),
        }
    }

    /// Whether `bytes` is the encoding of a signature of a known scheme.
    pub open spec fn decodable(bytes: Seq<u8>) -> bool {
        bytes.len() == ED25519_SUI_SIGNATURE_LENGTH && bytes.subrange(0, FLAG_LENGTH as int)
            == ED25519_FLAG@
    }

    /// What [`Signature::from_bytes`] answers: the signature whose encoding
    /// is `bytes`, if there is one of a known scheme.
    pub closed spec fn decode_spec(bytes: Seq<u8>) -> SuiResult<Signature> {
        if Signature::decodable(bytes) {
            Ok(Signature::Ed25519(choose|sig: Ed25519SuiSignature| sig@ == bytes))
        } else {
            Err(SuiError::InvalidSignature)
        }
    }

    /// A signature of a supported scheme that carries its scheme's flag.
    pub open spec fn is_scheme_signature(self) -> bool {
        self is Ed25519 && self.flag_bytes_spec() == ED25519_FLAG@
    }

    /// Whether the signature is the one that `pair` makes over `message`.
    pub open spec fn is_signed_by(self, pair: AccountKeyPair, message: Seq<u8>) -> bool {
        &&& self.is_scheme_signature()
        &&& self.signature_bytes_spec() == ed25519_sign_spec(pair.secret_bytes(), message)
        &&& self.public_key_bytes_spec() == pair.public_bytes()
        &&& self.encoding() == ed25519_encoding(
            ed25519_sign_spec(pair.secret_bytes(), message),
            pair.public_bytes(),
        )
    }

    /// Decoding fails exactly on the byte strings that are not decodable, and
    /// otherwise yields an Ed25519 signature with the given encoding.
    pub proof fn lemma_decode_spec(bytes: Seq<u8>)
        ensures
            !Signature::decodable(bytes) ==> Signature::decode_spec(bytes) == Err::<
                Signature,
                SuiError,
            >(SuiError::InvalidSignature),
            Signature::decodable(bytes) && (exists|sig: Ed25519SuiSignature| sig@ == bytes) ==> {
                &&& Signature::decode_spec(bytes) is Ok
                &&& Signature::decode_spec(bytes).unwrap() is Ed25519
                &&& Signature::decode_spec(bytes).unwrap().encoding() == bytes
            },
    {
    }

    /// Round trip: decoding the encoding of a scheme signature gives that
    /// signature back.
    pub proof fn lemma_decode_encode(s: Signature)
        requires
            s.is_scheme_signature(),
        ensures
            Signature::decodable(s.encoding()),
            Signature::decode_spec(s.encoding()) == Ok::<Signature, SuiError>(s),
    {
        let sig = s->Ed25519_0;
        assert(sig@.len() == ED25519_SUI_SIGNATURE_LENGTH);
        let chosen = choose|x: Ed25519SuiSignature| x@ == sig@;
        assert(chosen@ == sig@);
        chosen.lemma_view_injective(sig);
    }

    /// The three parts of an encoding are the components it was laid out
    /// from: the scheme flag, the signature and the public key.
    pub proof fn lemma_encoding_parts(s: Signature, signature: Seq<u8>, public_key: Seq<u8>)
        requires
            s is Ed25519,
            s.encoding() == ed25519_encoding(signature, public_key),
            signature.len() == ED25519_SIGNATURE_LENGTH,
            public_key.len() == ED25519_PUBLIC_KEY_LENGTH,
        ensures
            s.flag_bytes_spec() == ED25519_FLAG@,
            s.signature_bytes_spec() == signature,
            s.public_key_bytes_spec() == public_key,
            s.encoding() == s.flag_bytes_spec() + s.signature_bytes_spec()
                + s.public_key_bytes_spec(),
    {
        assert(s.flag_bytes_spec() =~= ED25519_FLAG@);
        assert(s.signature_bytes_spec() =~= signature);
        assert(s.public_key_bytes_spec() =~= public_key);
    }

    /// Identity binding: a signature made by `pair` is rejected with
    /// `IncorrectSigner` for every claimed identity other than the address
    /// of `pair`'s public key, although it is valid under that key.
    pub proof fn lemma_identity_binding(
        signed: Signature,
        pair: AccountKeyPair,
        message: Seq<u8>,
        id: Seq<u8>,
    )
        requires
            signed.is_signed_by(pair, message),
            id != address_of(pair.public_bytes()),
        ensures
            signed.verify_spec(message, id) == Err::<(), SuiError>(SuiError::IncorrectSigner),
    {
    }

    /// Checks the signature over the canonical bytes of `value` and that it
    /// was made by `author`.
    ///
    /// A signature that is valid under its embedded key is still rejected,
    /// with `IncorrectSigner`, when that key is not `author`'s. `Empty` is
    /// always rejected.
    pub fn verify<T: Signable<Vec<u8>>>(&self, value: &T, author: SuiAddress) -> (result: SuiResult<
        (),
    >)
        ensures
            result == self.verify_spec(value.signable_bytes(), author@),
    {
        match self {
            Signature::Ed25519(sig) => sig.verify(value, author),
            Signature::Empty => Err(SuiError::InvalidSignature),
        }
    }

    /// The bytes of the signer's public key.
    pub fn public_key_bytes(&self) -> (out: &[u8])
        ensures
            out@ == self.public_key_bytes_spec(),
    {
        match self {
            Signature::Ed25519(sig) => sig.public_key_bytes(),
            Signature::Empty => empty_bytes(),
        }
    }

    /// The scheme flag.
    pub fn flag_bytes(&self) -> (out: &[u8])
        ensures
            out@ == self.flag_bytes_spec(),
    {
        match self {
            Signature::Ed25519(sig) => sig.flag_bytes(),
            Signature::Empty => empty_bytes(),
        }
    }

    /// The bytes of the signature proper.
    pub fn signature_bytes(&self) -> (out: &[u8])
        ensures
            out@ == self.signature_bytes_spec(),
    {
        match self {
            Signature::Ed25519(sig) => sig.signature_bytes(),
            Signature::Empty => empty_bytes(),
        }
    }

    /// The whole encoding.
    pub fn as_bytes(&self) -> (out: &[u8])
        ensures
            out@ == self.encoding(),
    {
        match self {
            Signature::Ed25519(sig) => sig.bytes(),
            Signature::Empty => empty_bytes(),
        }
    }

    /// Decodes a signature. The first two bytes select the scheme; an
    /// unknown flag or a length other than the scheme's is an error.
    pub fn from_bytes(bytes: &[u8]) -> (result: SuiResult<Signature>)
        ensures
            result == Signature::decode_spec(bytes@),
            Signature::decodable(bytes@) ==> result is Ok && result.unwrap() is Ed25519
                && result.unwrap().encoding() == bytes@,
            !Signature::decodable(bytes@) ==> result == Err::<Signature, SuiError>(
                SuiError::InvalidSignature,
            ),
    {
        if bytes.len() < FLAG_LENGTH {
            return Err(SuiError::InvalidSignature);
        }
        assert(bytes@.subrange(0, FLAG_LENGTH as int) == ED25519_FLAG@ <==> (bytes@[0]
            == ED25519_FLAG@[0] && bytes@[1] == ED25519_FLAG@[1])) by {
            if bytes@[0] == ED25519_FLAG@[0] && bytes@[1] == ED25519_FLAG@[1] {
                assert(bytes@.subrange(0, FLAG_LENGTH as int) =~= ED25519_FLAG@);
            } else {
                assert(bytes@.subrange(0, FLAG_LENGTH as int)[0] == bytes@[0]);
                assert(bytes@.subrange(0, FLAG_LENGTH as int)[1] == bytes@[1]);
            }
        }
        if bytes[0] == ED25519_FLAG[0] && bytes[1] == ED25519_FLAG[1] {
            match Ed25519SuiSignature::from_bytes(bytes) {
                Ok(sig) => {
                    proof {
                        let chosen = choose|x: Ed25519SuiSignature| x@ == bytes@;
                        assert(chosen@ == bytes@);
                        chosen.lemma_view_injective(sig);
                    }
                    Ok(Signature::Ed25519(sig))
                },
                Err(e) => Err(e),
            }
        } else {
            Err(SuiError::InvalidSignature)
        }
    }

    /// What [`Signature::debug_string`] shows.
    pub open spec fn debug_spec(self) -> Seq<char> {
        base64_spec(self.signature_bytes_spec()) + seq!['@'] + base64_spec(
            self.public_key_bytes_spec(),
        )
    }

    /// The signature for a reader: the signature proper and the public key,
    /// each as Base64 text, with `@` between them.
    pub fn debug_string(&self) -> (text: String)
        ensures
            text@ == self.debug_spec(),
    {
        let signature = self.signature_bytes();
        let public_key = self.public_key_bytes();
        proof {
            match *self {
                Signature::Ed25519(sig) => sig.lemma_length(),
                Signature::Empty => {},
            }
            reveal_strlit("@");
            assert("@"@ =~= seq!['@']);
        }
        let mut text = base64_encode(signature);
        text.append("@");
        let key_text = base64_encode(public_key);
        text.append(key_text.as_str());
        text
    }

    /// Signs the canonical bytes of `value` with `secret` and bundles flag,
    /// signature and the signer's public key.
    pub fn new<T: Signable<Vec<u8>>>(value: &T, secret: &AccountKeyPair) -> (signed: Signature)
        ensures
            signed.is_signed_by(*secret, value.signable_bytes()),
    {
        let mut message: Vec<u8> = Vec::new();
        value.write(&mut message);
        assert(message@ =~= value.signable_bytes());
        let public_key = secret.public_key_array();
        match ed25519_sign(secret.secret_array(), message.as_slice()) {
            Some(signature) => Signature::Ed25519(
                Ed25519SuiSignature::from_parts(&signature, &public_key),
            ),
            None => vstd::pervasive::unreached(),
        }
    }
}

/// A byte string of length zero.
fn empty_bytes() -> (out: &'static [u8])
    ensures
        out@ == Seq::<u8>::empty(),
{
    let nothing: &'static [u8; 0] = &[];
    assert(nothing@ =~= Seq::<u8>::empty());
    nothing.as_slice()
}

} // verus!
