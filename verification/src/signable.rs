//! Values that can be hashed and signed: they write their canonical bytes
//! into whatever takes bytes.
use crate::hash::{
    hasher_input, sha3_256_spec, sha3_finalize, sha3_new, sha3_update, Sha3Hasher,
    SHA3_256_LENGTH,
};
use vstd::prelude::*;

verus! {

/// The error of the `anyhow` crate, which carries any failure.
#[verifier::external_type_specification]
#[verifier::external_body]
pub struct ExAnyhowError(anyhow::Error);

/// Something that takes in bytes, one batch after the other.
pub trait ByteSink {
    /// All bytes taken in so far, in order.
    spec fn taken(&self) -> Seq<u8>;

    /// Takes in `bytes` behind what is there.
    fn take(&mut self, bytes: &[u8])
        ensures
            final(self).taken() == old(self).taken() + bytes@,
    ;
}

impl ByteSink for Vec<u8> {
    open spec fn taken(&self) -> Seq<u8> {
        self@
    }

    fn take(&mut self, bytes: &[u8]) {
        let mut i: usize = 0;
        while i < bytes.len()
            invariant
                i <= bytes.len(),
                self@ == old(self)@ + bytes@.subrange(0, i as int),
            decreases bytes.len() - i,
        {
            self.push(bytes[i]);
            assert(bytes@.subrange(0, i + 1) =~= bytes@.subrange(0, i as int).push(
                bytes@[i as int],
            ));
            i += 1;
        }
        assert(bytes@.subrange(0, i as int) =~= bytes@);
    }
}

impl ByteSink for Sha3Hasher {
    open spec fn taken(&self) -> Seq<u8> {
        hasher_input(*self)
    }

    fn take(&mut self, bytes: &[u8]) {
        sha3_update(self, bytes);
    }
}

/// Something that we know how to hash and sign.
///
/// The value stands for a fixed string of bytes, its canonical form, and
/// writes exactly that into any sink.
pub trait Signable<W: ByteSink> {
    /// The canonical bytes of the value.
    spec fn signable_bytes(&self) -> Seq<u8>;

    /// Writes the canonical bytes into `writer`.
    fn write(&self, writer: &mut W)
        ensures
            final(writer).taken() == old(writer).taken() + self.signable_bytes(),
    ;
}

/// A value that can be read back from its canonical bytes.
pub trait SignableBytes: Sized {
    fn from_signable_bytes(bytes: &[u8]) -> Result<Self, anyhow::Error>;
}

/// Marks the types whose canonical bytes are their type name, `::`, and
/// their binary canonical serialization.
pub trait BcsSignable {

}

/// A message that is in canonical form already is signed as it stands.
impl<W: ByteSink> Signable<W> for Vec<u8> {
    open spec fn signable_bytes(&self) -> Seq<u8> {
        self@
    }

    fn write(&self, writer: &mut W) {
        writer.take(self.as_slice());
    }
}

/// What stands between a type's name and the serialized value: `::`.
pub const NAME_SEPARATOR: [u8; 2] = [0x3a, 0x3a];

/// The canonical bytes of a value of the type called `name` whose
/// serialization is `payload`: the name, the separator, the serialization.
/// The name in front keeps a signature over one type of message from being
/// valid for another type with the same serialization.
pub open spec fn tagged_spec(name: Seq<u8>, payload: Seq<u8>) -> Seq<u8> {
    name + NAME_SEPARATOR@ + payload
}

/// A name that holds no colon, so that the separator cannot begin inside it.
pub open spec fn plain_name(name: Seq<u8>) -> bool {
    forall|i: int| 0 <= i < name.len() ==> name[i] != 0x3au8
}

/// The name in front tells types apart: canonical bytes under two plain
/// names are equal only if the names are equal and the serializations too.
/// So what was signed as a value of one type is never the canonical form of
/// a value of another.
pub proof fn lemma_tag_separates(
    first_name: Seq<u8>,
    first_payload: Seq<u8>,
    second_name: Seq<u8>,
    second_payload: Seq<u8>,
)
    requires
        plain_name(first_name),
        plain_name(second_name),
        tagged_spec(first_name, first_payload) == tagged_spec(second_name, second_payload),
    ensures
        first_name == second_name,
        first_payload == second_payload,
{
    let first = tagged_spec(first_name, first_payload);
    let second = tagged_spec(second_name, second_payload);
    let m = first_name.len() as int;
    let n = second_name.len() as int;
    assert(first[m] == 0x3au8);
    assert(second[n] == 0x3au8);
    if m < n {
        assert(second[m] == second_name[m]);
    } else if n < m {
        assert(first[n] == first_name[n]);
    }
    assert(first_name =~= first.subrange(0, m));
    assert(second_name =~= second.subrange(0, n));
    assert(first_payload =~= first.skip(m + 2));
    assert(second_payload =~= second.skip(n + 2));
}

/// Writes the canonical bytes of a value of the type called `name` whose
/// serialization is `payload`.
pub fn write_tagged<W: ByteSink>(writer: &mut W, name: &[u8], payload: &[u8])
    ensures
        final(writer).taken() == old(writer).taken() + tagged_spec(name@, payload@),
{
    writer.take(name);
    writer.take(NAME_SEPARATOR.as_slice());
    writer.take(payload);
    assert(writer.taken() =~= old(writer).taken() + tagged_spec(name@, payload@));
}

/// The serialization within the canonical bytes of a value of the type
/// called `name`: what follows the name and the separator. The bytes in
/// front are skipped, not compared.
pub fn tagged_payload<'a>(name: &[u8], bytes: &'a [u8]) -> (payload: &'a [u8])
    requires
        name@.len() + 2 <= bytes@.len(),
    ensures
        payload@ == bytes@.skip(name@.len() as int + 2),
        forall|serialized: Seq<u8>|
            bytes@ == tagged_spec(name@, serialized) ==> payload@ == serialized,
{
    let end: usize = bytes.len();
    let skipped: usize = name.len();
    assert(skipped + 2 <= end);
    let payload = vstd::slice::slice_subrange(bytes, skipped + 2, end);
    proof {
        assert(payload@ =~= bytes@.skip(name@.len() as int + 2));
        assert forall|serialized: Seq<u8>| bytes@ == tagged_spec(name@, serialized) implies payload@
            == serialized by {
            assert(tagged_spec(name@, serialized).skip(name@.len() as int + 2)
                =~= serialized);
        }
    }
    payload
}

/// A value held as the name of its type and its serialization.
pub struct TaggedValue {
    pub name: Vec<u8>,
    pub payload: Vec<u8>,
}

/// A tagged value signs as its name, the separator and its serialization.
impl<W: ByteSink> Signable<W> for TaggedValue {
    open spec fn signable_bytes(&self) -> Seq<u8> {
        tagged_spec(self.name@, self.payload@)
    }

    fn write(&self, writer: &mut W) {
        write_tagged(writer, self.name.as_slice(), self.payload.as_slice());
    }
}

/// The SHA3-256 digest of the canonical bytes of `signable`.
pub fn sha3_hash<S: Signable<Sha3Hasher>>(signable: &S) -> (hash: [u8; SHA3_256_LENGTH])
    ensures
        hash@ == sha3_256_spec(signable.signable_bytes()),
{
    let mut digest = sha3_new();
    signable.write(&mut digest);
    assert(hasher_input(digest) =~= signable.signable_bytes());
    sha3_finalize(digest)
}

} // verus!
