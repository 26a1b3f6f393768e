//! Batched checking of aggregate signatures: entries are collected first and
//! checked together, once.
use crate::authority::{AggregateAuthoritySignature, AuthorityPublicKey};
use crate::base_types::AuthorityPublicKeyBytes;
use crate::bls::{bls_batch_verify, infinity_signature};
use crate::error::{SuiError, SuiResult};
use vstd::prelude::*;

verus! {

/// The byte strings of a list of decoded keys, in order.
pub open spec fn keys_view(keys: Seq<AuthorityPublicKey>) -> Seq<Seq<u8>> {
    Seq::new(keys.len(), |i: int| keys[i]@)
}

/// Decoded public keys, remembered by the name they were decoded from.
///
/// A name is held at most once, and the key held for a name is the key that
/// the name encodes, so looking a name up gives what decoding it would give.
pub struct PubKeyLookup {
    entries: Vec<(AuthorityPublicKeyBytes, AuthorityPublicKey)>,
}

impl View for PubKeyLookup {
    type V = Set<Seq<u8>>;

    /// The names whose keys are remembered.
    closed spec fn view(&self) -> Set<Seq<u8>> {
        Set::new(
            |name: Seq<u8>|
                exists|i: int| 0 <= i < self.entries@.len() && self.entries@[i].0@ == name,
        )
    }
}

impl PubKeyLookup {
    #[verifier::type_invariant]
    spec fn consistent(&self) -> bool {
        &&& forall|i: int|
            0 <= i < self.entries@.len() ==> (#[trigger] self.entries@[i]).1@
                == self.entries@[i].0@
        &&& forall|i: int, j: int|
            0 <= i < j < self.entries@.len() ==> self.entries@[i].0@ != self.entries@[j].0@
    }

    /// A lookup that remembers nothing.
    pub fn new() -> (lookup: PubKeyLookup)
        ensures
            lookup@ == Set::<Seq<u8>>::empty(),
    {
        let lookup = PubKeyLookup { entries: Vec::new() };
        assert(lookup@ =~= Set::<Seq<u8>>::empty());
        lookup
    }

    /// The names whose keys are remembered, each once, oldest first.
    pub fn names(&self) -> (names: Vec<AuthorityPublicKeyBytes>)
        ensures
            forall|i: int| 0 <= i < names@.len() ==> self@.contains(#[trigger] names@[i]@),
            forall|name: Seq<u8>|
                self@.contains(name) ==> exists|i: int|
                    0 <= i < names@.len() && #[trigger] names@[i]@ == name,
            forall|i: int, j: int| 0 <= i < j < names@.len() ==> names@[i]@ != names@[j]@,
    {
        proof {
            use_type_invariant(self);
        }
        let n = self.entries.len();
        let mut names: Vec<AuthorityPublicKeyBytes> = Vec::new();
        let mut i: usize = 0;
        while i < n
            invariant
                i <= n,
                n == self.entries@.len(),
                names@.len() == i,
                forall|k: int| 0 <= k < i ==> (#[trigger] names@[k])@ == self.entries@[k].0@,
            decreases n - i,
        {
            names.push(self.entries[i].0);
            i += 1;
        }
        proof {
            assert forall|k: int| 0 <= k < names@.len() implies self@.contains(
                #[trigger] names@[k]@,
            ) by {
                assert(self.entries@[k].0@ == names@[k]@);
            }
            assert forall|name: Seq<u8>| self@.contains(name) implies exists|k: int|
                0 <= k < names@.len() && #[trigger] names@[k]@ == name by {
                let k = choose|k: int| 0 <= k < self.entries@.len() && self.entries@[k].0@ == name;
                assert(names@[k]@ == name);
            }
        }
        names
    }

    /// The remembered key of `name`, if there is one.
    pub fn get(&self, name: &AuthorityPublicKeyBytes) -> (found: Option<AuthorityPublicKey>)
        ensures
            found is Some <==> self@.contains(name@),
            found is Some ==> found.unwrap()@ == name@,
    {
        proof {
            use_type_invariant(self);
        }
        let n = self.entries.len();
        let mut i: usize = 0;
        while i < n
            invariant
                i <= n,
                n == self.entries@.len(),
                self.consistent(),
                forall|a: int| 0 <= a < i ==> self.entries@[a].0@ != name@,
            decreases n - i,
        {
            if self.entries[i].0.same_as(name) {
                assert(self.entries@[i as int].1@ == self.entries@[i as int].0@);
                return Some(self.entries[i].1);
            }
            i += 1;
        }
        None
    }

    /// The lookup that also remembers `key` under `name`, the name that it
    /// was decoded from.
    fn remember(self, name: AuthorityPublicKeyBytes, key: AuthorityPublicKey) -> (updated:
        PubKeyLookup)
        requires
            !self@.contains(name@),
            key@ == name@,
        ensures
            updated@ == self@.insert(name@),
    {
        proof {
            use_type_invariant(&self);
        }
        let ghost before = self.entries@;
        let mut entries = self.entries;
        entries.push((name, key));
        proof {
            assert forall|i: int, j: int| 0 <= i < j < entries@.len() implies entries@[i].0@
                != entries@[j].0@ by {
                if j == before.len() {
                    assert(before[i].0@ != name@);
                } else {
                    assert(before[i].0@ != before[j].0@);
                }
            }
        }
        let updated = PubKeyLookup { entries };
        proof {
            assert forall|x: Seq<u8>| updated@.contains(x) <==> self@.insert(name@).contains(
                x,
            ) by {
                if self@.insert(name@).contains(x) {
                    if x == name@ {
                        assert(updated.entries@[before.len() as int].0@ == x);
                    } else {
                        let i = choose|i: int| 0 <= i < before.len() && before[i].0@ == x;
                        assert(updated.entries@[i].0@ == x);
                    }
                }
                if updated@.contains(x) {
                    let i = choose|i: int|
                        0 <= i < updated.entries@.len() && updated.entries@[i].0@ == x;
                    if i < before.len() {
                        assert(before[i].0@ == x);
                    }
                }
            }
            assert(updated@ =~= self@.insert(name@));
        }
        updated
    }
}

impl Default for PubKeyLookup {
    fn default() -> (lookup: PubKeyLookup)
        ensures
            lookup@ == Set::<Seq<u8>>::empty(),
    {
        PubKeyLookup::new()
    }
}

/// Messages with, for each, the aggregate signature and the signers' keys
/// collected so far.
///
/// Position `i` of the three lists belongs to the same message. The keys
/// remembered on the side only save decoding a name twice.
pub struct VerificationObligation {
    pub lookup: PubKeyLookup,
    pub messages: Vec<Vec<u8>>,
    pub signatures: Vec<AggregateAuthoritySignature>,
    pub public_keys: Vec<Vec<AuthorityPublicKey>>,
}

impl VerificationObligation {
    /// The three lists have the same length.
    pub open spec fn wf(&self) -> bool {
        &&& self.messages@.len() == self.signatures@.len()
        &&& self.messages@.len() == self.public_keys@.len()
    }

    /// The keys collected for the message at `index`, as byte strings.
    pub open spec fn keys_at(&self, index: int) -> Seq<Seq<u8>> {
        keys_view(self.public_keys@[index]@)
    }

    /// The aggregate collected for the message at `index`, as bytes.
    pub open spec fn signature_at(&self, index: int) -> Seq<u8> {
        self.signatures@[index]@
    }

    /// Both hold the same messages and remembered keys, as many entries, and
    /// the same keys and aggregate in every entry but the one at `index`.
    pub open spec fn same_except(&self, other: &VerificationObligation, index: int) -> bool {
        &&& self.messages == other.messages
        &&& self.lookup == other.lookup
        &&& self.public_keys@.len() == other.public_keys@.len()
        &&& self.signatures@.len() == other.signatures@.len()
        &&& forall|i: int|
            0 <= i < self.public_keys@.len() && i != index ==> self.public_keys@[i]
                == other.public_keys@[i]
        &&& forall|i: int|
            0 <= i < self.signatures@.len() && i != index ==> self.signatures@[i]
                == other.signatures@[i]
    }

    /// Everything but the remembered keys is the same in both.
    pub open spec fn same_entries(&self, other: &VerificationObligation) -> bool {
        &&& self.messages == other.messages
        &&& self.signatures == other.signatures
        &&& self.public_keys == other.public_keys
    }

    /// An obligation without entries that starts from the keys in `lookup`.
    pub fn new(lookup: PubKeyLookup) -> (obligation: VerificationObligation)
        ensures
            obligation.wf(),
            obligation.lookup@ == lookup@,
            obligation.messages@.len() == 0,
            obligation.signatures@.len() == 0,
            obligation.public_keys@.len() == 0,
    {
        VerificationObligation {
            lookup,
            messages: Vec::new(),
            signatures: Vec::new(),
            public_keys: Vec::new(),
        }
    }

    /// The decoded key of `key_bytes`: the remembered one if there is one,
    /// else it is decoded and remembered. The answer is the same either way.
    pub fn lookup_public_key(&mut self, key_bytes: &AuthorityPublicKeyBytes) -> (result: Result<
        AuthorityPublicKey,
        SuiError,
    >)
        ensures
            match AuthorityPublicKey::parse_spec(key_bytes@) {
                Ok(bytes) => result is Ok && result.unwrap()@ == bytes && final(self).lookup@
                    == old(self).lookup@.insert(key_bytes@),
                Err(e) => result == Err::<AuthorityPublicKey, SuiError>(e)
                    && final(self).lookup@ == old(self).lookup@,
            },
            final(self).same_entries(old(self)),
    {
        match self.lookup.get(key_bytes) {
            Some(key) => {
                proof {
                    use_type_invariant(&key);
                    assert(self.lookup@ =~= self.lookup@.insert(key_bytes@));
                }
                Ok(key)
            },
            None => {
                match AuthorityPublicKey::try_from_bytes(key_bytes) {
                    Ok(key) => {
                        let mut remembered = PubKeyLookup::new();
                        core::mem::swap(&mut remembered, &mut self.lookup);
                        self.lookup = remembered.remember(*key_bytes, key);
                        Ok(key)
                    },
                    Err(e) => Err(e),
                }
            },
        }
    }

    /// Adds a message with an empty aggregate and no keys, and returns its
    /// position.
    pub fn add_message(&mut self, message: Vec<u8>) -> (index: usize)
        ensures
            index == old(self).messages@.len(),
            final(self).messages@ == old(self).messages@.push(message),
            final(self).signatures@.len() == old(self).signatures@.len() + 1,
            final(self).signatures@.drop_last() == old(self).signatures@,
            final(self).signatures@.last()@ == infinity_signature(),
            final(self).public_keys@.len() == old(self).public_keys@.len() + 1,
            final(self).public_keys@.drop_last() == old(self).public_keys@,
            final(self).public_keys@.last()@.len() == 0,
            final(self).lookup@ == old(self).lookup@,
            old(self).wf() ==> final(self).wf(),
    {
        self.signatures.push(AggregateAuthoritySignature::default());
        self.public_keys.push(Vec::new());
        self.messages.push(message);
        proof {
            assert(self.signatures@.drop_last() =~= old(self).signatures@);
            assert(self.public_keys@.drop_last() =~= old(self).public_keys@);
        }
        self.messages.len() - 1
    }

    /// What the obligation hands back once the batched check has answered:
    /// the remembered keys if every entry was accepted, else
    /// `InvalidSignature`.
    pub fn batch_outcome(lookup: PubKeyLookup, accepted: bool) -> (result: SuiResult<PubKeyLookup>)
        ensures
            accepted ==> result == Ok::<PubKeyLookup, SuiError>(lookup),
            !accepted ==> result == Err::<PubKeyLookup, SuiError>(SuiError::InvalidSignature),
    {
        if accepted {
            Ok(lookup)
        } else {
            Err(SuiError::InvalidSignature)
        }
    }

    /// Checks all entries with one batched check and ends the obligation.
    ///
    /// Whether the signatures hold is decided by the batched check. What is
    /// known beforehand: an obligation without entries succeeds, success
    /// hands back the remembered keys, and the only failure is
    /// `InvalidSignature`.
    pub fn verify_all(self) -> (result: SuiResult<PubKeyLookup>)
        ensures
            result is Ok ==> result == Ok::<PubKeyLookup, SuiError>(self.lookup),
            result is Err ==> result == Err::<PubKeyLookup, SuiError>(SuiError::InvalidSignature),
            self.wf() && self.messages@.len() == 0 ==> result is Ok,
    {
        let accepted = bls_batch_verify(&self.signatures, &self.public_keys, &self.messages);
        VerificationObligation::batch_outcome(self.lookup, accepted)
    }
}

impl Default for VerificationObligation {
    fn default() -> (obligation: VerificationObligation)
        ensures
            obligation.wf(),
            obligation.lookup@ == Set::<Seq<u8>>::empty(),
            obligation.messages@.len() == 0,
            obligation.signatures@.len() == 0,
            obligation.public_keys@.len() == 0,
    {
        VerificationObligation::new(PubKeyLookup::new())
    }
}

} // verus!
