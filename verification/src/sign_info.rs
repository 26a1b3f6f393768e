//! Attestation kinds: none at all, and one validator's signed vote.
use crate::authority::AuthoritySignature;
use crate::base_types::AuthorityName;
use crate::bls::bls_add_signature_spec;
use crate::committee::{Committee, EpochId};
use crate::error::{SuiError, SuiResult};
use crate::obligation::VerificationObligation;
use crate::private::SealedAuthoritySignInfoTrait;
use std::hash::{Hash, Hasher};
use vstd::prelude::*;
use vstd::std_specs::cmp::{PartialEqSpec, PartialEqSpecImpl};

verus! {

/// `Hash::hash` of `u64`: writes the value to the hasher. Nothing is stated
/// about the hasher's state.
pub assume_specification<H: Hasher>[ <u64 as Hash>::hash ](value: &u64, state: &mut H);

/// `Hash::hash` of an array: writes the elements to the hasher. Nothing is
/// stated about the hasher's state.
pub assume_specification<A: Hash, const N: usize, H: Hasher>[ <[A; N] as Hash>::hash ](
    value: &[A; N],
    state: &mut H,
);

/// Marks the types that say how a message is attested: not at all, by one
/// validator, or by a quorum. The set is closed.
pub trait AuthoritySignInfoTrait: SealedAuthoritySignInfoTrait {

}

/// The attestation of a message that nobody has signed.
#[derive(Clone, Copy, Debug, PartialEq, Eq, Structural)]
pub struct EmptySignInfo {}

impl SealedAuthoritySignInfoTrait for EmptySignInfo {

}

impl AuthoritySignInfoTrait for EmptySignInfo {

}

/// One validator's signed vote over a message, for one epoch.
#[derive(Clone, Copy, Debug)]
pub struct AuthoritySignInfo {
    pub epoch: EpochId,
    pub authority: AuthorityName,
    pub signature: AuthoritySignature,
}

impl SealedAuthoritySignInfoTrait for AuthoritySignInfo {

}

impl AuthoritySignInfoTrait for AuthoritySignInfo {

}

impl PartialEq for AuthoritySignInfo {
    /// Two votes are the same vote if epoch and validator agree. The
    /// signature is left out on purpose: a validator can sign the same
    /// content in more than one valid way and must still count once.
    fn eq(&self, other: &Self) -> (same: bool) {
        self.epoch == other.epoch && self.authority.same_as(&other.authority)
    }
}

impl Eq for AuthoritySignInfo {

}

impl PartialEqSpecImpl for AuthoritySignInfo {
    open spec fn obeys_eq_spec() -> bool {
        true
    }

    open spec fn eq_spec(&self, other: &Self) -> bool {
        self.epoch == other.epoch && self.authority@ == other.authority@
    }
}

impl Hash for AuthoritySignInfo {
    /// Feeds epoch and validator to the hasher, and nothing of the signature.
    fn hash<H: Hasher>(&self, state: &mut H) {
        self.epoch.hash(state);
        self.authority.0.hash(state);
    }
}

impl AuthoritySignInfo {
    /// Deduplication: two votes with the same epoch and validator are equal,
    /// whatever their signatures; votes that differ in either are not.
    pub proof fn lemma_same_vote(first: AuthoritySignInfo, second: AuthoritySignInfo)
        ensures
            PartialEqSpec::eq_spec(&first, &second) <==> first.epoch == second.epoch
                && first.authority@ == second.authority@,
            PartialEqSpec::eq_spec(&first, &second) == PartialEqSpec::eq_spec(&second, &first),
    {
    }

    /// What [`AuthoritySignInfo::add_to_verification_obligation`] answers.
    pub open spec fn staging_outcome(
        &self,
        committee: &Committee,
        obligation: &VerificationObligation,
        message_index: usize,
    ) -> SuiResult<()> {
        if message_index >= obligation.public_keys@.len() {
            Err(SuiError::InvalidAddress)
        } else {
            match committee.public_key_spec(self.authority@) {
                Err(e) => Err(e),
                Ok(_) => if bls_add_signature_spec(
                    obligation.signatures@[message_index as int]@,
                    self.signature@,
                ) is None {
                    Err(SuiError::InvalidSignature)
                } else {
                    Ok(())
                },
            }
        }
    }

    /// Whether the signer's key reaches the obligation: the slot exists and
    /// the committee knows the signer's key.
    pub open spec fn key_is_staged(
        &self,
        committee: &Committee,
        obligation: &VerificationObligation,
        message_index: usize,
    ) -> bool {
        message_index < obligation.public_keys@.len() && committee.public_key_spec(
            self.authority@,
        ) is Ok
    }

    /// Folds this vote into the entry of `obligation` at `message_index`:
    /// the signer's key joins the entry's keys, and the signature joins the
    /// entry's aggregate.
    ///
    /// Fails with `InvalidAddress` if there is no such entry or the signer's
    /// name encodes no key, with `UnknownSigner` if the signer is not in the
    /// committee, and with `InvalidSignature` if the aggregate refuses the
    /// signature; in the last case the key has been added already.
    pub fn add_to_verification_obligation(
        &self,
        committee: &Committee,
        obligation: &mut VerificationObligation,
        message_index: usize,
    ) -> (result: SuiResult<()>)
        requires
            old(obligation).wf(),
        ensures
            result == self.staging_outcome(committee, old(obligation), message_index),
            final(obligation).wf(),
            final(obligation).same_except(old(obligation), message_index as int),
            self.key_is_staged(committee, old(obligation), message_index) ==> final(
                obligation
            ).keys_at(message_index as int) == old(obligation).keys_at(message_index as int).push(
                self.authority@,
            ),
            !self.key_is_staged(committee, old(obligation), message_index) ==> final(
                obligation
            ).public_keys@ == old(obligation).public_keys@,
            result is Ok ==> Some(final(obligation).signature_at(message_index as int))
                == bls_add_signature_spec(
                old(obligation).signature_at(message_index as int),
                self.signature@,
            ),
            result is Err ==> final(obligation).signatures@ == old(obligation).signatures@,
    {
        if message_index >= obligation.public_keys.len() {
            return Err(SuiError::InvalidAddress);
        }
        let key = match committee.public_key(&self.authority) {
            Ok(key) => key,
            Err(e) => {
                return Err(e);
            },
        };
        let ghost keys_before = obligation.keys_at(message_index as int);
        obligation.public_keys[message_index].push(key);
        proof {
            assert(obligation.keys_at(message_index as int) =~= keys_before.push(
                self.authority@,
            ));
        }
        let ghost signatures_before = obligation.signatures@;
        let added = obligation.signatures[message_index].add_signature(&self.signature);
        proof {
            if added is Err {
                assert(obligation.signatures@ =~= signatures_before);
            }
        }
        added
    }
}

} // verus!
