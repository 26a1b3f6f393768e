//! Quorum certificates: an aggregate signature with the set of validators
//! that signed, checked against a stake threshold.
use crate::authority::{AggregateAuthoritySignature, AuthoritySignature};
use crate::base_types::{AuthorityName, AuthorityPublicKeyBytes};
use crate::bitmap::{
    ascending_insert, bitmap_insert, bitmap_new, bitmap_to_vec, bitmap_values,
    lemma_ascending_insert_ascending, lemma_ascending_insert_contains, strictly_ascending,
};
use crate::bls::{
    bls_add_aggregate_spec, bls_aggregate, bls_aggregate_spec, bls_public_key_decodes_spec,
    infinity_signature, signature_bytes,
};
use crate::committee::{
    index_of, lemma_index_of_member, lemma_total_stake_prefix, quorum_threshold_of, total_stake,
    validity_threshold_of, Committee, EpochId, Member, StakeUnit,
};
use crate::error::{SuiError, SuiResult};
use crate::obligation::VerificationObligation;
use crate::private::SealedAuthoritySignInfoTrait;
use crate::sign_info::AuthoritySignInfoTrait;
use crate::sorting::{
    lemma_name_sorted_unique, name_sorted, one_signature_per_name, pairs_view, sort_by_name,
    SignedName,
};
use roaring::RoaringBitmap;
use vstd::prelude::*;

verus! {

/// What a certificate is as plain values: its epoch, the bytes of its
/// aggregate signature, and its signers' positions in ascending order.
pub type CertificateView = (EpochId, Seq<u8>, Seq<u32>);

/// Whether some entry carries a name that the committee does not know.
pub open spec fn has_unknown_name(members: Seq<Member>, pairs: Seq<SignedName>) -> bool {
    exists|i: int| 0 <= i < pairs.len() && index_of(members, pairs[i].0) is None
}

/// The signatures of the entries, in order.
pub open spec fn signatures_of(pairs: Seq<SignedName>) -> Seq<Seq<u8>> {
    Seq::new(pairs.len(), |i: int| pairs[i].1)
}

/// The positions of the entries' names in the committee, as an ascending
/// list without repetition. Meaningful where every name is known.
pub open spec fn signer_set(members: Seq<Member>, pairs: Seq<SignedName>) -> Seq<u32>
    decreases pairs.len(),
{
    if pairs.len() == 0 {
        Seq::<u32>::empty()
    } else {
        ascending_insert(
            signer_set(members, pairs.drop_last()),
            index_of(members, pairs.last().0).unwrap() as u32,
        )
    }
}

/// The certificate that [`AuthorityQuorumSignInfo::new_with_signatures`]
/// builds from `pairs`, or the error it fails with.
///
/// The entries are taken in ascending order of their names. An unknown name
/// gives `UnknownSigner`; signatures that cannot be aggregated, or none at
/// all, give `InvalidSignature`.
pub open spec fn certificate_spec(
    epoch: EpochId,
    pairs: Seq<SignedName>,
    members: Seq<Member>,
) -> SuiResult<CertificateView> {
    let sorted = name_sorted(pairs);
    if has_unknown_name(members, sorted) {
        Err(SuiError::UnknownSigner)
    } else {
        match bls_aggregate_spec(signatures_of(sorted)) {
            None => Err(SuiError::InvalidSignature),
            Some(aggregate) => Ok((epoch, aggregate, signer_set(members, sorted))),
        }
    }
}

/// What the committee says of the signer at position `index`: its name, or
/// `UnknownSigner` if there is no such member or it holds no stake, or
/// `InvalidAddress` if its name encodes no key.
pub open spec fn signer_check(members: Seq<Member>, index: u32) -> SuiResult<Seq<u8>> {
    if index >= members.len() {
        Err(SuiError::UnknownSigner)
    } else if members[index as int].1 == 0 {
        Err(SuiError::UnknownSigner)
    } else if !bls_public_key_decodes_spec(members[index as int].0) {
        Err(SuiError::InvalidAddress)
    } else {
        Ok(members[index as int].0)
    }
}

/// The error of the first signer that the committee refuses, if any.
pub open spec fn staging_error(members: Seq<Member>, signers: Seq<u32>) -> Option<SuiError>
    decreases signers.len(),
{
    if signers.len() == 0 {
        None
    } else {
        match staging_error(members, signers.drop_last()) {
            Some(e) => Some(e),
            None => match signer_check(members, signers.last()) {
                Ok(_) => None,
                Err(e) => Some(e),
            },
        }
    }
}

/// The keys of the signers in front of the first one that the committee
/// refuses; of all signers if it refuses none.
pub open spec fn staged_keys(members: Seq<Member>, signers: Seq<u32>) -> Seq<Seq<u8>>
    decreases signers.len(),
{
    if signers.len() == 0 {
        Seq::<Seq<u8>>::empty()
    } else {
        let before = staged_keys(members, signers.drop_last());
        if staging_error(members, signers.drop_last()) is Some {
            before
        } else {
            match signer_check(members, signers.last()) {
                Ok(key) => before.push(key),
                Err(_) => before,
            }
        }
    }
}

/// The stake that the listed signers hold together; a position without a
/// member counts nothing.
pub open spec fn stake_of(members: Seq<Member>, signers: Seq<u32>) -> nat
    decreases signers.len(),
{
    if signers.len() == 0 {
        0
    } else {
        stake_of(members, signers.drop_last()) + (if signers.last() < members.len() {
            members[signers.last() as int].1 as nat
        } else {
            0
        })
    }
}

/// The stake that a certificate must reach: the supermajority threshold for
/// a strong certificate, the minimum-validity threshold for a weak one.
pub open spec fn threshold_of(strong: bool, total: nat) -> nat {
    if strong {
        quorum_threshold_of(total)
    } else {
        validity_threshold_of(total)
    }
}

/// What staging a certificate with the given epoch, aggregate signature and
/// signers answers. The checks come in this order: epoch, entry, aggregate,
/// signers, stake.
pub open spec fn quorum_outcome(
    strong: bool,
    certificate: CertificateView,
    committee: &Committee,
    obligation: &VerificationObligation,
    message_index: usize,
) -> SuiResult<()> {
    let (epoch, aggregate, signers) = certificate;
    if epoch != committee.epoch_spec() {
        Err(SuiError::WrongEpoch { expected_epoch: committee.epoch_spec() })
    } else if message_index >= obligation.public_keys@.len() {
        Err(SuiError::InvalidAddress)
    } else if bls_add_aggregate_spec(obligation.signature_at(message_index as int), aggregate)
        is None {
        Err(SuiError::InvalidSignature)
    } else {
        match staging_error(committee.members(), signers) {
            Some(e) => Err(e),
            None => if stake_of(committee.members(), signers) < threshold_of(
                strong,
                total_stake(committee.members()),
            ) {
                Err(SuiError::CertificateRequiresQuorum)
            } else {
                Ok(())
            },
        }
    }
}

/// Whether staging gets as far as changing the entry: epoch and entry are
/// right and the aggregate accepts the certificate's signature.
pub open spec fn reaches_entry(
    certificate: CertificateView,
    committee: &Committee,
    obligation: &VerificationObligation,
    message_index: usize,
) -> bool {
    &&& certificate.0 == committee.epoch_spec()
    &&& message_index < obligation.public_keys@.len()
    &&& bls_add_aggregate_spec(obligation.signature_at(message_index as int), certificate.1)
        is Some
}

/// An error among the leading signers is the error of the whole list, and
/// no key behind it is staged.
pub proof fn lemma_staging_error_prefix(members: Seq<Member>, signers: Seq<u32>, n: int)
    requires
        0 <= n <= signers.len(),
        staging_error(members, signers.subrange(0, n)) is Some,
    ensures
        staging_error(members, signers) == staging_error(members, signers.subrange(0, n)),
        staged_keys(members, signers) == staged_keys(members, signers.subrange(0, n)),
    decreases signers.len(),
{
    if n == signers.len() {
        assert(signers.subrange(0, n) =~= signers);
    } else {
        assert(signers.drop_last().subrange(0, n) =~= signers.subrange(0, n));
        lemma_staging_error_prefix(members, signers.drop_last(), n);
    }
}

/// Signers at distinct positions of the committee hold no more than the
/// committee's total stake.
pub proof fn lemma_stake_bounded(members: Seq<Member>, signers: Seq<u32>, n: int)
    requires
        strictly_ascending(signers),
        0 <= n <= members.len(),
        forall|k: int| 0 <= k < signers.len() ==> signers[k] < n,
    ensures
        stake_of(members, signers) <= total_stake(members.subrange(0, n)),
        stake_of(members, signers) <= total_stake(members),
    decreases signers.len(),
{
    lemma_total_stake_prefix(members, n);
    if signers.len() > 0 {
        let last = signers.last() as int;
        let before = signers.drop_last();
        assert(strictly_ascending(before));
        assert forall|k: int| 0 <= k < before.len() implies before[k] < last by {
            assert(signers[k] < signers[signers.len() - 1]);
        }
        lemma_stake_bounded(members, before, last);
        let upto = members.subrange(0, last + 1);
        assert(upto.drop_last() =~= members.subrange(0, last));
        assert(upto.last() == members[last]);
        assert(members.subrange(0, n).subrange(0, last + 1) =~= upto);
        lemma_total_stake_prefix(members.subrange(0, n), last + 1);
    }
}

/// The stake of two lists of signers is the sum of their stakes.
pub proof fn lemma_stake_additive(members: Seq<Member>, a: Seq<u32>, b: Seq<u32>)
    ensures
        stake_of(members, a + b) == stake_of(members, a) + stake_of(members, b),
    decreases b.len(),
{
    if b.len() == 0 {
        assert(a + b =~= a);
    } else {
        assert((a + b).drop_last() =~= a + b.drop_last());
        assert((a + b).last() == b.last());
        lemma_stake_additive(members, a, b.drop_last());
    }
}

/// Quorum monotonicity, first part: adding a signer never lowers the
/// signers' stake.
pub proof fn lemma_stake_monotone(members: Seq<Member>, signers: Seq<u32>, added: u32)
    ensures
        stake_of(members, ascending_insert(signers, added)) >= stake_of(members, signers),
    decreases signers.len(),
{
    if signers.len() == 0 {
    } else if added == signers[0] {
    } else if added < signers[0] {
        lemma_stake_additive(members, seq![added], signers);
    } else {
        let rest = signers.drop_first();
        lemma_stake_monotone(members, rest, added);
        lemma_stake_additive(members, seq![signers[0]], ascending_insert(rest, added));
        lemma_stake_additive(members, seq![signers[0]], rest);
        assert(seq![signers[0]] + rest =~= signers);
    }
}

/// Quorum monotonicity, second part: a certificate whose other checks pass
/// is accepted if and only if its signers' stake reaches the threshold of
/// its kind, and is refused with `CertificateRequiresQuorum` otherwise.
pub proof fn lemma_quorum_iff_stake(
    strong: bool,
    certificate: CertificateView,
    committee: &Committee,
    obligation: &VerificationObligation,
    message_index: usize,
)
    requires
        reaches_entry(certificate, committee, obligation, message_index),
        staging_error(committee.members(), certificate.2) is None,
    ensures
        quorum_outcome(strong, certificate, committee, obligation, message_index) == Ok::<
            (),
            SuiError,
        >(()) <==> stake_of(committee.members(), certificate.2) >= threshold_of(
            strong,
            total_stake(committee.members()),
        ),
        stake_of(committee.members(), certificate.2) < threshold_of(
            strong,
            total_stake(committee.members()),
        ) ==> quorum_outcome(strong, certificate, committee, obligation, message_index) == Err::<
            (),
            SuiError,
        >(SuiError::CertificateRequiresQuorum),
{
}

/// Quorum monotonicity, third part: take the last signer away from an
/// accepted certificate whose stake is exactly the threshold, and the rest
/// is refused with `CertificateRequiresQuorum`, whatever aggregate signature
/// it carries that the entry accepts.
pub proof fn lemma_quorum_lost_without_last_signer(
    strong: bool,
    certificate: CertificateView,
    reduced_signature: Seq<u8>,
    committee: &Committee,
    obligation: &VerificationObligation,
    message_index: usize,
)
    requires
        quorum_outcome(strong, certificate, committee, obligation, message_index) is Ok,
        certificate.2.len() > 0,
        stake_of(committee.members(), certificate.2) == threshold_of(
            strong,
            total_stake(committee.members()),
        ),
        reaches_entry(
            (certificate.0, reduced_signature, certificate.2.drop_last()),
            committee,
            obligation,
            message_index,
        ),
    ensures
        quorum_outcome(
            strong,
            (certificate.0, reduced_signature, certificate.2.drop_last()),
            committee,
            obligation,
            message_index,
        ) == Err::<(), SuiError>(SuiError::CertificateRequiresQuorum),
{
    let members = committee.members();
    let signers = certificate.2;
    assert(staging_error(members, signers) is None);
    assert(staging_error(members, signers.drop_last()) is None);
    assert(signer_check(members, signers.last()) is Ok);
    assert(members[signers.last() as int].1 > 0);
}

/// Epoch fencing: a certificate for another epoch than the committee's is
/// refused with `WrongEpoch`, whatever its signers and their stake.
pub proof fn lemma_epoch_fencing(
    strong: bool,
    certificate: CertificateView,
    committee: &Committee,
    obligation: &VerificationObligation,
    message_index: usize,
)
    requires
        certificate.0 != committee.epoch_spec(),
    ensures
        quorum_outcome(strong, certificate, committee, obligation, message_index) == Err::<
            (),
            SuiError,
        >(SuiError::WrongEpoch { expected_epoch: committee.epoch_spec() }),
{
}

/// Order independence: two lists that hold the same names with the same
/// signatures, each name with one signature only, give the same certificate
/// or the same error.
pub proof fn lemma_order_independence(
    epoch: EpochId,
    first: Seq<SignedName>,
    second: Seq<SignedName>,
    members: Seq<Member>,
)
    requires
        one_signature_per_name(first),
        first.to_multiset() == second.to_multiset(),
    ensures
        certificate_spec(epoch, first, members) == certificate_spec(epoch, second, members),
{
    lemma_name_sorted_unique(first, second);
}

/// A proof that a quorum of validators signed a message: the aggregate of
/// their signatures and the set of their positions in the committee.
///
/// `STRONG_THRESHOLD` says which threshold the signers' stake must reach:
/// the supermajority threshold if `true`, the minimum-validity threshold if
/// `false`. It is part of the type, so a weak certificate cannot stand in
/// for a strong one.
#[derive(Debug)]
pub struct AuthorityQuorumSignInfo<const STRONG_THRESHOLD: bool> {
    pub epoch: EpochId,
    pub signature: AggregateAuthoritySignature,
    pub signers_map: RoaringBitmap,
}

/// A certificate that proves a supermajority.
pub type AuthorityStrongQuorumSignInfo = AuthorityQuorumSignInfo<true>;

/// A certificate that proves minimum validity.
pub type AuthorityWeakQuorumSignInfo = AuthorityQuorumSignInfo<false>;

impl<const S: bool> SealedAuthoritySignInfoTrait for AuthorityQuorumSignInfo<S> {

}

impl<const S: bool> AuthoritySignInfoTrait for AuthorityQuorumSignInfo<S> {

}

impl<const STRONG_THRESHOLD: bool> View for AuthorityQuorumSignInfo<STRONG_THRESHOLD> {
    type V = CertificateView;

    open spec fn view(&self) -> CertificateView {
        (self.epoch, self.signature@, bitmap_values(self.signers_map))
    }
}

impl<const STRONG_THRESHOLD: bool> Clone for AuthorityQuorumSignInfo<STRONG_THRESHOLD> {
    fn clone(&self) -> (copy: Self)
        ensures
            copy@ == self@,
    {
        AuthorityQuorumSignInfo {
            epoch: self.epoch,
            signature: self.signature,
            signers_map: self.signers_map.clone(),
        }
    }
}

impl<const STRONG_THRESHOLD: bool> AuthorityQuorumSignInfo<STRONG_THRESHOLD> {
    /// The signers' positions in the committee, in ascending order.
    pub open spec fn signers(&self) -> Seq<u32> {
        bitmap_values(self.signers_map)
    }

    /// A certificate for `epoch` without signers, holding the aggregate of
    /// no signatures.
    pub fn new(epoch: EpochId) -> (certificate: Self)
        ensures
            certificate@ == (epoch, infinity_signature(), Seq::<u32>::empty()),
    {
        AuthorityQuorumSignInfo {
            epoch,
            signature: AggregateAuthoritySignature::default(),
            signers_map: bitmap_new(),
        }
    }

    /// Builds the certificate for `epoch` from validators' names and
    /// signatures. The outcome does not depend on the order of `signatures`
    /// as long as no name comes with two different signatures. Whether the
    /// signers' stake reaches the threshold is not looked at here.
    pub fn new_with_signatures(
        epoch: EpochId,
        signatures: Vec<(AuthorityPublicKeyBytes, AuthoritySignature)>,
        committee: &Committee,
    ) -> (result: SuiResult<Self>)
        ensures
            match certificate_spec(epoch, pairs_view(signatures@), committee.members()) {
                Ok(certificate) => result is Ok && result.unwrap()@ == certificate,
                Err(e) => result is Err && result->Err_0 == e,
            },
            signatures@.len() == 0 ==> result is Err && result->Err_0
                == SuiError::InvalidSignature,
            result is Ok ==> strictly_ascending(result.unwrap().signers())
                && result.unwrap().signers().len() > 0,
            result is Ok ==> forall|k: int|
                0 <= k < result.unwrap().signers().len() ==> (
                #[trigger] result.unwrap().signers()[k]) < committee.members().len(),
    {
        let ghost members = committee.members();
        let ghost given = pairs_view(signatures@);
        let sorted = sort_by_name(signatures);
        let ghost pairs = pairs_view(sorted@);
        let mut map = bitmap_new();
        let mut sigs: Vec<AuthoritySignature> = Vec::new();
        let mut i: usize = 0;
        while i < sorted.len()
            invariant
                i <= sorted.len(),
                pairs == pairs_view(sorted@),
                pairs == name_sorted(given),
                given == pairs_view(signatures@),
                members == committee.members(),
                forall|k: int| 0 <= k < i ==> index_of(members, pairs[k].0) is Some,
                bitmap_values(map) == signer_set(members, pairs.subrange(0, i as int)),
                strictly_ascending(bitmap_values(map)),
                forall|k: int|
                    0 <= k < bitmap_values(map).len() ==> (#[trigger] bitmap_values(map)[k])
                        < members.len(),
                sigs@.len() == i,
                forall|k: int| 0 <= k < i ==> sigs@[k]@ == pairs[k].1,
            decreases sorted.len() - i,
        {
            let index = match committee.authority_index(&sorted[i].0) {
                Some(index) => index,
                None => {
                    assert(index_of(members, pairs[i as int].0) is None);
                    assert(has_unknown_name(members, pairs));
                    return Err(SuiError::UnknownSigner);
                },
            };
            proof {
                lemma_ascending_insert_ascending(bitmap_values(map), index);
                assert(pairs.subrange(0, i + 1).drop_last() =~= pairs.subrange(0, i as int));
                assert(pairs.subrange(0, i + 1).last() == pairs[i as int]);
                let before = bitmap_values(map);
                let after = ascending_insert(before, index);
                assert forall|k: int| 0 <= k < after.len() implies (#[trigger] after[k])
                    < members.len() by {
                    lemma_ascending_insert_contains(before, index, after[k]);
                    assert(after.contains(after[k]));
                    if before.contains(after[k]) {
                        let m = choose|m: int| 0 <= m < before.len() && before[m] == after[k];
                        assert(before[m] < members.len());
                    }
                }
            }
            bitmap_insert(&mut map, index);
            sigs.push(sorted[i].1);
            i += 1;
        }
        proof {
            assert(pairs.subrange(0, i as int) =~= pairs);
            assert(!has_unknown_name(members, pairs));
            assert(signature_bytes(sigs@) =~= signatures_of(pairs));
            if pairs.len() > 0 {
                lemma_ascending_insert_contains(
                    signer_set(members, pairs.drop_last()),
                    index_of(members, pairs.last().0).unwrap() as u32,
                    index_of(members, pairs.last().0).unwrap() as u32,
                );
            }
        }
        match bls_aggregate(&sigs) {
            None => Err(SuiError::InvalidSignature),
            Some(aggregate) => Ok(
                AuthorityQuorumSignInfo {
                    epoch,
                    signature: AggregateAuthoritySignature(aggregate),
                    signers_map: map,
                },
            ),
        }
    }

    /// What [`AuthorityQuorumSignInfo::add_to_verification_obligation`]
    /// answers.
    pub open spec fn staging_outcome(
        &self,
        committee: &Committee,
        obligation: &VerificationObligation,
        message_index: usize,
    ) -> SuiResult<()> {
        quorum_outcome(STRONG_THRESHOLD, self@, committee, obligation, message_index)
    }

    /// Stages the certificate into the entry of `obligation` at
    /// `message_index` and checks everything that needs no cryptography.
    ///
    /// In this order: the certificate's epoch must be the committee's
    /// (`WrongEpoch`); the entry must exist (`InvalidAddress`); the entry's
    /// aggregate must accept the certificate's (`InvalidSignature`); every
    /// signer must be a member with stake (`UnknownSigner`) whose name
    /// encodes a key (`InvalidAddress`); and the signers' stake must reach
    /// the threshold of the certificate's kind (`CertificateRequiresQuorum`).
    ///
    /// Once the aggregate has accepted, the entry holds the new aggregate
    /// and the keys of the signers in front of the first refused one,
    /// whatever the answer. The signatures themselves are checked later, by
    /// the obligation.
    #[verifier::loop_isolation(false)]
    pub fn add_to_verification_obligation(
        &self,
        committee: &Committee,
        obligation: &mut VerificationObligation,
        message_index: usize,
    ) -> (result: SuiResult<()>)
        requires
            old(obligation).wf(),
        ensures
            result == self.staging_outcome(committee, old(obligation), message_index),
            final(obligation).wf(),
            final(obligation).same_except(old(obligation), message_index as int),
            !reaches_entry(self@, committee, old(obligation), message_index) ==> {
                &&& final(obligation).public_keys@ == old(obligation).public_keys@
                &&& final(obligation).signatures@ == old(obligation).signatures@
            },
            reaches_entry(self@, committee, old(obligation), message_index) ==> {
                &&& Some(final(obligation).signature_at(message_index as int))
                    == bls_add_aggregate_spec(
                    old(obligation).signature_at(message_index as int),
                    self.signature@,
                )
                &&& final(obligation).keys_at(message_index as int) == old(obligation).keys_at(
                    message_index as int,
                ) + staged_keys(committee.members(), self.signers())
            },
    {
        let committee_epoch = committee.epoch();
        if self.epoch != committee_epoch {
            return Err(SuiError::WrongEpoch { expected_epoch: committee_epoch });
        }
        if message_index >= obligation.public_keys.len() {
            return Err(SuiError::InvalidAddress);
        }
        let ghost signatures_before = obligation.signatures@;
        match obligation.signatures[message_index].add_aggregate(&self.signature) {
            Err(e) => {
                assert(obligation.signatures@ =~= signatures_before);
                return Err(e);
            },
            Ok(_) => {},
        }
        let ghost staged = *obligation;
        let ghost members = committee.members();
        let signers = bitmap_to_vec(&self.signers_map);
        let mut weight: StakeUnit = 0;
        let mut k: usize = 0;
        proof {
            assert(obligation.keys_at(message_index as int) =~= staged.keys_at(
                message_index as int,
            ) + staged_keys(members, signers@.subrange(0, 0)));
        }
        while k < signers.len()
            invariant
                k <= signers.len(),
                signers@ == self.signers(),
                strictly_ascending(signers@),
                members == committee.members(),
                committee.wf(),
                message_index < obligation.public_keys@.len(),
                obligation.same_except(&staged, message_index as int),
                obligation.signatures@ == staged.signatures@,
                staging_error(members, signers@.subrange(0, k as int)) is None,
                forall|j: int| 0 <= j < k ==> signers@[j] < members.len(),
                weight == stake_of(members, signers@.subrange(0, k as int)),
                obligation.keys_at(message_index as int) == staged.keys_at(message_index as int)
                    + staged_keys(members, signers@.subrange(0, k as int)),
            decreases signers.len() - k,
        {
            let ghost prefix = signers@.subrange(0, k as int);
            let ghost next = signers@.subrange(0, k + 1);
            proof {
                assert(next.drop_last() =~= prefix);
                assert(next.last() == signers@[k as int]);
            }
            let authority = match committee.authority_by_index(signers[k]) {
                Some(authority) => authority,
                None => {
                    proof {
                        lemma_staging_error_prefix(members, signers@, k + 1);
                    }
                    return Err(SuiError::UnknownSigner);
                },
            };
            proof {
                lemma_index_of_member(members, signers@[k as int] as int);
            }
            let voting_rights = committee.weight(authority);
            if voting_rights == 0 {
                proof {
                    lemma_staging_error_prefix(members, signers@, k + 1);
                }
                return Err(SuiError::UnknownSigner);
            }
            proof {
                assert(strictly_ascending(next));
                assert forall|j: int| 0 <= j < next.len() implies next[j] < members.len() by {
                    assert(next[j] == signers@[j]);
                }
                lemma_stake_bounded(members, next, members.len() as int);
            }
            weight = weight + voting_rights;
            let key = match committee.public_key(authority) {
                Ok(key) => key,
                Err(e) => {
                    proof {
                        lemma_staging_error_prefix(members, signers@, k + 1);
                    }
                    return Err(e);
                },
            };
            let ghost keys_before = obligation.keys_at(message_index as int);
            obligation.public_keys[message_index].push(key);
            proof {
                assert(obligation.keys_at(message_index as int) =~= keys_before.push(key@));
                assert(staged_keys(members, next) == staged_keys(members, prefix).push(key@));
                assert(obligation.keys_at(message_index as int) =~= staged.keys_at(
                    message_index as int,
                ) + staged_keys(members, next));
            }
            k += 1;
        }
        proof {
            assert(signers@.subrange(0, k as int) =~= signers@);
        }
        let threshold = if STRONG_THRESHOLD {
            committee.quorum_threshold()
        } else {
            committee.validity_threshold()
        };
        if weight < threshold {
            return Err(SuiError::CertificateRequiresQuorum);
        }
        Ok(())
    }

    /// What [`AuthorityQuorumSignInfo::authorities`] lists for the signer at
    /// position `index`.
    pub open spec fn authority_spec(members: Seq<Member>, index: u32) -> SuiResult<Seq<u8>> {
        if index < members.len() {
            Ok(members[index as int].0)
        } else {
            Err(SuiError::UnknownSigner)
        }
    }

    /// The names of the signers, in ascending order of their positions; for
    /// a position that `committee` does not have, `UnknownSigner` in its
    /// place.
    pub fn authorities(&self, committee: &Committee) -> (names: Vec<SuiResult<AuthorityName>>)
        ensures
            names@.len() == self.signers().len(),
            forall|k: int|
                0 <= k < names@.len() ==> match Self::authority_spec(
                    committee.members(),
                    self.signers()[k],
                ) {
                    Ok(name) => (#[trigger] names@[k]) is Ok && names@[k].unwrap()@ == name,
                    Err(e) => names@[k] == Err::<AuthorityName, SuiError>(e),
                },
    {
        let signers = bitmap_to_vec(&self.signers_map);
        let mut names: Vec<SuiResult<AuthorityName>> = Vec::new();
        let mut k: usize = 0;
        while k < signers.len()
            invariant
                k <= signers.len(),
                signers@ == self.signers(),
                names@.len() == k,
                forall|j: int|
                    0 <= j < k ==> match Self::authority_spec(committee.members(), signers@[j]) {
                        Ok(name) => (#[trigger] names@[j]) is Ok && names@[j].unwrap()@ == name,
                        Err(e) => names@[j] == Err::<AuthorityName, SuiError>(e),
                    },
            decreases signers.len() - k,
        {
            match committee.authority_by_index(signers[k]) {
                Some(name) => names.push(Ok(*name)),
                None => names.push(Err(SuiError::UnknownSigner)),
            }
            k += 1;
        }
        names
    }
}

} // verus!
