use sui_crypto::authority::{AuthoritySignature, SuiAuthoritySignature};
use sui_crypto::base_types::AuthorityPublicKeyBytes;
use sui_crypto::committee::Committee;
use sui_crypto::error::SuiError;
use sui_crypto::keys::{get_key_pair_from_bytes, AuthorityKeyPair};
use sui_crypto::obligation::VerificationObligation;
use sui_crypto::quorum::{
    AuthorityQuorumSignInfo, AuthorityStrongQuorumSignInfo, AuthorityWeakQuorumSignInfo,
};

const EPOCH: u64 = 3;
const MESSAGE: &[u8] = b"Transaction::transfer 5 to alice";

fn validator(n: u8) -> AuthorityKeyPair {
    let mut secret = [0u8; 32];
    secret[31] = n;
    get_key_pair_from_bytes::<AuthorityKeyPair>(&secret).unwrap().1
}

fn committee_of(weights: &[u64]) -> Committee {
    let members = weights
        .iter()
        .enumerate()
        .map(|(i, w)| (validator(i as u8 + 1).public_key_bytes(), *w))
        .collect();
    Committee::new(EPOCH, members).unwrap()
}

fn votes(positions: &[u8], message: &[u8]) -> Vec<(AuthorityPublicKeyBytes, AuthoritySignature)> {
    positions
        .iter()
        .map(|p| {
            let pair = validator(p + 1);
            (pair.public_key_bytes(), AuthoritySignature::new(&message.to_vec(), &pair))
        })
        .collect()
}

fn signers_of<const S: bool>(certificate: &AuthorityQuorumSignInfo<S>) -> Vec<u32> {
    certificate.signers_map.iter().collect()
}

fn stage<const S: bool>(
    certificate: &AuthorityQuorumSignInfo<S>,
    committee: &Committee,
    message: &[u8],
) -> (Result<(), SuiError>, VerificationObligation) {
    let mut obligation = VerificationObligation::default();
    let index = obligation.add_message(message.to_vec());
    let staged = certificate.add_to_verification_obligation(committee, &mut obligation, index);
    (staged, obligation)
}

#[test]
fn strong_certificate_of_three_in_four_verifies() {
    let committee = committee_of(&[1, 1, 1, 1]);
    assert_eq!(committee.quorum_threshold(), 3);
    assert_eq!(committee.validity_threshold(), 2);
    let certificate = AuthorityStrongQuorumSignInfo::new_with_signatures(
        EPOCH,
        votes(&[0, 1, 2], MESSAGE),
        &committee,
    )
    .unwrap();
    assert_eq!(signers_of(&certificate), vec![0, 1, 2]);
    let (staged, obligation) = stage(&certificate, &committee, MESSAGE);
    assert_eq!(staged, Ok(()));
    assert!(obligation.verify_all().is_ok());
}

#[test]
fn strong_certificate_of_two_in_four_lacks_quorum() {
    let committee = committee_of(&[1, 1, 1, 1]);
    let certificate = AuthorityStrongQuorumSignInfo::new_with_signatures(
        EPOCH,
        votes(&[0, 1], MESSAGE),
        &committee,
    )
    .unwrap();
    assert_eq!(signers_of(&certificate), vec![0, 1]);
    let (staged, _) = stage(&certificate, &committee, MESSAGE);
    assert_eq!(staged, Err(SuiError::CertificateRequiresQuorum));
}

#[test]
fn weak_certificate_of_two_in_four_verifies() {
    let committee = committee_of(&[1, 1, 1, 1]);
    let certificate = AuthorityWeakQuorumSignInfo::new_with_signatures(
        EPOCH,
        votes(&[0, 1], MESSAGE),
        &committee,
    )
    .unwrap();
    let (staged, obligation) = stage(&certificate, &committee, MESSAGE);
    assert_eq!(staged, Ok(()));
    assert!(obligation.verify_all().is_ok());
}

#[test]
fn weak_certificate_of_one_in_four_lacks_quorum() {
    let committee = committee_of(&[1, 1, 1, 1]);
    let certificate = AuthorityWeakQuorumSignInfo::new_with_signatures(
        EPOCH,
        votes(&[0], MESSAGE),
        &committee,
    )
    .unwrap();
    assert_eq!(signers_of(&certificate), vec![0]);
    let (staged, _) = stage(&certificate, &committee, MESSAGE);
    assert_eq!(staged, Err(SuiError::CertificateRequiresQuorum));
}

#[test]
fn stake_decides_not_the_number_of_signers() {
    let committee = committee_of(&[7, 1, 1, 1]);
    assert_eq!(committee.quorum_threshold(), 7);
    let heavy = AuthorityStrongQuorumSignInfo::new_with_signatures(
        EPOCH,
        votes(&[0], MESSAGE),
        &committee,
    )
    .unwrap();
    assert_eq!(stage(&heavy, &committee, MESSAGE).0, Ok(()));
    let light = AuthorityStrongQuorumSignInfo::new_with_signatures(
        EPOCH,
        votes(&[1, 2, 3], MESSAGE),
        &committee,
    )
    .unwrap();
    assert_eq!(
        stage(&light, &committee, MESSAGE).0,
        Err(SuiError::CertificateRequiresQuorum)
    );
}

#[test]
fn removing_the_last_signer_at_threshold_loses_quorum() {
    let committee = committee_of(&[2, 2, 3, 3]);
    assert_eq!(committee.quorum_threshold(), 7);
    let exact = AuthorityStrongQuorumSignInfo::new_with_signatures(
        EPOCH,
        votes(&[0, 1, 2], MESSAGE),
        &committee,
    )
    .unwrap();
    assert_eq!(stage(&exact, &committee, MESSAGE).0, Ok(()));
    let fewer = AuthorityStrongQuorumSignInfo::new_with_signatures(
        EPOCH,
        votes(&[0, 1], MESSAGE),
        &committee,
    )
    .unwrap();
    assert_eq!(
        stage(&fewer, &committee, MESSAGE).0,
        Err(SuiError::CertificateRequiresQuorum)
    );
    let more = AuthorityStrongQuorumSignInfo::new_with_signatures(
        EPOCH,
        votes(&[0, 1, 2, 3], MESSAGE),
        &committee,
    )
    .unwrap();
    assert_eq!(stage(&more, &committee, MESSAGE).0, Ok(()));
}

#[test]
fn order_of_the_votes_does_not_matter() {
    let committee = committee_of(&[1, 1, 1, 1]);
    let given = votes(&[0, 1, 2, 3], MESSAGE);
    let first = AuthorityStrongQuorumSignInfo::new_with_signatures(
        EPOCH,
        given.clone(),
        &committee,
    )
    .unwrap();
    let orders: [[usize; 4]; 4] = [[3, 2, 1, 0], [1, 0, 3, 2], [2, 3, 0, 1], [0, 2, 1, 3]];
    for order in orders {
        let shuffled = order.iter().map(|i| given[*i]).collect();
        let other =
            AuthorityStrongQuorumSignInfo::new_with_signatures(EPOCH, shuffled, &committee)
                .unwrap();
        assert_eq!(other.epoch, first.epoch);
        assert_eq!(other.signature.0, first.signature.0);
        assert_eq!(other.signers_map, first.signers_map);
        let mut ours = Vec::new();
        first.signers_map.serialize_into(&mut ours).unwrap();
        let mut theirs = Vec::new();
        other.signers_map.serialize_into(&mut theirs).unwrap();
        assert_eq!(ours, theirs);
    }
}

#[test]
fn certificate_of_another_epoch_is_fenced_off() {
    let committee = committee_of(&[1, 1, 1, 1]);
    let certificate = AuthorityStrongQuorumSignInfo::new_with_signatures(
        EPOCH + 1,
        votes(&[0, 1, 2, 3], MESSAGE),
        &committee,
    )
    .unwrap();
    let (staged, obligation) = stage(&certificate, &committee, MESSAGE);
    assert_eq!(staged, Err(SuiError::WrongEpoch { expected_epoch: EPOCH }));
    assert!(obligation.public_keys[0].is_empty());
    let earlier = AuthorityWeakQuorumSignInfo::new_with_signatures(
        EPOCH - 1,
        votes(&[0, 1, 2, 3], MESSAGE),
        &committee,
    )
    .unwrap();
    assert_eq!(
        stage(&earlier, &committee, MESSAGE).0,
        Err(SuiError::WrongEpoch { expected_epoch: EPOCH })
    );
}

#[test]
fn unknown_name_makes_no_certificate() {
    let committee = committee_of(&[1, 1, 1]);
    let built = AuthorityStrongQuorumSignInfo::new_with_signatures(
        EPOCH,
        votes(&[0, 1, 3], MESSAGE),
        &committee,
    );
    assert_eq!(built.err(), Some(SuiError::UnknownSigner));
}

#[test]
fn no_votes_make_no_certificate() {
    let committee = committee_of(&[1, 1, 1]);
    let built =
        AuthorityStrongQuorumSignInfo::new_with_signatures(EPOCH, Vec::new(), &committee);
    assert_eq!(built.err(), Some(SuiError::InvalidSignature));
}

#[test]
fn vote_that_does_not_decode_makes_no_certificate() {
    let committee = committee_of(&[1, 1, 1]);
    let mut given = votes(&[0, 1], MESSAGE);
    given[1].1 = AuthoritySignature([0xffu8; 48]);
    let built = AuthorityStrongQuorumSignInfo::new_with_signatures(EPOCH, given, &committee);
    assert_eq!(built.err(), Some(SuiError::InvalidSignature));
}

#[test]
fn construction_does_not_look_at_the_stake() {
    let committee = committee_of(&[1, 1, 1, 1]);
    let built = AuthorityStrongQuorumSignInfo::new_with_signatures(
        EPOCH,
        votes(&[2], MESSAGE),
        &committee,
    );
    assert_eq!(signers_of(&built.unwrap()), vec![2]);
}

#[test]
fn repeated_name_counts_once() {
    let committee = committee_of(&[1, 1, 1, 1]);
    let certificate = AuthorityWeakQuorumSignInfo::new_with_signatures(
        EPOCH,
        votes(&[1, 1], MESSAGE),
        &committee,
    )
    .unwrap();
    assert_eq!(signers_of(&certificate), vec![1]);
    let (staged, _) = stage(&certificate, &committee, MESSAGE);
    assert_eq!(staged, Err(SuiError::CertificateRequiresQuorum));
}

#[test]
fn empty_certificate_has_no_signers() {
    let certificate = AuthorityStrongQuorumSignInfo::new(EPOCH);
    assert_eq!(certificate.epoch, EPOCH);
    assert!(certificate.signers_map.is_empty());
    let mut infinity = [0u8; 48];
    infinity[0] = 0xc0;
    assert_eq!(certificate.signature.0, infinity);
    let committee = committee_of(&[1, 1]);
    assert_eq!(
        stage(&certificate, &committee, MESSAGE).0,
        Err(SuiError::CertificateRequiresQuorum)
    );
}

#[test]
fn staging_collects_keys_and_aggregate() {
    let committee = committee_of(&[1, 1, 1, 1]);
    let certificate = AuthorityStrongQuorumSignInfo::new_with_signatures(
        EPOCH,
        votes(&[3, 0, 2], MESSAGE),
        &committee,
    )
    .unwrap();
    let (staged, obligation) = stage(&certificate, &committee, MESSAGE);
    assert_eq!(staged, Ok(()));
    assert_eq!(obligation.messages, vec![MESSAGE.to_vec()]);
    assert_eq!(obligation.signatures[0].0, certificate.signature.0);
    let keys: Vec<Vec<u8>> =
        obligation.public_keys[0].iter().map(|k| k.as_bytes().to_vec()).collect();
    let expected: Vec<Vec<u8>> = [0u8, 2, 3]
        .iter()
        .map(|p| validator(p + 1).public_key_bytes().0.to_vec())
        .collect();
    assert_eq!(keys, expected);
}

#[test]
fn staging_needs_an_entry() {
    let committee = committee_of(&[1, 1, 1, 1]);
    let certificate = AuthorityStrongQuorumSignInfo::new_with_signatures(
        EPOCH,
        votes(&[0, 1, 2], MESSAGE),
        &committee,
    )
    .unwrap();
    let mut obligation = VerificationObligation::default();
    assert_eq!(
        certificate.add_to_verification_obligation(&committee, &mut obligation, 0),
        Err(SuiError::InvalidAddress)
    );
    obligation.add_message(MESSAGE.to_vec());
    assert_eq!(
        certificate.add_to_verification_obligation(&committee, &mut obligation, 1),
        Err(SuiError::InvalidAddress)
    );
    assert!(obligation.public_keys[0].is_empty());
}

#[test]
fn signer_without_stake_is_unknown() {
    let committee = committee_of(&[3, 0, 3]);
    let certificate = AuthorityStrongQuorumSignInfo::new_with_signatures(
        EPOCH,
        votes(&[0, 1, 2], MESSAGE),
        &committee,
    )
    .unwrap();
    let (staged, obligation) = stage(&certificate, &committee, MESSAGE);
    assert_eq!(staged, Err(SuiError::UnknownSigner));
    assert_eq!(obligation.public_keys[0].len(), 1);
    assert_eq!(obligation.signatures[0].0, certificate.signature.0);
}

#[test]
fn signer_beyond_the_committee_is_unknown() {
    let large = committee_of(&[1, 1, 1, 1]);
    let small = committee_of(&[1, 1]);
    let certificate = AuthorityWeakQuorumSignInfo::new_with_signatures(
        EPOCH,
        votes(&[0, 3], MESSAGE),
        &large,
    )
    .unwrap();
    let (staged, obligation) = stage(&certificate, &small, MESSAGE);
    assert_eq!(staged, Err(SuiError::UnknownSigner));
    assert_eq!(obligation.public_keys[0].len(), 1);
}

#[test]
fn authorities_lists_the_signers_by_position() {
    let committee = committee_of(&[1, 1, 1, 1]);
    let certificate = AuthorityStrongQuorumSignInfo::new_with_signatures(
        EPOCH,
        votes(&[2, 0], MESSAGE),
        &committee,
    )
    .unwrap();
    let names = certificate.authorities(&committee);
    assert_eq!(names.len(), 2);
    assert_eq!(names[0].unwrap().0, validator(1).public_key_bytes().0);
    assert_eq!(names[1].unwrap().0, validator(3).public_key_bytes().0);
    let again = certificate.authorities(&committee);
    assert_eq!(again.len(), 2);
}

#[test]
fn authorities_reports_stale_positions() {
    let large = committee_of(&[1, 1, 1, 1]);
    let small = committee_of(&[1, 1]);
    let certificate = AuthorityStrongQuorumSignInfo::new_with_signatures(
        EPOCH,
        votes(&[1, 2], MESSAGE),
        &large,
    )
    .unwrap();
    let names = certificate.authorities(&small);
    assert_eq!(names.len(), 2);
    assert_eq!(names[0].unwrap().0, validator(2).public_key_bytes().0);
    assert_eq!(names[1].err(), Some(SuiError::UnknownSigner));
}

#[test]
fn clone_keeps_the_certificate() {
    let committee = committee_of(&[1, 1, 1, 1]);
    let certificate = AuthorityStrongQuorumSignInfo::new_with_signatures(
        EPOCH,
        votes(&[1, 2], MESSAGE),
        &committee,
    )
    .unwrap();
    let copy = certificate.clone();
    assert_eq!(copy.epoch, certificate.epoch);
    assert_eq!(copy.signature.0, certificate.signature.0);
    assert_eq!(copy.signers_map, certificate.signers_map);
}
