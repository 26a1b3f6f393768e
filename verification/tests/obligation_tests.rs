use sui_crypto::authority::{AuthoritySignature, SuiAuthoritySignature};
use sui_crypto::base_types::AuthorityPublicKeyBytes;
use sui_crypto::committee::Committee;
use sui_crypto::error::SuiError;
use sui_crypto::keys::{get_key_pair_from_bytes, AuthorityKeyPair};
use sui_crypto::obligation::{PubKeyLookup, VerificationObligation};
use sui_crypto::quorum::AuthorityStrongQuorumSignInfo;
use sui_crypto::sign_info::AuthoritySignInfo;

const EPOCH: u64 = 11;

fn validator(n: u8) -> AuthorityKeyPair {
    let mut secret = [0u8; 32];
    secret[31] = n;
    get_key_pair_from_bytes::<AuthorityKeyPair>(&secret).unwrap().1
}

fn committee() -> Committee {
    let members = (1..=4u8).map(|n| (validator(n).public_key_bytes(), 1)).collect();
    Committee::new(EPOCH, members).unwrap()
}

fn certificate(positions: &[u8], message: &[u8]) -> AuthorityStrongQuorumSignInfo {
    let votes = positions
        .iter()
        .map(|p| {
            let pair = validator(p + 1);
            (pair.public_key_bytes(), AuthoritySignature::new(&message.to_vec(), &pair))
        })
        .collect();
    AuthorityStrongQuorumSignInfo::new_with_signatures(EPOCH, votes, &committee()).unwrap()
}

fn vote(position: u8, message: &[u8]) -> AuthoritySignInfo {
    let pair = validator(position + 1);
    AuthoritySignInfo {
        epoch: EPOCH,
        authority: pair.public_key_bytes(),
        signature: AuthoritySignature::new(&message.to_vec(), &pair),
    }
}

#[test]
fn new_obligation_is_empty() {
    let obligation = VerificationObligation::new(PubKeyLookup::new());
    assert!(obligation.messages.is_empty());
    assert!(obligation.signatures.is_empty());
    assert!(obligation.public_keys.is_empty());
    assert_eq!(obligation.lookup.names().len(), 0);
}

#[test]
fn empty_obligation_verifies() {
    let lookup = VerificationObligation::default().verify_all().unwrap();
    assert_eq!(lookup.names().len(), 0);
}

#[test]
fn add_message_opens_an_empty_entry() {
    let mut obligation = VerificationObligation::default();
    assert_eq!(obligation.add_message(b"first".to_vec()), 0);
    assert_eq!(obligation.add_message(b"second".to_vec()), 1);
    assert_eq!(obligation.add_message(Vec::new()), 2);
    assert_eq!(obligation.messages, vec![b"first".to_vec(), b"second".to_vec(), Vec::new()]);
    assert_eq!(obligation.signatures.len(), 3);
    assert_eq!(obligation.public_keys.len(), 3);
    let mut infinity = [0u8; 48];
    infinity[0] = 0xc0;
    for i in 0..3 {
        assert_eq!(obligation.signatures[i].0, infinity);
        assert!(obligation.public_keys[i].is_empty());
    }
}

#[test]
fn entry_without_signers_does_not_verify() {
    let mut obligation = VerificationObligation::default();
    obligation.add_message(b"unsigned".to_vec());
    assert_eq!(obligation.verify_all().err(), Some(SuiError::InvalidSignature));
}

#[test]
fn lookup_decodes_once_and_remembers() {
    let name = validator(1).public_key_bytes();
    let mut obligation = VerificationObligation::default();
    assert!(obligation.lookup.get(&name).is_none());
    let first = obligation.lookup_public_key(&name).unwrap();
    assert_eq!(first.as_bytes(), &name.0[..]);
    assert_eq!(obligation.lookup.names().len(), 1);
    assert_eq!(obligation.lookup.get(&name).unwrap().as_bytes(), &name.0[..]);
    let second = obligation.lookup_public_key(&name).unwrap();
    assert_eq!(second.as_bytes(), first.as_bytes());
    assert_eq!(obligation.lookup.names().len(), 1);
    let other = validator(2).public_key_bytes();
    obligation.lookup_public_key(&other).unwrap();
    assert_eq!(obligation.lookup.names().len(), 2);
}

#[test]
fn lookup_of_malformed_bytes_is_an_invalid_address() {
    let mut obligation = VerificationObligation::default();
    let broken = AuthorityPublicKeyBytes([0xffu8; 96]);
    assert_eq!(obligation.lookup_public_key(&broken).err(), Some(SuiError::InvalidAddress));
    assert_eq!(obligation.lookup.names().len(), 0);
    assert_eq!(obligation.lookup_public_key(&broken).err(), Some(SuiError::InvalidAddress));
}

#[test]
fn verify_all_hands_the_lookup_back() {
    let committee = committee();
    let mut obligation = VerificationObligation::default();
    obligation.lookup_public_key(&validator(1).public_key_bytes()).unwrap();
    obligation.lookup_public_key(&validator(2).public_key_bytes()).unwrap();
    let index = obligation.add_message(b"kept".to_vec());
    certificate(&[0, 1, 2], b"kept")
        .add_to_verification_obligation(&committee, &mut obligation, index)
        .unwrap();
    let lookup = obligation.verify_all().unwrap();
    assert_eq!(lookup.names().len(), 2);
    let next = VerificationObligation::new(lookup);
    assert_eq!(next.lookup.names().len(), 2);
    assert!(next.lookup.get(&validator(2).public_key_bytes()).is_some());
    assert!(next.lookup.get(&validator(3).public_key_bytes()).is_none());
}

#[test]
fn batch_of_valid_certificates_verifies_like_each_alone() {
    let committee = committee();
    let messages: [&[u8]; 3] = [b"one", b"two", b"three"];
    let signer_sets: [&[u8]; 3] = [&[0, 1, 2], &[1, 2, 3], &[0, 1, 2, 3]];
    let mut batch = VerificationObligation::default();
    for (message, signers) in messages.iter().zip(signer_sets.iter()) {
        let certificate = certificate(signers, message);
        let mut alone = VerificationObligation::default();
        let index = alone.add_message(message.to_vec());
        assert_eq!(
            certificate.add_to_verification_obligation(&committee, &mut alone, index),
            Ok(())
        );
        assert!(alone.verify_all().is_ok());
        let index = batch.add_message(message.to_vec());
        assert_eq!(
            certificate.add_to_verification_obligation(&committee, &mut batch, index),
            Ok(())
        );
    }
    assert_eq!(batch.messages.len(), 3);
    assert!(batch.verify_all().is_ok());
}

#[test]
fn one_corrupted_signature_fails_the_whole_batch() {
    let committee = committee();
    let messages: [&[u8]; 3] = [b"one", b"two", b"three"];
    for corrupted in 0..3 {
        let mut batch = VerificationObligation::default();
        for (i, message) in messages.iter().enumerate() {
            let signed: &[u8] = if i == corrupted { b"something else" } else { message };
            let certificate = certificate(&[0, 1, 2], signed);
            let index = batch.add_message(message.to_vec());
            assert_eq!(
                certificate.add_to_verification_obligation(&committee, &mut batch, index),
                Ok(())
            );
        }
        assert_eq!(batch.verify_all().err(), Some(SuiError::InvalidSignature));
    }
}

#[test]
fn certificate_staged_under_the_wrong_message_fails() {
    let committee = committee();
    let mut obligation = VerificationObligation::default();
    let first = obligation.add_message(b"first".to_vec());
    let second = obligation.add_message(b"second".to_vec());
    certificate(&[0, 1, 2], b"first")
        .add_to_verification_obligation(&committee, &mut obligation, second)
        .unwrap();
    certificate(&[0, 1, 2], b"second")
        .add_to_verification_obligation(&committee, &mut obligation, first)
        .unwrap();
    assert_eq!(obligation.verify_all().err(), Some(SuiError::InvalidSignature));
}

#[test]
fn single_votes_fold_into_an_entry() {
    let committee = committee();
    let mut obligation = VerificationObligation::default();
    let index = obligation.add_message(b"ballot".to_vec());
    for position in [2u8, 0, 3] {
        assert_eq!(
            vote(position, b"ballot").add_to_verification_obligation(
                &committee,
                &mut obligation,
                index
            ),
            Ok(())
        );
    }
    let keys: Vec<Vec<u8>> =
        obligation.public_keys[0].iter().map(|k| k.as_bytes().to_vec()).collect();
    let expected: Vec<Vec<u8>> = [2u8, 0, 3]
        .iter()
        .map(|p| validator(p + 1).public_key_bytes().0.to_vec())
        .collect();
    assert_eq!(keys, expected);
    assert_eq!(obligation.signatures[0].0, certificate(&[0, 2, 3], b"ballot").signature.0);
    assert!(obligation.verify_all().is_ok());
}

#[test]
fn single_vote_over_another_message_fails_the_batch() {
    let committee = committee();
    let mut obligation = VerificationObligation::default();
    let index = obligation.add_message(b"ballot".to_vec());
    vote(0, b"ballot").add_to_verification_obligation(&committee, &mut obligation, index).unwrap();
    vote(1, b"ballot!").add_to_verification_obligation(&committee, &mut obligation, index).unwrap();
    assert_eq!(obligation.verify_all().err(), Some(SuiError::InvalidSignature));
}

#[test]
fn single_vote_of_a_stranger_is_unknown() {
    let committee = committee();
    let mut obligation = VerificationObligation::default();
    let index = obligation.add_message(b"ballot".to_vec());
    let stranger = vote(8, b"ballot");
    assert_eq!(
        stranger.add_to_verification_obligation(&committee, &mut obligation, index),
        Err(SuiError::UnknownSigner)
    );
    assert!(obligation.public_keys[0].is_empty());
}

#[test]
fn single_vote_needs_an_entry() {
    let committee = committee();
    let mut obligation = VerificationObligation::default();
    assert_eq!(
        vote(0, b"ballot").add_to_verification_obligation(&committee, &mut obligation, 0),
        Err(SuiError::InvalidAddress)
    );
}

#[test]
fn single_vote_that_does_not_decode_leaves_its_key_behind() {
    let committee = committee();
    let mut obligation = VerificationObligation::default();
    let index = obligation.add_message(b"ballot".to_vec());
    let mut broken = vote(0, b"ballot");
    broken.signature = AuthoritySignature([0xffu8; 48]);
    assert_eq!(
        broken.add_to_verification_obligation(&committee, &mut obligation, index),
        Err(SuiError::InvalidSignature)
    );
    assert_eq!(obligation.public_keys[0].len(), 1);
    let mut infinity = [0u8; 48];
    infinity[0] = 0xc0;
    assert_eq!(obligation.signatures[0].0, infinity);
}

#[test]
fn batch_outcome_follows_the_check() {
    assert!(VerificationObligation::batch_outcome(PubKeyLookup::new(), true).is_ok());
    assert_eq!(
        VerificationObligation::batch_outcome(PubKeyLookup::new(), false).err(),
        Some(SuiError::InvalidSignature)
    );
}
