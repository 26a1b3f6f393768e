use sui_crypto::base_types::AuthorityPublicKeyBytes;
use sui_crypto::committee::Committee;
use sui_crypto::error::SuiError;
use sui_crypto::keys::{get_key_pair_from_bytes, AuthorityKeyPair};

fn validator(n: u8) -> AuthorityKeyPair {
    let mut secret = [0u8; 32];
    secret[31] = n;
    get_key_pair_from_bytes::<AuthorityKeyPair>(&secret).unwrap().1
}

fn name(n: u8) -> AuthorityPublicKeyBytes {
    validator(n).public_key_bytes()
}

fn committee_of(weights: &[u64]) -> Committee {
    let members = weights
        .iter()
        .enumerate()
        .map(|(i, w)| (name(i as u8 + 1), *w))
        .collect();
    Committee::new(7, members).unwrap()
}

#[test]
fn thresholds_of_four_equal_validators() {
    let committee = committee_of(&[1, 1, 1, 1]);
    assert_eq!(committee.total_votes(), 4);
    assert_eq!(committee.quorum_threshold(), 3);
    assert_eq!(committee.validity_threshold(), 2);
}

#[test]
fn thresholds_follow_the_total_stake() {
    let ten = committee_of(&[1, 2, 3, 4]);
    assert_eq!(ten.total_votes(), 10);
    assert_eq!(ten.quorum_threshold(), 7);
    assert_eq!(ten.validity_threshold(), 4);
    let three = committee_of(&[3]);
    assert_eq!(three.quorum_threshold(), 3);
    assert_eq!(three.validity_threshold(), 1);
    let one = committee_of(&[1]);
    assert_eq!(one.quorum_threshold(), 1);
    assert_eq!(one.validity_threshold(), 1);
    let huge = committee_of(&[u64::MAX]);
    assert_eq!(huge.quorum_threshold(), 12297829382473034411);
    assert_eq!(huge.validity_threshold(), 6148914691236517205);
}

#[test]
fn empty_committee_has_thresholds_of_no_stake() {
    let nobody = Committee::new(0, Vec::new()).unwrap();
    assert_eq!(nobody.len(), 0);
    assert_eq!(nobody.total_votes(), 0);
    assert_eq!(nobody.quorum_threshold(), 1);
    assert_eq!(nobody.validity_threshold(), 0);
}

#[test]
fn epoch_is_kept() {
    assert_eq!(committee_of(&[1]).epoch(), 7);
}

#[test]
fn members_are_numbered_in_the_given_order() {
    let committee = committee_of(&[5, 6, 7]);
    assert_eq!(committee.len(), 3);
    assert_eq!(committee.authority_index(&name(1)), Some(0));
    assert_eq!(committee.authority_index(&name(2)), Some(1));
    assert_eq!(committee.authority_index(&name(3)), Some(2));
    assert_eq!(committee.authority_index(&name(4)), None);
    assert_eq!(committee.authority_by_index(0).unwrap().0, name(1).0);
    assert_eq!(committee.authority_by_index(2).unwrap().0, name(3).0);
    assert!(committee.authority_by_index(3).is_none());
    assert!(committee.authority_by_index(u32::MAX).is_none());
}

#[test]
fn weight_of_a_stranger_is_zero() {
    let committee = committee_of(&[5, 6, 7]);
    assert_eq!(committee.weight(&name(1)), 5);
    assert_eq!(committee.weight(&name(2)), 6);
    assert_eq!(committee.weight(&name(3)), 7);
    assert_eq!(committee.weight(&name(9)), 0);
}

#[test]
fn repeated_name_makes_no_committee() {
    let members = vec![(name(1), 1), (name(2), 1), (name(1), 3)];
    assert!(Committee::new(0, members).is_none());
}

#[test]
fn stake_beyond_sixty_four_bits_makes_no_committee() {
    let members = vec![(name(1), u64::MAX), (name(2), 1)];
    assert!(Committee::new(0, members).is_none());
    let members = vec![(name(1), u64::MAX - 1), (name(2), 1)];
    assert!(Committee::new(0, members).is_some());
}

#[test]
fn public_key_of_a_member_is_its_name() {
    let committee = committee_of(&[1, 1]);
    let key = committee.public_key(&name(2)).unwrap();
    assert_eq!(key.as_bytes(), &name(2).0[..]);
    assert_eq!(key.to_name().0, name(2).0);
}

#[test]
fn public_key_of_a_stranger_is_unknown() {
    let committee = committee_of(&[1, 1]);
    assert_eq!(committee.public_key(&name(3)).err(), Some(SuiError::UnknownSigner));
}

#[test]
fn member_whose_name_is_no_key_has_no_public_key() {
    let broken = AuthorityPublicKeyBytes([0xffu8; 96]);
    let committee = Committee::new(0, vec![(name(1), 1), (broken, 1)]).unwrap();
    assert_eq!(committee.authority_index(&broken), Some(1));
    assert_eq!(committee.public_key(&broken).err(), Some(SuiError::InvalidAddress));
}
