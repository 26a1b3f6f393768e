use std::collections::hash_map::DefaultHasher;
use std::collections::HashSet;
use std::hash::{Hash, Hasher};
use sui_crypto::authority::{AuthoritySignature, SuiAuthoritySignature};
use sui_crypto::keys::{get_key_pair_from_bytes, AuthorityKeyPair};
use sui_crypto::sign_info::{AuthoritySignInfo, EmptySignInfo};

fn validator(n: u8) -> AuthorityKeyPair {
    let mut secret = [0u8; 32];
    secret[31] = n;
    get_key_pair_from_bytes::<AuthorityKeyPair>(&secret).unwrap().1
}

fn vote(epoch: u64, signer: u8, message: &[u8]) -> AuthoritySignInfo {
    let pair = validator(signer);
    AuthoritySignInfo {
        epoch,
        authority: pair.public_key_bytes(),
        signature: AuthoritySignature::new(&message.to_vec(), &pair),
    }
}

fn hash_of(vote: &AuthoritySignInfo) -> u64 {
    let mut hasher = DefaultHasher::new();
    vote.hash(&mut hasher);
    hasher.finish()
}

#[test]
fn votes_of_one_validator_in_one_epoch_are_the_same_vote() {
    let first = vote(4, 1, b"content");
    let second = vote(4, 1, b"other content");
    assert_ne!(first.signature.0, second.signature.0);
    assert!(first == second);
    assert!(second == first);
    assert_eq!(hash_of(&first), hash_of(&second));
}

#[test]
fn votes_differ_by_epoch_or_validator() {
    let first = vote(4, 1, b"content");
    assert!(first != vote(5, 1, b"content"));
    assert!(first != vote(4, 2, b"content"));
    assert_ne!(hash_of(&first), hash_of(&vote(5, 1, b"content")));
    assert_ne!(hash_of(&first), hash_of(&vote(4, 2, b"content")));
}

#[test]
fn a_set_counts_a_validator_once() {
    let mut seen = HashSet::new();
    assert!(seen.insert(vote(4, 1, b"content")));
    assert!(!seen.insert(vote(4, 1, b"other content")));
    assert!(seen.insert(vote(4, 2, b"content")));
    assert_eq!(seen.len(), 2);
}

#[test]
fn empty_sign_info_is_one_value() {
    assert_eq!(EmptySignInfo {}, EmptySignInfo {});
}
