use rand::rngs::StdRng;
use rand::SeedableRng;
use sui_crypto::base_types::SuiAddress;
use sui_crypto::keys::{
    get_key_pair, get_key_pair_from_bytes, get_key_pair_from_rng, random_key_pairs,
    AccountKeyPair, AuthorityKeyPair, SuiKeyPair,
};
use sui_crypto::signature::Signature;

#[test]
fn random_key_pairs_come_in_the_asked_number() {
    assert_eq!(random_key_pairs::<AccountKeyPair>(0).len(), 0);
    assert_eq!(random_key_pairs::<AuthorityKeyPair>(0).len(), 0);
    let accounts = random_key_pairs::<AccountKeyPair>(3);
    assert_eq!(accounts.len(), 3);
    assert_ne!(accounts[0].secret_array(), accounts[1].secret_array());
    assert_ne!(accounts[1].secret_array(), accounts[2].secret_array());
    let validators = random_key_pairs::<AuthorityKeyPair>(2);
    assert_eq!(validators.len(), 2);
    assert_ne!(validators[0].public_key_bytes().0, validators[1].public_key_bytes().0);
}

#[test]
fn fresh_pairs_differ() {
    let (first_address, first) = get_key_pair::<AccountKeyPair>();
    let (second_address, second) = get_key_pair::<AccountKeyPair>();
    assert_ne!(first.secret_array(), second.secret_array());
    assert!(!first_address.same_as(&second_address));
}

#[test]
fn seeded_generator_gives_the_same_pair_again() {
    let mut first_rng = StdRng::from_seed([5u8; 32]);
    let mut second_rng = StdRng::from_seed([5u8; 32]);
    let (first_address, first) = get_key_pair_from_rng::<AccountKeyPair>(&mut first_rng);
    let (second_address, second) = get_key_pair_from_rng::<AccountKeyPair>(&mut second_rng);
    assert_eq!(first.secret_array(), second.secret_array());
    assert!(first_address.same_as(&second_address));
    let (_, next) = get_key_pair_from_rng::<AccountKeyPair>(&mut first_rng);
    assert_ne!(next.secret_array(), first.secret_array());
    let mut third_rng = StdRng::from_seed([6u8; 32]);
    let (_, validator) = get_key_pair_from_rng::<AuthorityKeyPair>(&mut third_rng);
    let mut fourth_rng = StdRng::from_seed([6u8; 32]);
    let (_, same) = get_key_pair_from_rng::<AuthorityKeyPair>(&mut fourth_rng);
    assert_eq!(validator.public_key_bytes().0, same.public_key_bytes().0);
}

#[test]
fn address_belongs_to_the_public_key() {
    let (address, pair) = get_key_pair::<AccountKeyPair>();
    let expected = SuiAddress::from_public_key_bytes(&pair.public_key_array());
    assert!(address.same_as(&expected));
    assert!(pair.sui_address().same_as(&address));
    let (address, validator) = get_key_pair::<AuthorityKeyPair>();
    assert!(address.same_as(&validator.public_key_bytes().into_sui_address()));
}

#[test]
fn generated_pair_signs_and_verifies() {
    let (address, pair) = get_key_pair::<AccountKeyPair>();
    let signed = Signature::new(&b"fresh".to_vec(), &pair);
    assert_eq!(signed.verify(&b"fresh".to_vec(), address), Ok(()));
}

#[test]
fn pair_from_bytes_is_the_pair_of_those_bytes() {
    let (address, pair) = get_key_pair_from_bytes::<AccountKeyPair>(&[9u8; 32]).unwrap();
    assert_eq!(pair.secret_array(), &[9u8; 32]);
    let again = AccountKeyPair::from_secret([9u8; 32]);
    assert_eq!(again.public_key_array(), pair.public_key_array());
    assert!(address.same_as(&again.sui_address()));
    let generated = AccountKeyPair::generate_from_bytes(&[9u8; 32]).unwrap();
    assert_eq!(generated.public_key_array(), pair.public_key_array());
    assert!(AccountKeyPair::generate_from_bytes(&[9u8; 5]).is_none());
    assert!(AuthorityKeyPair::from_secret([0u8; 32]).is_none());
}
