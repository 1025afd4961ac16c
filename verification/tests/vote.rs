use fuel_bft::{Error, MemoryKeychain, Step, Vote};

use fuel_crypto::rand::rngs::StdRng;
use fuel_crypto::rand::SeedableRng;
use fuel_crypto::SecretKey;

fn keychain(password: &[u8]) -> MemoryKeychain {
    let mut k = MemoryKeychain::new();
    k.insert(password);
    k
}

#[test]
fn signed_vote_validates() {
    let k = keychain(b"some-hard-password");
    let block_id = [0xab; 32];

    let vote = Vote::signed(&k, 7, 2, block_id, Step::Prevote).expect("failed to create vote");

    assert_eq!(7, vote.height());
    assert_eq!(2, vote.round());
    assert_eq!(Step::Prevote, vote.step());
    assert_eq!(&block_id, vote.block_id());
    assert_eq!(
        k.public(7).expect("key expected").as_slice(),
        vote.validator().as_slice()
    );

    vote.validate().expect("the signed vote must validate");
}

#[test]
fn signed_with_key_validates() {
    let rng = &mut StdRng::seed_from_u64(8586);
    let secret: [u8; 32] = *SecretKey::random(rng);

    let vote = Vote::signed_with_key(&secret, 3, 1, [0x11; 32], Step::Precommit)
        .expect("a generated secret is valid");

    vote.validate().expect("the signed vote must validate");
}

#[test]
fn signed_without_key_fails() {
    let empty = MemoryKeychain::new();
    let err = Vote::signed(&empty, 0, 0, [0; 32], Step::NewRound)
        .err()
        .expect("an empty keychain holds no key");

    assert_eq!(Error::NotRoundValidator, err);
}

#[test]
fn tampered_vote_fails_validation() {
    let k = keychain(b"some-hard-password");

    let vote = Vote::signed(&k, 0, 0, [0xab; 32], Step::Propose).expect("failed to create vote");

    // Flip one byte of the block id and rebuild the vote around the same
    // signature.
    let mut tampered_id = *vote.block_id();
    tampered_id[0] ^= 0xff;
    let tampered = Vote::new(
        *vote.validator(),
        *vote.signature(),
        vote.height(),
        vote.round(),
        tampered_id,
        vote.step(),
    );

    let err = tampered
        .validate()
        .err()
        .expect("a tampered vote cannot validate");
    assert_eq!(Error::InvalidSignature, err);
}

#[test]
fn distinct_passwords_distinct_identities() {
    let a = keychain(b"password-a");
    let b = keychain(b"password-b");

    let pa = a.public(0).expect("key expected");
    let pb = b.public(0).expect("key expected");

    assert_ne!(pa, pb);

    // The same keychain reports the same identity for every height in the
    // inserted range.
    assert_eq!(pa, a.public(12345).expect("key expected"));
}
