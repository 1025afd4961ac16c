use fuel_bft::{Error, MemoryKeychain, Metadata, Step, Vote};

fn keychain(password: &[u8]) -> MemoryKeychain {
    let mut k = MemoryKeychain::new();
    k.insert(password);
    k
}

fn public(k: &MemoryKeychain) -> [u8; 64] {
    k.public(0).expect("key expected")
}

#[test]
fn genesis_is_never_committed() {
    let m = Metadata::new();
    assert_eq!(Metadata::HEIGHT_NEVER, m.committed_height());
    assert_eq!(u64::MAX, m.committed_height());
    assert_eq!(0, m.committed_rounds());
}

#[test]
fn upgrade_twice_is_true_then_false() {
    let k = keychain(b"p-upgrade");
    let mut m = Metadata::new();
    m.add_validator(public(&k), 0, 10);

    let vote = Vote::signed(&k, 0, 0, [0x22; 32], Step::Prevote).expect("vote");

    assert!(m.upgrade_validator_step(&vote));
    assert!(!m.upgrade_validator_step(&vote));
    assert_eq!(Some(Step::Prevote), m.validator_step(0, 0, vote.validator()));
}

#[test]
fn upgrade_never_goes_backward() {
    let k = keychain(b"p-monotone");
    let mut m = Metadata::new();
    m.add_validator(public(&k), 0, 10);

    let high = Vote::signed(&k, 0, 0, [0x22; 32], Step::Precommit).expect("vote");
    let low = Vote::signed(&k, 0, 0, [0x22; 32], Step::Propose).expect("vote");

    assert!(m.upgrade_validator_step(&high));
    assert!(!m.upgrade_validator_step(&low));
    assert_eq!(Some(Step::Precommit), m.validator_step(0, 0, high.validator()));
}

#[test]
fn authorize_block_is_idempotent() {
    let mut m = Metadata::new();

    m.authorize_block([0x01; 32], 4);
    assert!(m.is_block_authorized(&[0x01; 32], 4));
    assert!(!m.is_block_authorized(&[0x01; 32], 5));

    // A replay changes nothing.
    m.authorize_block([0x01; 32], 4);
    assert!(m.is_block_authorized(&[0x01; 32], 4));
}

#[test]
fn commit_is_strictly_sequential() {
    let mut m = Metadata::new();

    // Genesis expects height 0, nothing else.
    assert!(!m.commit(1, 0));
    assert!(!m.commit(u64::MAX, 0));

    assert!(m.commit(0, 2));
    assert_eq!(0, m.committed_height());
    assert_eq!(3, m.committed_rounds());

    // Each successful commit advances the height by exactly one.
    assert!(!m.commit(0, 0));
    assert!(m.commit(1, 0));
    assert_eq!(1, m.committed_height());
    assert_eq!(4, m.committed_rounds());
}

#[test]
fn commit_purges_lower_heights() {
    let k = keychain(b"p-gc");
    let mut m = Metadata::new();
    m.add_validator(public(&k), 0, 0);

    let vote = Vote::signed(&k, 0, 0, [0x33; 32], Step::Prevote).expect("vote");
    assert!(m.upgrade_validator_step(&vote));
    m.authorize_block([0x33; 32], 0);

    assert!(m.commit(0, 0));

    // Every cell at the committed height or below is gone, and the expired
    // validator left with it.
    assert_eq!(None, m.validator_step(0, 0, vote.validator()));
    assert!(!m.is_block_authorized(&[0x33; 32], 0));
    assert_eq!(0, m.validators_at_height_count(1));
}

#[test]
fn step_counts_include_higher_steps() {
    let ka = keychain(b"p-count-a");
    let kb = keychain(b"p-count-b");
    let mut m = Metadata::new();
    m.add_validator(public(&ka), 0, 10);
    m.add_validator(public(&kb), 0, 10);

    let a = Vote::signed(&ka, 0, 0, [0x44; 32], Step::Prevote).expect("vote");
    let b = Vote::signed(&kb, 0, 0, [0x44; 32], Step::Commit).expect("vote");
    assert!(m.upgrade_validator_step(&a));
    assert!(m.upgrade_validator_step(&b));

    assert_eq!(1, m.step_count(0, 0, Step::Prevote));
    assert_eq!(1, m.step_count(0, 0, Step::Commit));
    assert_eq!(0, m.step_count(0, 0, Step::Propose));

    // A higher vote counts for every lower step.
    assert_eq!(2, m.evaluate_step_count(0, 0, Step::NewRound));
    assert_eq!(2, m.evaluate_step_count(0, 0, Step::Prevote));
    assert_eq!(1, m.evaluate_step_count(0, 0, Step::Precommit));
    assert_eq!(1, m.evaluate_step_count(0, 0, Step::Commit));
}

#[test]
fn validate_rejects_unknown_and_tampered_voters() {
    let known = keychain(b"p-known");
    let unknown = keychain(b"p-unknown");
    let mut m = Metadata::new();
    m.add_validator(public(&known), 0, 10);

    let stranger = Vote::signed(&unknown, 0, 0, [0x55; 32], Step::Prevote).expect("vote");
    assert_eq!(Err(Error::ValidatorNotFound), m.validate(&stranger));

    let good = Vote::signed(&known, 0, 0, [0x55; 32], Step::Prevote).expect("vote");
    assert_eq!(Ok(()), m.validate(&good));

    let mut tampered_id = *good.block_id();
    tampered_id[31] ^= 0x01;
    let tampered = Vote::new(
        *good.validator(),
        *good.signature(),
        good.height(),
        good.round(),
        tampered_id,
        good.step(),
    );
    assert_eq!(Err(Error::InvalidSignature), m.validate(&tampered));
}
