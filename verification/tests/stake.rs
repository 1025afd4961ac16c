use fuel_bft::{HeightBound, Stake, StakeKeys};

use fuel_crypto::rand::rngs::StdRng;
use fuel_crypto::rand::{Rng, SeedableRng};
use fuel_crypto::SecretKey;

fn range(start: u64, end: u64) -> (HeightBound, HeightBound) {
    (HeightBound::Included(start), HeightBound::Excluded(end))
}

#[test]
fn stake_keys_intersect_and_merge() {
    let rng = &mut StdRng::seed_from_u64(0xbeef);

    // keys
    let a = *SecretKey::random(rng).public_key();
    let b = *SecretKey::random(rng).public_key();

    // values
    let x = rng.gen();
    let y = rng.gen();

    let ax = Stake { key: a, value: x };
    let ay = Stake { key: a, value: y };
    let by = Stake { key: b, value: y };

    let mut keys = StakeKeys::default();
    let (s, e) = range(0, 2);
    keys.add_stake_range(s, e, ax).expect("no intersect");
    let (s, e) = range(3, 5);
    keys.add_stake_range(s, e, ay).expect("no intersect");

    let mut keys = StakeKeys::default();
    let (s, e) = range(0, 2);
    keys.add_stake_range(s, e, ax).expect("no intersect");
    let (s, e) = range(3, 5);
    keys.add_stake_range(s, e, by).expect("no intersect");

    let mut keys = StakeKeys::default();
    let (s, e) = range(0, 2);
    keys.add_stake_range(s, e, ax).expect("no intersect");
    let (s, e) = range(2, 4);
    keys.add_stake_range(s, e, ay).expect("no intersect");

    let mut keys = StakeKeys::default();
    let (s, e) = range(0, 2);
    keys.add_stake_range(s, e, ax).expect("no intersect");
    let (s, e) = range(2, 4);
    keys.add_stake_range(s, e, by).expect("no intersect");

    let mut keys = StakeKeys::default();
    let (s, e) = range(0, 2);
    keys.add_stake_range(s, e, ax).expect("no intersect");
    let (s, e) = range(1, 3);
    keys.add_stake_range(s, e, ay).err().expect("intersect");

    let mut keys = StakeKeys::default();
    let (s, e) = range(1, 3);
    keys.add_stake_range(s, e, ax).expect("no intersect");
    let (s, e) = range(0, 2);
    keys.add_stake_range(s, e, ay).err().expect("intersect");

    let mut keys = StakeKeys::default();
    let (s, e) = range(0, 2);
    keys.add_stake_range(s, e, ax).expect("no intersect");
    let (s, e) = range(1, 3);
    keys.add_stake_range(s, e, ax).expect("merge");
    let stake = keys.range_stake(0, 3).expect("merged stake");
    assert_eq!(Stake { key: a, value: x }, stake);

    let mut keys = StakeKeys::default();
    let (s, e) = range(1, 3);
    keys.add_stake_range(s, e, ax).expect("no intersect");
    let (s, e) = range(0, 2);
    keys.add_stake_range(s, e, ax).expect("merge");
    let stake = keys.range_stake(0, 3).expect("merged stake");
    assert_eq!(Stake { key: a, value: x }, stake);
}

#[test]
fn duplicated_stake_reports_range() {
    let rng = &mut StdRng::seed_from_u64(0xfeed);
    let a = *SecretKey::random(rng).public_key();
    let b = *SecretKey::random(rng).public_key();

    let mut keys = StakeKeys::default();
    let (s, e) = range(10, 20);
    keys.add_stake_range(s, e, Stake { key: a, value: 7 })
        .expect("no intersect");

    let (s, e) = range(15, 30);
    let err = keys
        .add_stake_range(s, e, Stake { key: b, value: 7 })
        .err()
        .expect("intersect");

    assert_eq!(
        fuel_bft::Error::DuplicatedStake {
            height: 10,
            valid_before: 20
        },
        err
    );
}
