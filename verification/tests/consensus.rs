use fuel_bft::Consensus;

#[test]
fn evaluate() {
    assert!(!Consensus::is_bft(3));
    assert!(Consensus::is_bft(4));

    assert!(!Consensus::evaluate(3, 3).is_consensus());
    assert!(!Consensus::evaluate(4, 2).is_consensus());
    assert!(Consensus::evaluate(4, 3).is_consensus());
}

#[test]
fn evaluate_boundaries() {
    // Below the BFT minimum the verdict is always a rejection.
    assert_eq!(Consensus::Reject, Consensus::evaluate(3, 3));
    assert_eq!(Consensus::Reject, Consensus::evaluate(0, 0));
    assert_eq!(Consensus::Reject, Consensus::evaluate(3, 100));

    // With four validators the threshold is strictly above 2, so three
    // approvals are required.
    assert_eq!(Consensus::Inconclusive, Consensus::evaluate(4, 2));
    assert_eq!(Consensus::Consensus, Consensus::evaluate(4, 3));

    // The classical 2f+1 rule for n = 3f+1.
    assert_eq!(Consensus::Inconclusive, Consensus::evaluate(7, 4));
    assert_eq!(Consensus::Consensus, Consensus::evaluate(7, 5));
}

#[test]
fn from_u8_round_trip() {
    assert_eq!(Consensus::Inconclusive, Consensus::from_u8(0));
    assert_eq!(Consensus::Consensus, Consensus::from_u8(1));
    assert_eq!(Consensus::Reject, Consensus::from_u8(2));
    assert_eq!(Consensus::Reject, Consensus::from_u8(255));
    assert!(Consensus::from_u8(0).is_inconclusive());
}
