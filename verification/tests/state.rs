use fuel_bft::State;

#[test]
fn state_increment() {
    assert_eq!(Some(State::Propose), State::NewHeight.increment());
    assert_eq!(Some(State::Prevote), State::Propose.increment());
    assert_eq!(Some(State::Precommit), State::Prevote.increment());
    assert_eq!(Some(State::Commit), State::Precommit.increment());
    assert!(State::Commit.increment().is_none());
    assert!(State::Reject.increment().is_none());
}

#[test]
fn state_order() {
    // The rejected marker stands above the whole ladder.
    assert!(State::Reject > State::Commit);
    assert!(State::Reject > State::NewHeight);
    assert!(State::NewHeight < State::Propose);
    assert!(State::Propose < State::Prevote);
    assert!(State::Prevote < State::Precommit);
    assert!(State::Precommit < State::Commit);
}

#[test]
fn state_ladder_from_initial() {
    let ladder = State::initial().successors();
    assert_eq!(
        vec![
            State::Propose,
            State::Prevote,
            State::Precommit,
            State::Commit
        ],
        ladder
    );
    assert!(State::Commit.successors().is_empty());
    assert!(State::Reject.successors().is_empty());
}
