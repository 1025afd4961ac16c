use fuel_bft::{
    Event, MemoryKeychain, Message, Moderator, Notification, Reactor, Request, Response, Step,
    Vote,
};

fn keychain(password: &[u8]) -> MemoryKeychain {
    let mut k = MemoryKeychain::new();
    k.insert(password);
    k
}

fn public0(k: &MemoryKeychain) -> [u8; 64] {
    k.public(0).expect("failed to extract public key")
}

/// Deterministically derive `count` peers whose public keys are all above
/// (or all below) the given key in the canonical byte order.
fn peers(reference: &[u8; 64], above: bool, count: usize) -> Vec<(MemoryKeychain, [u8; 64])> {
    let mut out = Vec::new();
    let mut i = 0u64;
    while out.len() < count {
        let password = format!("validator-{}", i);
        let k = keychain(password.as_bytes());
        let p = public0(&k);
        if (above && &p > reference) || (!above && &p < reference) {
            out.push((k, p));
        }
        i += 1;
    }
    out
}

fn last_round_response(moderator: &Moderator) -> (u64, u64, [u8; 64], Option<Step>) {
    moderator
        .outbound
        .iter()
        .rev()
        .find_map(|m| match m {
            Message::Response(Response::Round {
                height,
                round,
                leader,
                step,
                ..
            }) => Some((*height, *round, *leader, *step)),
            _ => None,
        })
        .expect("no round response found")
}

fn has_broadcast(
    moderator: &Moderator,
    height: u64,
    round: u64,
    block_id: &[u8; 32],
    step: Step,
    validator: &[u8; 64],
) -> bool {
    moderator.outbound.iter().any(|m| match m {
        Message::Event(Event::Broadcast { vote }) => {
            vote.height() == height
                && vote.round() == round
                && vote.block_id() == block_id
                && vote.step() == step
                && vote.validator() == validator
        }
        _ => false,
    })
}

fn has_commit_event(moderator: &Moderator, height: u64, round: u64, block_id: &[u8; 32]) -> bool {
    moderator.outbound.iter().any(|m| match m {
        Message::Event(Event::Commit {
            height: h,
            round: r,
            block_id: b,
        }) => *h == height && *r == round && b == block_id,
        _ => false,
    })
}

#[test]
fn happy_path_when_leader_is_self() {
    let kc = keychain(b"p0");
    let me = public0(&kc);
    // Three validators above this node: leader of (0, 0) is this node.
    let others = peers(&me, true, 3);

    let mut reactor = Reactor::default();
    let mut moderator = Moderator::new(0);

    reactor.receive(
        &kc,
        &mut moderator,
        Message::Request(Request::Initialize {
            id: 1,
            start: 0,
            validity: 100,
        }),
    );
    let initialized = moderator.outbound.iter().any(|m| {
        matches!(
            m,
            Message::Response(Response::Initialize {
                id: 1,
                initialized: true
            })
        )
    });
    assert!(initialized, "failed to initialize the reactor");

    for (_, p) in &others {
        reactor.receive(
            &kc,
            &mut moderator,
            Message::Notification(Notification::NewValidator {
                height: 0,
                validity: 100,
                validator: *p,
            }),
        );
    }

    // The leader has no authorized block yet; the heartbeat asks for one.
    reactor.heartbeat(&kc, &mut moderator).expect("heartbeat");
    assert!(moderator
        .outbound
        .iter()
        .any(|m| matches!(m, Message::Event(Event::AwaitingBlock { height: 0 }))));

    let block_id = [0x77; 32];
    reactor.receive(
        &kc,
        &mut moderator,
        Message::Notification(Notification::BlockProposeAuthorized {
            height: 0,
            block_id,
        }),
    );

    reactor.heartbeat(&kc, &mut moderator).expect("heartbeat");

    assert!(has_broadcast(&moderator, 0, 0, &block_id, Step::Propose, &me));
    assert!(has_broadcast(&moderator, 0, 0, &block_id, Step::Commit, &me));
    assert!(has_commit_event(&moderator, 0, 0, &block_id));
    assert_eq!(1, reactor.height());
}

#[test]
fn non_leader_follows_the_round() {
    let kc = keychain(b"p0");
    let me = public0(&kc);
    // Three validators below this node: the leader of (0, 0) is the
    // smallest of them, never this node.
    let others = peers(&me, false, 3);
    let (leader_kc, leader_pub) = others
        .iter()
        .min_by_key(|(_, p)| *p)
        .map(|(k, p)| (k, *p))
        .expect("no peer");

    let mut reactor = Reactor::default();
    let mut moderator = Moderator::new(0);

    reactor.receive(
        &kc,
        &mut moderator,
        Message::Request(Request::Initialize {
            id: 1,
            start: 0,
            validity: 100,
        }),
    );
    for (_, p) in &others {
        reactor.receive(
            &kc,
            &mut moderator,
            Message::Notification(Notification::NewValidator {
                height: 0,
                validity: 100,
                validator: *p,
            }),
        );
    }

    let block_id = [0x99; 32];

    // A propose for a block nobody authorized yet is requeued.
    let propose =
        Vote::signed(leader_kc, 0, 0, block_id, Step::Propose).expect("failed to create vote");
    reactor.receive(
        &kc,
        &mut moderator,
        Message::Notification(Notification::Vote { vote: propose }),
    );
    assert!(moderator.inbound.iter().any(|m| matches!(
        m,
        Message::Notification(Notification::Vote { vote }) if vote.step() == Step::Propose
    )));

    reactor.receive(&kc, &mut moderator, Message::Request(Request::Round { id: 2 }));
    let (height, round, leader, step) = last_round_response(&moderator);
    assert_eq!(0, height, "unexpected height");
    assert_eq!(0, round, "unexpected round");
    assert_eq!(leader_pub, leader);
    assert_eq!(None, step, "unexpected step");

    // Authorizing the block lets the heartbeat drain the requeued propose;
    // the reactor advances to prevote.
    reactor.receive(
        &kc,
        &mut moderator,
        Message::Notification(Notification::BlockAuthorized {
            height: 0,
            block_id,
        }),
    );
    reactor.heartbeat(&kc, &mut moderator).expect("heartbeat");

    reactor.receive(&kc, &mut moderator, Message::Request(Request::Round { id: 3 }));
    let (_, _, _, step) = last_round_response(&moderator);
    assert_eq!(Some(Step::Prevote), step, "unexpected step");

    // A prevote from another validator moves the node to precommit.
    let second = &others[1];
    let prevote =
        Vote::signed(&second.0, 0, 0, block_id, Step::Prevote).expect("failed to create vote");
    reactor.receive(
        &kc,
        &mut moderator,
        Message::Notification(Notification::Vote { vote: prevote }),
    );

    reactor.receive(&kc, &mut moderator, Message::Request(Request::Round { id: 4 }));
    let (_, _, _, step) = last_round_response(&moderator);
    assert_eq!(Some(Step::Precommit), step, "unexpected step");

    // A precommit completes the round: the node broadcasts its commit and
    // the block is committed.
    let third = &others[2];
    let precommit =
        Vote::signed(&third.0, 0, 0, block_id, Step::Precommit).expect("failed to create vote");
    reactor.receive(
        &kc,
        &mut moderator,
        Message::Notification(Notification::Vote { vote: precommit }),
    );

    assert!(has_broadcast(&moderator, 0, 0, &block_id, Step::Commit, &me));
    assert!(has_commit_event(&moderator, 0, 0, &block_id));
    assert_eq!(1, reactor.height());
}

#[test]
fn rejects_round_below_bft_minimum() {
    let kc = keychain(b"p0");
    let me = public0(&kc);
    let others = peers(&me, true, 2);

    let mut reactor = Reactor::default();
    let mut moderator = Moderator::new(0);

    reactor.receive(
        &kc,
        &mut moderator,
        Message::Request(Request::Initialize {
            id: 1,
            start: 0,
            validity: 100,
        }),
    );
    for (_, p) in &others {
        reactor.receive(
            &kc,
            &mut moderator,
            Message::Notification(Notification::NewValidator {
                height: 0,
                validity: 100,
                validator: *p,
            }),
        );
    }

    // Three validators in the round: every vote is rejected and nothing
    // moves.
    let vote = Vote::signed(&others[0].0, 0, 0, [0x11; 32], Step::Prevote).expect("vote");
    let voter = *vote.validator();
    reactor.receive(
        &kc,
        &mut moderator,
        Message::Notification(Notification::Vote { vote }),
    );

    assert_eq!(None, reactor.validator_step(0, 0, &voter));
    assert_eq!(0, reactor.height());
    assert!(!moderator
        .outbound
        .iter()
        .any(|m| matches!(m, Message::Event(Event::Commit { .. }))));
    assert!(!moderator
        .outbound
        .iter()
        .any(|m| matches!(m, Message::Event(Event::Broadcast { .. }))));
}

#[test]
fn future_round_is_requeued() {
    let kc = keychain(b"p0");
    let me = public0(&kc);
    let others = peers(&me, true, 3);

    let mut reactor = Reactor::default();
    let mut moderator = Moderator::new(0);

    reactor.receive(
        &kc,
        &mut moderator,
        Message::Request(Request::Initialize {
            id: 1,
            start: 0,
            validity: 100,
        }),
    );
    for (_, p) in &others {
        reactor.receive(
            &kc,
            &mut moderator,
            Message::Notification(Notification::NewValidator {
                height: 0,
                validity: 100,
                validator: *p,
            }),
        );
    }

    // With the clock pinned to genesis, a vote for round 5 is early.
    let vote = Vote::signed(&others[0].0, 0, 5, [0x12; 32], Step::Prevote).expect("vote");
    let voter = *vote.validator();
    reactor.receive(
        &kc,
        &mut moderator,
        Message::Notification(Notification::Vote { vote }),
    );

    assert!(moderator.inbound.iter().any(|m| matches!(
        m,
        Message::Notification(Notification::Vote { vote }) if vote.round() == 5
    )));
    assert_eq!(None, reactor.validator_step(0, 5, &voter));
}

#[test]
fn tampered_vote_raises_bad_vote() {
    let kc = keychain(b"p0");
    let me = public0(&kc);
    let others = peers(&me, true, 3);

    let mut reactor = Reactor::default();
    let mut moderator = Moderator::new(0);

    reactor.receive(
        &kc,
        &mut moderator,
        Message::Request(Request::Initialize {
            id: 1,
            start: 0,
            validity: 100,
        }),
    );
    for (_, p) in &others {
        reactor.receive(
            &kc,
            &mut moderator,
            Message::Notification(Notification::NewValidator {
                height: 0,
                validity: 100,
                validator: *p,
            }),
        );
    }

    let vote = Vote::signed(&others[0].0, 0, 0, [0x13; 32], Step::Prevote).expect("vote");
    let mut tampered_id = *vote.block_id();
    tampered_id[0] ^= 0xff;
    let tampered = Vote::new(
        *vote.validator(),
        *vote.signature(),
        vote.height(),
        vote.round(),
        tampered_id,
        vote.step(),
    );
    let voter = *tampered.validator();

    reactor.receive(
        &kc,
        &mut moderator,
        Message::Notification(Notification::Vote { vote: tampered }),
    );

    assert!(moderator
        .outbound
        .iter()
        .any(|m| matches!(m, Message::Event(Event::BadVote { .. }))));
    assert_eq!(None, reactor.validator_step(0, 0, &voter));
    assert_eq!(0, reactor.height());
    assert!(!moderator
        .outbound
        .iter()
        .any(|m| matches!(m, Message::Event(Event::Commit { .. }))));
}

#[test]
fn leader_rotation_follows_committed_rounds() {
    let keys: Vec<[u8; 64]> = {
        let mut ks: Vec<[u8; 64]> = (0..4)
            .map(|i| {
                let password = format!("rotation-{}", i);
                public0(&keychain(password.as_bytes()))
            })
            .collect();
        ks.sort();
        ks
    };

    let mut reactor = Reactor::default();
    let mut moderator = Moderator::new(0);

    for p in &keys {
        reactor.add_validator(*p, 0, 100);
    }

    assert_eq!(keys[0], reactor.leader(0).expect("leader"));
    assert_eq!(keys[1], reactor.leader(1).expect("leader"));

    // Committing (0, 2) makes committed_rounds 3 and rotates the wheel.
    assert!(reactor.commit(&mut moderator, 0, 2));
    assert_eq!(keys[3], reactor.leader(0).expect("leader"));
    assert_eq!(keys[0], reactor.leader(1).expect("leader"));
}

#[test]
fn idle_without_identity() {
    let empty = MemoryKeychain::new();
    let mut reactor = Reactor::default();
    let mut moderator = Moderator::new(0);

    // Two queued requests; an idle tick consumes nothing, it only rotates
    // the front of the queue to the back.
    moderator
        .inbound
        .push(Message::Request(Request::Round { id: 7 }));
    moderator
        .inbound
        .push(Message::Request(Request::Round { id: 8 }));

    reactor.heartbeat(&empty, &mut moderator).expect("heartbeat");

    assert!(moderator
        .outbound
        .iter()
        .any(|m| matches!(m, Message::Event(Event::Idle))));
    let ids: Vec<u64> = moderator
        .inbound
        .iter()
        .map(|m| match m {
            Message::Request(Request::Round { id }) => *id,
            _ => unreachable!(),
        })
        .collect();
    assert_eq!(vec![8, 7], ids);
}

#[test]
fn kill_notification_stops_the_reactor() {
    let kc = keychain(b"p0");
    let mut reactor = Reactor::default();
    let mut moderator = Moderator::new(0);

    assert!(!reactor.should_quit());
    reactor.receive(&kc, &mut moderator, Message::Notification(Notification::Kill));
    assert!(reactor.should_quit());
}
