//! The consensus state machine: ingest, validate, threshold, advance,
//! commit.

use vstd::prelude::*;

use crate::byteops::bytes64_eq;
use crate::consensus::Consensus;
use crate::error::Error;
use crate::keychain::key_at;
use crate::keychain::KeychainEntries;
use crate::keychain::MemoryKeychain;
use crate::message::Event;
use crate::message::Message;
use crate::message::Notification;
use crate::message::Request;
use crate::message::Response;
use crate::metadata::blocks_find;
use crate::metadata::blocks_put;
use crate::metadata::commit_view;
use crate::metadata::count_steps_at_least;
use crate::metadata::metadata_wf;
use crate::metadata::propose_find;
use crate::metadata::propose_put;
use crate::metadata::step_advances;
use crate::metadata::step_find;
use crate::metadata::steps_put;
use crate::metadata::StepSeq;
use crate::metadata::validators_at;
use crate::metadata::validators_put;
use crate::metadata::is_validator_at;
use crate::metadata::Metadata;
use crate::metadata::MetadataView;
use crate::moderator::Moderator;
use crate::step::Step;
use crate::vote::vote_valid;
use crate::vote::Vote;

verus! {

/// Config data for the reactor and consensus behavior.
#[derive(Debug, Clone, Copy)]
pub struct Config {
    /// Blocking resources capacity.
    pub capacity: usize,
    /// Expected interval between blocks (ms).
    pub consensus: u128,
    /// Genesis instant, in milliseconds since the epoch.
    pub genesis: u64,
    /// Frequency of every tick (ms).
    pub heartbeat: u64,
    /// Await timeout for blocking resources (ms).
    pub timeout: u64,
}

impl Config {
    /// Default capacity.
    pub const DEFAULT_CAPACITY: usize = 256;

    /// 10 seconds as default consensus interval.
    pub const DEFAULT_CONSENSUS: u128 = 10000;

    /// Set the genesis at the unix epoch.
    pub const DEFAULT_GENESIS: u64 = 0;

    /// 500 ms as default heartbeat interval.
    pub const DEFAULT_HEARTBEAT: u64 = 500;

    /// 5 s as default timeout.
    pub const DEFAULT_TIMEOUT: u64 = 5000;
}

impl Default for Config {
    /// The default configuration.
    fn default() -> (r: Self)
        ensures
            r.capacity == 256,
            r.consensus == 10000,
            r.genesis == 0,
            r.heartbeat == 500,
            r.timeout == 5000,
    {
        Self {
            capacity: Self::DEFAULT_CAPACITY,
            consensus: Self::DEFAULT_CONSENSUS,
            genesis: Self::DEFAULT_GENESIS,
            heartbeat: Self::DEFAULT_HEARTBEAT,
            timeout: Self::DEFAULT_TIMEOUT,
        }
    }
}

/// The plain content of a reactor.
#[verifier::ext_equal]
pub struct ReactorView {
    /// Drain buffer capacity.
    pub capacity: usize,
    /// Expected interval between blocks (ms).
    pub consensus: u128,
    /// Genesis instant (ms since the epoch).
    pub genesis: u64,
    /// The consensus metadata.
    pub metadata: MetadataView,
    /// Whether the reactor was killed.
    pub should_quit: bool,
}

/// The next expected height: the committed height plus one, wrapping so
/// genesis (nothing committed, `u64::MAX`) expects height 0.
pub open spec fn next_height(m: MetadataView) -> u64 {
    m.committed_height.wrapping_add(1)
}

/// The round available at instant `now`: elapsed wall-clock time since
/// genesis, minus the time the committed rounds used up (each commit
/// collapses one free round), divided by the consensus interval. A clock
/// before genesis counts as no elapsed time.
pub open spec fn round_of(v: ReactorView, now: u64) -> u64 {
    let elapsed: int = if now >= v.genesis {
        now - v.genesis
    } else {
        0
    };
    let committed_ms: int = if v.metadata.committed_rounds > 0 {
        (v.metadata.committed_rounds - 1) * (v.consensus as int)
    } else {
        0
    };
    let remainder: int = if elapsed >= committed_ms {
        elapsed - committed_ms
    } else {
        0
    };
    ((remainder / (v.consensus as int)) % 0x1_0000_0000_0000_0000) as u64
}

/// The leader of `round` at the next expected height: the validator at
/// index `(committed_rounds + round) mod n` in the canonical sort order of
/// the height's validator set; none when the set is empty.
pub open spec fn leader_of(m: MetadataView, round: u64) -> Option<Seq<u8>> {
    let vs = validators_at(m.validators, next_height(m));
    if vs.len() == 0 {
        None
    } else {
        Some(vs[(m.committed_rounds.wrapping_add(round) as int) % (vs.len() as int)])
    }
}

/// The all-zero block id a forced commit reports.
pub open spec fn zero_block_id() -> Seq<u8> {
    Seq::new(32, |i: int| 0u8)
}

/// `post` extends `pre` by exactly `n` messages.
pub open spec fn appended(pre: Seq<Message>, post: Seq<Message>, n: int) -> bool {
    &&& post.len() == pre.len() + n
    &&& post.take(pre.len() as int) == pre
}

/// The message is a commit event for exactly this (height, round, block).
pub open spec fn is_commit_event(m: Message, height: u64, round: u64, block_id: Seq<u8>) -> bool {
    &&& m matches Message::Event(Event::Commit { height: h, round: r, block_id: b })
    &&& h == height
    &&& r == round
    &&& b@ == block_id
}

/// The message broadcasts a vote with exactly these fields, valid under its
/// own signature.
pub open spec fn is_broadcast_of(
    m: Message,
    height: u64,
    round: u64,
    block_id: Seq<u8>,
    step: Step,
    validator: Seq<u8>,
) -> bool {
    &&& m matches Message::Event(Event::Broadcast { vote })
    &&& vote@.height == height
    &&& vote@.round == round
    &&& vote@.block_id == block_id
    &&& vote@.step == step
    &&& vote@.validator == validator
    &&& vote_valid(vote@)
}

/// If the message broadcasts a vote, the vote validates under its own
/// signature.
pub open spec fn valid_if_broadcast(m: Message) -> bool {
    m matches Message::Event(Event::Broadcast { vote }) ==> vote_valid(vote@)
}

/// The outbound queue grew from `pre` to `post`, and every broadcast vote
/// it gained validates under its own signature.
pub open spec fn broadcasts_valid_from(pre: Seq<Message>, post: Seq<Message>) -> bool {
    &&& post.len() >= pre.len()
    &&& post.take(pre.len() as int) == pre
    &&& forall|i: int| pre.len() <= i < post.len() ==> valid_if_broadcast(#[trigger] post[i])
}

/// State machine of the consensus.
#[derive(Debug)]
pub struct Reactor {
    capacity: usize,
    consensus: u128,
    genesis: u64,
    metadata: Metadata,
    should_quit: bool,
}

impl View for Reactor {
    type V = ReactorView;

    closed spec fn view(&self) -> ReactorView {
        ReactorView {
            capacity: self.capacity,
            consensus: self.consensus,
            genesis: self.genesis,
            metadata: self.metadata@,
            should_quit: self.should_quit,
        }
    }
}

impl Default for Reactor {
    /// A reactor over the default configuration.
    fn default() -> (r: Self)
        ensures
            r.wf(),
            r@.capacity == 256,
            r@.consensus == 10000,
            r@.genesis == 0,
            r@.should_quit == false,
            r@.metadata.committed_height == u64::MAX,
            r@.metadata.committed_rounds == 0,
            r@.metadata.authorized_blocks.len() == 0,
            r@.metadata.propose_blocks.len() == 0,
            r@.metadata.validators.len() == 0,
            r@.metadata.steps.len() == 0,
    {
        Self::new(Config::default())
    }
}

impl Reactor {
    /// Well-formedness: the consensus interval is a positive number of
    /// milliseconds that fits a 64-bit integer, and the metadata is a
    /// well-formed store.
    pub open spec fn wf(&self) -> bool {
        &&& 0 < self@.consensus <= u64::MAX
        &&& metadata_wf(self@.metadata)
    }

    /// Create a new reactor with the provided arguments.
    pub fn new(config: Config) -> (r: Self)
        requires
            0 < config.consensus <= u64::MAX,
        ensures
            r.wf(),
            r@.capacity == config.capacity,
            r@.consensus == config.consensus,
            r@.genesis == config.genesis,
            r@.should_quit == false,
            r@.metadata.committed_height == u64::MAX,
            r@.metadata.committed_rounds == 0,
            r@.metadata.authorized_blocks.len() == 0,
            r@.metadata.propose_blocks.len() == 0,
            r@.metadata.validators.len() == 0,
            r@.metadata.steps.len() == 0,
    {
        Self {
            capacity: config.capacity,
            consensus: config.consensus,
            genesis: config.genesis,
            metadata: Metadata::new(),
            should_quit: false,
        }
    }

    /// Flag on whether the reactor should quit.
    pub fn should_quit(&self) -> (r: bool)
        ensures
            r == self@.should_quit,
    {
        self.should_quit
    }

    /// Current block height: at genesis nothing is committed and the
    /// expected height is 0.
    pub fn height(&self) -> (r: u64)
        ensures
            r == next_height(self@.metadata),
    {
        self.metadata.committed_height().wrapping_add(1)
    }

    /// Current height round at the given instant.
    pub fn round(&self, now: u64) -> (r: u64)
        requires
            self.wf(),
        ensures
            r == round_of(self@, now),
    {
        let elapsed: u128 = if now >= self.genesis {
            (now - self.genesis) as u128
        } else {
            0
        };
        let committed_rounds = self.metadata.committed_rounds();
        let collapsed: u64 = if committed_rounds > 0 {
            committed_rounds - 1
        } else {
            0
        };
        proof {
            assert((collapsed as int) * (self.consensus as int) < 0x1_0000_0000_0000_0000_0000_0000_0000_0000int)
                by (nonlinear_arith)
                requires
                    collapsed <= 0xffff_ffff_ffff_ffffu64,
                    self.consensus <= 0xffff_ffff_ffff_ffffu64,
            ;
        }
        let committed_ms: u128 = (collapsed as u128) * self.consensus;
        let remainder: u128 = if elapsed >= committed_ms {
            elapsed - committed_ms
        } else {
            0
        };
        let round: u128 = remainder / self.consensus;
        #[verifier::truncate] (round as u64)
    }

    /// Evaluate the consensus step of a validator for a given round.
    pub fn validator_step(&self, height: u64, round: u64, public: &[u8; 64]) -> (r: Option<Step>)
        ensures
            r == step_find(self@.metadata.steps, height, round, public@),
    {
        self.metadata.validator_step(height, round, public)
    }

    /// Compute the round leader for the current height.
    pub fn leader(&self, round: u64) -> (r: Result<[u8; 64], Error>)
        requires
            self.wf(),
        ensures
            match leader_of(self@.metadata, round) {
                Some(k) => r is Ok && r->Ok_0@ == k,
                None => r is Err && r->Err_0 == Error::ValidatorNotFound,
            },
    {
        let height = self.height();
        let vs = self.metadata.validators_at_height(height);
        if vs.len() == 0 {
            return Err(Error::ValidatorNotFound);
        }
        let committed_rounds = self.metadata.committed_rounds();
        let index = committed_rounds.wrapping_add(round) % (vs.len() as u64);
        Ok(vs[index as usize])
    }

    /// Add a new validator for the inclusive range
    /// `[height..height + validity]`.
    pub fn add_validator(&mut self, validator: [u8; 64], height: u64, validity: u64)
        requires
            old(self).wf(),
        ensures
            final(self).wf(),
            final(self)@ == (ReactorView {
                metadata: MetadataView {
                    validators: validators_put(
                        old(self)@.metadata.validators,
                        validator@,
                        height,
                        height.wrapping_add(validity),
                    ),
                    ..old(self)@.metadata
                },
                ..old(self)@
            }),
    {
        self.metadata.add_validator(validator, height, validity);
        proof {
            assert(final(self)@ =~= (ReactorView {
                metadata: MetadataView {
                    validators: validators_put(
                        old(self)@.metadata.validators,
                        validator@,
                        height,
                        height.wrapping_add(validity),
                    ),
                    ..old(self)@.metadata
                },
                ..old(self)@
            }));
        }
    }

    /// Attempt a forced commit of a round; on success a commit event with a
    /// zeroed block id is emitted (a forced commit does not know the id).
    pub fn commit(&mut self, moderator: &mut Moderator, height: u64, round: u64) -> (r: bool)
        requires
            old(self).wf(),
        ensures
            final(self).wf(),
            r == (next_height(old(self)@.metadata) == height),
            final(moderator).now_ms == old(moderator).now_ms,
            final(moderator).inbound == old(moderator).inbound,
            r ==> final(self)@ == (ReactorView {
                metadata: commit_view(old(self)@.metadata, height, round),
                ..old(self)@
            }),
            r ==> appended(old(moderator).outbound@, final(moderator).outbound@, 1)
                && is_commit_event(
                final(moderator).outbound@[old(moderator).outbound@.len() as int],
                height,
                round,
                zero_block_id(),
            ),
            !r ==> final(self)@ == old(self)@ && final(moderator).outbound == old(
                moderator,
            ).outbound,
            broadcasts_valid_from(old(moderator).outbound@, final(moderator).outbound@),
    {
        let committed = self.metadata.commit(height, round);

        if committed {
            let commit = Message::Event(
                Event::Commit { height, round, block_id: [0u8; 32] },
            );
            moderator.send(commit);
            proof {
                assert(final(self)@ =~= (ReactorView {
                    metadata: commit_view(old(self)@.metadata, height, round),
                    ..old(self)@
                }));
                assert((final(moderator).outbound@[old(moderator).outbound@.len() as int])
                    matches Message::Event(Event::Commit { block_id: b, .. }) && b@
                    =~= zero_block_id());
                assert(final(moderator).outbound@.take(old(moderator).outbound@.len() as int)
                    =~= old(moderator).outbound@);
            }
        } else {
            proof {
                assert(moderator.outbound@.take(moderator.outbound@.len() as int)
                    =~= moderator.outbound@);
            }
        }

        committed
    }

    /// The leader's opening move: propose the authorized block for the
    /// expected height, or ask for one with an awaiting-block event.
    pub fn propose(&mut self, keychain: &MemoryKeychain, moderator: &mut Moderator) -> (r: Result<
        (),
        Error,
    >)
        requires
            old(self).wf(),
        ensures
            final(self).wf(),
            propose_rel(
                old(self)@,
                keychain@,
                old(moderator).now_ms,
                old(moderator).outbound@,
                final(self)@,
                final(moderator).outbound@,
                r,
            ),
            final(moderator).now_ms == old(moderator).now_ms,
            final(moderator).inbound == old(moderator).inbound,
            broadcasts_valid_from(old(moderator).outbound@, final(moderator).outbound@),
    {
        let height = self.height();
        let now = moderator.now();
        let round = self.round(now);

        if keychain.public(height).is_none() {
            proof {
                assert(moderator.outbound@.take(moderator.outbound@.len() as int)
                    =~= moderator.outbound@);
            }
            return Err(Error::NotRoundValidator);
        }

        // If the block is not authorized, send an awaiting event.
        let block_id = match self.metadata.authorized_propose(height) {
            Some(b) => b,
            None => {
                let awaiting = Message::Event(Event::AwaitingBlock { height });
                moderator.send(awaiting);
                proof {
                    assert(moderator.outbound@.take(old(moderator).outbound@.len() as int)
                        =~= old(moderator).outbound@);
                }
                return Ok(());
            }
        };

        if self.metadata.commit(height, round) {
            let vote = match Vote::signed(keychain, height, round, block_id, Step::Propose) {
                Ok(v) => v,
                Err(e) => {
                    proof {
                        assert(false);
                    }
                    return Err(e);
                }
            };
            moderator.send(Message::Event(Event::Broadcast { vote }));

            // Always commit to own blocks.
            let vote = match Vote::signed(keychain, height, round, block_id, Step::Commit) {
                Ok(v) => v,
                Err(e) => {
                    proof {
                        assert(false);
                    }
                    return Err(e);
                }
            };
            moderator.send(Message::Event(Event::Broadcast { vote }));

            moderator.send(Message::Event(Event::Commit { height, round, block_id }));

            proof {
                assert(moderator.outbound@.take(old(moderator).outbound@.len() as int)
                    =~= old(moderator).outbound@);
                assert(final(self)@ =~= (ReactorView {
                    metadata: commit_view(old(self)@.metadata, height, round),
                    ..old(self)@
                }));
            }
        } else {
            proof {
                assert(false);
            }
        }

        Ok(())
    }

    /// Self-advance, with commit on reaching the commit step: sign and
    /// record the vote, broadcast it if it advanced the cell, and on a
    /// committed height start the next one.
    pub fn upgrade_step(
        &mut self,
        keychain: &MemoryKeychain,
        moderator: &mut Moderator,
        height: u64,
        round: u64,
        block_id: [u8; 32],
        step: Step,
    ) -> (r: Result<(), Error>)
        requires
            old(self).wf(),
        ensures
            final(self).wf(),
            upgrade_step_rel(
                old(self)@,
                keychain@,
                old(moderator).now_ms,
                height,
                round,
                block_id@,
                step,
                old(moderator).outbound@,
                final(self)@,
                final(moderator).outbound@,
                r,
            ),
            final(moderator).now_ms == old(moderator).now_ms,
            final(moderator).inbound == old(moderator).inbound,
            broadcasts_valid_from(old(moderator).outbound@, final(moderator).outbound@),
    {
        let vote = match Vote::signed(keychain, height, round, block_id, step) {
            Ok(v) => v,
            Err(e) => {
                proof {
                    assert(moderator.outbound@.take(moderator.outbound@.len() as int)
                        =~= moderator.outbound@);
                }
                return Err(e);
            }
        };

        let is_upgraded = self.metadata.upgrade_validator_step(&vote);
        if !is_upgraded {
            // State not affected; ignore.
            proof {
                assert(moderator.outbound@.take(moderator.outbound@.len() as int)
                    =~= moderator.outbound@);
                assert(final(self)@ =~= old(self)@);
            }
            return Ok(());
        }

        let ghost m1 = self@.metadata;
        moderator.send(Message::Event(Event::Broadcast { vote }));
        proof {
            assert(moderator.outbound@.take(old(moderator).outbound@.len() as int)
                =~= old(moderator).outbound@);
        }

        if step.is_commit() {
            if self.metadata.commit(height, round) {
                moderator.send(Message::Event(Event::Commit { height, round, block_id }));
                proof {
                    assert(moderator.outbound@.take(old(moderator).outbound@.len() as int)
                        =~= old(moderator).outbound@);
                }

                let height2 = self.height();
                let round2 = 0u64;

                let public = match keychain.public(height2) {
                    Some(p) => p,
                    None => {
                        proof {
                            assert(final(self)@ =~= (ReactorView {
                                metadata: commit_view(m1, height, round),
                                ..old(self)@
                            }));
                        }
                        return Err(Error::NotRoundValidator);
                    }
                };

                // Check if this node is the next round leader.
                let leader = match self.leader(round2) {
                    Ok(l) => l,
                    Err(e) => {
                        proof {
                            assert(final(self)@ =~= (ReactorView {
                                metadata: commit_view(m1, height, round),
                                ..old(self)@
                            }));
                        }
                        return Err(e);
                    }
                };
                let is_leader = bytes64_eq(&leader, &public);

                // If this node is not the leader, just start a new round.
                if !is_leader {
                    let vote = match Vote::signed(
                        keychain,
                        height2,
                        round2,
                        [0u8; 32],
                        Step::NewRound,
                    ) {
                        Ok(v) => v,
                        Err(e) => {
                            proof {
                                assert(false);
                            }
                            return Err(e);
                        }
                    };
                    let ghost m2 = self@.metadata;
                    let is_upgraded = self.metadata.upgrade_validator_step(&vote);
                    if is_upgraded {
                        moderator.send(Message::Event(Event::Broadcast { vote }));
                    }
                    proof {
                        assert(vote@.block_id =~= zero_block_id());
                        assert(moderator.outbound@.take(old(moderator).outbound@.len() as int)
                            =~= old(moderator).outbound@);
                        if is_upgraded {
                            assert(final(self)@ =~= (ReactorView {
                                metadata: MetadataView {
                                    steps: steps_put(
                                        m2.steps,
                                        height2,
                                        round2,
                                        public@,
                                        Step::NewRound,
                                    ),
                                    ..m2
                                },
                                ..old(self)@
                            }));
                        } else {
                            assert(final(self)@ =~= (ReactorView {
                                metadata: commit_view(m1, height, round),
                                ..old(self)@
                            }));
                        }
                    }
                    return Ok(());
                }

                proof {
                    assert(self@ =~= (ReactorView {
                        metadata: commit_view(m1, height, round),
                        ..old(self)@
                    }));
                }
                let ghost out_mid = moderator.outbound@;
                let r = self.propose(keychain, moderator);
                proof {
                    let pre_out = old(moderator).outbound@;
                    let post_out = moderator.outbound@;
                    assert(post_out.take(out_mid.len() as int) == out_mid);
                    assert(out_mid.len() == pre_out.len() + 2);
                    assert(post_out.take(pre_out.len() as int) =~= pre_out);
                    assert(post_out[pre_out.len() as int] == out_mid[pre_out.len() as int]);
                    assert(post_out[pre_out.len() as int + 1] == out_mid[pre_out.len() as int
                        + 1]);
                    assert forall|i: int| pre_out.len() <= i < post_out.len() implies
                        valid_if_broadcast(#[trigger] post_out[i]) by {
                        if i < out_mid.len() {
                            assert(post_out[i] == out_mid[i]);
                        }
                    }
                }
                return r;
            }
        }

        proof {
            assert(final(self)@ =~= (ReactorView { metadata: m1, ..old(self)@ }));
        }
        Ok(())
    }

    /// Ingest an inbound vote, mutating the state as the vote's class
    /// dictates; the heart of the state machine.
    pub fn receive_vote(
        &mut self,
        keychain: &MemoryKeychain,
        moderator: &mut Moderator,
        vote: Vote,
    ) -> (r: Result<(), Error>)
        requires
            old(self).wf(),
        ensures
            final(self).wf(),
            receive_vote_rel(
                old(self)@,
                keychain@,
                old(moderator).now_ms,
                vote,
                old(moderator).inbound@,
                old(moderator).outbound@,
                final(self)@,
                final(moderator).inbound@,
                final(moderator).outbound@,
                r,
            ),
            final(moderator).now_ms == old(moderator).now_ms,
            broadcasts_valid_from(old(moderator).outbound@, final(moderator).outbound@),
    {
        let height = vote.height();
        let round = vote.round();
        let first_step = vote.step();

        let public = match keychain.public(height) {
            Some(p) => p,
            None => {
                proof {
                    assert(moderator.outbound@.take(moderator.outbound@.len() as int)
                        =~= moderator.outbound@);
                }
                return Err(Error::NotRoundValidator);
            }
        };

        let now = moderator.now();
        let expected_height = self.height();
        let expected_round = self.round(now);

        proof {
            assert(moderator.outbound@.take(moderator.outbound@.len() as int)
                =~= moderator.outbound@);
        }

        // Ignore messages produced by self.
        if bytes64_eq(vote.validator(), &public) {
            return Ok(());
        }

        // Ignore old steps.
        if height < expected_height || round < expected_round {
            return Ok(());
        }

        // Requeue future steps.
        if height > expected_height || round > expected_round {
            moderator.requeue(Message::Notification(Notification::Vote { vote }));
            return Ok(());
        }

        if self.metadata.validate(&vote).is_err() {
            moderator.send(Message::Event(Event::BadVote { vote }));
            proof {
                assert(moderator.outbound@.take(old(moderator).outbound@.len() as int)
                    =~= old(moderator).outbound@);
            }
            return Ok(());
        }

        let validators = self.metadata.validators_at_height_count(height);
        let is_bft = Consensus::is_bft(validators);
        let validator_step = self.metadata.validator_step(height, round, vote.validator());

        match validator_step {
            // Discard any previous step, it won't affect the consensus state.
            Some(s) if s.as_u8() > first_step.as_u8() => {
                return Ok(());
            }
            _ => {}
        }
        if !is_bft {
            // The round cannot converge.
            return Ok(());
        }

        let ghost n_ghost = validators_at(old(self)@.metadata.validators, height).len() as int;

        if first_step.is_propose() {
            let leader = match self.leader(round) {
                Ok(l) => l,
                Err(e) => {
                    proof {
                        assert(false);
                    }
                    return Err(e);
                }
            };

            // Only the round leader should propose.
            if !bytes64_eq(vote.validator(), &leader) {
                moderator.send(Message::Event(Event::BadVote { vote }));
                proof {
                    assert(moderator.outbound@.take(old(moderator).outbound@.len() as int)
                        =~= old(moderator).outbound@);
                }
                return Ok(());
            }

            if !self.metadata.is_block_authorized(vote.block_id(), height) {
                // The block isn't authorized yet; wait.
                moderator.requeue(Message::Notification(Notification::Vote { vote }));
                return Ok(());
            }

            self.metadata.upgrade_validator_step(&vote);
            proof {
                assert(self@ =~= (ReactorView {
                    metadata: MetadataView {
                        steps: if step_advances(
                            old(self)@.metadata.steps,
                            vote@.height,
                            vote@.round,
                            vote@.validator,
                            vote@.step,
                        ) {
                            steps_put(
                                old(self)@.metadata.steps,
                                vote@.height,
                                vote@.round,
                                vote@.validator,
                                vote@.step,
                            )
                        } else {
                            old(self)@.metadata.steps
                        },
                        ..old(self)@.metadata
                    },
                    ..old(self)@
                }));
            }

            // The vote was authorized via a block notification; upgrade to
            // prevote.
            let block_id = *vote.block_id();
            let r = self.upgrade_step(keychain, moderator, height, round, block_id, Step::Prevote);
            return r;
        }

        self.metadata.upgrade_validator_step(&vote);
        proof {
            assert(self@ =~= (ReactorView {
                metadata: MetadataView {
                    steps: if step_advances(
                        old(self)@.metadata.steps,
                        vote@.height,
                        vote@.round,
                        vote@.validator,
                        vote@.step,
                    ) {
                        steps_put(
                            old(self)@.metadata.steps,
                            vote@.height,
                            vote@.round,
                            vote@.validator,
                            vote@.step,
                        )
                    } else {
                        old(self)@.metadata.steps
                    },
                    ..old(self)@.metadata
                },
                ..old(self)@
            }));
        }
        let ghost s1 = self@.metadata.steps;
        let ghost mid_view = self@;

        // Evaluate the count considering the vote of the current node.
        let mut proposed_step = first_step;
        let count = self.metadata.evaluate_step_count(height, round, proposed_step);
        let approved = if count < usize::MAX {
            count + 1
        } else {
            count
        };
        let consensus = Consensus::evaluate(validators, approved);
        proof {
            lemma_verdict_saturated(validators, count);
        }

        // Upgrade to the highest available consensus.
        if consensus.is_consensus() {
            loop
                invariant
                    self@ == mid_view,
                    validators as int == n_ghost,
                    height == vote@.height,
                    round == vote@.round,
                    s1 == mid_view.metadata.steps,
                    cascade_step(s1, n_ghost, height, round, first_step) == cascade_step(
                        s1,
                        n_ghost,
                        height,
                        round,
                        proposed_step,
                    ),
                ensures
                    self@ == mid_view,
                    proposed_step == cascade_step(s1, n_ghost, height, round, first_step),
                decreases 4 - proposed_step.ordinal(),
            {
                match proposed_step.increment() {
                    None => {
                        break;
                    }
                    Some(next_step) => {
                        let next_count = self.metadata.evaluate_step_count(
                            height,
                            round,
                            next_step,
                        );
                        let next_approved = if next_count < usize::MAX {
                            next_count + 1
                        } else {
                            next_count
                        };
                        let next_consensus = Consensus::evaluate(validators, next_approved);
                        proof {
                            lemma_verdict_saturated(validators, next_count);
                        }
                        if next_consensus.is_consensus() {
                            proposed_step = next_step;
                        } else {
                            break;
                        }
                    }
                }
            }
        }

        let current_step = self.metadata.validator_step(height, round, &public);

        match consensus {
            Consensus::Inconclusive => {
                if current_step.is_none() {
                    let block_id = *vote.block_id();
                    let r = self.upgrade_step(
                        keychain,
                        moderator,
                        height,
                        round,
                        block_id,
                        Step::initial(),
                    );
                    return r;
                }
            }
            Consensus::Consensus => {
                let block_id = *vote.block_id();
                if proposed_step.is_precommit() || proposed_step.is_commit() {
                    let r = self.upgrade_step(
                        keychain,
                        moderator,
                        height,
                        round,
                        block_id,
                        Step::Commit,
                    );
                    return r;
                }
                match proposed_step.increment() {
                    Some(step) => {
                        let r = self.upgrade_step(
                            keychain,
                            moderator,
                            height,
                            round,
                            block_id,
                            step,
                        );
                        return r;
                    }
                    None => {
                        proof {
                            assert(false);
                        }
                    }
                }
            }
            Consensus::Reject => {
                // The threshold rule itself bars progress; a soft reject.
                proof {
                    assert(false);
                }
            }
        }

        Ok(())
    }

    /// Consume a notification, mutating the internal state; a vote's error
    /// is absorbed, the reactor carries on.
    pub fn receive_notification(
        &mut self,
        keychain: &MemoryKeychain,
        moderator: &mut Moderator,
        notification: Notification,
    )
        requires
            old(self).wf(),
        ensures
            final(self).wf(),
            receive_notification_rel(
                old(self)@,
                keychain@,
                old(moderator).now_ms,
                notification,
                old(moderator).inbound@,
                old(moderator).outbound@,
                final(self)@,
                final(moderator).inbound@,
                final(moderator).outbound@,
            ),
            final(moderator).now_ms == old(moderator).now_ms,
            broadcasts_valid_from(old(moderator).outbound@, final(moderator).outbound@),
    {
        proof {
            assert(moderator.outbound@.take(moderator.outbound@.len() as int)
                =~= moderator.outbound@);
        }
        match notification {
            Notification::Kill => {
                self.should_quit = true;
                proof {
                    assert(self@ =~= (ReactorView { should_quit: true, ..old(self)@ }));
                }
            }
            Notification::NewValidator { height, validity, validator } => {
                self.add_validator(validator, height, validity);
            }
            Notification::Vote { vote } => {
                let result = self.receive_vote(keychain, moderator, vote);
                proof {
                    assert(receive_vote_rel(
                        old(self)@,
                        keychain@,
                        old(moderator).now_ms,
                        vote,
                        old(moderator).inbound@,
                        old(moderator).outbound@,
                        self@,
                        moderator.inbound@,
                        moderator.outbound@,
                        result,
                    ));
                }
            }
            Notification::BlockAuthorized { height, block_id } => {
                self.metadata.authorize_block(block_id, height);
                proof {
                    if next_height(old(self)@.metadata) <= height {
                        assert(self@ =~= (ReactorView {
                            metadata: MetadataView {
                                authorized_blocks: blocks_put(
                                    old(self)@.metadata.authorized_blocks,
                                    block_id@,
                                    height,
                                ),
                                ..old(self)@.metadata
                            },
                            ..old(self)@
                        }));
                    } else {
                        assert(self@ =~= old(self)@);
                    }
                }
            }
            Notification::BlockProposeAuthorized { height, block_id } => {
                self.metadata.authorize_block_propose(height, block_id);
                proof {
                    if next_height(old(self)@.metadata) <= height {
                        assert(self@ =~= (ReactorView {
                            metadata: MetadataView {
                                propose_blocks: propose_put(
                                    old(self)@.metadata.propose_blocks,
                                    height,
                                    block_id@,
                                ),
                                ..old(self)@.metadata
                            },
                            ..old(self)@
                        }));
                    } else {
                        assert(self@ =~= old(self)@);
                    }
                }
            }
        }
    }

    /// Execute a request and respond through the outbound sink.
    pub fn receive_request(
        &mut self,
        keychain: &MemoryKeychain,
        moderator: &mut Moderator,
        request: Request,
    )
        requires
            old(self).wf(),
        ensures
            final(self).wf(),
            receive_request_rel(
                old(self)@,
                keychain@,
                old(moderator).now_ms,
                request,
                old(moderator).outbound@,
                final(self)@,
                final(moderator).outbound@,
            ),
            final(moderator).now_ms == old(moderator).now_ms,
            final(moderator).inbound == old(moderator).inbound,
            broadcasts_valid_from(old(moderator).outbound@, final(moderator).outbound@),
    {
        proof {
            assert(moderator.outbound@.take(moderator.outbound@.len() as int)
                =~= moderator.outbound@);
        }
        let response = match request {
            Request::Commit { id, height, round } => {
                let committed = self.commit(moderator, height, round);
                Response::Commit { id, committed }
            }
            Request::Identity { id, height } => {
                Response::Identity { id, public: keychain.public(height) }
            }
            Request::Initialize { id, start, validity } => {
                let initialized = match keychain.public(start) {
                    Some(public) => {
                        self.add_validator(public, start, validity);
                        true
                    }
                    None => false,
                };
                Response::Initialize { id, initialized }
            }
            Request::Round { id } => {
                let height = self.height();
                let round = self.round(moderator.now());
                let zeros: [u8; 64] = [0u8; 64];
                proof {
                    assert(zeros@ =~= zero_key());
                }
                let leader = match self.leader(round) {
                    Ok(l) => l,
                    Err(_) => zeros,
                };
                let public = match keychain.public(height) {
                    Some(p) => p,
                    None => zeros,
                };
                let step = self.validator_step(height, round, &public);
                Response::Round { id, height, round, leader, step }
            }
        };

        moderator.send(Message::Response(response));
        proof {
            assert(moderator.outbound@.take(old(moderator).outbound@.len() as int)
                =~= old(moderator).outbound@);
        }
    }

    /// Receive a new message, mutating the internal state.
    pub fn receive(&mut self, keychain: &MemoryKeychain, moderator: &mut Moderator, message: Message)
        requires
            old(self).wf(),
        ensures
            final(self).wf(),
            receive_rel(
                old(self)@,
                keychain@,
                old(moderator).now_ms,
                message,
                old(moderator).inbound@,
                old(moderator).outbound@,
                final(self)@,
                final(moderator).inbound@,
                final(moderator).outbound@,
            ),
            final(moderator).now_ms == old(moderator).now_ms,
            broadcasts_valid_from(old(moderator).outbound@, final(moderator).outbound@),
    {
        proof {
            assert(moderator.outbound@.take(moderator.outbound@.len() as int)
                =~= moderator.outbound@);
        }
        match message {
            Message::Event(_) => {}
            Message::Notification(n) => self.receive_notification(keychain, moderator, n),
            Message::Request(q) => self.receive_request(keychain, moderator, q),
            Message::Response(_) => {}
        }
    }

    /// The periodic tick: with no key for the expected height emit an idle
    /// event and rotate one queued message; otherwise drain the inbound
    /// queue, consume every message in order, and drive a propose attempt
    /// when this node leads the current round. Every vote broadcast on the
    /// way out validates under its own signature.
    pub fn heartbeat(&mut self, keychain: &MemoryKeychain, moderator: &mut Moderator) -> (r:
        Result<(), Error>)
        requires
            old(self).wf(),
        ensures
            final(self).wf(),
            final(moderator).now_ms == old(moderator).now_ms,
            broadcasts_valid_from(old(moderator).outbound@, final(moderator).outbound@),
            key_at(keychain@, next_height(old(self)@.metadata)) is None ==> {
                &&& r is Ok
                &&& final(self)@ == old(self)@
                &&& final(moderator).outbound@ == old(moderator).outbound@.push(
                    Message::Event(Event::Idle),
                )
                &&& final(moderator).inbound@ == if old(moderator).inbound@.len() > 0 {
                    old(moderator).inbound@.drop_first().push(old(moderator).inbound@[0])
                } else {
                    old(moderator).inbound@
                }
            },
            key_at(keychain@, next_height(old(self)@.metadata)) matches Some(p) ==> drain_rel(
                old(self)@,
                keychain@,
                old(moderator).now_ms,
                p,
                old(moderator).inbound@,
                Seq::<Message>::empty(),
                old(moderator).outbound@,
                final(self)@,
                final(moderator).inbound@,
                final(moderator).outbound@,
                r,
            ),
    {
        let height = self.height();

        // If no public key is available in the keychain, the node is idle.
        let public = match keychain.public(height) {
            Some(p) => p,
            None => {
                let idle = Message::Event(Event::Idle);
                moderator.send(idle);
                if let Some(m) = moderator.inbound() {
                    moderator.requeue(m);
                }
                proof {
                    assert(moderator.outbound@.take(old(moderator).outbound@.len() as int)
                        =~= old(moderator).outbound@);
                }
                return Ok(());
            }
        };

        // Clear the inbound queue.
        let mut queue: Vec<Message> = Vec::new();
        proof {
            assert(queue@ + moderator.inbound@ =~= moderator.inbound@);
        }
        loop
            invariant
                self.wf(),
                self@ == old(self)@,
                moderator.now_ms == old(moderator).now_ms,
                moderator.outbound == old(moderator).outbound,
                queue@ + moderator.inbound@ == old(moderator).inbound@,
            ensures
                self@ == old(self)@,
                moderator.now_ms == old(moderator).now_ms,
                moderator.outbound == old(moderator).outbound,
                moderator.inbound@.len() == 0,
                queue@ == old(moderator).inbound@,
            decreases moderator.inbound@.len(),
        {
            let ghost q0 = queue@;
            let ghost in0 = moderator.inbound@;
            match moderator.inbound() {
                Some(m) => {
                    queue.push(m);
                    proof {
                        assert(queue@ + moderator.inbound@ =~= q0 + in0);
                    }
                }
                None => {
                    proof {
                        assert(queue@ + moderator.inbound@ =~= queue@);
                    }
                    break;
                }
            }
        }

        let ghost msgs = queue@;
        proof {
            assert(moderator.outbound@.take(moderator.outbound@.len() as int)
                =~= moderator.outbound@);
            assert(msgs.skip(0) =~= msgs);
            assert(moderator.inbound@ =~= Seq::<Message>::empty());
        }

        let mut i: usize = 0;
        while i < queue.len()
            invariant
                self.wf(),
                0 <= i <= queue.len(),
                queue@ == msgs,
                msgs == old(moderator).inbound@,
                moderator.now_ms == old(moderator).now_ms,
                broadcasts_valid_from(old(moderator).outbound@, moderator.outbound@),
                key_at(keychain@, next_height(old(self)@.metadata)) == Some(public@),
                forall|
                    post: ReactorView,
                    post_in: Seq<Message>,
                    post_out: Seq<Message>,
                    res: Result<(), Error>,
                |
                    #[trigger] drain_rel(
                        self@,
                        keychain@,
                        old(moderator).now_ms,
                        public@,
                        msgs.skip(i as int),
                        moderator.inbound@,
                        moderator.outbound@,
                        post,
                        post_in,
                        post_out,
                        res,
                    ) ==> drain_rel(
                        old(self)@,
                        keychain@,
                        old(moderator).now_ms,
                        public@,
                        msgs,
                        Seq::<Message>::empty(),
                        old(moderator).outbound@,
                        post,
                        post_in,
                        post_out,
                        res,
                    ),
            decreases queue.len() - i,
        {
            let ghost prev_view = self@;
            let ghost prev_in = moderator.inbound@;
            let ghost prev_out = moderator.outbound@;
            self.receive(keychain, moderator, queue[i]);
            proof {
                lemma_broadcasts_valid_trans(
                    old(moderator).outbound@,
                    prev_out,
                    moderator.outbound@,
                );
                assert(msgs.skip(i as int)[0] == msgs[i as int]);
                assert(msgs.skip(i as int).drop_first() =~= msgs.skip(i as int + 1));
                assert(receive_rel(
                    prev_view,
                    keychain@,
                    old(moderator).now_ms,
                    msgs.skip(i as int)[0],
                    prev_in,
                    prev_out,
                    self@,
                    moderator.inbound@,
                    moderator.outbound@,
                ));
            }

            if self.should_quit() {
                proof {
                    assert(drain_rel(
                        prev_view,
                        keychain@,
                        old(moderator).now_ms,
                        public@,
                        msgs.skip(i as int),
                        prev_in,
                        prev_out,
                        self@,
                        moderator.inbound@,
                        moderator.outbound@,
                        Ok::<(), Error>(()),
                    ));
                }
                return Ok(());
            }
            proof {
                assert forall|
                    post: ReactorView,
                    post_in: Seq<Message>,
                    post_out: Seq<Message>,
                    res: Result<(), Error>,
                |
                    #[trigger] drain_rel(
                        self@,
                        keychain@,
                        old(moderator).now_ms,
                        public@,
                        msgs.skip(i as int + 1),
                        moderator.inbound@,
                        moderator.outbound@,
                        post,
                        post_in,
                        post_out,
                        res,
                    ) implies drain_rel(
                    old(self)@,
                    keychain@,
                    old(moderator).now_ms,
                    public@,
                    msgs,
                    Seq::<Message>::empty(),
                    old(moderator).outbound@,
                    post,
                    post_in,
                    post_out,
                    res,
                ) by {
                    assert(drain_rel(
                        prev_view,
                        keychain@,
                        old(moderator).now_ms,
                        public@,
                        msgs.skip(i as int),
                        prev_in,
                        prev_out,
                        post,
                        post_in,
                        post_out,
                        res,
                    ));
                }
            }
            i += 1;
        }

        let ghost cur_view = self@;
        let ghost cur_in = moderator.inbound@;
        let ghost cur_out = moderator.outbound@;

        let now = moderator.now();
        let round = self.round(now);

        // A node automatically upgrades to commit when it proposes a block:
        // if this node is the current round leader, it did not propose yet.
        let is_leader = match self.leader(round) {
            Ok(leader) => bytes64_eq(&leader, &public),
            Err(_) => false,
        };
        if is_leader {
            let r = self.propose(keychain, moderator);
            proof {
                lemma_broadcasts_valid_trans(
                    old(moderator).outbound@,
                    cur_out,
                    moderator.outbound@,
                );
                assert(msgs.skip(i as int).len() == 0);
                assert(drain_rel(
                    cur_view,
                    keychain@,
                    old(moderator).now_ms,
                    public@,
                    msgs.skip(i as int),
                    cur_in,
                    cur_out,
                    self@,
                    moderator.inbound@,
                    moderator.outbound@,
                    r,
                ));
            }
            return r;
        }

        proof {
            assert(msgs.skip(i as int).len() == 0);
            assert(drain_rel(
                cur_view,
                keychain@,
                old(moderator).now_ms,
                public@,
                msgs.skip(i as int),
                cur_in,
                cur_out,
                cur_view,
                cur_in,
                cur_out,
                Ok::<(), Error>(()),
            ));
        }
        Ok(())
    }
}

/// Growing an outbound queue in two steps keeps every gained broadcast
/// valid.
proof fn lemma_broadcasts_valid_trans(a: Seq<Message>, b: Seq<Message>, c: Seq<Message>)
    requires
        broadcasts_valid_from(a, b),
        broadcasts_valid_from(b, c),
    ensures
        broadcasts_valid_from(a, c),
{
    assert(c.take(a.len() as int) =~= b.take(a.len() as int));
    assert forall|i: int| a.len() <= i < c.len() implies valid_if_broadcast(#[trigger] c[i]) by {
        if i < b.len() {
            assert(c[i] == c.take(b.len() as int)[i]);
            assert(c[i] == b[i]);
        }
    }
}

/// The exact effect of the leader's propose attempt from state `pre` at
/// instant `now`: with no key for the expected height it fails; with no
/// propose authorization it emits an awaiting-block event and changes
/// nothing; otherwise it commits the height at the current round and emits
/// a propose vote, a commit vote and a commit event (a leader always
/// commits to its own block).
pub open spec fn propose_rel(
    pre: ReactorView,
    kc: KeychainEntries,
    now: u64,
    pre_out: Seq<Message>,
    post: ReactorView,
    post_out: Seq<Message>,
    result: Result<(), Error>,
) -> bool {
    let h = next_height(pre.metadata);
    let r = round_of(pre, now);
    match key_at(kc, h) {
        None => {
            &&& result is Err && result->Err_0 == Error::NotRoundValidator
            &&& post == pre
            &&& post_out == pre_out
        },
        Some(p) => match propose_find(pre.metadata.propose_blocks, h) {
            None => {
                &&& result is Ok
                &&& post == pre
                &&& post_out == pre_out.push(Message::Event(Event::AwaitingBlock { height: h }))
            },
            Some(bid) => {
                &&& result is Ok
                &&& post == (ReactorView { metadata: commit_view(pre.metadata, h, r), ..pre })
                &&& appended(pre_out, post_out, 3)
                &&& is_broadcast_of(post_out[pre_out.len() as int], h, r, bid, Step::Propose, p)
                &&& is_broadcast_of(post_out[pre_out.len() as int + 1], h, r, bid, Step::Commit, p)
                &&& is_commit_event(post_out[pre_out.len() as int + 2], h, r, bid)
            },
        },
    }
}

/// The exact effect of a self-upgrade to `step` for (height, round,
/// block_id): sign a vote with the key for the height, record the step, and
/// broadcast it when it advanced the cell. A commit step additionally
/// commits the height; a successful commit starts the next height, either
/// by proposing (when this node leads its round 0) or by recording and
/// broadcasting a fresh new-round vote.
pub open spec fn upgrade_step_rel(
    pre: ReactorView,
    kc: KeychainEntries,
    now: u64,
    height: u64,
    round: u64,
    block_id: Seq<u8>,
    step: Step,
    pre_out: Seq<Message>,
    post: ReactorView,
    post_out: Seq<Message>,
    result: Result<(), Error>,
) -> bool {
    match key_at(kc, height) {
        None => {
            &&& result is Err && result->Err_0 == Error::NotRoundValidator
            &&& post == pre
            &&& post_out == pre_out
        },
        Some(p) => if !step_advances(pre.metadata.steps, height, round, p, step) {
            &&& result is Ok
            &&& post == pre
            &&& post_out == pre_out
        } else {
            let m1 = MetadataView {
                steps: steps_put(pre.metadata.steps, height, round, p, step),
                ..pre.metadata
            };
            if !(step is Commit) || next_height(pre.metadata) != height {
                &&& result is Ok
                &&& post == (ReactorView { metadata: m1, ..pre })
                &&& appended(pre_out, post_out, 1)
                &&& is_broadcast_of(
                    post_out[pre_out.len() as int],
                    height,
                    round,
                    block_id,
                    step,
                    p,
                )
            } else {
                let m2 = commit_view(m1, height, round);
                let h2 = next_height(m2);
                let mid = ReactorView { metadata: m2, ..pre };
                &&& post_out.len() >= pre_out.len() + 2
                &&& post_out.take(pre_out.len() as int) == pre_out
                &&& is_broadcast_of(
                    post_out[pre_out.len() as int],
                    height,
                    round,
                    block_id,
                    step,
                    p,
                )
                &&& is_commit_event(post_out[pre_out.len() as int + 1], height, round, block_id)
                &&& match key_at(kc, h2) {
                    None => {
                        &&& result is Err && result->Err_0 == Error::NotRoundValidator
                        &&& post == mid
                        &&& post_out.len() == pre_out.len() + 2
                    },
                    Some(p2) => match leader_of(m2, 0) {
                        None => {
                            &&& result is Err && result->Err_0 == Error::ValidatorNotFound
                            &&& post == mid
                            &&& post_out.len() == pre_out.len() + 2
                        },
                        Some(l) => if l != p2 {
                            if step_advances(m2.steps, h2, 0, p2, Step::NewRound) {
                                &&& result is Ok
                                &&& post == (ReactorView {
                                    metadata: MetadataView {
                                        steps: steps_put(m2.steps, h2, 0, p2, Step::NewRound),
                                        ..m2
                                    },
                                    ..pre
                                })
                                &&& post_out.len() == pre_out.len() + 3
                                &&& is_broadcast_of(
                                    post_out[pre_out.len() as int + 2],
                                    h2,
                                    0,
                                    zero_block_id(),
                                    Step::NewRound,
                                    p2,
                                )
                            } else {
                                &&& result is Ok
                                &&& post == mid
                                &&& post_out.len() == pre_out.len() + 2
                            }
                        } else {
                            propose_rel(
                                mid,
                                kc,
                                now,
                                post_out.take(pre_out.len() as int + 2),
                                post,
                                post_out,
                                result,
                            )
                        },
                    },
                }
            }
        },
    }
}

/// The highest step that still reaches consensus, walking the successor
/// chain from `s`: each next step is adopted while the approvals for it
/// (the cells at that step or higher, plus this node's own vote) stay above
/// the threshold.
pub open spec fn cascade_step(steps: StepSeq, n: int, height: u64, round: u64, s: Step) -> Step
    decreases 4 - s.ordinal(),
{
    match s.succ() {
        None => s,
        Some(next) => if Consensus::verdict(
            n,
            1 + count_steps_at_least(steps, height, round, next),
        ) is Consensus {
            cascade_step(steps, n, height, round, next)
        } else {
            s
        },
    }
}

/// The exact effect of ingesting a vote. Votes from this node, votes for a
/// past height or round, votes losing against an already higher cell and
/// votes of a round below the BFT minimum are dropped; future votes are
/// requeued; votes failing validation raise a bad-vote event. A proposal
/// must come from the round leader over an authorized block, and pulls this
/// node to prevote. Any other accepted vote is recorded, the threshold is
/// evaluated over the updated cells, and this node advances to the step the
/// verdict allows.
pub open spec fn receive_vote_rel(
    pre: ReactorView,
    kc: KeychainEntries,
    now: u64,
    vote: Vote,
    pre_in: Seq<Message>,
    pre_out: Seq<Message>,
    post: ReactorView,
    post_in: Seq<Message>,
    post_out: Seq<Message>,
    result: Result<(), Error>,
) -> bool {
    let v = vote@;
    match key_at(kc, v.height) {
        None => {
            &&& result is Err && result->Err_0 == Error::NotRoundValidator
            &&& post == pre
            &&& post_in == pre_in
            &&& post_out == pre_out
        },
        Some(p) => {
            let eh = next_height(pre.metadata);
            let er = round_of(pre, now);
            if v.validator == p || v.height < eh || v.round < er {
                // A vote by this node, or a stale vote.
                &&& result is Ok
                &&& post == pre
                &&& post_in == pre_in
                &&& post_out == pre_out
            } else if v.height > eh || v.round > er {
                // A future vote returns to the queue.
                &&& result is Ok
                &&& post == pre
                &&& post_in == pre_in.push(Message::Notification(Notification::Vote { vote }))
                &&& post_out == pre_out
            } else if !(is_validator_at(pre.metadata.validators, v.validator, v.height)
                && vote_valid(v)) {
                &&& result is Ok
                &&& post == pre
                &&& post_in == pre_in
                &&& post_out == pre_out.push(Message::Event(Event::BadVote { vote }))
            } else {
                let n = validators_at(pre.metadata.validators, v.height).len() as int;
                let prior = step_find(pre.metadata.steps, v.height, v.round, v.validator);
                let s1 = if step_advances(pre.metadata.steps, v.height, v.round, v.validator, v.step) {
                    steps_put(pre.metadata.steps, v.height, v.round, v.validator, v.step)
                } else {
                    pre.metadata.steps
                };
                let mid = ReactorView {
                    metadata: MetadataView { steps: s1, ..pre.metadata },
                    ..pre
                };
                if (prior is Some && prior->Some_0.ordinal() > v.step.ordinal()) || n < 4 {
                    &&& result is Ok
                    &&& post == pre
                    &&& post_in == pre_in
                    &&& post_out == pre_out
                } else if v.step is Propose {
                    if leader_of(pre.metadata, v.round) != Some(v.validator) {
                        // Only the round leader may propose.
                        &&& result is Ok
                        &&& post == pre
                        &&& post_in == pre_in
                        &&& post_out == pre_out.push(Message::Event(Event::BadVote { vote }))
                    } else if blocks_find(pre.metadata.authorized_blocks, v.block_id) != Some(
                        v.height,
                    ) {
                        // The block is not authorized yet; wait.
                        &&& result is Ok
                        &&& post == pre
                        &&& post_in == pre_in.push(
                            Message::Notification(Notification::Vote { vote }),
                        )
                        &&& post_out == pre_out
                    } else {
                        &&& post_in == pre_in
                        &&& upgrade_step_rel(
                            mid,
                            kc,
                            now,
                            v.height,
                            v.round,
                            v.block_id,
                            Step::Prevote,
                            pre_out,
                            post,
                            post_out,
                            result,
                        )
                    }
                } else {
                    let verdict = Consensus::verdict(
                        n,
                        1 + count_steps_at_least(s1, v.height, v.round, v.step),
                    );
                    let eff = cascade_step(s1, n, v.height, v.round, v.step);
                    let own = step_find(s1, v.height, v.round, p);
                    &&& post_in == pre_in
                    &&& if verdict is Inconclusive && own is None {
                        upgrade_step_rel(
                            mid,
                            kc,
                            now,
                            v.height,
                            v.round,
                            v.block_id,
                            Step::NewRound,
                            pre_out,
                            post,
                            post_out,
                            result,
                        )
                    } else if verdict is Consensus && (eff is Precommit || eff is Commit) {
                        upgrade_step_rel(
                            mid,
                            kc,
                            now,
                            v.height,
                            v.round,
                            v.block_id,
                            Step::Commit,
                            pre_out,
                            post,
                            post_out,
                            result,
                        )
                    } else if verdict is Consensus {
                        upgrade_step_rel(
                            mid,
                            kc,
                            now,
                            v.height,
                            v.round,
                            v.block_id,
                            eff.succ()->Some_0,
                            pre_out,
                            post,
                            post_out,
                            result,
                        )
                    } else {
                        &&& result is Ok
                        &&& post == mid
                        &&& post_out == pre_out
                    }
                }
            }
        },
    }
}

/// The all-zero validator key reported when no leader or identity exists.
pub open spec fn zero_key() -> Seq<u8> {
    Seq::new(64, |i: int| 0u8)
}

/// The exact effect of a notification: kill flags the reactor to quit, a
/// new validator and the two block authorizations write into the metadata,
/// and a vote runs the vote state machine (its error, if any, is absorbed).
pub open spec fn receive_notification_rel(
    pre: ReactorView,
    kc: KeychainEntries,
    now: u64,
    n: Notification,
    pre_in: Seq<Message>,
    pre_out: Seq<Message>,
    post: ReactorView,
    post_in: Seq<Message>,
    post_out: Seq<Message>,
) -> bool {
    match n {
        Notification::Kill => {
            &&& post == (ReactorView { should_quit: true, ..pre })
            &&& post_in == pre_in
            &&& post_out == pre_out
        },
        Notification::NewValidator { height, validity, validator } => {
            &&& post == (ReactorView {
                metadata: MetadataView {
                    validators: validators_put(
                        pre.metadata.validators,
                        validator@,
                        height,
                        height.wrapping_add(validity),
                    ),
                    ..pre.metadata
                },
                ..pre
            })
            &&& post_in == pre_in
            &&& post_out == pre_out
        },
        Notification::Vote { vote } => exists|result: Result<(), Error>|
            receive_vote_rel(
                pre,
                kc,
                now,
                vote,
                pre_in,
                pre_out,
                post,
                post_in,
                post_out,
                result,
            ),
        Notification::BlockAuthorized { height, block_id } => {
            &&& post_in == pre_in
            &&& post_out == pre_out
            &&& if next_height(pre.metadata) <= height {
                post == (ReactorView {
                    metadata: MetadataView {
                        authorized_blocks: blocks_put(
                            pre.metadata.authorized_blocks,
                            block_id@,
                            height,
                        ),
                        ..pre.metadata
                    },
                    ..pre
                })
            } else {
                post == pre
            }
        },
        Notification::BlockProposeAuthorized { height, block_id } => {
            &&& post_in == pre_in
            &&& post_out == pre_out
            &&& if next_height(pre.metadata) <= height {
                post == (ReactorView {
                    metadata: MetadataView {
                        propose_blocks: propose_put(
                            pre.metadata.propose_blocks,
                            height,
                            block_id@,
                        ),
                        ..pre.metadata
                    },
                    ..pre
                })
            } else {
                post == pre
            }
        },
    }
}

/// The exact effect of a request: the work it names is attempted and a
/// response carrying its id reports the outcome through the outbound sink.
pub open spec fn receive_request_rel(
    pre: ReactorView,
    kc: KeychainEntries,
    now: u64,
    req: Request,
    pre_out: Seq<Message>,
    post: ReactorView,
    post_out: Seq<Message>,
) -> bool {
    match req {
        Request::Commit { id, height, round } => {
            let ok = next_height(pre.metadata) == height;
            if ok {
                &&& post == (ReactorView {
                    metadata: commit_view(pre.metadata, height, round),
                    ..pre
                })
                &&& appended(pre_out, post_out, 2)
                &&& is_commit_event(
                    post_out[pre_out.len() as int],
                    height,
                    round,
                    zero_block_id(),
                )
                &&& post_out[pre_out.len() as int + 1] == Message::Response(
                    Response::Commit { id, committed: true },
                )
            } else {
                &&& post == pre
                &&& post_out == pre_out.push(
                    Message::Response(Response::Commit { id, committed: false }),
                )
            }
        },
        Request::Identity { id, height } => {
            &&& post == pre
            &&& appended(pre_out, post_out, 1)
            &&& {
                let m = post_out[pre_out.len() as int];
                &&& m matches Message::Response(Response::Identity { id: rid, public })
                &&& rid == id
                &&& match key_at(kc, height) {
                    Some(p) => public is Some && public->Some_0@ == p,
                    None => public is None,
                }
            }
        },
        Request::Initialize { id, start, validity } => match key_at(kc, start) {
            Some(p) => {
                &&& post == (ReactorView {
                    metadata: MetadataView {
                        validators: validators_put(
                            pre.metadata.validators,
                            p,
                            start,
                            start.wrapping_add(validity),
                        ),
                        ..pre.metadata
                    },
                    ..pre
                })
                &&& post_out == pre_out.push(
                    Message::Response(Response::Initialize { id, initialized: true }),
                )
            },
            None => {
                &&& post == pre
                &&& post_out == pre_out.push(
                    Message::Response(Response::Initialize { id, initialized: false }),
                )
            },
        },
        Request::Round { id } => {
            let h = next_height(pre.metadata);
            let r = round_of(pre, now);
            let own = match key_at(kc, h) {
                Some(p) => p,
                None => zero_key(),
            };
            &&& post == pre
            &&& appended(pre_out, post_out, 1)
            &&& {
                let m = post_out[pre_out.len() as int];
                &&& m matches Message::Response(
                    Response::Round { id: rid, height, round, leader, step },
                )
                &&& rid == id
                &&& height == h
                &&& round == r
                &&& match leader_of(pre.metadata, r) {
                    Some(l) => leader@ == l,
                    None => leader@ == zero_key(),
                }
                &&& step == step_find(pre.metadata.steps, h, r, own)
            }
        },
    }
}

/// The exact effect of one inbound message: notifications and requests run
/// the reactor, inbound events and responses are ignored.
pub open spec fn receive_rel(
    pre: ReactorView,
    kc: KeychainEntries,
    now: u64,
    message: Message,
    pre_in: Seq<Message>,
    pre_out: Seq<Message>,
    post: ReactorView,
    post_in: Seq<Message>,
    post_out: Seq<Message>,
) -> bool {
    match message {
        Message::Event(_) => post == pre && post_in == pre_in && post_out == pre_out,
        Message::Response(_) => post == pre && post_in == pre_in && post_out == pre_out,
        Message::Notification(n) => receive_notification_rel(
            pre,
            kc,
            now,
            n,
            pre_in,
            pre_out,
            post,
            post_in,
            post_out,
        ),
        Message::Request(q) => post_in == pre_in && receive_request_rel(
            pre,
            kc,
            now,
            q,
            pre_out,
            post,
            post_out,
        ),
    }
}

/// The exact effect of one heartbeat's work once the node has an identity
/// `own`: the drained messages are consumed in order through the reactor,
/// stopping as soon as a kill notification sets the quit flag; after the
/// last message the node drives a propose attempt exactly when it leads
/// the current round, and otherwise changes nothing more.
pub open spec fn drain_rel(
    pre: ReactorView,
    kc: KeychainEntries,
    now: u64,
    own: Seq<u8>,
    msgs: Seq<Message>,
    pre_in: Seq<Message>,
    pre_out: Seq<Message>,
    post: ReactorView,
    post_in: Seq<Message>,
    post_out: Seq<Message>,
    result: Result<(), Error>,
) -> bool
    decreases msgs.len(),
{
    if msgs.len() == 0 {
        if leader_of(pre.metadata, round_of(pre, now)) == Some(own) {
            &&& post_in == pre_in
            &&& propose_rel(pre, kc, now, pre_out, post, post_out, result)
        } else {
            &&& result is Ok
            &&& post == pre
            &&& post_in == pre_in
            &&& post_out == pre_out
        }
    } else {
        exists|mid: ReactorView, mid_in: Seq<Message>, mid_out: Seq<Message>|
            {
                &&& #[trigger] receive_rel(
                    pre,
                    kc,
                    now,
                    msgs[0],
                    pre_in,
                    pre_out,
                    mid,
                    mid_in,
                    mid_out,
                )
                &&& if mid.should_quit {
                    &&& result is Ok
                    &&& post == mid
                    &&& post_in == mid_in
                    &&& post_out == mid_out
                } else {
                    drain_rel(
                        mid,
                        kc,
                        now,
                        own,
                        msgs.drop_first(),
                        mid_in,
                        mid_out,
                        post,
                        post_in,
                        post_out,
                        result,
                    )
                }
            }
    }
}

/// A saturating increment keeps the verdict exact: the threshold is always
/// below the largest approval count, so adding one more approval past it
/// cannot change the outcome.
proof fn lemma_verdict_saturated(n: usize, count: usize)
    ensures
        Consensus::verdict(
            n as int,
            (if count < usize::MAX {
                (count + 1) as usize
            } else {
                count
            }) as int,
        ) == Consensus::verdict(n as int, 1 + count),
{
    if count == usize::MAX {
        assert(2 * (n as int) / 3 < usize::MAX as int) by (nonlinear_arith)
            requires
                0 <= n <= usize::MAX,
        ;
    }
}

/// Leader election is deterministic: two nodes that agree on the validator
/// set, the committed height and the committed rounds agree on the leader
/// of every round.
pub proof fn lemma_leader_deterministic(a: MetadataView, b: MetadataView, round: u64)
    requires
        a.validators == b.validators,
        a.committed_height == b.committed_height,
        a.committed_rounds == b.committed_rounds,
    ensures
        leader_of(a, round) == leader_of(b, round),
{
}

} // verus!
