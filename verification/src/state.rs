//! An earlier draft of the step ladder that modelled rejection as a state.
//!
//! The consensus core keeps rejection as a verdict only (see
//! [`crate::consensus::Consensus`]); this ladder is retained for peers that
//! still speak it. A rejected round compares above every other state and
//! has no successor.

use vstd::prelude::*;

verus! {

/// A per-round state including an explicit rejected marker.
#[derive(Debug, Clone, Copy, PartialEq, Eq, Structural, PartialOrd, Ord, Hash)]
pub enum State {
    /// A new height started.
    NewHeight,
    /// The block proposal from the leader was accepted.
    Propose,
    /// The block acceptance is ready to commit.
    Prevote,
    /// The commit is performed locally.
    Precommit,
    /// The round is finalized with a commit.
    Commit,
    /// The round was rejected.
    Reject,
}

impl State {
    /// Position of the state in the derived order; the rejected marker
    /// stands above the whole ladder.
    pub open spec fn ordinal(self) -> int {
        match self {
            State::NewHeight => 0,
            State::Propose => 1,
            State::Prevote => 2,
            State::Precommit => 3,
            State::Commit => 4,
            State::Reject => 5,
        }
    }

    /// Successor in the ladder, if any; rejected rounds have none.
    pub open spec fn succ(self) -> Option<State> {
        match self {
            State::Reject => None,
            State::NewHeight => Some(State::Propose),
            State::Propose => Some(State::Prevote),
            State::Prevote => Some(State::Precommit),
            State::Precommit => Some(State::Commit),
            State::Commit => None,
        }
    }

    /// The states the ladder still visits after this one, in ascending
    /// order; empty for a commit or a rejection.
    pub open spec fn succ_seq(self) -> Seq<State> {
        match self {
            State::NewHeight => seq![
                State::Propose,
                State::Prevote,
                State::Precommit,
                State::Commit,
            ],
            State::Propose => seq![State::Prevote, State::Precommit, State::Commit],
            State::Prevote => seq![State::Precommit, State::Commit],
            State::Precommit => seq![State::Commit],
            State::Commit => seq![],
            State::Reject => seq![],
        }
    }

    /// Deserialize the state from a byte; unknown bytes map to `Reject`.
    pub fn from_u8(byte: u8) -> (r: Self)
        ensures
            byte == 1 ==> r == State::NewHeight,
            byte == 2 ==> r == State::Propose,
            byte == 3 ==> r == State::Prevote,
            byte == 4 ==> r == State::Precommit,
            byte == 5 ==> r == State::Commit,
            !(1 <= byte <= 5) ==> r == State::Reject,
    {
        match byte {
            1 => Self::NewHeight,
            2 => Self::Propose,
            3 => Self::Prevote,
            4 => Self::Precommit,
            5 => Self::Commit,
            _ => Self::Reject,
        }
    }

    /// Beginning of a height.
    pub fn initial() -> (r: Self)
        ensures
            r == State::NewHeight,
    {
        Self::NewHeight
    }

    /// Check if the round is finalized with a commit.
    pub fn is_commit(&self) -> (r: bool)
        ensures
            r == (self is Commit),
    {
        matches!(self, Self::Commit)
    }

    /// Check if the round is in the initial state.
    pub fn is_initial(&self) -> (r: bool)
        ensures
            r == (self is NewHeight),
    {
        matches!(self, Self::NewHeight)
    }

    /// Check if the round is waiting for a proposal from the leader.
    pub fn is_propose(&self) -> (r: bool)
        ensures
            r == (self is Propose),
    {
        matches!(self, Self::Propose)
    }

    /// Check if the round was rejected.
    pub fn is_reject(&self) -> (r: bool)
        ensures
            r == (self is Reject),
    {
        matches!(self, Self::Reject)
    }

    /// Increment the current state to the next one of the consensus flow.
    pub fn increment(self) -> (r: Option<Self>)
        ensures
            r == self.succ(),
    {
        match self {
            Self::Reject => None,
            Self::NewHeight => Some(Self::Propose),
            Self::Propose => Some(Self::Prevote),
            Self::Prevote => Some(Self::Precommit),
            Self::Precommit => Some(Self::Commit),
            Self::Commit => None,
        }
    }

    /// The states the ladder still visits after this one, in ascending
    /// order.
    pub fn successors(&self) -> (r: Vec<State>)
        ensures
            r@ == self.succ_seq(),
    {
        let mut out: Vec<State> = Vec::new();
        let mut cur: State = *self;
        loop
            invariant
                out@ + cur.succ_seq() == self.succ_seq(),
            ensures
                out@ == self.succ_seq(),
            decreases 5 - cur.ordinal(),
        {
            match cur.increment() {
                Some(next) => {
                    out.push(next);
                    cur = next;
                }
                None => {
                    proof {
                        assert(out@ + cur.succ_seq() =~= out@);
                    }
                    break;
                }
            }
        }
        out
    }
}

} // verus!
