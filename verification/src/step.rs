//! The ordered step ladder of the consensus protocol.

use vstd::prelude::*;

verus! {

/// Step of the consensus protocol.
///
/// The ladder is totally ordered: NewRound < Propose < Prevote < Precommit
/// < Commit. The successor is defined on every step but Commit.
#[derive(Debug, Clone, Copy, PartialEq, Eq, Structural, PartialOrd, Ord, Hash)]
pub enum Step {
    /// A round just started without a proposal from a leader.
    NewRound,
    /// The block proposal from the leader was accepted in the network.
    Propose,
    /// The block acceptance is ready to commit in the network.
    Prevote,
    /// The commit is performed locally and should be accepted by the peers.
    Precommit,
    /// The round is finalized with a commit.
    Commit,
}

impl Step {
    /// Position of the step in the ladder; the ladder's total order is the
    /// numeric order of this value.
    pub open spec fn ordinal(self) -> int {
        match self {
            Step::NewRound => 0,
            Step::Propose => 1,
            Step::Prevote => 2,
            Step::Precommit => 3,
            Step::Commit => 4,
        }
    }

    /// Successor in the ladder, if any.
    pub open spec fn succ(self) -> Option<Step> {
        match self {
            Step::NewRound => Some(Step::Propose),
            Step::Propose => Some(Step::Prevote),
            Step::Prevote => Some(Step::Precommit),
            Step::Precommit => Some(Step::Commit),
            Step::Commit => None,
        }
    }

    /// The steps strictly above this one, in ascending ladder order.
    pub open spec fn succ_seq(self) -> Seq<Step> {
        match self {
            Step::NewRound => seq![Step::Propose, Step::Prevote, Step::Precommit, Step::Commit],
            Step::Propose => seq![Step::Prevote, Step::Precommit, Step::Commit],
            Step::Prevote => seq![Step::Precommit, Step::Commit],
            Step::Precommit => seq![Step::Commit],
            Step::Commit => seq![],
        }
    }

    /// Deserialize the step from a byte; unknown bytes map to the initial step.
    pub fn from_u8(byte: u8) -> (r: Self)
        ensures
            byte == 1 ==> r == Step::Propose,
            byte == 2 ==> r == Step::Prevote,
            byte == 3 ==> r == Step::Precommit,
            byte == 4 ==> r == Step::Commit,
            !(1 <= byte <= 4) ==> r == Step::NewRound,
    {
        match byte {
            1 => Self::Propose,
            2 => Self::Prevote,
            3 => Self::Precommit,
            4 => Self::Commit,
            _ => Self::NewRound,
        }
    }

    /// Serialize the step as its ladder position.
    pub fn as_u8(&self) -> (r: u8)
        ensures
            r == self.ordinal(),
    {
        match self {
            Step::NewRound => 0,
            Step::Propose => 1,
            Step::Prevote => 2,
            Step::Precommit => 3,
            Step::Commit => 4,
        }
    }

    /// Beginning of a round.
    pub fn initial() -> (r: Self)
        ensures
            r == Step::NewRound,
    {
        Self::NewRound
    }

    /// Check if round is in precommit step.
    pub fn is_precommit(&self) -> (r: bool)
        ensures
            r == (self is Precommit),
    {
        matches!(self, Self::Precommit)
    }

    /// Check if round is finalized with a commit step.
    pub fn is_commit(&self) -> (r: bool)
        ensures
            r == (self is Commit),
    {
        matches!(self, Self::Commit)
    }

    /// Check if round is in the initial step.
    pub fn is_initial(&self) -> (r: bool)
        ensures
            r == (self is NewRound),
    {
        matches!(self, Self::NewRound)
    }

    /// Check if round is waiting for a proposal from the leader.
    pub fn is_propose(&self) -> (r: bool)
        ensures
            r == (self is Propose),
    {
        matches!(self, Self::Propose)
    }

    /// Increment the current step to the next one of the consensus flow.
    pub fn increment(self) -> (r: Option<Self>)
        ensures
            r == self.succ(),
    {
        match self {
            Self::NewRound => Some(Self::Propose),
            Self::Propose => Some(Self::Prevote),
            Self::Prevote => Some(Self::Precommit),
            Self::Precommit => Some(Self::Commit),
            Self::Commit => None,
        }
    }

    /// The steps strictly above this one, in ascending ladder order.
    ///
    /// Iterating the ladder from the initial step yields exactly Propose,
    /// Prevote, Precommit and Commit.
    pub fn successors(&self) -> (r: Vec<Step>)
        ensures
            r@ == self.succ_seq(),
    {
        let mut out: Vec<Step> = Vec::new();
        let mut cur: Step = *self;
        loop
            invariant
                out@ + cur.succ_seq() == self.succ_seq(),
            ensures
                out@ == self.succ_seq(),
            decreases 4 - cur.ordinal(),
        {
            match cur.increment() {
                Some(next) => {
                    out.push(next);
                    cur = next;
                }
                None => {
                    proof {
                        assert(out@ + cur.succ_seq() =~= out@);
                    }
                    break;
                }
            }
        }
        out
    }
}

} // verus!
