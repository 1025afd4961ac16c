//! The BFT threshold rule.

use vstd::prelude::*;

verus! {

/// Evaluation of the outcome of a mutation produced by a peer message.
#[derive(Debug, Clone, Copy, PartialEq, Eq, Structural, Hash)]
pub enum Consensus {
    /// The votes weren't enough to produce a consensus.
    Inconclusive,
    /// The votes achieved BFT consensus.
    Consensus,
    /// The number of validators in the round are not enough to achieve consensus.
    Reject,
}

impl Consensus {
    /// Minimum amount of validators for a BFT consensus.
    pub const MINIMUM: usize = 4;

    /// The threshold verdict for `validators` present and `approvals` in favor:
    /// `Reject` below the BFT minimum, `Consensus` strictly above two thirds
    /// of the validators, `Inconclusive` otherwise.
    pub open spec fn verdict(validators: int, approvals: int) -> Consensus {
        if validators < 4 {
            Consensus::Reject
        } else if approvals > validators * 2 / 3 {
            Consensus::Consensus
        } else {
            Consensus::Inconclusive
        }
    }

    /// Deserialize the verdict from a byte; unknown bytes map to `Reject`.
    pub fn from_u8(byte: u8) -> (r: Self)
        ensures
            byte == 0 ==> r == Consensus::Inconclusive,
            byte == 1 ==> r == Consensus::Consensus,
            byte >= 2 ==> r == Consensus::Reject,
    {
        match byte {
            0 => Self::Inconclusive,
            1 => Self::Consensus,
            _ => Self::Reject,
        }
    }

    /// Check if the validators count meets the criteria for a BFT consensus.
    pub fn is_bft(validators: usize) -> (r: bool)
        ensures
            r == (validators >= 4),
    {
        validators >= Self::MINIMUM
    }

    /// Check if the result is a consensus.
    pub fn is_consensus(&self) -> (r: bool)
        ensures
            r == (self is Consensus),
    {
        matches!(self, Self::Consensus)
    }

    /// Check if the result is inconclusive.
    pub fn is_inconclusive(&self) -> (r: bool)
        ensures
            r == (self is Inconclusive),
    {
        matches!(self, Self::Inconclusive)
    }

    /// Given the number of validators and computed approvals, evaluate the
    /// consensus outcome.
    ///
    /// Fewer than four validators can never reach consensus; four or more
    /// reach it exactly when the approvals strictly exceed two thirds of the
    /// validator count (integer arithmetic, so for four validators at least
    /// three approvals are required).
    pub fn evaluate(validators: usize, approvals: usize) -> (r: Self)
        ensures
            r == Self::verdict(validators as int, approvals as int),
    {
        let minimum = Self::is_bft(validators);
        let threshold = (validators as u128) * 2 / 3;

        if !minimum {
            Consensus::Reject
        } else if (approvals as u128) > threshold {
            Consensus::Consensus
        } else {
            Consensus::Inconclusive
        }
    }
}

} // verus!
