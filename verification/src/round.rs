//! A (height, round) pair ordered height first.

use vstd::prelude::*;

verus! {

/// A block height together with the round inside that height.
///
/// The derived order is lexicographic: height first, then round.
#[derive(Debug, Clone, Copy, PartialEq, Eq, Structural, PartialOrd, Ord, Hash)]
pub struct HeightRound {
    /// Block height.
    pub height: u64,
    /// Round inside the height, restarting at 0 per height.
    pub round: u64,
}

impl HeightRound {
    /// Pair a height with a round.
    pub fn new(height: u64, round: u64) -> (r: Self)
        ensures
            r.height == height,
            r.round == round,
    {
        Self { height, round }
    }

    /// The first round of the given height.
    pub fn start(height: u64) -> (r: Self)
        ensures
            r.height == height,
            r.round == 0,
    {
        Self::new(height, 0)
    }

    /// Block height.
    pub fn height(&self) -> (r: u64)
        ensures
            r == self.height,
    {
        self.height
    }

    /// Height round.
    pub fn round(&self) -> (r: u64)
        ensures
            r == self.round,
    {
        self.round
    }

    /// The first round of the next height.
    pub fn increment_height(self) -> (r: Self)
        requires
            self.height < u64::MAX,
        ensures
            r.height == self.height + 1,
            r.round == 0,
    {
        Self { height: self.height + 1, round: 0 }
    }

    /// The next round of the same height.
    pub fn increment_round(self) -> (r: Self)
        requires
            self.round < u64::MAX,
        ensures
            r.height == self.height,
            r.round == self.round + 1,
    {
        Self { height: self.height, round: self.round + 1 }
    }
}

} // verus!
