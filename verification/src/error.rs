//! Consensus error taxonomy.

use vstd::prelude::*;

verus! {

/// Consensus error variants.
#[derive(Debug, Clone, Copy, PartialEq, Eq, Structural, Hash)]
pub enum Error {
    /// The block validation failed.
    BlockValidation,

    /// A stake was added whose height range intersects an existing stake
    /// with a different key or value.
    DuplicatedStake {
        /// Start of the conflicting range.
        height: u64,
        /// Exclusive end of the conflicting range.
        valid_before: u64,
    },

    /// Failed to define elapsed time since genesis.
    ElapsedTimeFailure,

    /// The provided signature is invalid.
    InvalidSignature,

    /// The node isn't a round validator.
    NotRoundValidator,

    /// The requested resource is not available.
    ResourceNotAvailable,

    /// The validator is not included for this round.
    ValidatorNotFound,

    /// Vote is missing either the block id or round.
    VoteInconsistent,
}

} // verus!
