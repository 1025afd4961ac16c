//! The message taxonomy crossing the reactor boundary.

use vstd::prelude::*;

use crate::step::Step;
use crate::vote::Vote;

verus! {

/// Event produced by the reactor.
#[derive(Debug, Clone, Copy)]
pub enum Event {
    /// The reactor is awaiting a block authorization to propose a new
    /// consensus round.
    AwaitingBlock {
        /// Height of the expected block.
        height: u64,
    },
    /// The reactor is idle: it is not a validator for the current round.
    Idle,
    /// The reactor produced a vote and it should be broadcast to the peers.
    Broadcast {
        /// Vote produced by the reactor.
        vote: Vote,
    },
    /// A block was committed.
    Commit {
        /// Committed block height.
        height: u64,
        /// Rounds performed for this height.
        round: u64,
        /// Block identifier.
        block_id: [u8; 32],
    },
    /// A bad vote was received - should reduce the karma of the author.
    BadVote {
        /// Tampered vote.
        vote: Vote,
    },
}

/// A notification to be consumed by the reactor.
#[derive(Debug, Clone, Copy)]
pub enum Notification {
    /// Kill command.
    Kill,
    /// A validator was included.
    NewValidator {
        /// Initial block height.
        height: u64,
        /// Validity period of the validator.
        validity: u64,
        /// Validator identifier.
        validator: [u8; 64],
    },
    /// A new vote was received.
    Vote {
        /// Vote to be processed.
        vote: Vote,
    },
    /// A block was cleared for consensus. The reactor expects this before it
    /// can upgrade from the propose step.
    BlockAuthorized {
        /// Block height.
        height: u64,
        /// Block identifier.
        block_id: [u8; 32],
    },
    /// A block was generated and is available in the network, so the reactor
    /// can initiate the propose protocol.
    BlockProposeAuthorized {
        /// Block height.
        height: u64,
        /// Block identifier.
        block_id: [u8; 32],
    },
}

/// A request to be responded to by the reactor.
#[derive(Debug, Clone, Copy)]
pub enum Request {
    /// The reactor should attempt to commit the provided block height.
    Commit {
        /// Id of the request used to track its response.
        id: u64,
        /// Block height.
        height: u64,
        /// Height round.
        round: u64,
    },
    /// Query the identity of the node for the provided height.
    Identity {
        /// Id of the request used to track its response.
        id: u64,
        /// Block height for the identity.
        height: u64,
    },
    /// Attempt to initialize the node to be a validator of the given
    /// interval.
    Initialize {
        /// Id of the request used to track its response.
        id: u64,
        /// Height in which the node will start to act as validator.
        start: u64,
        /// The duration, from `start`, that the node will act as validator.
        validity: u64,
    },
    /// Query the current round.
    Round {
        /// Id of the request used to track its response.
        id: u64,
    },
}

impl Request {
    /// Request id to trace the response.
    pub fn id(&self) -> (r: u64)
        ensures
            r == match *self {
                Request::Commit { id, .. } => id,
                Request::Identity { id, .. } => id,
                Request::Initialize { id, .. } => id,
                Request::Round { id, .. } => id,
            },
    {
        match self {
            Self::Commit { id, .. } => *id,
            Self::Identity { id, .. } => *id,
            Self::Initialize { id, .. } => *id,
            Self::Round { id, .. } => *id,
        }
    }
}

/// Response from the reactor as result of a request.
#[derive(Debug, Clone, Copy)]
pub enum Response {
    /// The reactor acknowledged a commit request.
    Commit {
        /// Id of the request used to track its response.
        id: u64,
        /// Whether the commit was accepted by the reactor.
        committed: bool,
    },
    /// The identity of the node for the provided height.
    Identity {
        /// Id of the request used to track its response.
        id: u64,
        /// Public identity of the node for the provided height, if present.
        public: Option<[u8; 64]>,
    },
    /// The outcome of an initialize request.
    Initialize {
        /// Id of the request used to track its response.
        id: u64,
        /// Whether the initialize request was successful.
        initialized: bool,
    },
    /// The current round.
    Round {
        /// Id of the request used to track its response.
        id: u64,
        /// Block height.
        height: u64,
        /// Height round.
        round: u64,
        /// Public key of the leader.
        leader: [u8; 64],
        /// Current step of the node for the round.
        step: Option<Step>,
    },
}

impl Response {
    /// Request id to trace the response.
    pub fn id(&self) -> (r: u64)
        ensures
            r == match *self {
                Response::Commit { id, .. } => id,
                Response::Identity { id, .. } => id,
                Response::Initialize { id, .. } => id,
                Response::Round { id, .. } => id,
            },
    {
        match self {
            Self::Commit { id, .. } => *id,
            Self::Identity { id, .. } => *id,
            Self::Initialize { id, .. } => *id,
            Self::Round { id, .. } => *id,
        }
    }
}

/// I/O interface with the reactor.
#[derive(Debug, Clone, Copy)]
pub enum Message {
    /// Event produced by the reactor.
    Event(Event),
    /// Notification to be consumed by the reactor.
    Notification(Notification),
    /// Request-response to be executed by the reactor.
    Request(Request),
    /// Response generated from a request.
    Response(Response),
}

} // verus!
