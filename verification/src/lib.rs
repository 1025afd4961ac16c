//! A Tendermint-family BFT consensus reactor.
//!
//! Validators agree, round by round and height by height, on a totally
//! ordered sequence of opaque blocks. Each height proceeds through a
//! monotonically advancing step ladder, a round leader is chosen
//! deterministically from the height's validator set, and signed votes from
//! more than two thirds of the validators advance the step.

pub mod byteops;
pub mod consensus;
pub mod crypto;
pub mod error;
pub mod keychain;
pub mod message;
pub mod metadata;
pub mod moderator;
pub mod reactor;
pub mod round;
pub mod seqext;
pub mod stake;
pub mod state;
pub mod step;
pub mod transaction;
pub mod vote;

pub use consensus::Consensus;
pub use error::Error;
pub use keychain::MemoryKeychain;
pub use message::Event;
pub use message::Message;
pub use message::Notification;
pub use message::Request;
pub use message::Response;
pub use metadata::Metadata;
pub use moderator::Moderator;
pub use reactor::Config;
pub use reactor::Reactor;
pub use round::HeightRound;
pub use stake::HeightBound;
pub use stake::Stake;
pub use stake::StakeKeys;
pub use stake::StakePool;
pub use state::State;
pub use step::Step;
pub use transaction::Transaction;
pub use transaction::TransactionSet;
pub use vote::Vote;
