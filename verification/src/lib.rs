//! A buffer and counter for signed validator-set change votes.
//!
//! A group of `n` validators, of which at most `f` may be Byzantine, agrees
//! on changes to its own membership by exchanging signed votes.  The
//! [`counter::VoteCounter`] collects gossiped (pending) and agreed-upon
//! (committed) votes, checks their signatures and era tags, reports invalid
//! input through fault logs, and declares a change ratified once strictly
//! more than `f` voters have committed to it.

pub mod assoc;
pub mod counter;
pub mod net;
pub mod fault;
pub mod sig;
pub mod vote;

pub use counter::VoteCounter;
pub use fault::{FaultEntry, FaultKind, FaultLog};
pub use net::NetworkInfo;
pub use vote::{Change, SignedVote, VoteError};
