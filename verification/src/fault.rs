//! Fault reports: the accountability side-channel of the vote counter.
//!
//! Byzantine input (a bad signature, a wrong era in an agreed batch) is never
//! an error that aborts processing; it is recorded as a fault entry blaming
//! the node that submitted the input, and the counter carries on.

use vstd::prelude::*;

verus! {

/// The kind of invalid input that a fault entry reports.
#[derive(Clone, Copy, Debug, PartialEq, Eq, Hash, Structural)]
pub enum FaultKind {
    /// A gossiped vote whose signature does not verify.
    InvalidVoteSignature,
    /// A vote in an agreed batch with a wrong era or a bad signature.
    InvalidCommittedVote,
}

/// One fault record: the node held accountable, and what it submitted.
#[derive(Clone, Copy, Debug, PartialEq, Eq, Hash, Structural)]
pub struct FaultEntry {
    /// The node that relayed or proposed the offending vote.
    pub node_id: u64,
    /// What was wrong with it.
    pub kind: FaultKind,
}

/// An ordered list of fault records, handed to the caller after each
/// ingestion call.  A non-empty log is diagnostic output, not a failure.
#[derive(Debug, PartialEq, Eq)]
pub struct FaultLog {
    entries: Vec<FaultEntry>,
}

impl View for FaultLog {
    type V = Seq<FaultEntry>;

    closed spec fn view(&self) -> Seq<FaultEntry> {
        self.entries@
    }
}

impl FaultLog {
    /// An empty log.
    pub fn new() -> (r: Self)
        ensures
            r@ == Seq::<FaultEntry>::empty(),
    {
        let entries: Vec<FaultEntry> = Vec::new();
        FaultLog { entries }
    }

    /// A log holding the single record `(node_id, kind)`.
    pub fn init(node_id: u64, kind: FaultKind) -> (r: Self)
        ensures
            r@ == seq![(FaultEntry { node_id, kind })],
    {
        let mut entries: Vec<FaultEntry> = Vec::new();
        entries.push(FaultEntry { node_id, kind });
        proof {
            assert(entries@ =~= seq![(FaultEntry { node_id, kind })]);
        }
        FaultLog { entries }
    }

    /// Appends all records of `other` to this log, in order.
    pub fn extend(&mut self, other: FaultLog)
        ensures
            final(self)@ == old(self)@ + other@,
    {
        let mut tail = other;
        self.entries.append(&mut tail.entries);
    }

    /// Whether the log holds no record.
    pub fn is_empty(&self) -> (r: bool)
        ensures
            r == (self@.len() == 0),
    {
        self.entries.is_empty()
    }

    /// The number of records.
    pub fn len(&self) -> (r: usize)
        ensures
            r == self@.len(),
    {
        self.entries.len()
    }

    /// The recorded entries, oldest first.
    pub fn entries(&self) -> (r: &Vec<FaultEntry>)
        ensures
            r@ == self@,
    {
        &self.entries
    }
}

} // verus!
