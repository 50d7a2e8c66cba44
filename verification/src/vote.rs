//! Votes for validator-set changes, and their deterministic byte encoding.
//!
//! A [`Vote`] pins a proposed [`Change`] to one era and one per-voter
//! sequence number; a [`SignedVote`] adds the claimed author and a signature
//! over the vote's encoding.  Signer and verifier must produce the same
//! bytes for the same vote, so the encoding is defined here as a spec
//! function ([`vote_enc`]) and the executable encoder is proved against it.

use vstd::prelude::*;

verus! {

/// The mathematical value of a [`Change`].
#[verifier::ext_equal]
pub enum ChangeV {
    /// Add a validator, identified by its node id, with its public-key bytes.
    Add(u64, Seq<u8>),
    /// Remove the validator with this node id.
    Remove(u64),
}

/// The mathematical value of a [`Vote`].
#[verifier::ext_equal]
pub struct VoteV {
    /// The proposed membership change.
    pub change: ChangeV,
    /// The reconfiguration era the vote belongs to.
    pub era: u64,
    /// The voter's sequence number; a later vote supersedes an earlier one.
    pub num: u64,
}

/// The mathematical value of a [`SignedVote`].
#[verifier::ext_equal]
pub struct SignedVoteV {
    /// The vote itself.
    pub vote: VoteV,
    /// The claimed author.
    pub voter: u64,
    /// The signature bytes over `vote_enc(vote)`.
    pub sig: Seq<u8>,
}

/// A proposed change to the validator set: add a node (with the public-key
/// material its peers will need) or remove a node.
#[derive(Debug, PartialEq, Eq, Hash)]
pub enum Change {
    /// Add the validator with this node id and public-key bytes.
    Add(u64, Vec<u8>),
    /// Remove the validator with this node id.
    Remove(u64),
}

impl View for Change {
    type V = ChangeV;

    open spec fn view(&self) -> ChangeV {
        match self {
            Change::Add(node, key) => ChangeV::Add(*node, key@),
            Change::Remove(node) => ChangeV::Remove(*node),
        }
    }
}

/// An unsigned vote: one change, one era, one per-voter sequence number.
#[derive(Debug, PartialEq, Eq, Hash)]
pub struct Vote {
    change: Change,
    era: u64,
    num: u64,
}

impl View for Vote {
    type V = VoteV;

    closed spec fn view(&self) -> VoteV {
        VoteV { change: self.change@, era: self.era, num: self.num }
    }
}

/// A vote together with its claimed author and the author's signature over
/// the vote's encoding.
#[derive(Debug, PartialEq, Eq, Hash)]
pub struct SignedVote {
    vote: Vote,
    voter: u64,
    sig: Vec<u8>,
}

impl View for SignedVote {
    type V = SignedVoteV;

    closed spec fn view(&self) -> SignedVoteV {
        SignedVoteV { vote: self.vote@, voter: self.voter, sig: self.sig@ }
    }
}

/// The views of a sequence of signed votes, in order.
pub open spec fn views_of(s: Seq<SignedVote>) -> Seq<SignedVoteV> {
    s.map_values(|sv: SignedVote| sv@)
}

// ---------------------------------------------------------------------------
// Byte helpers
// ---------------------------------------------------------------------------

/// A byte-for-byte copy of `v`.
pub fn clone_bytes(v: &Vec<u8>) -> (r: Vec<u8>)
    ensures
        r@ == v@,
{
    let mut out: Vec<u8> = Vec::new();
    let n = v.len();
    let mut i: usize = 0;
    while i < n
        invariant
            n == v@.len(),
            i <= n,
            out@ == v@.take(i as int),
        decreases n - i,
    {
        out.push(v[i]);
        proof {
            assert(v@.take(i + 1) =~= v@.take(i as int).push(v@[i as int]));
        }
        i += 1;
    }
    proof {
        assert(v@.take(n as int) =~= v@);
    }
    out
}

/// Whether `a` and `b` hold the same bytes.
pub fn bytes_eq(a: &Vec<u8>, b: &Vec<u8>) -> (r: bool)
    ensures
        r == (a@ == b@),
{
    if a.len() != b.len() {
        return false;
    }
    let n = a.len();
    let mut i: usize = 0;
    while i < n
        invariant
            n == a@.len(),
            a@.len() == b@.len(),
            i <= n,
            forall|j: int| 0 <= j < i ==> a@[j] == b@[j],
        decreases n - i,
    {
        if a[i] != b[i] {
            return false;
        }
        i += 1;
    }
    proof {
        assert(a@ =~= b@);
    }
    true
}

// ---------------------------------------------------------------------------
// The deterministic encoding
// ---------------------------------------------------------------------------

/// The eight bytes of `x`, least significant first.
pub open spec fn u64_le(x: u64) -> Seq<u8> {
    seq![
        (x & 0xff) as u8,
        ((x >> 8) & 0xff) as u8,
        ((x >> 16) & 0xff) as u8,
        ((x >> 24) & 0xff) as u8,
        ((x >> 32) & 0xff) as u8,
        ((x >> 40) & 0xff) as u8,
        ((x >> 48) & 0xff) as u8,
        ((x >> 56) & 0xff) as u8,
    ]
}

/// The encoding of a change: a one-byte tag, the node id, and for an
/// addition the length-prefixed public-key bytes.
pub open spec fn change_enc(c: ChangeV) -> Seq<u8> {
    match c {
        ChangeV::Add(node, key) => seq![0u8] + u64_le(node) + u64_le(key.len() as u64) + key,
        ChangeV::Remove(node) => seq![1u8] + u64_le(node),
    }
}

/// The encoding of a vote: its change, then its era, then its number.
/// This is the exact byte string that is signed and verified.
pub open spec fn vote_enc(v: VoteV) -> Seq<u8> {
    change_enc(v.change) + u64_le(v.era) + u64_le(v.num)
}

fn push_u64_le(out: &mut Vec<u8>, x: u64)
    ensures
        final(out)@ == old(out)@ + u64_le(x),
{
    out.push((x & 0xff) as u8);
    out.push(((x >> 8) & 0xff) as u8);
    out.push(((x >> 16) & 0xff) as u8);
    out.push(((x >> 24) & 0xff) as u8);
    out.push(((x >> 32) & 0xff) as u8);
    out.push(((x >> 40) & 0xff) as u8);
    out.push(((x >> 48) & 0xff) as u8);
    out.push(((x >> 56) & 0xff) as u8);
    proof {
        assert(out@ =~= old(out)@ + u64_le(x));
    }
}

fn push_change(out: &mut Vec<u8>, c: &Change)
    ensures
        final(out)@ == old(out)@ + change_enc(c@),
{
    match c {
        Change::Add(node, key) => {
            out.push(0u8);
            push_u64_le(out, *node);
            push_u64_le(out, key.len() as u64);
            out.extend_from_slice(key.as_slice());
            proof {
                assert(out@ =~= old(out)@ + change_enc(c@));
            }
        },
        Change::Remove(node) => {
            out.push(1u8);
            push_u64_le(out, *node);
            proof {
                assert(out@ =~= old(out)@ + change_enc(c@));
            }
        },
    }
}

// ---------------------------------------------------------------------------
// Executable operations on the vote types
// ---------------------------------------------------------------------------

impl Clone for Change {
    /// A copy with the same value.
    fn clone(&self) -> (r: Self)
        ensures
            r@ == self@,
    {
        match self {
            Change::Add(node, key) => Change::Add(*node, clone_bytes(key)),
            Change::Remove(node) => Change::Remove(*node),
        }
    }
}

/// Whether `a` and `b` are the same change.
pub fn change_eq(a: &Change, b: &Change) -> (r: bool)
    ensures
        r == (a@ == b@),
{
    match (a, b) {
        (Change::Add(n1, k1), Change::Add(n2, k2)) => *n1 == *n2 && bytes_eq(k1, k2),
        (Change::Remove(n1), Change::Remove(n2)) => *n1 == *n2,
        _ => false,
    }
}

impl Clone for Vote {
    /// A copy with the same value.
    fn clone(&self) -> (r: Self)
        ensures
            r@ == self@,
    {
        Vote { change: self.change.clone(), era: self.era, num: self.num }
    }
}

impl Vote {
    /// The vote's sequence number.
    pub fn num(&self) -> (r: u64)
        ensures
            r == self@.num,
    {
        self.num
    }

    /// A copy of the change this vote is for.
    pub fn change(&self) -> (r: Change)
        ensures
            r@ == self@.change,
    {
        self.change.clone()
    }

    /// Whether this vote and `other` are for the same change.
    pub fn change_equals(&self, other: &Vote) -> (r: bool)
        ensures
            r == (self@.change == other@.change),
    {
        change_eq(&self.change, &other.change)
    }

    /// The vote's deterministic encoding.
    pub fn encoded(&self) -> (r: Vec<u8>)
        ensures
            r@ == vote_enc(self@),
    {
        let mut out: Vec<u8> = Vec::new();
        push_change(&mut out, &self.change);
        push_u64_le(&mut out, self.era);
        push_u64_le(&mut out, self.num);
        proof {
            assert(out@ =~= vote_enc(self@));
        }
        out
    }
}

pub(crate) fn make_vote(change: Change, era: u64, num: u64) -> (r: Vote)
    ensures
        r@ == (VoteV { change: change@, era, num }),
{
    Vote { change, era, num }
}

impl Clone for SignedVote {
    /// A copy with the same value.
    fn clone(&self) -> (r: Self)
        ensures
            r@ == self@,
    {
        SignedVote { vote: self.vote.clone(), voter: self.voter, sig: clone_bytes(&self.sig) }
    }
}

impl SignedVote {
    /// Wraps a vote built from its parts together with its claimed author
    /// and signature.  The counter signs votes itself; this constructor
    /// exists because signed votes arrive from peers, built elsewhere.
    pub fn new(change: Change, era: u64, num: u64, voter: u64, sig: Vec<u8>) -> (r: Self)
        ensures
            r@ == (SignedVoteV { vote: (VoteV { change: change@, era, num }), voter, sig: sig@ }),
    {
        SignedVote { vote: Vote { change, era, num }, voter, sig }
    }

    pub(crate) fn from_vote(vote: Vote, voter: u64, sig: Vec<u8>) -> (r: Self)
        ensures
            r@ == (SignedVoteV { vote: vote@, voter, sig: sig@ }),
    {
        SignedVote { vote, voter, sig }
    }

    /// The era the vote is tagged with.
    pub fn era(&self) -> (r: u64)
        ensures
            r == self@.vote.era,
    {
        self.vote.era
    }

    /// The claimed author of the vote.
    pub fn voter(&self) -> (r: u64)
        ensures
            r == self@.voter,
    {
        self.voter
    }

    /// The vote's sequence number.
    pub fn num(&self) -> (r: u64)
        ensures
            r == self@.vote.num,
    {
        self.vote.num
    }

    /// The signature bytes.
    pub fn signature(&self) -> (r: &Vec<u8>)
        ensures
            r@ == self@.sig,
    {
        &self.sig
    }

    /// A copy of the unsigned vote.
    pub(crate) fn to_vote(&self) -> (r: Vote)
        ensures
            r@ == self@.vote,
    {
        self.vote.clone()
    }

    /// The deterministic encoding of the unsigned vote: the bytes the
    /// signature is checked against.
    pub fn encoded(&self) -> (r: Vec<u8>)
        ensures
            r@ == vote_enc(self@.vote),
    {
        self.vote.encoded()
    }
}

/// The error a vote-counter operation can surface: none arises from this
/// library's own encoding, which is total, but the signing path keeps the
/// failure channel of its callers explicit.
#[derive(Clone, Copy, Debug, PartialEq, Eq, Structural)]
pub enum VoteError {
    /// A vote could not be deterministically encoded.
    Encoding,
}

} // verus!
