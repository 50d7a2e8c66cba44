//! The vote counter: pending and committed vote buffers, ingestion rules,
//! and the ratification query.
//!
//! All mutable state of the reconfiguration vote protocol lives here.  The
//! behaviour of each operation is stated over the counter's mathematical
//! state — two key-sorted association lists of vote views — by the
//! transition functions [`pending_after`], [`committed_after`] and their
//! fault counterparts, and the laws the protocol relies on are proved about
//! those functions at the end of the module.

use vstd::prelude::*;
use crate::assoc::{
    assoc_index, assoc_insert, assoc_lookup, assoc_set, keys_sorted, lemma_insert_elems,
    lemma_insert_lookup_other, lemma_insert_lookup_same, view_pairs,
};
use crate::fault::{FaultEntry, FaultKind, FaultLog};
use crate::net::NetworkInfo;
use crate::sig::{sig_valid, sign_bytes, signature_of, verify_bytes};
use crate::vote::{
    make_vote, views_of, vote_enc, Change, ChangeV, SignedVote, SignedVoteV, Vote, VoteError,
    VoteV,
};

verus! {

// ---------------------------------------------------------------------------
// The counter's behaviour as functions on its mathematical state
// ---------------------------------------------------------------------------

/// Whether `sv`'s signature verifies, under the claimed voter's key in
/// `keys`, over the vote's deterministic encoding.  A voter with no known
/// key never validates.
pub open spec fn vote_sig_ok(keys: Seq<(u64, Seq<u8>)>, sv: SignedVoteV) -> bool {
    match assoc_lookup(keys, sv.voter) {
        Some(pk) => sig_valid(pk, vote_enc(sv.vote), sv.sig),
        None => false,
    }
}

/// Whether the pending buffer already holds a vote of `sv`'s voter that is
/// at least as new.
pub open spec fn pending_obsolete(pending: Seq<(u64, SignedVoteV)>, sv: SignedVoteV) -> bool {
    match assoc_lookup(pending, sv.voter) {
        Some(prev) => prev.vote.num >= sv.vote.num,
        None => false,
    }
}

/// The pending buffer after one gossiped vote arrives: unchanged for a
/// wrong era, an obsolete number or a bad signature, else updated at the
/// voter's entry.
pub open spec fn pending_after(
    pending: Seq<(u64, SignedVoteV)>,
    era: u64,
    keys: Seq<(u64, Seq<u8>)>,
    sv: SignedVoteV,
) -> Seq<(u64, SignedVoteV)> {
    if sv.vote.era != era || pending_obsolete(pending, sv) {
        pending
    } else if !vote_sig_ok(keys, sv) {
        pending
    } else {
        assoc_insert(pending, sv.voter, sv)
    }
}

/// The fault records one gossiped vote produces: exactly one entry blaming
/// the relaying sender for a bad signature on a current-era, non-obsolete
/// vote; nothing otherwise.
pub open spec fn pending_faults(
    pending: Seq<(u64, SignedVoteV)>,
    era: u64,
    keys: Seq<(u64, Seq<u8>)>,
    sender_id: u64,
    sv: SignedVoteV,
) -> Seq<FaultEntry> {
    if sv.vote.era != era || pending_obsolete(pending, sv) {
        Seq::empty()
    } else if !vote_sig_ok(keys, sv) {
        seq![(FaultEntry { node_id: sender_id, kind: FaultKind::InvalidVoteSignature })]
    } else {
        Seq::empty()
    }
}

/// Whether the committed tally already holds a vote of `sv`'s voter that is
/// at least as new.
pub open spec fn committed_obsolete(committed: Seq<(u64, VoteV)>, sv: SignedVoteV) -> bool {
    match assoc_lookup(committed, sv.voter) {
        Some(prev) => prev.num >= sv.vote.num,
        None => false,
    }
}

/// The committed tally after one batched vote arrives: unchanged for an
/// obsolete number (checked first), a wrong era or a bad signature, else
/// updated at the voter's entry with the unsigned vote.
pub open spec fn committed_after(
    committed: Seq<(u64, VoteV)>,
    era: u64,
    keys: Seq<(u64, Seq<u8>)>,
    sv: SignedVoteV,
) -> Seq<(u64, VoteV)> {
    if committed_obsolete(committed, sv) {
        committed
    } else if sv.vote.era != era || !vote_sig_ok(keys, sv) {
        committed
    } else {
        assoc_insert(committed, sv.voter, sv.vote)
    }
}

/// The fault records one batched vote produces: exactly one entry blaming
/// the batch's proposer for a wrong era or bad signature on a non-obsolete
/// vote; nothing otherwise.
pub open spec fn committed_faults(
    committed: Seq<(u64, VoteV)>,
    era: u64,
    keys: Seq<(u64, Seq<u8>)>,
    proposer_id: u64,
    sv: SignedVoteV,
) -> Seq<FaultEntry> {
    if committed_obsolete(committed, sv) {
        Seq::empty()
    } else if sv.vote.era != era || !vote_sig_ok(keys, sv) {
        seq![(FaultEntry { node_id: proposer_id, kind: FaultKind::InvalidCommittedVote })]
    } else {
        Seq::empty()
    }
}

/// The committed tally after a whole batch, applied in order.
pub open spec fn committed_after_all(
    committed: Seq<(u64, VoteV)>,
    era: u64,
    keys: Seq<(u64, Seq<u8>)>,
    svs: Seq<SignedVoteV>,
) -> Seq<(u64, VoteV)>
    decreases svs.len(),
{
    if svs.len() == 0 {
        committed
    } else {
        committed_after_all(
            committed_after(committed, era, keys, svs[0]),
            era,
            keys,
            svs.drop_first(),
        )
    }
}

/// The concatenated fault records of a whole batch, applied in order.
pub open spec fn committed_faults_all(
    committed: Seq<(u64, VoteV)>,
    era: u64,
    keys: Seq<(u64, Seq<u8>)>,
    proposer_id: u64,
    svs: Seq<SignedVoteV>,
) -> Seq<FaultEntry>
    decreases svs.len(),
{
    if svs.len() == 0 {
        Seq::empty()
    } else {
        committed_faults(committed, era, keys, proposer_id, svs[0]) + committed_faults_all(
            committed_after(committed, era, keys, svs[0]),
            era,
            keys,
            proposer_id,
            svs.drop_first(),
        )
    }
}

/// Whether `sv` is newer than its voter's committed vote (or that voter has
/// committed nothing yet).
pub open spec fn newer_than_committed(committed: Seq<(u64, VoteV)>, sv: SignedVoteV) -> bool {
    match assoc_lookup(committed, sv.voter) {
        Some(prev) => prev.num < sv.vote.num,
        None => true,
    }
}

/// The pending votes still worth proposing: those strictly newer than their
/// voter's committed vote, in the buffer's voter-id order.
pub open spec fn pending_votes_spec(
    pending: Seq<(u64, SignedVoteV)>,
    committed: Seq<(u64, VoteV)>,
) -> Seq<SignedVoteV>
    decreases pending.len(),
{
    if pending.len() == 0 {
        Seq::empty()
    } else {
        let rest = pending_votes_spec(pending.drop_last(), committed);
        if newer_than_committed(committed, pending.last().1) {
            rest.push(pending.last().1)
        } else {
            rest
        }
    }
}

/// How many committed votes are for change `c`.
pub open spec fn change_count(committed: Seq<(u64, VoteV)>, c: ChangeV) -> nat
    decreases committed.len(),
{
    if committed.len() == 0 {
        0
    } else {
        change_count(committed.drop_last(), c) + if committed.last().1.change == c {
            1nat
        } else {
            0nat
        }
    }
}

/// The winner a tally walk starting at entry `i` reports: the change of the
/// first entry whose running count (over the walked prefix) exceeds `f`.
pub open spec fn winner_from(committed: Seq<(u64, VoteV)>, f: nat, i: int) -> Option<ChangeV>
    decreases committed.len() - i,
{
    if i < 0 || i >= committed.len() {
        None
    } else if change_count(committed.take(i + 1), committed[i].1.change) > f {
        Some(committed[i].1.change)
    } else {
        winner_from(committed, f, i + 1)
    }
}

/// The ratified change, if any: the first change (in the tally's voter-id
/// walk) to gather strictly more than `f` committed votes.
pub open spec fn winner_spec(committed: Seq<(u64, VoteV)>, f: nat) -> Option<ChangeV> {
    winner_from(committed, f, 0)
}

/// The sequence number the local node's next vote will carry: one above its
/// own pending vote, or 0 if none is pending.
pub open spec fn next_vote_num(pending: Seq<(u64, SignedVoteV)>, voter: u64) -> int {
    match assoc_lookup(pending, voter) {
        Some(prev) => prev.vote.num + 1,
        None => 0,
    }
}

/// The signed vote the local node produces for `change`: the next sequence
/// number, the counter's era, and the node's own signature over the
/// encoding.
pub open spec fn own_vote_view(
    pending: Seq<(u64, SignedVoteV)>,
    era: u64,
    our_id: u64,
    sk: Seq<u8>,
    change: ChangeV,
) -> SignedVoteV {
    let vote = VoteV { change, era, num: next_vote_num(pending, our_id) as u64 };
    SignedVoteV { vote, voter: our_id, sig: signature_of(sk, vote_enc(vote)) }
}

// ---------------------------------------------------------------------------
// The counter
// ---------------------------------------------------------------------------

/// A buffer and counter collecting pending and committed votes for
/// validator-set changes.
///
/// It is constructed afresh whenever the set of validators changes or a
/// change reaches `f + 1` committed votes; the epochs since the last such
/// reset form the current era, and every vote the counter stores carries
/// that era's tag.
#[derive(Debug)]
pub struct VoteCounter {
    /// Shared network data.
    netinfo: NetworkInfo,
    /// The epoch when voting was reset.
    era: u64,
    /// Pending votes, at most one per voter: the newest validated gossiped
    /// vote, to be proposed in a coming epoch.
    pending: Vec<(u64, SignedVote)>,
    /// Committed votes, at most one per voter: the newest vote accepted as
    /// part of an agreed batch.
    committed: Vec<(u64, Vote)>,
}

impl VoteCounter {
    /// The era this counter is bound to.
    pub closed spec fn spec_era(&self) -> u64 {
        self.era
    }

    /// The pending buffer: voter id to signed-vote view, in voter-id order.
    pub closed spec fn pendings(&self) -> Seq<(u64, SignedVoteV)> {
        view_pairs(self.pending@)
    }

    /// The committed tally: voter id to vote view, in voter-id order.
    pub closed spec fn committeds(&self) -> Seq<(u64, VoteV)> {
        view_pairs(self.committed@)
    }

    /// The verification keys of this era's configuration.
    pub closed spec fn keyset(&self) -> Seq<(u64, Seq<u8>)> {
        self.netinfo.keyset()
    }

    /// The local node's id.
    pub closed spec fn spec_our_id(&self) -> u64 {
        self.netinfo.spec_our_id()
    }

    /// The fault threshold `f` supplied by the network context.
    pub closed spec fn spec_num_faulty(&self) -> nat {
        self.netinfo.spec_num_faulty() as nat
    }

    /// The local node's signing key.
    pub closed spec fn spec_secret_key(&self) -> Seq<u8> {
        self.netinfo.spec_secret_key()
    }

    /// Well-formedness: both buffers are sorted by voter id, every pending
    /// entry is keyed by its vote's own voter, and every stored vote
    /// carries this counter's era.
    pub closed spec fn wf(&self) -> bool {
        &&& self.netinfo.wf()
        &&& keys_sorted(self.pendings())
        &&& keys_sorted(self.committeds())
        &&& forall|i: int|
            0 <= i < self.pendings().len() ==> (#[trigger] self.pendings()[i]).1.voter
                == self.pendings()[i].0
        &&& forall|i: int|
            0 <= i < self.pendings().len() ==> (#[trigger] self.pendings()[i]).1.vote.era
                == self.spec_era()
        &&& forall|i: int|
            0 <= i < self.committeds().len() ==> (#[trigger] self.committeds()[i]).1.era
                == self.spec_era()
    }

    /// Creates an empty counter bound to the given era and network context.
    pub fn new(netinfo: NetworkInfo, era: u64) -> (r: Self)
        requires
            netinfo.wf(),
        ensures
            r.wf(),
            r.spec_era() == era,
            r.pendings() == Seq::<(u64, SignedVoteV)>::empty(),
            r.committeds() == Seq::<(u64, VoteV)>::empty(),
            r.keyset() == netinfo.keyset(),
            r.spec_our_id() == netinfo.spec_our_id(),
            r.spec_num_faulty() == netinfo.spec_num_faulty() as nat,
            r.spec_secret_key() == netinfo.spec_secret_key(),
    {
        let pending: Vec<(u64, SignedVote)> = Vec::new();
        let committed: Vec<(u64, Vote)> = Vec::new();
        let r = VoteCounter { netinfo, era, pending, committed };
        proof {
            assert(r.pendings() =~= Seq::<(u64, SignedVoteV)>::empty());
            assert(r.committeds() =~= Seq::<(u64, VoteV)>::empty());
        }
        r
    }

    /// Whether the signature of `signed_vote` verifies against its claimed
    /// voter's key.
    fn validate(&self, signed_vote: &SignedVote) -> (r: bool)
        ensures
            r == vote_sig_ok(self.keyset(), signed_vote@),
    {
        let ser = signed_vote.encoded();
        match self.netinfo.public_key(signed_vote.voter()) {
            Some(pk) => verify_bytes(&pk, &ser, signed_vote.signature()),
            None => false,
        }
    }

    /// Inserts a gossiped vote, attributed to the relaying `sender_id`,
    /// into the pending buffer if it is current, newer than the voter's
    /// stored vote, and validly signed.  Obsolete or wrong-era votes are
    /// silently ignored; an invalid signature is reported as a fault
    /// against the sender.
    pub fn add_pending_vote(&mut self, sender_id: u64, signed_vote: SignedVote) -> (r: Result<
        FaultLog,
        VoteError,
    >)
        requires
            old(self).wf(),
        ensures
            final(self).wf(),
            final(self).pendings() == pending_after(
                old(self).pendings(),
                old(self).spec_era(),
                old(self).keyset(),
                signed_vote@,
            ),
            r matches Ok(log) && log@ == pending_faults(
                old(self).pendings(),
                old(self).spec_era(),
                old(self).keyset(),
                sender_id,
                signed_vote@,
            ),
            final(self).committeds() == old(self).committeds(),
            final(self).spec_era() == old(self).spec_era(),
            final(self).keyset() == old(self).keyset(),
            final(self).spec_our_id() == old(self).spec_our_id(),
            final(self).spec_num_faulty() == old(self).spec_num_faulty(),
            final(self).spec_secret_key() == old(self).spec_secret_key(),
    {
        let voter = signed_vote.voter();
        if signed_vote.era() != self.era {
            return Ok(FaultLog::new());
        }
        let obsolete = match assoc_index(&self.pending, voter) {
            Some(i) => self.pending[i].1.num() >= signed_vote.num(),
            None => false,
        };
        if obsolete {
            return Ok(FaultLog::new());
        }
        if !self.validate(&signed_vote) {
            return Ok(FaultLog::init(sender_id, FaultKind::InvalidVoteSignature));
        }
        let ghost oldp = self.pendings();
        let ghost svv = signed_vote@;
        assoc_set(&mut self.pending, voter, signed_vote);
        proof {
            lemma_insert_elems(oldp, svv.voter, svv);
            assert forall|i: int| 0 <= i < self.pendings().len() implies (
            #[trigger] self.pendings()[i]).1.voter == self.pendings()[i].0 && self.pendings()[i]
                .1.vote.era == self.spec_era() by {
                if self.pendings()[i] != (svv.voter, svv) {
                    assert(oldp.contains(self.pendings()[i]));
                    let j = choose|j: int| 0 <= j < oldp.len() && oldp[j] == self.pendings()[i];
                    assert(oldp[j].1.voter == oldp[j].0 && oldp[j].1.vote.era == self.spec_era());
                }
            }
        }
        Ok(FaultLog::new())
    }

    /// Creates a signed vote of the local node for `change`, with a
    /// sequence number one above the node's own pending vote, stores it in
    /// the pending buffer, and returns it.
    pub fn sign_vote_for(&mut self, change: Change) -> (r: Result<SignedVote, VoteError>)
        requires
            old(self).wf(),
            next_vote_num(old(self).pendings(), old(self).spec_our_id()) <= u64::MAX,
        ensures
            final(self).wf(),
            r matches Ok(sv) && sv@ == own_vote_view(
                old(self).pendings(),
                old(self).spec_era(),
                old(self).spec_our_id(),
                old(self).spec_secret_key(),
                change@,
            ),
            final(self).pendings() == assoc_insert(
                old(self).pendings(),
                old(self).spec_our_id(),
                own_vote_view(
                    old(self).pendings(),
                    old(self).spec_era(),
                    old(self).spec_our_id(),
                    old(self).spec_secret_key(),
                    change@,
                ),
            ),
            final(self).committeds() == old(self).committeds(),
            final(self).spec_era() == old(self).spec_era(),
            final(self).keyset() == old(self).keyset(),
            final(self).spec_our_id() == old(self).spec_our_id(),
            final(self).spec_num_faulty() == old(self).spec_num_faulty(),
            final(self).spec_secret_key() == old(self).spec_secret_key(),
    {
        let voter = self.netinfo.our_id();
        let num: u64 = match assoc_index(&self.pending, voter) {
            Some(i) => self.pending[i].1.num() + 1,
            None => 0,
        };
        let vote = make_vote(change, self.era, num);
        let ser = vote.encoded();
        let sig = sign_bytes(self.netinfo.secret_key(), &ser);
        let signed = SignedVote::from_vote(vote, voter, sig);
        let out = signed.clone();
        let ghost oldp = self.pendings();
        let ghost svv = signed@;
        assoc_set(&mut self.pending, voter, signed);
        proof {
            lemma_insert_elems(oldp, svv.voter, svv);
            assert forall|i: int| 0 <= i < self.pendings().len() implies (
            #[trigger] self.pendings()[i]).1.voter == self.pendings()[i].0 && self.pendings()[i]
                .1.vote.era == self.spec_era() by {
                if self.pendings()[i] != (svv.voter, svv) {
                    assert(oldp.contains(self.pendings()[i]));
                    let j = choose|j: int| 0 <= j < oldp.len() && oldp[j] == self.pendings()[i];
                    assert(oldp[j].1.voter == oldp[j].0 && oldp[j].1.vote.era == self.spec_era());
                }
            }
        }
        Ok(out)
    }

    /// Inserts one vote of an agreed batch, attributed to the batch's
    /// `proposer_id`, into the committed tally if it is newer than the
    /// voter's committed vote, current, and validly signed.  An obsolete
    /// vote is silently ignored; a wrong era or invalid signature on a
    /// non-obsolete vote is reported as a fault against the proposer.
    pub fn add_committed_vote(&mut self, proposer_id: u64, signed_vote: SignedVote) -> (r: Result<
        FaultLog,
        VoteError,
    >)
        requires
            old(self).wf(),
        ensures
            final(self).wf(),
            final(self).committeds() == committed_after(
                old(self).committeds(),
                old(self).spec_era(),
                old(self).keyset(),
                signed_vote@,
            ),
            r matches Ok(log) && log@ == committed_faults(
                old(self).committeds(),
                old(self).spec_era(),
                old(self).keyset(),
                proposer_id,
                signed_vote@,
            ),
            final(self).pendings() == old(self).pendings(),
            final(self).spec_era() == old(self).spec_era(),
            final(self).keyset() == old(self).keyset(),
            final(self).spec_our_id() == old(self).spec_our_id(),
            final(self).spec_num_faulty() == old(self).spec_num_faulty(),
            final(self).spec_secret_key() == old(self).spec_secret_key(),
    {
        let voter = signed_vote.voter();
        let obsolete = match assoc_index(&self.committed, voter) {
            Some(i) => self.committed[i].1.num() >= signed_vote.num(),
            None => false,
        };
        if obsolete {
            return Ok(FaultLog::new());
        }
        if signed_vote.era() != self.era || !self.validate(&signed_vote) {
            return Ok(FaultLog::init(proposer_id, FaultKind::InvalidCommittedVote));
        }
        let vote = signed_vote.to_vote();
        let ghost oldc = self.committeds();
        let ghost vv = vote@;
        assoc_set(&mut self.committed, voter, vote);
        proof {
            lemma_insert_elems(oldc, signed_vote@.voter, vv);
            assert forall|i: int| 0 <= i < self.committeds().len() implies (
            #[trigger] self.committeds()[i]).1.era == self.spec_era() by {
                if self.committeds()[i] != (signed_vote@.voter, vv) {
                    assert(oldc.contains(self.committeds()[i]));
                    let j = choose|j: int| 0 <= j < oldc.len() && oldc[j] == self.committeds()[i];
                    assert(oldc[j].1.era == self.spec_era());
                }
            }
        }
        Ok(FaultLog::new())
    }

    /// Applies [`Self::add_committed_vote`] to each vote of the batch in
    /// order, concatenating the fault logs; a fault on one vote does not
    /// stop the rest of the batch.
    pub fn add_committed_votes(&mut self, proposer_id: u64, signed_votes: Vec<SignedVote>) -> (r:
        Result<FaultLog, VoteError>)
        requires
            old(self).wf(),
        ensures
            final(self).wf(),
            final(self).committeds() == committed_after_all(
                old(self).committeds(),
                old(self).spec_era(),
                old(self).keyset(),
                views_of(signed_votes@),
            ),
            r matches Ok(log) && log@ == committed_faults_all(
                old(self).committeds(),
                old(self).spec_era(),
                old(self).keyset(),
                proposer_id,
                views_of(signed_votes@),
            ),
            final(self).pendings() == old(self).pendings(),
            final(self).spec_era() == old(self).spec_era(),
            final(self).keyset() == old(self).keyset(),
            final(self).spec_our_id() == old(self).spec_our_id(),
            final(self).spec_num_faulty() == old(self).spec_num_faulty(),
            final(self).spec_secret_key() == old(self).spec_secret_key(),
    {
        let ghost oldc = self.committeds();
        let ghost era = self.spec_era();
        let ghost keys = self.keyset();
        let ghost all = views_of(signed_votes@);
        let mut log = FaultLog::new();
        let n = signed_votes.len();
        let mut idx: usize = 0;
        while idx < n
            invariant
                self.wf(),
                n == signed_votes@.len(),
                idx <= n,
                all == views_of(signed_votes@),
                self.committeds() == committed_after_all(oldc, era, keys, all.take(idx as int)),
                log@ == committed_faults_all(oldc, era, keys, proposer_id, all.take(idx as int)),
                self.pendings() == old(self).pendings(),
                self.spec_era() == era,
                oldc == old(self).committeds(),
                self.keyset() == keys,
                self.spec_our_id() == old(self).spec_our_id(),
                self.spec_num_faulty() == old(self).spec_num_faulty(),
                self.spec_secret_key() == old(self).spec_secret_key(),
            decreases n - idx,
        {
            let sv = signed_votes[idx].clone();
            let step = match self.add_committed_vote(proposer_id, sv) {
                Ok(step_log) => step_log,
                Err(e) => {
                    return Err(e);
                },
            };
            log.extend(step);
            proof {
                assert(all[idx as int] == signed_votes@[idx as int]@);
                assert(all.take(idx + 1) =~= all.take(idx as int).push(all[idx as int]));
                lemma_committed_after_all_push(oldc, era, keys, all.take(idx as int), all[
                    idx as int]);
                lemma_committed_faults_all_push(oldc, era, keys, proposer_id, all.take(
                    idx as int), all[idx as int]);
            }
            idx += 1;
        }
        proof {
            assert(all.take(n as int) =~= all);
        }
        Ok(log)
    }

    /// Returns, in voter-id order, every pending vote that is newer than
    /// its voter's committed vote: the votes still worth (re-)proposing.
    /// The buffers are left untouched.
    pub fn pending_votes(&self) -> (r: Vec<SignedVote>)
        ensures
            views_of(r@) == pending_votes_spec(self.pendings(), self.committeds()),
    {
        let mut out: Vec<SignedVote> = Vec::new();
        let n = self.pending.len();
        let mut i: usize = 0;
        while i < n
            invariant
                n == self.pending@.len(),
                i <= n,
                views_of(out@) == pending_votes_spec(
                    self.pendings().take(i as int),
                    self.committeds(),
                ),
            decreases n - i,
        {
            let sv = &self.pending[i].1;
            let keep = match assoc_index(&self.committed, sv.voter()) {
                Some(j) => self.committed[j].1.num() < sv.num(),
                None => true,
            };
            let ghost prefix = self.pendings().take(i as int);
            let ghost prefix1 = self.pendings().take(i + 1);
            proof {
                assert(prefix1.drop_last() =~= prefix);
                assert(prefix1.last() == self.pendings()[i as int]);
                assert(self.pendings()[i as int].1 == self.pending@[i as int].1@);
                assert(keep == newer_than_committed(self.committeds(), prefix1.last().1));
            }
            if keep {
                out.push(sv.clone());
                proof {
                    assert(views_of(out@) =~= pending_votes_spec(prefix, self.committeds()).push(
                        prefix1.last().1,
                    ));
                }
            }
            i += 1;
        }
        proof {
            assert(self.pendings().take(n as int) =~= self.pendings());
        }
        out
    }

    /// Returns the change that has strictly more than `f` committed votes,
    /// if any: the first such change in the tally's voter-id walk.  With at
    /// most `f` faulty validators, `f + 1` matching committed votes
    /// guarantee at least one honest voter behind the change.
    pub fn compute_winner(&self) -> (r: Option<Change>)
        ensures
            match r {
                Some(c) => winner_spec(self.committeds(), self.spec_num_faulty()) == Some(c@)
                    && change_count(self.committeds(), c@) > self.spec_num_faulty(),
                None => winner_spec(self.committeds(), self.spec_num_faulty()) is None
                    && forall|ch: ChangeV|
                    #[trigger] change_count(self.committeds(), ch) <= self.spec_num_faulty(),
            },
    {
        let f = self.netinfo.num_faulty();
        let ghost s = self.committeds();
        let ghost fnat = self.spec_num_faulty();
        let n = self.committed.len();
        let mut i: usize = 0;
        while i < n
            invariant
                n == self.committed@.len(),
                i <= n,
                s == self.committeds(),
                fnat == self.spec_num_faulty(),
                f == self.netinfo.spec_num_faulty(),
                winner_from(s, fnat, 0) == winner_from(s, fnat, i as int),
            decreases n - i,
        {
            let ghost c = s[i as int].1.change;
            let mut cnt: usize = 0;
            let mut j: usize = 0;
            while j <= i
                invariant
                    i < n,
                    n == self.committed@.len(),
                    s == self.committeds(),
                    j <= i + 1,
                    cnt <= j,
                    c == s[i as int].1.change,
                    cnt == change_count(s.take(j as int), c),
                decreases i + 1 - j,
            {
                let matches_c = self.committed[j].1.change_equals(&self.committed[i].1);
                proof {
                    assert(s.take(j + 1).drop_last() =~= s.take(j as int));
                    assert(s.take(j + 1).last() == s[j as int]);
                    assert(s[j as int].1 == self.committed@[j as int].1@);
                }
                if matches_c {
                    cnt += 1;
                }
                j += 1;
            }
            if cnt > f {
                proof {
                    assert(change_count(s.take(i + 1), c) == cnt);
                    assert(winner_from(s, fnat, i as int) == Some(c));
                    lemma_change_count_prefix(s, c, i + 1);
                }
                return Some(self.committed[i].1.change());
            }
            proof {
                assert(change_count(s.take(i + 1), c) <= fnat);
                assert(winner_from(s, fnat, i as int) == winner_from(s, fnat, i + 1));
            }
            i += 1;
        }
        proof {
            assert(winner_from(s, fnat, n as int) is None);
            lemma_winner_none_counts(s, fnat);
        }
        None
    }
}

// ---------------------------------------------------------------------------
// Laws of the ingestion rules
// ---------------------------------------------------------------------------

/// Law (monotonicity): whatever gossiped vote arrives, a voter's stored
/// pending sequence number never decreases, and a stored entry never
/// disappears.
pub proof fn lemma_pending_monotone(
    pending: Seq<(u64, SignedVoteV)>,
    era: u64,
    keys: Seq<(u64, Seq<u8>)>,
    sv: SignedVoteV,
    v: u64,
)
    ensures
        match assoc_lookup(pending, v) {
            Some(prev) => match assoc_lookup(pending_after(pending, era, keys, sv), v) {
                Some(cur) => cur.vote.num >= prev.vote.num,
                None => false,
            },
            None => true,
        },
{
    if sv.vote.era == era && !pending_obsolete(pending, sv) && vote_sig_ok(keys, sv) {
        if v == sv.voter {
            lemma_insert_lookup_same(pending, sv.voter, sv);
        } else {
            lemma_insert_lookup_other(pending, sv.voter, sv, v);
        }
    }
}

/// Law (monotonicity): a voter's committed sequence number never decreases,
/// and a committed entry never disappears, whatever batched vote arrives.
pub proof fn lemma_committed_monotone(
    committed: Seq<(u64, VoteV)>,
    era: u64,
    keys: Seq<(u64, Seq<u8>)>,
    sv: SignedVoteV,
    v: u64,
)
    ensures
        match assoc_lookup(committed, v) {
            Some(prev) => match assoc_lookup(committed_after(committed, era, keys, sv), v) {
                Some(cur) => cur.num >= prev.num,
                None => false,
            },
            None => true,
        },
{
    if !committed_obsolete(committed, sv) && sv.vote.era == era && vote_sig_ok(keys, sv) {
        if v == sv.voter {
            lemma_insert_lookup_same(committed, sv.voter, sv.vote);
        } else {
            lemma_insert_lookup_other(committed, sv.voter, sv.vote, v);
        }
    }
}

/// Law (obsolete votes): a gossiped vote whose number does not exceed the
/// voter's stored pending vote changes nothing and raises no fault.
pub proof fn lemma_obsolete_pending_ignored(
    pending: Seq<(u64, SignedVoteV)>,
    era: u64,
    keys: Seq<(u64, Seq<u8>)>,
    sender_id: u64,
    sv: SignedVoteV,
)
    requires
        match assoc_lookup(pending, sv.voter) {
            Some(prev) => prev.vote.num >= sv.vote.num,
            None => false,
        },
    ensures
        pending_after(pending, era, keys, sv) == pending,
        pending_faults(pending, era, keys, sender_id, sv) == Seq::<FaultEntry>::empty(),
{
}

/// Law (obsolete votes): a batched vote whose number does not exceed the
/// voter's committed vote changes nothing and raises no fault, whatever its
/// era or signature.
pub proof fn lemma_obsolete_committed_ignored(
    committed: Seq<(u64, VoteV)>,
    era: u64,
    keys: Seq<(u64, Seq<u8>)>,
    proposer_id: u64,
    sv: SignedVoteV,
)
    requires
        match assoc_lookup(committed, sv.voter) {
            Some(prev) => prev.num >= sv.vote.num,
            None => false,
        },
    ensures
        committed_after(committed, era, keys, sv) == committed,
        committed_faults(committed, era, keys, proposer_id, sv) == Seq::<FaultEntry>::empty(),
{
}

/// Law (idempotence): ingesting the same gossiped vote a second time leaves
/// the buffer exactly as after the first time, and if the vote was stored,
/// the second ingestion is obsolete and raises no fault.
pub proof fn lemma_pending_idempotent(
    pending: Seq<(u64, SignedVoteV)>,
    era: u64,
    keys: Seq<(u64, Seq<u8>)>,
    sender_id: u64,
    sv: SignedVoteV,
)
    ensures
        pending_after(pending_after(pending, era, keys, sv), era, keys, sv) == pending_after(
            pending,
            era,
            keys,
            sv,
        ),
        assoc_lookup(pending_after(pending, era, keys, sv), sv.voter) == Some(sv)
            ==> pending_faults(pending_after(pending, era, keys, sv), era, keys, sender_id, sv)
            == Seq::<FaultEntry>::empty(),
{
    if sv.vote.era == era && !pending_obsolete(pending, sv) && vote_sig_ok(keys, sv) {
        lemma_insert_lookup_same(pending, sv.voter, sv);
    }
}

/// Law (idempotence): ingesting the same batched vote a second time leaves
/// the tally exactly as after the first time, and if the vote was stored,
/// the second ingestion is obsolete and raises no fault.
pub proof fn lemma_committed_idempotent(
    committed: Seq<(u64, VoteV)>,
    era: u64,
    keys: Seq<(u64, Seq<u8>)>,
    proposer_id: u64,
    sv: SignedVoteV,
)
    ensures
        committed_after(committed_after(committed, era, keys, sv), era, keys, sv)
            == committed_after(committed, era, keys, sv),
        assoc_lookup(committed_after(committed, era, keys, sv), sv.voter) == Some(sv.vote)
            ==> committed_faults(committed_after(committed, era, keys, sv), era, keys, proposer_id, sv)
            == Seq::<FaultEntry>::empty(),
{
    if !committed_obsolete(committed, sv) && sv.vote.era == era && vote_sig_ok(keys, sv) {
        lemma_insert_lookup_same(committed, sv.voter, sv.vote);
    }
}

/// Law (authenticity): a vote whose signature does not verify against its
/// claimed voter's key is never stored in the pending buffer, and — when it
/// is current and not obsolete — yields exactly one fault blaming the
/// relaying sender.
pub proof fn lemma_invalid_pending_not_stored(
    pending: Seq<(u64, SignedVoteV)>,
    era: u64,
    keys: Seq<(u64, Seq<u8>)>,
    sender_id: u64,
    sv: SignedVoteV,
)
    requires
        !vote_sig_ok(keys, sv),
    ensures
        pending_after(pending, era, keys, sv) == pending,
        sv.vote.era == era && !pending_obsolete(pending, sv) ==> pending_faults(
            pending,
            era,
            keys,
            sender_id,
            sv,
        ) == seq![(FaultEntry { node_id: sender_id, kind: FaultKind::InvalidVoteSignature })],
{
}

/// Law (authenticity): a vote whose signature does not verify against its
/// claimed voter's key is never stored in the committed tally, and — when
/// it is not obsolete — yields exactly one fault blaming the batch's
/// proposer.
pub proof fn lemma_invalid_committed_not_stored(
    committed: Seq<(u64, VoteV)>,
    era: u64,
    keys: Seq<(u64, Seq<u8>)>,
    proposer_id: u64,
    sv: SignedVoteV,
)
    requires
        !vote_sig_ok(keys, sv),
    ensures
        committed_after(committed, era, keys, sv) == committed,
        !committed_obsolete(committed, sv) ==> committed_faults(
            committed,
            era,
            keys,
            proposer_id,
            sv,
        ) == seq![(FaultEntry { node_id: proposer_id, kind: FaultKind::InvalidCommittedVote })],
{
}

/// Law (era isolation): a gossiped vote tagged with another era is never
/// stored, silently and without a fault, whatever its signature.
pub proof fn lemma_pending_era_isolation(
    pending: Seq<(u64, SignedVoteV)>,
    era: u64,
    keys: Seq<(u64, Seq<u8>)>,
    sender_id: u64,
    sv: SignedVoteV,
)
    requires
        sv.vote.era != era,
    ensures
        pending_after(pending, era, keys, sv) == pending,
        pending_faults(pending, era, keys, sender_id, sv) == Seq::<FaultEntry>::empty(),
{
}

/// Law (era isolation): a batched vote tagged with another era is never
/// stored, whatever its signature; unless it is obsolete anyway, it yields
/// one fault blaming the proposer.
pub proof fn lemma_committed_era_isolation(
    committed: Seq<(u64, VoteV)>,
    era: u64,
    keys: Seq<(u64, Seq<u8>)>,
    proposer_id: u64,
    sv: SignedVoteV,
)
    requires
        sv.vote.era != era,
    ensures
        committed_after(committed, era, keys, sv) == committed,
        !committed_obsolete(committed, sv) ==> committed_faults(
            committed,
            era,
            keys,
            proposer_id,
            sv,
        ) == seq![(FaultEntry { node_id: proposer_id, kind: FaultKind::InvalidCommittedVote })],
        committed_obsolete(committed, sv) ==> committed_faults(
            committed,
            era,
            keys,
            proposer_id,
            sv,
        ) == Seq::<FaultEntry>::empty(),
{
}

/// Law (pending filtering): a signed vote appears among the pending votes
/// exactly when the buffer holds it and it is strictly newer than its
/// voter's committed vote.
pub proof fn lemma_pending_votes_membership(
    pending: Seq<(u64, SignedVoteV)>,
    committed: Seq<(u64, VoteV)>,
    sv: SignedVoteV,
)
    ensures
        pending_votes_spec(pending, committed).contains(sv) <==> ((exists|i: int|
            0 <= i < pending.len() && (#[trigger] pending[i]).1 == sv) && newer_than_committed(
            committed,
            sv,
        )),
    decreases pending.len(),
{
    if pending.len() > 0 {
        lemma_pending_votes_membership(pending.drop_last(), committed, sv);
        let rest = pending_votes_spec(pending.drop_last(), committed);
        let r = pending_votes_spec(pending, committed);
        let last = pending.last().1;
        if newer_than_committed(committed, last) {
            assert(r == rest.push(last));
            assert(rest.push(last)[rest.len() as int] == last);
            if r.contains(sv) {
                let k = choose|k: int| 0 <= k < r.len() && r[k] == sv;
                if k < rest.len() {
                    assert(rest[k] == sv);
                    assert(rest.contains(sv));
                    let i = choose|i: int|
                        0 <= i < pending.drop_last().len() && pending.drop_last()[i].1 == sv;
                    assert(pending[i].1 == sv);
                } else {
                    assert(sv == last);
                    assert(pending[pending.len() - 1].1 == sv);
                }
            }
            if (exists|i: int| 0 <= i < pending.len() && (#[trigger] pending[i]).1 == sv)
                && newer_than_committed(committed, sv) {
                let i = choose|i: int| 0 <= i < pending.len() && (#[trigger] pending[i]).1 == sv;
                if i == pending.len() - 1 {
                    assert(r[rest.len() as int] == sv);
                    assert(r.contains(sv));
                } else {
                    assert(pending.drop_last()[i].1 == sv);
                    assert(rest.contains(sv));
                    let k = choose|k: int| 0 <= k < rest.len() && rest[k] == sv;
                    assert(r[k] == sv);
                    assert(r.contains(sv));
                }
            }
        } else {
            assert(r == rest);
            if r.contains(sv) {
                let i = choose|i: int|
                    0 <= i < pending.drop_last().len() && pending.drop_last()[i].1 == sv;
                assert(pending[i].1 == sv);
            }
            if (exists|i: int| 0 <= i < pending.len() && (#[trigger] pending[i]).1 == sv)
                && newer_than_committed(committed, sv) {
                let i = choose|i: int| 0 <= i < pending.len() && (#[trigger] pending[i]).1 == sv;
                assert(i != pending.len() - 1) by {
                    if i == pending.len() - 1 {
                        assert(sv == last);
                    }
                }
                assert(pending.drop_last()[i].1 == sv);
                assert(rest.contains(sv));
            }
        }
    }
}

/// Law (pending filtering): after a vote with number `kv.num` is committed
/// for voter `v`, a pending vote of `v` held in the buffer is surfaced by
/// the pending-votes query exactly when its number exceeds `kv.num`.
pub proof fn lemma_commit_filters_pending(
    pending: Seq<(u64, SignedVoteV)>,
    committed: Seq<(u64, VoteV)>,
    v: u64,
    kv: VoteV,
    sv: SignedVoteV,
)
    requires
        sv.voter == v,
        exists|i: int| 0 <= i < pending.len() && (#[trigger] pending[i]).1 == sv,
    ensures
        pending_votes_spec(pending, assoc_insert(committed, v, kv)).contains(sv) <==> sv.vote.num
            > kv.num,
{
    lemma_insert_lookup_same(committed, v, kv);
    lemma_pending_votes_membership(pending, assoc_insert(committed, v, kv), sv);
}

/// Counting distributes over concatenation.
proof fn lemma_change_count_concat(a: Seq<(u64, VoteV)>, b: Seq<(u64, VoteV)>, c: ChangeV)
    ensures
        change_count(a + b, c) == change_count(a, c) + change_count(b, c),
    decreases b.len(),
{
    if b.len() == 0 {
        assert(a + b =~= a);
    } else {
        assert((a + b).drop_last() =~= a + b.drop_last());
        assert((a + b).last() == b.last());
        lemma_change_count_concat(a, b.drop_last(), c);
    }
}

/// A prefix never counts more votes than the whole tally.
proof fn lemma_change_count_prefix(s: Seq<(u64, VoteV)>, c: ChangeV, i: int)
    requires
        0 <= i <= s.len(),
    ensures
        change_count(s.take(i), c) <= change_count(s, c),
{
    assert(s =~= s.take(i) + s.skip(i));
    lemma_change_count_concat(s.take(i), s.skip(i), c);
}

/// A tally where no entry is for `c` counts zero votes for `c`.
proof fn lemma_change_count_zero(s: Seq<(u64, VoteV)>, c: ChangeV)
    requires
        forall|k: int| 0 <= k < s.len() ==> (#[trigger] s[k]).1.change != c,
    ensures
        change_count(s, c) == 0,
    decreases s.len(),
{
    if s.len() > 0 {
        lemma_change_count_zero(s.drop_last(), c);
    }
}

/// The index of the last entry for `c`, when `c` has any votes.
proof fn lemma_last_occurrence(s: Seq<(u64, VoteV)>, c: ChangeV) -> (j: int)
    requires
        change_count(s, c) > 0,
    ensures
        0 <= j < s.len(),
        s[j].1.change == c,
        forall|k: int| j < k < s.len() ==> (#[trigger] s[k]).1.change != c,
    decreases s.len(),
{
    if s.last().1.change == c {
        s.len() - 1
    } else {
        let j = lemma_last_occurrence(s.drop_last(), c);
        assert(forall|k: int| j < k < s.len() - 1 ==> (#[trigger] s.drop_last()[k]).1.change != c);
        assert(forall|k: int|
            j < k < s.len() - 1 ==> (#[trigger] s[k]).1.change == s.drop_last()[k].1.change);
        j
    }
}

/// While the walk from `i` finds no winner, every walked prefix count stays
/// within the threshold.
proof fn lemma_winner_from_counts(s: Seq<(u64, VoteV)>, f: nat, i: int)
    requires
        0 <= i,
        winner_from(s, f, i) is None,
    ensures
        forall|j: int|
            i <= j < s.len() ==> change_count(s.take(j + 1), (#[trigger] s[j]).1.change) <= f,
    decreases s.len() - i,
{
    if i < s.len() {
        lemma_winner_from_counts(s, f, i + 1);
    }
}

/// If the tally walk reports no winner, no change at all has more than `f`
/// committed votes.
proof fn lemma_winner_none_counts(s: Seq<(u64, VoteV)>, f: nat)
    requires
        winner_spec(s, f) is None,
    ensures
        forall|c: ChangeV| #[trigger] change_count(s, c) <= f,
{
    lemma_winner_from_counts(s, f, 0);
    assert forall|c: ChangeV| #[trigger] change_count(s, c) <= f by {
        if change_count(s, c) > f {
            let j = lemma_last_occurrence(s, c);
            assert(s =~= s.take(j + 1) + s.skip(j + 1));
            lemma_change_count_concat(s.take(j + 1), s.skip(j + 1), c);
            assert(forall|k: int|
                0 <= k < s.skip(j + 1).len() ==> (#[trigger] s.skip(j + 1)[k]).1.change
                    == s[k + j + 1].1.change);
            lemma_change_count_zero(s.skip(j + 1), c);
            assert(change_count(s.take(j + 1), c) == change_count(s, c));
            assert(change_count(s.take(j + 1), s[j].1.change) <= f);
        }
    }
}

/// Applying one more vote after a batch is the batch's effect followed by
/// one step.
proof fn lemma_committed_after_all_push(
    committed: Seq<(u64, VoteV)>,
    era: u64,
    keys: Seq<(u64, Seq<u8>)>,
    svs: Seq<SignedVoteV>,
    x: SignedVoteV,
)
    ensures
        committed_after_all(committed, era, keys, svs.push(x)) == committed_after(
            committed_after_all(committed, era, keys, svs),
            era,
            keys,
            x,
        ),
    decreases svs.len(),
{
    let p = svs.push(x);
    if svs.len() == 0 {
        assert(p[0] == x);
        assert(p.drop_first() =~= Seq::<SignedVoteV>::empty());
        let c1 = committed_after(committed, era, keys, x);
        assert(committed_after_all(committed, era, keys, p) == committed_after_all(
            c1,
            era,
            keys,
            p.drop_first(),
        ));
        assert(committed_after_all(c1, era, keys, p.drop_first()) == c1);
        assert(committed_after_all(committed, era, keys, svs) == committed);
    } else {
        assert(p[0] == svs[0]);
        assert(p.drop_first() =~= svs.drop_first().push(x));
        let c1 = committed_after(committed, era, keys, svs[0]);
        lemma_committed_after_all_push(c1, era, keys, svs.drop_first(), x);
        assert(committed_after_all(committed, era, keys, p) == committed_after_all(
            c1,
            era,
            keys,
            p.drop_first(),
        ));
        assert(committed_after_all(committed, era, keys, svs) == committed_after_all(
            c1,
            era,
            keys,
            svs.drop_first(),
        ));
    }
}

/// The faults of a batch extended by one vote are the batch's faults
/// followed by that vote's faults against the batch's final tally.
proof fn lemma_committed_faults_all_push(
    committed: Seq<(u64, VoteV)>,
    era: u64,
    keys: Seq<(u64, Seq<u8>)>,
    proposer_id: u64,
    svs: Seq<SignedVoteV>,
    x: SignedVoteV,
)
    ensures
        committed_faults_all(committed, era, keys, proposer_id, svs.push(x))
            == committed_faults_all(committed, era, keys, proposer_id, svs) + committed_faults(
            committed_after_all(committed, era, keys, svs),
            era,
            keys,
            proposer_id,
            x,
        ),
    decreases svs.len(),
{
    let p = svs.push(x);
    if svs.len() == 0 {
        assert(p[0] == x);
        assert(p.drop_first() =~= Seq::<SignedVoteV>::empty());
        let c1 = committed_after(committed, era, keys, x);
        assert(committed_faults_all(committed, era, keys, proposer_id, p) == committed_faults(
            committed,
            era,
            keys,
            proposer_id,
            x,
        ) + committed_faults_all(c1, era, keys, proposer_id, p.drop_first()));
        assert(committed_faults_all(c1, era, keys, proposer_id, p.drop_first())
            == Seq::<FaultEntry>::empty());
        assert(committed_faults_all(committed, era, keys, proposer_id, svs)
            == Seq::<FaultEntry>::empty());
        assert(committed_after_all(committed, era, keys, svs) == committed);
        assert(committed_faults(committed, era, keys, proposer_id, x)
            + Seq::<FaultEntry>::empty() =~= committed_faults(committed, era, keys, proposer_id, x));
        assert(Seq::<FaultEntry>::empty() + committed_faults(committed, era, keys, proposer_id, x)
            =~= committed_faults(committed, era, keys, proposer_id, x));
    } else {
        assert(p[0] == svs[0]);
        assert(p.drop_first() =~= svs.drop_first().push(x));
        let c1 = committed_after(committed, era, keys, svs[0]);
        lemma_committed_faults_all_push(c1, era, keys, proposer_id, svs.drop_first(), x);
        let head = committed_faults(committed, era, keys, proposer_id, svs[0]);
        let mid = committed_faults_all(c1, era, keys, proposer_id, svs.drop_first());
        let tail = committed_faults(
            committed_after_all(c1, era, keys, svs.drop_first()),
            era,
            keys,
            proposer_id,
            x,
        );
        assert(committed_faults_all(committed, era, keys, proposer_id, p) == head
            + committed_faults_all(c1, era, keys, proposer_id, p.drop_first()));
        assert(committed_faults_all(c1, era, keys, proposer_id, p.drop_first()) == mid + tail);
        assert(committed_after_all(committed, era, keys, svs) == committed_after_all(
            c1,
            era,
            keys,
            svs.drop_first(),
        ));
        assert(committed_faults_all(committed, era, keys, proposer_id, svs) == head + mid);
        assert(head + (mid + tail) =~= (head + mid) + tail);
    }
}

} // verus!
