use vote_counter::counter::VoteCounter;
use vote_counter::net::NetworkInfo;
use vote_counter::{Change, FaultKind, FaultLog, SignedVote};

/// One deterministic 32-byte signing seed per node.
fn seeds(node_num: usize) -> Vec<[u8; 32]> {
    (0..node_num).map(|i| [i as u8 + 1; 32]).collect()
}

/// The sorted (node id, verification key bytes) list for the given seeds.
fn public_keys(seeds: &[[u8; 32]]) -> Vec<(u64, Vec<u8>)> {
    seeds
        .iter()
        .enumerate()
        .map(|(i, seed)| {
            let key = ed25519_dalek::SigningKey::from_bytes(seed);
            (i as u64, key.verifying_key().to_bytes().to_vec())
        })
        .collect()
}

/// Builds the network context of node `our_id` in a `node_num`-node network
/// tolerating `(node_num - 1) / 3` faulty nodes.
fn network_info(our_id: usize, node_num: usize) -> NetworkInfo {
    let seeds = seeds(node_num);
    let pks = public_keys(&seeds);
    NetworkInfo::new(
        our_id as u64,
        node_num,
        (node_num - 1) / 3,
        seeds[our_id].to_vec(),
        pks,
    )
}

/// Returns a vector of `node_num` `VoteCounter`s, and some signed example votes.
///
/// If `signed_votes` is the second entry of the return value, then `signed_votes[i][j]` is the
/// the vote for `Remove(j)` by node `i`. Each node signed `Remove(0)`, `Remove(1)`, ... in
/// order.
fn setup(node_num: usize, era: u64) -> (Vec<VoteCounter>, Vec<Vec<SignedVote>>) {
    let mut counters: Vec<VoteCounter> = (0..node_num)
        .map(|i| VoteCounter::new(network_info(i, node_num), era))
        .collect();

    let signed_votes: Vec<Vec<SignedVote>> = counters
        .iter_mut()
        .map(|counter| {
            (0..node_num)
                .map(|j| {
                    counter
                        .sign_vote_for(Change::Remove(j as u64))
                        .expect("sign vote")
                })
                .collect()
        })
        .collect();
    (counters, signed_votes)
}

#[test]
fn test_pending_votes() {
    let node_num = 4;
    let era = 5;
    // Create the counter instances and the matrix of signed votes.
    let (mut counters, sv) = setup(node_num, era);
    // We will only use counter number 0.
    let ct = &mut counters[0];

    // Node 0 already contains its own vote for `Remove(3)`. Add two more.
    let faults = ct.add_pending_vote(1, sv[1][2].clone()).expect("add pending");
    assert!(faults.is_empty());
    let faults = ct.add_pending_vote(2, sv[2][1].clone()).expect("add pending");
    assert!(faults.is_empty());
    // Include a vote with a wrong signature.
    let fake_vote = SignedVote::new(
        Change::Remove(1),
        era,
        1,
        3,
        sv[2][1].signature().clone(),
    );
    let faults = ct.add_pending_vote(1, fake_vote).expect("add pending");
    let expected_faults = FaultLog::init(1, FaultKind::InvalidVoteSignature);
    assert_eq!(faults, expected_faults);
    assert_eq!(
        ct.pending_votes(),
        vec![sv[0][3].clone(), sv[1][2].clone(), sv[2][1].clone()]
    );

    // Now add an older vote by node 1 and a newer one by node 2. Only the latter should be
    // included.
    let faults = ct.add_pending_vote(3, sv[1][1].clone()).expect("add pending");
    assert!(faults.is_empty());
    let faults = ct.add_pending_vote(1, sv[2][2].clone()).expect("add pending");
    assert!(faults.is_empty());
    assert_eq!(
        ct.pending_votes(),
        vec![sv[0][3].clone(), sv[1][2].clone(), sv[2][2].clone()]
    );

    // Adding a committed vote removes it from the pending ones, unless it is older.
    let vote_batch = vec![sv[1][3].clone(), sv[2][1].clone(), sv[0][3].clone()];
    ct.add_committed_votes(1, vote_batch).expect("add committed");
    assert_eq!(ct.pending_votes(), vec![sv[2][2].clone()]);
}

#[test]
fn test_committed_votes() {
    let node_num = 4; // At most one faulty node.
    let era = 5;
    // Create the counter instances and the matrix of signed votes.
    let (mut counters, sv) = setup(node_num, era);
    // We will only use counter number 0.
    let ct = &mut counters[0];

    let mut vote_batch = vec![sv[1][1].clone()];
    // Include a vote with a wrong signature.
    vote_batch.push(SignedVote::new(
        Change::Remove(1),
        era,
        1,
        3,
        sv[2][1].signature().clone(),
    ));
    let faults = ct.add_committed_votes(1, vote_batch).expect("add committed");
    let expected_faults = FaultLog::init(1, FaultKind::InvalidCommittedVote);
    assert_eq!(faults, expected_faults);
    assert_eq!(ct.compute_winner(), None);

    // Adding the second vote for `Remove(1)` should return the change: It has f + 1 votes.
    let faults = ct.add_committed_vote(1, sv[2][1].clone()).expect("add committed");
    assert!(faults.is_empty());
    assert_eq!(ct.compute_winner(), Some(Change::Remove(1)));
}

#[test]
fn test_vote_encoding_remove() {
    // Remove(3), era 5, num 1: tag 1, then node id, era and num as
    // little-endian u64.
    let sv = SignedVote::new(Change::Remove(3), 5, 1, 0, Vec::new());
    let mut expected = vec![1u8];
    expected.extend_from_slice(&[3, 0, 0, 0, 0, 0, 0, 0]);
    expected.extend_from_slice(&[5, 0, 0, 0, 0, 0, 0, 0]);
    expected.extend_from_slice(&[1, 0, 0, 0, 0, 0, 0, 0]);
    assert_eq!(sv.encoded(), expected);
}

#[test]
fn test_vote_encoding_add() {
    // Add(2, [7, 8]), era 0, num 0: tag 0, node id, key length, key bytes,
    // then era and num.
    let sv = SignedVote::new(Change::Add(2, vec![7, 8]), 0, 0, 0, Vec::new());
    let mut expected = vec![0u8];
    expected.extend_from_slice(&[2, 0, 0, 0, 0, 0, 0, 0]);
    expected.extend_from_slice(&[2, 0, 0, 0, 0, 0, 0, 0]);
    expected.extend_from_slice(&[7, 8]);
    expected.extend_from_slice(&[0, 0, 0, 0, 0, 0, 0, 0]);
    expected.extend_from_slice(&[0, 0, 0, 0, 0, 0, 0, 0]);
    assert_eq!(sv.encoded(), expected);
}

#[test]
fn test_signed_vote_accessors() {
    let (_, sv) = setup(4, 5);
    assert_eq!(sv[2][1].voter(), 2);
    assert_eq!(sv[2][1].era(), 5);
    // Node 2 signed Remove(0), Remove(1), ...: the vote for Remove(1) is its second.
    assert_eq!(sv[2][1].num(), 1);
}

#[test]
fn test_idempotent_pending_insert() {
    let (mut counters, sv) = setup(4, 5);
    let ct = &mut counters[0];
    let faults = ct.add_pending_vote(1, sv[1][2].clone()).expect("add pending");
    assert!(faults.is_empty());
    let before = ct.pending_votes();
    // The same vote again: obsolete, no fault, no change.
    let faults = ct.add_pending_vote(1, sv[1][2].clone()).expect("add pending");
    assert!(faults.is_empty());
    assert_eq!(ct.pending_votes(), before);
}

#[test]
fn test_idempotent_committed_insert() {
    let (mut counters, sv) = setup(4, 5);
    let ct = &mut counters[0];
    let faults = ct.add_committed_vote(1, sv[1][1].clone()).expect("add committed");
    assert!(faults.is_empty());
    // The same vote again: obsolete, no fault, still no winner.
    let faults = ct.add_committed_vote(2, sv[1][1].clone()).expect("add committed");
    assert!(faults.is_empty());
    assert_eq!(ct.compute_winner(), None);
}

#[test]
fn test_era_isolation() {
    let node_num = 4;
    // Votes signed for era 6 must not enter a counter bound to era 5.
    let mut other_era_counter = VoteCounter::new(network_info(1, node_num), 6);
    let stale = other_era_counter
        .sign_vote_for(Change::Remove(0))
        .expect("sign vote");

    let mut ct = VoteCounter::new(network_info(0, node_num), 5);
    // Pending: silently ignored, no fault.
    let faults = ct.add_pending_vote(1, stale.clone()).expect("add pending");
    assert!(faults.is_empty());
    assert_eq!(ct.pending_votes(), Vec::<SignedVote>::new());
    // Committed: ignored with a fault against the proposer.
    let faults = ct.add_committed_vote(2, stale).expect("add committed");
    assert_eq!(faults, FaultLog::init(2, FaultKind::InvalidCommittedVote));
    assert_eq!(ct.compute_winner(), None);
}

#[test]
fn test_unknown_voter_rejected() {
    let node_num = 4;
    // A counter in a 5-node network signs a vote; node 4 is unknown to a
    // 4-node network's key set, so the vote cannot be authenticated there.
    let mut outsider = VoteCounter::new(network_info(4, 5), 5);
    let vote = outsider.sign_vote_for(Change::Remove(0)).expect("sign vote");

    let mut ct = VoteCounter::new(network_info(0, node_num), 5);
    let faults = ct.add_pending_vote(3, vote).expect("add pending");
    assert_eq!(faults, FaultLog::init(3, FaultKind::InvalidVoteSignature));
    assert_eq!(ct.pending_votes(), Vec::<SignedVote>::new());
}

#[test]
fn test_tampered_vote_rejected() {
    let (mut counters, sv) = setup(4, 5);
    let ct = &mut counters[0];
    // Same voter and signature, but the vote content differs from what was
    // signed: verification must fail.
    let tampered = SignedVote::new(
        Change::Remove(3),
        5,
        2,
        1,
        sv[1][2].signature().clone(),
    );
    let faults = ct.add_pending_vote(1, tampered).expect("add pending");
    assert_eq!(faults, FaultLog::init(1, FaultKind::InvalidVoteSignature));
}

#[test]
fn test_winner_requires_strict_majority_over_f() {
    let (mut counters, sv) = setup(4, 5);
    let ct = &mut counters[0];
    // Two committed votes for two different changes: one vote each, none
    // above f = 1.
    ct.add_committed_vote(1, sv[1][1].clone()).expect("add committed");
    ct.add_committed_vote(2, sv[2][2].clone()).expect("add committed");
    assert_eq!(ct.compute_winner(), None);
    // A second vote for Remove(1) reaches f + 1 = 2.
    ct.add_committed_vote(3, sv[3][1].clone()).expect("add committed");
    assert_eq!(ct.compute_winner(), Some(Change::Remove(1)));
}

#[test]
fn test_sign_vote_for_increments_num() {
    let mut ct = VoteCounter::new(network_info(0, 4), 5);
    let first = ct.sign_vote_for(Change::Remove(1)).expect("sign vote");
    assert_eq!(first.num(), 0);
    let second = ct.sign_vote_for(Change::Remove(2)).expect("sign vote");
    assert_eq!(second.num(), 1);
    // Only the newest own vote stays pending.
    assert_eq!(ct.pending_votes(), vec![second]);
}

#[test]
fn test_add_change_roundtrip() {
    // An Add vote, with key material, travels from signer to another
    // node's pending buffer and then into its committed tally.
    let mut signer = VoteCounter::new(network_info(1, 4), 5);
    let vote = signer
        .sign_vote_for(Change::Add(9, vec![1, 2, 3]))
        .expect("sign vote");

    let mut ct = VoteCounter::new(network_info(0, 4), 5);
    let faults = ct.add_pending_vote(3, vote.clone()).expect("add pending");
    assert!(faults.is_empty());
    assert_eq!(ct.pending_votes(), vec![vote.clone()]);

    let faults = ct.add_committed_vote(2, vote).expect("add committed");
    assert!(faults.is_empty());
    // The committed vote supersedes the pending one.
    assert_eq!(ct.pending_votes(), Vec::<SignedVote>::new());
}

#[test]
fn test_fault_log_operations() {
    let mut log = FaultLog::new();
    assert!(log.is_empty());
    assert_eq!(log.len(), 0);
    log.extend(FaultLog::init(7, FaultKind::InvalidVoteSignature));
    log.extend(FaultLog::init(9, FaultKind::InvalidCommittedVote));
    assert!(!log.is_empty());
    assert_eq!(log.len(), 2);
    assert_eq!(log.entries()[0].node_id, 7);
    assert_eq!(log.entries()[0].kind, FaultKind::InvalidVoteSignature);
    assert_eq!(log.entries()[1].node_id, 9);
    assert_eq!(log.entries()[1].kind, FaultKind::InvalidCommittedVote);
}
