use did_ledger::consensus::ProtocolType;
use did_ledger::consensus::CLUSTER_SIZE;
use did_ledger::consensus::QUORUM_SIZE;
use did_ledger::fingerprint::hash_data;
use did_ledger::ledger::CommitLedger;

#[test]
fn cluster_parameters() {
    assert_eq!(CLUSTER_SIZE, 4);
    assert_eq!(QUORUM_SIZE, 3);
}

#[test]
fn fingerprint_is_stable() {
    let payload = vec![1, 2, 3, 4, 5];
    let again = vec![1, 2, 3, 4, 5];
    assert_eq!(hash_data(&payload), hash_data(&again));
    assert_eq!(hash_data(&vec![]), hash_data(&vec![]));
}

#[test]
fn fingerprint_separates_these_payloads() {
    assert_ne!(hash_data(&vec![0, 1, 2]), hash_data(&vec![2, 1, 0]));
}

#[test]
fn first_write_creates_record_with_local_vote() {
    let mut ledger = CommitLedger::new();
    let payload = vec![10, 20, 30];
    let (fp, broadcast, execute) = ledger.observe_write(&payload, 1000);
    assert_eq!(fp, hash_data(&payload));
    assert!(broadcast);
    assert!(!execute);
    assert!(ledger.contains(fp));
    assert_eq!(ledger.vote_count(fp), Some(1));
    assert_eq!(ledger.is_executed(fp), Some(false));
}

#[test]
fn quorum_fires_at_three_distinct_votes() {
    let mut ledger = CommitLedger::new();
    let payload = vec![1, 1, 2, 3];
    let (fp, _, _) = ledger.observe_write(&payload, 0);

    // second vote: still below quorum
    assert!(!ledger.observe_ack(fp, 1, ProtocolType::Write, &payload, 1));
    assert_eq!(ledger.vote_count(fp), Some(2));
    assert_eq!(ledger.is_executed(fp), Some(false));

    // third distinct vote: quorum reached, fires exactly now
    assert!(ledger.observe_ack(fp, 2, ProtocolType::Write, &payload, 2));
    assert_eq!(ledger.vote_count(fp), Some(3));
    assert_eq!(ledger.is_executed(fp), Some(true));
}

#[test]
fn repeated_vote_from_same_peer_does_not_count_twice() {
    let mut ledger = CommitLedger::new();
    let payload = vec![42];
    let (fp, _, _) = ledger.observe_write(&payload, 0);
    assert!(!ledger.observe_ack(fp, 1, ProtocolType::Write, &payload, 1));
    assert!(!ledger.observe_ack(fp, 1, ProtocolType::Write, &payload, 2));
    assert_eq!(ledger.vote_count(fp), Some(2));
    assert_eq!(ledger.is_executed(fp), Some(false));
}

#[test]
fn observations_after_quorum_are_noops() {
    let mut ledger = CommitLedger::new();
    let payload = vec![9, 9, 9];
    let (fp, _, _) = ledger.observe_write(&payload, 0);
    assert!(!ledger.observe_ack(fp, 1, ProtocolType::Write, &payload, 1));
    assert!(ledger.observe_ack(fp, 2, ProtocolType::Write, &payload, 2));

    // every further observation reports nothing to execute, any number of times
    for round in 0..5 {
        let (fp2, broadcast, execute) = ledger.observe_write(&payload, 100 + round);
        assert_eq!(fp2, fp);
        assert!(!broadcast);
        assert!(!execute);
        assert!(!ledger.observe_ack(fp, 3, ProtocolType::Write, &payload, 200 + round));
    }
    assert_eq!(ledger.vote_count(fp), Some(3));
    assert_eq!(ledger.is_executed(fp), Some(true));
}

#[test]
fn ack_for_unseen_fingerprint_seeds_record() {
    let mut ledger = CommitLedger::new();
    let payload = vec![5, 4, 3];
    let fp = hash_data(&payload);
    // the node never saw the write, only a peer's acknowledgment
    assert!(!ledger.observe_ack(fp, 2, ProtocolType::Write, &payload, 7));
    assert!(ledger.contains(fp));
    // local vote plus the sender's vote
    assert_eq!(ledger.vote_count(fp), Some(2));
    assert_eq!(ledger.is_executed(fp), Some(false));
}

#[test]
fn distinct_payloads_get_distinct_records() {
    let mut ledger = CommitLedger::new();
    let pa = vec![1];
    let pb = vec![2];
    let (fa, _, _) = ledger.observe_write(&pa, 0);
    let (fb, _, _) = ledger.observe_write(&pb, 0);
    assert_ne!(fa, fb);
    assert_eq!(ledger.vote_count(fa), Some(1));
    assert_eq!(ledger.vote_count(fb), Some(1));
}

#[test]
fn three_nodes_converge_and_execute_once() {
    // Write payload P arrives at node A; A broadcasts a signed Ack.
    let payload = vec![77, 88, 99];
    let mut node_a = CommitLedger::new();
    let mut node_b = CommitLedger::new();
    let mut node_c = CommitLedger::new();

    let (fp, a_broadcasts, a_executes) = node_a.observe_write(&payload, 0);
    assert!(a_broadcasts);
    assert!(!a_executes);

    // B and C each receive A's Ack: own vote + A's vote = 2 < 3, no execution.
    assert!(!node_b.observe_ack(fp, 1, ProtocolType::Write, &payload, 1));
    assert!(!node_c.observe_ack(fp, 1, ProtocolType::Write, &payload, 1));
    assert_eq!(node_b.vote_count(fp), Some(2));
    assert_eq!(node_c.vote_count(fp), Some(2));

    // B also receives the identical Write directly: own bit already set,
    // tally stays at 2, still below quorum.
    let (fp_b, b_broadcasts, b_executes) = node_b.observe_write(&payload, 2);
    assert_eq!(fp_b, fp);
    assert!(b_broadcasts);
    assert!(!b_executes);
    assert_eq!(node_b.vote_count(fp), Some(2));

    // only C's broadcasted Ack pushes B past 3; B executes exactly once.
    assert!(node_b.observe_ack(fp, 3, ProtocolType::Write, &payload, 3));
    assert_eq!(node_b.vote_count(fp), Some(3));
    assert_eq!(node_b.is_executed(fp), Some(true));
    assert!(!node_b.observe_ack(fp, 2, ProtocolType::Write, &payload, 4));
}

#[test]
fn duplicate_write_after_quorum_is_ignored() {
    // duplicate Write submissions of identical payload arriving at the same
    // node after quorum fired: the second call is a no-op.
    let payload = vec![3, 1, 4, 1, 5];
    let mut ledger = CommitLedger::new();
    let mut executions = 0;

    let (fp, _, first_fires) = ledger.observe_write(&payload, 0);
    if first_fires {
        executions += 1;
    }
    if ledger.observe_ack(fp, 1, ProtocolType::Write, &payload, 1) {
        executions += 1;
    }
    if ledger.observe_ack(fp, 2, ProtocolType::Write, &payload, 2) {
        executions += 1;
    }
    // the duplicate client submission
    let (fp2, broadcast, execute) = ledger.observe_write(&payload, 3);
    assert_eq!(fp2, fp);
    assert!(!broadcast);
    assert!(!execute);
    if execute {
        executions += 1;
    }
    assert_eq!(executions, 1);
}
