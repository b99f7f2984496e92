use consensus::engine::{quorum_threshold, Consensus, VotePhase};
use consensus::handle::ConsensusState;

#[test]
fn test_consensus_quorum() {
    // N=4 validators, f=1 faulty
    let validators = vec![0, 1, 2, 3];
    let mut consensus = Consensus::new(validators.clone());

    // Leader proposes a block
    let proposal_id = consensus.propose(b"test payload".to_vec());

    // Simulate 3 honest validators voting (excluding 1 faulty)
    let honest_validators = vec![0, 1, 2]; // 3 out of 4 = 75% > 66%

    // Precommit phase
    for &validator in &honest_validators {
        consensus.vote(proposal_id.clone(), validator, VotePhase::Precommit);
    }

    // Commit phase
    for &validator in &honest_validators {
        consensus.vote(proposal_id.clone(), validator, VotePhase::Commit);
    }

    // Should finalize with honest quorum
    assert_eq!(consensus.finalize(), Some(proposal_id));
}

#[test]
fn test_insufficient_votes() {
    let validators = vec![0, 1, 2, 3];
    let mut consensus = Consensus::new(validators);

    let proposal_id = consensus.propose(b"test".to_vec());

    // Only 2 votes (50%) - should not finalize
    consensus.vote(proposal_id.clone(), 0, VotePhase::Precommit);
    consensus.vote(proposal_id.clone(), 1, VotePhase::Precommit);
    consensus.vote(proposal_id.clone(), 0, VotePhase::Commit);
    consensus.vote(proposal_id.clone(), 1, VotePhase::Commit);

    assert_eq!(consensus.finalize(), None);
}

#[test]
fn test_threshold_values() {
    assert_eq!(quorum_threshold(0), 1);
    assert_eq!(quorum_threshold(1), 1);
    assert_eq!(quorum_threshold(3), 3);
    assert_eq!(quorum_threshold(4), 3);
    assert_eq!(quorum_threshold(5), 4);
    assert_eq!(quorum_threshold(7), 5);
}

#[test]
fn test_duplicate_votes_do_not_count() {
    let mut c = Consensus::new(vec![0, 1, 2, 3]);
    let id = c.propose(b"dup".to_vec());
    // validator 0 votes the same way three times, validator 1 once
    for _ in 0..3 {
        c.vote(id.clone(), 0, VotePhase::Precommit);
        c.vote(id.clone(), 0, VotePhase::Commit);
    }
    c.vote(id.clone(), 1, VotePhase::Precommit);
    c.vote(id.clone(), 1, VotePhase::Commit);
    // only two distinct voters per phase: below the threshold of 3
    assert_eq!(c.finalize(), None);
}

#[test]
fn test_propose_deterministic() {
    let mut a = Consensus::new(vec![0, 1, 2, 3]);
    let mut b = Consensus::new(vec![0, 1, 2, 3]);
    assert_eq!(a.propose(b"hello".to_vec()), b.propose(b"hello".to_vec()));
    // different payloads give different identifiers
    assert_ne!(a.propose(b"one".to_vec()), a.propose(b"two".to_vec()));
}

#[test]
fn test_repropose_keeps_votes() {
    let mut c = Consensus::new(vec![0, 1, 2, 3]);
    let id = c.propose(b"x".to_vec());
    for v in 0..3 {
        c.vote(id.clone(), v, VotePhase::Precommit);
    }
    c.vote(id.clone(), 0, VotePhase::Commit);
    c.vote(id.clone(), 1, VotePhase::Commit);
    // identical content maps to the existing identifier and keeps the ledger
    let id2 = c.propose(b"x".to_vec());
    assert_eq!(id, id2);
    let (accepted, finalized_now) = c.vote(id.clone(), 2, VotePhase::Commit);
    assert!(accepted);
    assert!(finalized_now);
    assert_eq!(c.finalize(), Some(id));
}

#[test]
fn test_unknown_validator_rejected() {
    let mut c = Consensus::new(vec![0, 1, 2, 3]);
    let id = c.propose(b"r".to_vec());
    let (accepted, finalized_now) = c.vote(id.clone(), 9, VotePhase::Precommit);
    assert!(!accepted);
    assert!(!finalized_now);
    // the rejected vote left the ledger unchanged: a full quorum still needs
    // three fresh voters in each phase
    for v in 0..2 {
        c.vote(id.clone(), v, VotePhase::Precommit);
        c.vote(id.clone(), v, VotePhase::Commit);
    }
    assert_eq!(c.finalize(), None);
}

#[test]
fn test_unknown_proposal_rejected() {
    let mut c = Consensus::new(vec![0, 1, 2, 3]);
    let (accepted, finalized_now) = c.vote("no such id".to_string(), 0, VotePhase::Precommit);
    assert!(!accepted);
    assert!(!finalized_now);
}

#[test]
fn test_happy_path_two_phases() {
    let mut c = Consensus::new(vec![0, 1, 2, 3]);
    let a = c.propose(b"hello".to_vec());
    c.vote(a.clone(), 0, VotePhase::Precommit);
    c.vote(a.clone(), 1, VotePhase::Precommit);
    c.vote(a.clone(), 2, VotePhase::Precommit);
    // the commit phase has not reached quorum yet
    assert_eq!(c.finalize(), None);
    c.vote(a.clone(), 0, VotePhase::Commit);
    c.vote(a.clone(), 1, VotePhase::Commit);
    let (accepted, finalized_now) = c.vote(a.clone(), 2, VotePhase::Commit);
    assert!(accepted);
    assert!(finalized_now);
    assert_eq!(c.finalize(), Some(a));
}

#[test]
fn test_finalization_is_permanent() {
    let mut c = Consensus::new(vec![0, 1, 2, 3]);
    let a = c.propose(b"first".to_vec());
    for v in 0..3 {
        c.vote(a.clone(), v, VotePhase::Precommit);
        c.vote(a.clone(), v, VotePhase::Commit);
    }
    assert_eq!(c.finalize(), Some(a.clone()));
    // a later proposal reaching full quorum must not move the pointer
    let b = c.propose(b"second".to_vec());
    for v in 0..4 {
        let (accepted, finalized_now) = c.vote(b.clone(), v, VotePhase::Precommit);
        assert!(accepted);
        assert!(!finalized_now);
        c.vote(b.clone(), v, VotePhase::Commit);
    }
    assert_eq!(c.finalize(), Some(a));
}

#[test]
fn test_satisfies_quorum_and_get_block() {
    let mut c = Consensus::new(vec![0, 1, 2, 3]);
    let id = c.propose(b"q".to_vec());
    assert!(!c.satisfies_quorum(&id));
    for v in 0..3 {
        c.vote(id.clone(), v, VotePhase::Precommit);
    }
    // quorum needs both phases
    assert!(!c.satisfies_quorum(&id));
    for v in 0..3 {
        c.vote(id.clone(), v, VotePhase::Commit);
    }
    assert!(c.satisfies_quorum(&id));
    assert!(!c.satisfies_quorum(&"missing".to_string()));
    let block = c.get_block(&id).expect("stored block");
    assert_eq!(block.id, id);
    assert_eq!(block.height, 0);
    assert_eq!(block.parent_id, None);
    assert_eq!(block.payload, b"q".to_vec());
    assert_eq!(block.proposer, 0);
    assert!(c.get_block(&"missing".to_string()).is_none());
}

#[test]
fn test_child_height_after_finalization() {
    let mut c = Consensus::new(vec![0, 1, 2, 3]);
    let a = c.propose(b"tip".to_vec());
    for v in 0..3 {
        c.vote(a.clone(), v, VotePhase::Precommit);
        c.vote(a.clone(), v, VotePhase::Commit);
    }
    assert_eq!(c.finalize(), Some(a.clone()));
    let b = c.propose(b"child".to_vec());
    let block = c.get_block(&b).expect("stored block");
    assert_eq!(block.height, 1);
    assert_eq!(block.parent_id, Some(a));
}

#[test]
fn test_get_leader_and_validators() {
    let c = Consensus::new(vec![10, 20, 30, 40]);
    assert_eq!(c.get_validators(), &[10, 20, 30, 40]);
    assert_eq!(c.get_leader(0), 10);
    assert_eq!(c.get_leader(1), 20);
    assert_eq!(c.get_leader(5), 20);
}

#[test]
fn test_block_id_is_hex() {
    let mut c = Consensus::new(vec![0]);
    let id = c.propose(b"p".to_vec());
    assert_eq!(id.len(), 64);
    assert!(id.chars().all(|ch| ch.is_ascii_hexdigit()));
}

#[test]
fn test_digest_matches_blake3() {
    let content = consensus::digest::encode_block_content(&None, &b"p".to_vec(), 0);
    let expected = blake3::hash(&content).to_string();
    let mut c = Consensus::new(vec![0]);
    assert_eq!(c.propose(b"p".to_vec()), expected);
}

#[test]
fn test_handle_shares_state() {
    let h = ConsensusState::new(vec![0, 1, 2, 3]);
    let h2 = h.clone();
    let id = h.propose(b"shared".to_vec());
    for v in 0..3 {
        h2.vote(id.clone(), v, VotePhase::Precommit);
        let (accepted, _) = h2.vote(id.clone(), v, VotePhase::Commit);
        assert!(accepted);
    }
    // both handles observe the same finalized pointer
    assert_eq!(h.finalize(), Some(id.clone()));
    assert_eq!(h2.finalize(), Some(id));
}
