use sha2::Digest;

use ghostbridge::batch::compute_state_root;
use ghostbridge::config::SettlementConfig;
use ghostbridge::finality::{FinalityEngine, PendingFinality, FinalityType, TrackedChallengeType};
use ghostbridge::state::{
    apply_single_change, L2State, RollbackReason, StateChange, StateChangeType, StateManager,
    StateUpdate, StateValue,
};
use ghostbridge::types::{Address, TokenType, U256};
use ghostbridge::zk::{ProofType, ZKProofSystem};

fn addr(i: u64) -> Address {
    let mut bytes = [0u8; 20];
    bytes[12..20].copy_from_slice(&i.to_be_bytes());
    Address(bytes)
}

fn empty_update(id: u64, block: u64, before: Vec<u8>, after: Vec<u8>) -> StateUpdate {
    StateUpdate {
        update_id: id,
        block_number: block,
        transaction_id: 0,
        updates: vec![],
        gas_used: 0,
        timestamp: block,
        state_root_before: before,
        state_root_after: after,
    }
}

#[test]
fn test_state_manager_creation() {
    let config = SettlementConfig::default();
    let manager = StateManager::new(&config);
    assert!(manager.is_healthy());
    assert_eq!(manager.get_state_root(), vec![0u8; 32]);
    assert_eq!(manager.state().block_number, 0);
}

#[test]
fn test_snapshot_creation() {
    let config = SettlementConfig::default();
    let mut manager = StateManager::new(&config);

    let snapshot = manager.create_snapshot(5);
    assert!(snapshot.snapshot_id > 0);
    assert_eq!(snapshot.block_number, 0);
}

#[test]
fn test_account_balance() {
    let config = SettlementConfig::default();
    let manager = StateManager::new(&config);

    let address = addr(18);
    let balance = manager.get_balance(&address, TokenType::Gcc);
    assert_eq!(balance, U256::zero());
    assert_eq!(manager.get_nonce(&address), 0);
}

#[test]
fn test_state_root_mismatch_rejected() {
    let config = SettlementConfig::default();
    let mut manager = StateManager::new(&config);

    let stray = empty_update(1, 1, vec![9u8; 32], vec![1u8; 32]);
    assert!(matches!(
        manager.apply_state_update(stray),
        Err(ghostbridge::error::SettlementError::StateRootMismatch)
    ));
    // the refused update left nothing behind
    assert_eq!(manager.get_state_root(), vec![0u8; 32]);

    let chained = empty_update(2, 1, vec![0u8; 32], vec![1u8; 32]);
    assert!(manager.apply_state_update(chained).is_ok());
    assert_eq!(manager.get_state_root(), vec![1u8; 32]);
}

#[test]
fn test_snapshot_restore_round_trip() {
    let config = SettlementConfig::default();
    let mut manager = StateManager::new(&config);
    assert!(manager.apply_state_update(empty_update(1, 1, vec![0u8; 32], vec![1u8; 32])).is_ok());

    let root_before = manager.get_state_root();
    let snapshot = manager.create_snapshot(10);

    assert!(manager.apply_state_update(empty_update(2, 2, vec![1u8; 32], vec![2u8; 32])).is_ok());
    assert_ne!(manager.get_state_root(), root_before);

    manager.restore_from_snapshot(&snapshot);
    assert_eq!(manager.get_state_root(), root_before);
}

#[test]
fn test_rollback_to_snapshot() {
    let config = SettlementConfig::default();
    let mut manager = StateManager::new(&config);

    assert!(manager.apply_state_update(empty_update(1, 1, vec![0u8; 32], vec![1u8; 32])).is_ok());
    let snapshot = manager.create_snapshot(10);
    assert_eq!(snapshot.state_root, vec![1u8; 32]);

    assert!(manager.apply_state_update(empty_update(2, 2, vec![1u8; 32], vec![2u8; 32])).is_ok());
    assert!(manager.apply_state_update(empty_update(3, 3, vec![2u8; 32], vec![3u8; 32])).is_ok());

    // a rollback target at or past the current height is refused
    assert!(matches!(
        manager.rollback_to_block(3, RollbackReason::ManualRollback, 20),
        Err(ghostbridge::error::SettlementError::RollbackTargetInFuture)
    ));

    // the nearest retained snapshot at or before the target is restored
    assert!(manager.rollback_to_block(2, RollbackReason::FraudProof, 20).is_ok());
    assert_eq!(manager.get_state_root(), snapshot.state_root);

    // no snapshot lies at or before height zero
    let mut fresh = StateManager::new(&config);
    assert!(fresh.apply_state_update(empty_update(1, 5, vec![0u8; 32], vec![1u8; 32])).is_ok());
    assert!(matches!(
        fresh.rollback_to_block(2, RollbackReason::ChainReorg, 20),
        Err(ghostbridge::error::SettlementError::NoSnapshotForTarget)
    ));
}

#[test]
fn test_state_root_matches_reference_digest() {
    let mut state = L2State::genesis();
    apply_single_change(
        &mut state,
        StateChange {
            change_type: StateChangeType::BalanceUpdate,
            address: addr(1),
            key: None,
            token: TokenType::Gcc,
            old_value: StateValue::Absent,
            new_value: StateValue::U256(U256::from(5)),
        },
    );
    let root = compute_state_root(&state);

    // the encoding: address, nonce, the four balances, storage root, code digest
    let mut expected_bytes: Vec<u8> = Vec::new();
    expected_bytes.extend_from_slice(&addr(1).0);
    expected_bytes.extend_from_slice(&0u64.to_be_bytes());
    expected_bytes.extend_from_slice(&U256::from(5).0);
    expected_bytes.extend_from_slice(&[0u8; 32]);
    expected_bytes.extend_from_slice(&[0u8; 32]);
    expected_bytes.extend_from_slice(&[0u8; 32]);
    let expected = sha2::Sha256::digest(&expected_bytes).to_vec();
    assert_eq!(root, expected);

    // the genesis root is the digest of the empty encoding
    let genesis_root = compute_state_root(&L2State::genesis());
    assert_eq!(genesis_root, sha2::Sha256::digest(&[] as &[u8]).to_vec());
}

#[test]
fn test_finality_engine_creation() {
    let config = SettlementConfig::default();
    let engine = FinalityEngine::new(&config);
    assert!(engine.is_healthy());
}

#[test]
fn test_l1_submission_tracking() {
    let config = SettlementConfig::default();
    let mut engine = FinalityEngine::new(&config);

    let result = engine.track_l1_submission(1, "0x1234".to_string(), 0, 23300);

    assert!(result.is_ok());
}

#[test]
fn test_challenge_registration() {
    let config = SettlementConfig::default();
    let mut engine = FinalityEngine::new(&config);
    engine.track_l1_submission(1, "0x1234".to_string(), 0, 23300).unwrap();

    let challenge_id = engine
        .register_challenge(1, addr(7), TrackedChallengeType::StateTransition, vec![1, 2, 3, 4], 5)
        .unwrap();

    assert!(challenge_id > 0);
}

#[test]
fn test_finality_tiers() {
    let config = SettlementConfig::default();
    let mut engine = FinalityEngine::new(&config);
    engine.set_aggregate_stake(1_000_000);

    let at_six = PendingFinality {
        batch_id: 1,
        l1_transaction_hash: "0x1".to_string(),
        l1_block_number: 100,
        submitted_at: 0,
        l1_confirmations: 6,
        challenge_period_end: 1_000_000,
        open_challenges: 0,
        gas_used: 0,
    };
    // six confirmations, window still open: probabilistic but not economic
    assert_eq!(engine.finality_tier(&at_six, 500_000), Some(FinalityType::Probabilistic));

    let at_twelve = PendingFinality {
        batch_id: 2,
        l1_transaction_hash: "0x2".to_string(),
        l1_block_number: 100,
        submitted_at: 0,
        l1_confirmations: 12,
        challenge_period_end: 400_000,
        open_challenges: 0,
        gas_used: 0,
    };
    // twelve confirmations and an expired window: economic
    assert_eq!(engine.finality_tier(&at_twelve, 500_000), Some(FinalityType::Economic));

    let disputed = PendingFinality { open_challenges: 1, ..at_twelve };
    // an open challenge blocks every tier
    assert_eq!(engine.finality_tier(&disputed, 500_000), None);
}

#[test]
fn test_open_challenge_blocks_finality() {
    let config = SettlementConfig::default();
    let mut engine = FinalityEngine::new(&config);
    engine.set_aggregate_stake(1_000_000);
    engine.track_l1_submission(1, "0xabc".to_string(), 0, 23300).unwrap();
    engine.update_l1_confirmation(1, 100, 12).unwrap();
    let cid = engine
        .register_challenge(1, addr(7), TrackedChallengeType::FraudProof, vec![], 5)
        .unwrap();

    // past the challenge window, but the dispute is open
    let late = config.challenge_period_ms + 1;
    assert!(engine.check_finalized_batches(late).is_empty());
    assert!(!engine.is_batch_finalized(1));

    // only a resolved challenge lets finality proceed
    engine.resolve_challenge(cid).unwrap();
    let newly = engine.check_finalized_batches(late);
    assert_eq!(newly.len(), 1);
    assert_eq!(newly[0].batch_id, 1);
    assert_eq!(newly[0].gas_used, 23300);
    assert!(engine.is_batch_finalized(1));
}

#[test]
fn test_reorg_detection() {
    let config = SettlementConfig::default();
    let mut engine = FinalityEngine::new(&config);

    assert_eq!(engine.observe_l1_block(100), None);
    // a shallow regression is tolerated
    assert_eq!(engine.observe_l1_block(96), None);
    // a regression deeper than the threshold requests a rollback
    assert_eq!(engine.observe_l1_block(80), Some(80));
}

#[test]
fn test_zk_proof_system_creation() {
    let config = SettlementConfig::default();
    let zk_system = ZKProofSystem::new(&config);
    assert!(zk_system.is_healthy());
}

#[test]
fn test_batch_attestation_commits_to_roots() {
    let config = SettlementConfig::default();
    let mut zk = ZKProofSystem::new(&config);
    let batch = ghostbridge::batch::SettlementBatch {
        batch_id: 1,
        transactions: vec![],
        state_root: vec![2u8; 32],
        previous_state_root: vec![1u8; 32],
        merkle_proof: vec![0u8; 32],
        zk_proof: None,
        created_at: 0,
        gas_used: 500,
        fee_paid: ghostbridge::types::TokenAmount::new(TokenType::Gcc, U256::from(0)),
    };
    let proof = zk.generate_batch_proof(&batch, 9);
    assert_eq!(proof.proof_type, ProofType::StateTransition);
    assert!(proof.proof_data.is_empty());

    let mut expected = vec![1u8; 32];
    expected.extend_from_slice(&[2u8; 32]);
    expected.extend_from_slice(&0u64.to_be_bytes());
    expected.extend_from_slice(&500u64.to_be_bytes());
    assert_eq!(proof.public_inputs, expected);
    assert!(zk.verify_proof(&proof));

    // the same batch is answered from the cache with the same proof
    let again = zk.generate_batch_proof(&batch, 10);
    assert_eq!(again.public_inputs, proof.public_inputs);

    // aggregation concatenates the public inputs; an empty set is refused
    let folded = zk.aggregate_proofs(&vec![proof, again], 11).unwrap();
    assert_eq!(folded.proof_type, ProofType::AggregatedProof);
    assert_eq!(folded.public_inputs.len(), 160);
    assert!(matches!(
        zk.aggregate_proofs(&vec![], 12),
        Err(ghostbridge::error::SettlementError::NothingToAggregate)
    ));

    // a proof the verifier rejects poisons the whole set
    let truncated = ghostbridge::zk::ZKProof {
        proof_id: 99,
        proof_type: ProofType::StateTransition,
        proof_data: vec![],
        public_inputs: vec![1u8; 16],
        verification_key_id: 1,
        created_at: 0,
        expires_at: None,
        metadata: ghostbridge::zk::ProofMetadata {
            circuit_name: "state_transition".to_string(),
            proof_size: 0,
            generation_time_ms: 0,
            verification_time_ms: None,
            gas_cost_estimate: 0,
            privacy_level: ghostbridge::zk::PrivacyLevel::Pseudonymous,
        },
    };
    assert!(!zk.verify_proof(&truncated));
    assert!(matches!(
        zk.aggregate_proofs(&vec![truncated], 13),
        Err(ghostbridge::error::SettlementError::InvalidProofInAggregation)
    ));

    // the request queue answers by id, and refuses unknown ids
    let rid = zk.submit_proof_request(ProofType::StateTransition, ghostbridge::zk::ProofPriority::High);
    assert_eq!(zk.get_proof_status(rid).unwrap(), ghostbridge::zk::ProofStatus::Pending);
    assert!(matches!(
        zk.get_proof_status(rid + 99),
        Err(ghostbridge::error::SettlementError::ProofRequestNotFound)
    ));
}
