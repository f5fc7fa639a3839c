use ghostbridge::batch::{build_merkle_proof, BatchProcessor, SettlementBatch};
use ghostbridge::config::SettlementConfig;
use ghostbridge::engine::L2SettlementEngine;
use ghostbridge::error::SettlementError;
use ghostbridge::optimistic::{ChallengeOutcome, ChallengeType, OptimisticRollup};
use ghostbridge::state::{
    apply_single_change, L2State, StateChange, StateChangeType, StateValue,
};
use ghostbridge::types::{Address, Signature, TokenAmount, TokenType, Transaction, U256};

fn addr(i: u64) -> Address {
    let mut bytes = [0u8; 20];
    bytes[12..20].copy_from_slice(&i.to_be_bytes());
    Address(bytes)
}

fn transfer(id: u64, from: Address, to: Address, amount: u64, nonce: u64) -> Transaction {
    Transaction {
        id,
        from_address: from,
        to_address: to,
        amount: TokenAmount::new(TokenType::Gcc, U256::from(amount)),
        chain_id: 1,
        nonce,
        gas_limit: 50000,
        gas_price: U256::from(20000000000),
        data: vec![],
        signature: Some(Signature { r: U256::from(1), s: U256::from(2), v: 27 }),
    }
}

fn fund(state: &mut L2State, who: Address, amount: u64) {
    apply_single_change(
        state,
        StateChange {
            change_type: StateChangeType::BalanceUpdate,
            address: who,
            key: None,
            token: TokenType::Gcc,
            old_value: StateValue::Absent,
            new_value: StateValue::U256(U256::from(amount)),
        },
    );
}

#[test]
fn test_duplicate_nonce_rejected() {
    let config = SettlementConfig::default();
    let mut engine = L2SettlementEngine::new(&config);
    let sender = addr(1);
    let receiver = addr(2);

    let first = transfer(0, sender, receiver, 1000, 1);
    assert!(engine.submit_transaction(first, true, false, 0).is_ok());

    let duplicate = transfer(0, sender, receiver, 1000, 1);
    match engine.submit_transaction(duplicate, true, false, 0) {
        Err(SettlementError::NonceMismatch { expected, got }) => {
            assert_eq!(expected, 2);
            assert_eq!(got, 1);
        },
        other => panic!("expected a nonce mismatch, got {:?}", other),
    }

    let successor = transfer(0, sender, receiver, 1000, 2);
    assert!(engine.submit_transaction(successor, true, false, 0).is_ok());

    // a fresh sender cannot start above one
    let eager = transfer(0, addr(9), receiver, 1000, 2);
    assert!(matches!(
        engine.submit_transaction(eager, true, false, 0),
        Err(SettlementError::NonceMismatch { .. })
    ));
}

#[test]
fn test_admission_checks_in_order() {
    let config = SettlementConfig::default();
    let mut engine = L2SettlementEngine::new(&config);
    let sender = addr(1);
    let receiver = addr(2);

    let mut zero_amount = transfer(0, sender, receiver, 1000, 1);
    zero_amount.amount = TokenAmount::new(TokenType::Gcc, U256::zero());
    assert!(matches!(
        engine.submit_transaction(zero_amount, true, false, 0),
        Err(SettlementError::ZeroAmount)
    ));

    let mut zero_gas = transfer(0, sender, receiver, 1000, 1);
    zero_gas.gas_limit = 0;
    assert!(matches!(
        engine.submit_transaction(zero_gas, true, false, 0),
        Err(SettlementError::ZeroGasLimit)
    ));

    let mut unsigned = transfer(0, sender, receiver, 1000, 1);
    unsigned.signature = None;
    assert!(matches!(
        engine.submit_transaction(unsigned, true, false, 0),
        Err(SettlementError::MissingSignature)
    ));

    let gated = transfer(0, sender, receiver, 1000, 1);
    assert!(matches!(
        engine.submit_transaction(gated, false, false, 0),
        Err(SettlementError::PolicyRejected)
    ));
}

#[test]
fn test_pool_capacity() {
    let mut config = SettlementConfig::default();
    config.max_pending_transactions = 1;
    let mut engine = L2SettlementEngine::new(&config);

    let first = transfer(0, addr(1), addr(2), 1000, 1);
    assert!(engine.submit_transaction(first, true, false, 0).is_ok());

    let second = transfer(0, addr(3), addr(2), 1000, 1);
    assert!(matches!(
        engine.submit_transaction(second, true, false, 0),
        Err(SettlementError::PoolFull)
    ));
}

#[test]
fn test_batch_root_deterministic() {
    let mut run_roots: Vec<Vec<u8>> = Vec::new();
    for _ in 0..2 {
        let config = SettlementConfig::default();
        let mut processor = BatchProcessor::new(&config);
        let mut state = L2State::genesis();
        for i in 0..5u64 {
            fund(&mut state, addr(i + 1), 10_000);
        }
        let txs: Vec<Transaction> =
            (0..5u64).map(|i| transfer(i + 1, addr(i + 1), addr(100), 1000, 1)).collect();
        let batch = processor.process_batch(&mut state, txs, 7);
        run_roots.push(batch.state_root.clone());
    }
    assert_eq!(run_roots[0], run_roots[1]);
    assert_eq!(run_roots[0].len(), 32);
}

#[test]
fn test_single_batch_gas_sum() {
    let config = SettlementConfig::default();
    let mut processor = BatchProcessor::new(&config);
    let mut state = L2State::genesis();
    let count: u64 = 1000;
    for i in 0..count {
        fund(&mut state, addr(i + 1), 10_000);
    }
    let txs: Vec<Transaction> =
        (0..count).map(|i| transfer(i + 1, addr(i + 1), addr(5000), 1000, 1)).collect();
    let batch = processor.process_batch(&mut state, txs, 7);

    assert_eq!(batch.transactions.len(), 1000);
    // each transfer costs the base charge plus the value-transfer charge
    assert_eq!(batch.gas_used, 1000 * (21000 + 2300));
}

#[test]
fn test_one_tick_drains_one_batch() {
    let config = SettlementConfig::default();
    let mut engine = L2SettlementEngine::new(&config);
    for i in 0..1000u64 {
        let tx = transfer(0, addr(i + 1), addr(5000), 1000, 1);
        assert!(engine.submit_transaction(tx, true, false, 0).is_ok());
    }
    assert_eq!(engine.get_settlement_statistics().pending_transactions, 1000);

    let bid = engine.process_pending_transactions(5).expect("a batch should be produced");
    let stats = engine.get_settlement_statistics();
    assert_eq!(stats.pending_transactions, 0);
    assert_eq!(stats.pending_batches, 1);
    assert!(bid > 0);

    // a second tick has nothing to drain
    assert!(engine.process_pending_transactions(6).is_none());
}

#[test]
fn test_insufficient_balance_rejected_before_execution() {
    let config = SettlementConfig::default();
    let mut engine = L2SettlementEngine::new(&config);

    // the sender has no balance at all
    let tx = transfer(0, addr(1), addr(2), 1000, 1);
    assert!(engine.submit_transaction(tx, true, false, 0).is_ok());
    assert_eq!(engine.get_settlement_statistics().pending_transactions, 1);

    engine.process_pending_transactions(5);
    let stats = engine.get_settlement_statistics();
    // the pool's size is unaffected beyond the admission itself
    assert_eq!(stats.pending_transactions, 0);
    // validation dropped the transfer; nothing was committed
    assert_eq!(stats.total_processed, 0);
    assert_eq!(stats.total_failed, 1);
}

#[test]
fn test_fraud_proof_reverts_batch() {
    let config = SettlementConfig::default();
    let mut rollup = OptimisticRollup::new(&config);
    let pre_state = L2State::genesis();

    // a batch claiming a root its transactions do not produce
    let txs = vec![transfer(1, addr(1), addr(2), 1000, 1)];
    let merkle_proof = build_merkle_proof(&txs);
    let batch = SettlementBatch {
        batch_id: 1,
        transactions: txs,
        state_root: vec![0xAB; 32],
        previous_state_root: vec![0u8; 32],
        merkle_proof,
        zk_proof: None,
        created_at: 0,
        gas_used: 23300,
        fee_paid: TokenAmount::new(TokenType::Gcc, U256::from(0)),
    };
    let handle = rollup.submit_batch(batch, pre_state, 0).expect("submission should pass");
    // the anchor handle is the first eight root bytes in hexadecimal
    assert_eq!(handle, "0xabababababababab");
    assert_eq!(rollup.get_state_root(), vec![0xAB; 32]);

    let cid = rollup
        .submit_challenge(
            1,
            addr(7),
            ChallengeType::InvalidStateTransition,
            U256::from(1000000000000000000),
            vec![1, 2, 3],
            10,
        )
        .expect("the challenge should open");

    let outcome = rollup.process_challenge(cid, 20).expect("the challenge should process");
    assert_eq!(outcome, ChallengeOutcome::ChallengeSuccessful);
    // the canonical root reverts to the batch's previous root
    assert_eq!(rollup.get_state_root(), vec![0u8; 32]);
    // a reverted batch is terminal: it can never finalize
    assert!(matches!(rollup.mark_finalized(1), Err(SettlementError::BatchReverted)));
}

#[test]
fn test_honest_batch_survives_challenge() {
    let config = SettlementConfig::default();
    let mut rollup = OptimisticRollup::new(&config);
    let mut processor = BatchProcessor::new(&config);

    let mut state = L2State::genesis();
    fund(&mut state, addr(1), 10_000);
    let pre_state = state.duplicate();
    let txs = vec![transfer(1, addr(1), addr(2), 1000, 1)];
    let batch = processor.process_batch(&mut state, txs, 0);
    let bid = batch.batch_id;

    rollup.submit_batch(batch, pre_state, 0).expect("submission should pass");

    let cid = rollup
        .submit_challenge(
            bid,
            addr(7),
            ChallengeType::InvalidStateTransition,
            U256::from(1000000000000000000),
            vec![],
            10,
        )
        .expect("the challenge should open");

    // with an open challenge the batch cannot finalize
    assert!(matches!(
        rollup.mark_finalized(bid),
        Err(SettlementError::ChallengeStillOpen)
    ));

    let outcome = rollup.process_challenge(cid, 20).expect("the challenge should process");
    assert_eq!(outcome, ChallengeOutcome::ChallengeFailed);

    // resolved in the batch's favour, finality may proceed
    assert!(rollup.mark_finalized(bid).is_ok());

    // a finalized batch cannot be challenged again
    assert!(matches!(
        rollup.submit_challenge(
            bid,
            addr(8),
            ChallengeType::InvalidStateTransition,
            U256::from(1000000000000000000),
            vec![],
            30,
        ),
        Err(SettlementError::BatchAlreadyFinalized)
    ));
}

#[test]
fn test_challenge_admission_errors() {
    let config = SettlementConfig::default();
    let mut rollup = OptimisticRollup::new(&config);

    assert!(matches!(
        rollup.submit_challenge(
            1,
            addr(7),
            ChallengeType::InvalidStateTransition,
            U256::from(5),
            vec![],
            0,
        ),
        Err(SettlementError::InsufficientStake)
    ));
    assert!(matches!(
        rollup.submit_challenge(
            1,
            addr(7),
            ChallengeType::InvalidStateTransition,
            U256::from(1000000000000000000),
            vec![],
            0,
        ),
        Err(SettlementError::BatchNotFound)
    ));
    assert!(matches!(
        rollup.process_challenge(99, 0),
        Err(SettlementError::ChallengeNotFound)
    ));
}

#[test]
fn test_batch_submission_errors() {
    let config = SettlementConfig::default();
    let mut rollup = OptimisticRollup::new(&config);

    let empty = SettlementBatch {
        batch_id: 1,
        transactions: vec![],
        state_root: vec![0u8; 32],
        previous_state_root: vec![0u8; 32],
        merkle_proof: vec![0u8; 32],
        zk_proof: None,
        created_at: 0,
        gas_used: 0,
        fee_paid: TokenAmount::new(TokenType::Gcc, U256::from(0)),
    };
    assert!(matches!(
        rollup.submit_batch(empty, L2State::genesis(), 0),
        Err(SettlementError::EmptyBatch)
    ));

    let txs = vec![transfer(1, addr(1), addr(2), 1000, 1)];
    let merkle_proof = build_merkle_proof(&txs);
    let short_root = SettlementBatch {
        batch_id: 2,
        transactions: txs,
        state_root: vec![0u8; 4],
        previous_state_root: vec![0u8; 32],
        merkle_proof,
        zk_proof: None,
        created_at: 0,
        gas_used: 0,
        fee_paid: TokenAmount::new(TokenType::Gcc, U256::from(0)),
    };
    assert!(matches!(
        rollup.submit_batch(short_root, L2State::genesis(), 0),
        Err(SettlementError::InvalidStateRootLength)
    ));

    let txs2 = vec![transfer(1, addr(1), addr(2), 1000, 1)];
    let bad_proof = SettlementBatch {
        batch_id: 3,
        transactions: txs2,
        state_root: vec![0u8; 32],
        previous_state_root: vec![0u8; 32],
        merkle_proof: vec![9u8; 32],
        zk_proof: None,
        created_at: 0,
        gas_used: 0,
        fee_paid: TokenAmount::new(TokenType::Gcc, U256::from(0)),
    };
    assert!(matches!(
        rollup.submit_batch(bad_proof, L2State::genesis(), 0),
        Err(SettlementError::InvalidMerkleProof)
    ));
}

#[test]
fn test_batch_roots_chain() {
    let config = SettlementConfig::default();
    let mut rollup = OptimisticRollup::new(&config);
    let mut processor = BatchProcessor::new(&config);

    let mut state = L2State::genesis();
    fund(&mut state, addr(1), 10_000);
    let pre1 = state.duplicate();
    let batch1 = processor.process_batch(&mut state, vec![transfer(1, addr(1), addr(2), 10, 1)], 0);
    let root1 = batch1.state_root.clone();
    rollup.submit_batch(batch1, pre1, 0).expect("the first batch should pass");

    let pre2 = state.duplicate();
    let batch2 =
        processor.process_batch(&mut state, vec![transfer(2, addr(1), addr(2), 10, 2)], 1);
    assert_eq!(batch2.previous_state_root, root1);
    rollup.submit_batch(batch2, pre2, 1).expect("the second batch should chain");

    // a batch that does not extend the adopted root is refused
    let mut other = L2State::genesis();
    fund(&mut other, addr(3), 10_000);
    let pre3 = other.duplicate();
    let stray = processor.process_batch(&mut other, vec![transfer(3, addr(3), addr(2), 10, 1)], 2);
    assert!(matches!(
        rollup.submit_batch(stray, pre3, 2),
        Err(SettlementError::PreviousRootMismatch)
    ));
}
