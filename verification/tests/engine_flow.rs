use ghostbridge::config::SettlementConfig;
use ghostbridge::engine::{L2SettlementEngine, SettlementStatus};
use ghostbridge::error::SettlementError;
use ghostbridge::optimistic::{ChallengeOutcome, ChallengeType};
use ghostbridge::types::{Address, Signature, TokenAmount, TokenType, Transaction, U256};

fn addr(i: u64) -> Address {
    let mut bytes = [0u8; 20];
    bytes[12..20].copy_from_slice(&i.to_be_bytes());
    Address(bytes)
}

fn transfer(from: Address, to: Address, amount: u64, nonce: u64) -> Transaction {
    Transaction {
        id: 0,
        from_address: from,
        to_address: to,
        amount: TokenAmount::new(TokenType::Gcc, U256::from(amount)),
        chain_id: 1,
        nonce,
        gas_limit: 50000,
        gas_price: U256::from(20000000000),
        data: vec![],
        signature: Some(Signature { r: U256::from(1), s: U256::from(2), v: 27 }),
    }
}

#[test]
fn test_settlement_engine_creation() {
    let config = SettlementConfig::default();
    let engine = L2SettlementEngine::new(&config);
    let stats = engine.get_settlement_statistics();
    assert_eq!(stats.pending_transactions, 0);
    assert_eq!(stats.finalized_batches, 0);
}

#[test]
fn test_unknown_transaction_status() {
    let config = SettlementConfig::default();
    let engine = L2SettlementEngine::new(&config);
    assert!(matches!(
        engine.get_settlement_status(42, 0),
        Err(SettlementError::TransactionNotFound)
    ));
}

#[test]
fn test_end_to_end_settlement() {
    let config = SettlementConfig::default();
    let mut engine = L2SettlementEngine::new(&config);
    engine.set_aggregate_stake(1_000_000);
    engine.credit_account(addr(1), TokenType::Gcc, U256::from(10_000));

    let id = engine.submit_transaction(transfer(addr(1), addr(2), 1000, 1), true, false, 0).unwrap();
    assert_eq!(engine.get_settlement_status(id, 0).unwrap(), SettlementStatus::Pending);

    let bid = engine.process_pending_transactions(10).expect("one batch should form");
    assert_eq!(
        engine.get_settlement_status(id, 10).unwrap(),
        SettlementStatus::BatchedForSettlement
    );

    let submitted = engine.submit_next_batch(20).expect("submission should pass");
    assert_eq!(submitted, Some(bid));
    // inside the challenge window
    assert_eq!(engine.get_settlement_status(id, 30).unwrap(), SettlementStatus::ChallengePhase);

    // confirmations arrive; the challenge window lapses; finality follows
    engine.record_l1_confirmation(bid, 100, 12).unwrap();
    let late = 20 + config.challenge_period_ms + 1;
    let finalized = engine.monitor_finality(late);
    assert_eq!(finalized, 1);
    assert_eq!(engine.get_settlement_status(id, late).unwrap(), SettlementStatus::Finalized);

    // the canonical roots agree between the state and the rollup
    assert_eq!(engine.get_canonical_root(), engine.state_manager().get_state_root());
    let stats = engine.get_settlement_statistics();
    assert_eq!(stats.finalized_batches, 1);
    assert_eq!(stats.total_processed, 1);
}

#[test]
fn test_engine_challenge_flow() {
    let config = SettlementConfig::default();
    let mut engine = L2SettlementEngine::new(&config);
    engine.credit_account(addr(1), TokenType::Gcc, U256::from(10_000));
    engine.submit_transaction(transfer(addr(1), addr(2), 1000, 1), true, false, 0).unwrap();
    let bid = engine.process_pending_transactions(10).unwrap();
    engine.submit_next_batch(20).unwrap();

    let cid = engine
        .submit_challenge(
            bid,
            addr(7),
            ChallengeType::InvalidStateTransition,
            U256::from(1000000000000000000),
            vec![],
            30,
        )
        .unwrap();

    // the batch was honestly produced, so the challenge fails
    let outcome = engine.process_challenge(cid, 40).unwrap();
    assert_eq!(outcome, ChallengeOutcome::ChallengeFailed);
}

#[test]
fn test_priority_lane() {
    let config = SettlementConfig::default();
    let mut engine = L2SettlementEngine::new(&config);

    // above fifty gigawei goes to the priority lane; both report pending
    let mut urgent = transfer(addr(1), addr(2), 1000, 1);
    urgent.gas_price = U256::from(60_000_000_000);
    let urgent_id = engine.submit_transaction(urgent, true, false, 0).unwrap();
    let calm_id = engine.submit_transaction(transfer(addr(3), addr(2), 1000, 1), true, false, 0).unwrap();

    assert_eq!(engine.get_settlement_status(urgent_id, 0).unwrap(), SettlementStatus::Pending);
    assert_eq!(engine.get_settlement_status(calm_id, 0).unwrap(), SettlementStatus::Pending);

    // the policy verdict can flag a transfer into the priority lane too
    let flagged_id = engine
        .submit_transaction(transfer(addr(4), addr(2), 1000, 1), true, true, 0)
        .unwrap();
    assert_eq!(engine.get_settlement_status(flagged_id, 0).unwrap(), SettlementStatus::Pending);
    assert_eq!(engine.get_settlement_statistics().pending_transactions, 3);
}

#[test]
fn test_cleanup_drops_stale_records() {
    let config = SettlementConfig::default();
    let mut engine = L2SettlementEngine::new(&config);
    engine.credit_account(addr(1), TokenType::Gcc, U256::from(10_000));
    let id = engine.submit_transaction(transfer(addr(1), addr(2), 1000, 1), true, false, 0).unwrap();
    engine.process_pending_transactions(0).unwrap();
    assert_eq!(engine.get_settlement_statistics().processing_transactions, 1);

    // too young to drop
    engine.cleanup_expired_data(1000);
    assert_eq!(engine.get_settlement_statistics().processing_transactions, 1);

    // past an hour, the record goes; the batch entry still answers
    engine.cleanup_expired_data(3_600_001);
    assert_eq!(engine.get_settlement_statistics().processing_transactions, 0);
    assert_eq!(
        engine.get_settlement_status(id, 3_600_001).unwrap(),
        SettlementStatus::BatchedForSettlement
    );
}
