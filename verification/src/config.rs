use vstd::prelude::*;

use crate::types::{low64_of, U256};

verus! {

/// Tuning of the settlement pipeline: batch sizing, pacing, dispute
/// windows and gas budgets. Intervals are in milliseconds.
#[derive(Debug, Clone, Copy)]
pub struct SettlementConfig {
    /// Target throughput, transactions per second.
    pub target_tps: u32,
    /// Most transactions drained into one batch.
    pub batch_size: usize,
    /// Pause between batch ticks.
    pub batch_timeout_ms: u64,
    /// Cap on transactions waiting in the admission pool.
    pub max_pending_transactions: usize,
    /// Pause between submissions to the anchor chain.
    pub l1_settlement_interval_ms: u64,
    /// How long a submitted batch stays open to challenges.
    pub challenge_period_ms: u64,
    /// How long a proof generation may take.
    pub zk_proof_timeout_ms: u64,
    /// Cap on batches in flight at once.
    pub max_concurrent_batches: usize,
    /// Pause between state checkpoints.
    pub checkpoint_interval_ms: u64,
    /// How long a challenger has to deliver a fraud proof.
    pub fraud_proof_window_ms: u64,
    /// Gas budget for one anchor-chain settlement.
    pub l1_gas_limit: u64,
    /// Priority fee offered on the anchor chain.
    pub priority_fee: U256,
    /// Smallest stake a challenge must put up.
    pub min_challenge_stake: U256,
}

impl Default for SettlementConfig {
    /// The stock configuration: 50,000 TPS target, thousand-transaction
    /// batches, a seven-day challenge period and a one-day fraud-proof
    /// window.
    fn default() -> (r: SettlementConfig)
        ensures
            r.target_tps == 50000,
            r.batch_size == 1000,
            r.batch_timeout_ms == 100,
            r.max_pending_transactions == 100000,
            r.l1_settlement_interval_ms == 10000,
            r.challenge_period_ms == 604800000,
            r.zk_proof_timeout_ms == 30000,
            r.max_concurrent_batches == 20,
            r.checkpoint_interval_ms == 60000,
            r.fraud_proof_window_ms == 86400000,
            r.l1_gas_limit == 15000000,
            low64_of(r.priority_fee.0@) == 2000000000,
            low64_of(r.min_challenge_stake.0@) == 1000000000000000000,
    {
        SettlementConfig {
            target_tps: 50000,
            batch_size: 1000,
            batch_timeout_ms: 100,
            max_pending_transactions: 100000,
            l1_settlement_interval_ms: 10000,
            challenge_period_ms: 604800000,
            zk_proof_timeout_ms: 30000,
            max_concurrent_batches: 20,
            checkpoint_interval_ms: 60000,
            fraud_proof_window_ms: 86400000,
            l1_gas_limit: 15000000,
            priority_fee: U256::from(2000000000),
            min_challenge_stake: U256::from(1000000000000000000),
        }
    }
}

} // verus!
