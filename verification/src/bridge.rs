use vstd::prelude::*;

use crate::services::ServiceEndpoint;

verus! {

/// The endpoints of every service the bridge talks to.
#[derive(Debug, Clone)]
pub struct ServiceEndpoints {
    /// The chain daemon.
    pub ghostd: ServiceEndpoint,
    /// The wallet daemon.
    pub walletd: ServiceEndpoint,
    /// The identity service.
    pub gid: ServiceEndpoint,
    /// The naming service.
    pub cns: ServiceEndpoint,
    /// The balance ledger.
    pub gledger: ServiceEndpoint,
    /// The signature service.
    pub gsig: ServiceEndpoint,
    /// The rollup runtime.
    pub ghostplane: ServiceEndpoint,
}

/// Tuning of the rollup integration.
#[derive(Debug, Clone, Copy, PartialEq, Eq, Structural)]
pub struct L2Config {
    /// Most transactions in one batch.
    pub max_batch_size: u32,
    /// How long a settlement may take, in milliseconds.
    pub settlement_timeout_ms: u64,
    /// Whether batches settle optimistically.
    pub enable_optimistic_execution: bool,
    /// Whether batches carry attestations.
    pub enable_zk_proofs: bool,
    /// Target throughput, transactions per second.
    pub target_tps: u32,
    /// Most batches awaiting settlement at once.
    pub max_pending_batches: u32,
    /// How long a challenger has for a fraud proof, in milliseconds.
    pub fraud_proof_window_ms: u64,
}

/// Settings of one token kind.
#[derive(Debug, Clone, Copy, PartialEq, Eq, Structural)]
pub struct TokenSettings {
    /// Decimal places.
    pub decimals: u8,
    /// Whether fees burn supply.
    pub is_deflationary: bool,
    /// The burn rate, in basis points.
    pub burn_rate_bps: u16,
    /// The smallest chargeable fee.
    pub min_fee_amount: u64,
    /// The supply cap, where one exists.
    pub max_supply: Option<u64>,
}

/// How collected fees are split across the ecosystem, in percent.
#[derive(Debug, Clone, Copy, PartialEq, Eq, Structural)]
pub struct FeeDistribution {
    /// To the rollup validators.
    pub l2_validators: u8,
    /// To the anchor-chain validators.
    pub l1_validators: u8,
    /// To the bridge security fund.
    pub security_fund: u8,
    /// To protocol development.
    pub protocol_development: u8,
}

/// Settings of the four token kinds and the fee split.
#[derive(Debug, Clone, Copy, PartialEq, Eq, Structural)]
pub struct TokenConfig {
    /// The gas token.
    pub gcc: TokenSettings,
    /// The governance token.
    pub spirit: TokenSettings,
    /// The utility token.
    pub mana: TokenSettings,
    /// The brand token.
    pub ghost_token: TokenSettings,
    /// The fee split.
    pub fee_distribution: FeeDistribution,
}

impl Default for TokenConfig {
    /// The stock token settings: a deflationary gas token with a one
    /// percent burn, an uncapped governance token, a utility token with a
    /// half-percent burn, and a small fixed run of brand collectibles.
    /// Supply caps are in whole tokens.
    fn default() -> (r: TokenConfig)
        ensures
            r.gcc.is_deflationary,
            r.gcc.decimals == 18,
            r.gcc.burn_rate_bps == 100,
            !r.spirit.is_deflationary,
            r.spirit.max_supply is None,
            r.mana.burn_rate_bps == 50,
            r.ghost_token.decimals == 0,
            r.fee_distribution == (FeeDistribution {
                l2_validators: 40u8,
                l1_validators: 30u8,
                security_fund: 20u8,
                protocol_development: 10u8,
            }),
    {
        TokenConfig {
            gcc: TokenSettings {
                decimals: 18,
                is_deflationary: true,
                burn_rate_bps: 100,
                min_fee_amount: 1000000000000000,
                max_supply: Some(21000000),
            },
            spirit: TokenSettings {
                decimals: 18,
                is_deflationary: false,
                burn_rate_bps: 0,
                min_fee_amount: 500000000000000,
                max_supply: None,
            },
            mana: TokenSettings {
                decimals: 18,
                is_deflationary: false,
                burn_rate_bps: 50,
                min_fee_amount: 750000000000000,
                max_supply: Some(100000000),
            },
            ghost_token: TokenSettings {
                decimals: 0,
                is_deflationary: false,
                burn_rate_bps: 0,
                min_fee_amount: 1,
                max_supply: Some(10000),
            },
            fee_distribution: FeeDistribution {
                l2_validators: 40,
                l1_validators: 30,
                security_fund: 20,
                protocol_development: 10,
            },
        }
    }
}

/// The admission rules the bridge enforces.
#[derive(Debug, Clone)]
pub struct ValidationRules {
    /// The smallest admissible amount.
    pub min_transaction_amount: u64,
    /// The largest admissible amount.
    pub max_transaction_amount: u64,
    /// A signature must be present.
    pub require_signature: bool,
    /// The guardians must approve.
    pub require_guardian_approval: bool,
    /// Addresses never admitted.
    pub blacklisted_addresses: Vec<String>,
    /// Whether only listed addresses are admitted.
    pub whitelist_only: bool,
    /// The addresses admitted when the list is exclusive.
    pub whitelisted_addresses: Vec<String>,
}

/// Health of the bridge and its parts.
#[derive(Debug, Clone, Copy, PartialEq, Eq, Structural)]
pub struct BridgeHealthStatus {
    /// Everything answers.
    pub overall_healthy: bool,
    /// The services answer.
    pub services_healthy: bool,
    /// The execution-runtime boundary answers.
    pub ffi_healthy: bool,
    /// The settlement pipeline answers.
    pub settlement_healthy: bool,
    /// How many services answer.
    pub healthy_services: usize,
}

/// Counts over bridge operations.
#[derive(Debug, Clone, Copy, PartialEq, Eq, Structural)]
pub struct BridgeStats {
    /// Operations attempted.
    pub total_attempts: u64,
    /// Operations that settled.
    pub successful_bridges: u64,
    /// Operations that failed.
    pub failed_bridges: u64,
}

} // verus!
