use vstd::prelude::*;

use crate::state::TokenBalances;
use crate::types::{MultiTokenFee, TokenAmount};

verus! {

/// Supply and volume counters per token kind.
#[derive(Debug, Clone, Copy, PartialEq, Eq)]
pub struct TokenMetrics {
    /// Total minted supply.
    pub total_supply: TokenBalances,
    /// Supply in circulation.
    pub circulating_supply: TokenBalances,
    /// Supply burned.
    pub burned_amount: TokenBalances,
    /// Volume moved today.
    pub daily_volume: TokenBalances,
    /// Volume bridged in the last day.
    pub bridge_volume_24h: TokenBalances,
}

/// The token economy's aggregate ledger: metrics and rolling volumes.
#[derive(Debug, Clone, Copy, PartialEq, Eq)]
pub struct TokenEconomics {
    /// The counters.
    pub metrics: TokenMetrics,
    /// Rolling per-kind volumes.
    pub daily_volumes: TokenBalances,
}

impl TokenEconomics {
    /// An economy with every counter at zero.
    pub fn new() -> (r: TokenEconomics)
        ensures
            forall|t: crate::types::TokenType|
                crate::types::low64_of(#[trigger] r.metrics.total_supply.spec_get(t)) == 0,
            forall|t: crate::types::TokenType|
                crate::types::low64_of(#[trigger] r.daily_volumes.spec_get(t)) == 0,
    {
        TokenEconomics {
            metrics: TokenMetrics {
                total_supply: TokenBalances::zeroed(),
                circulating_supply: TokenBalances::zeroed(),
                burned_amount: TokenBalances::zeroed(),
                daily_volume: TokenBalances::zeroed(),
                bridge_volume_24h: TokenBalances::zeroed(),
            },
            daily_volumes: TokenBalances::zeroed(),
        }
    }
}

/// The base price of a gas unit in each token kind, in smallest units.
#[derive(Debug, Clone, Copy, PartialEq, Eq, Structural)]
pub struct BaseRates {
    /// For plain transfers.
    pub gcc_base_rate: u64,
    /// For governance operations.
    pub spirit_base_rate: u64,
    /// For contract execution.
    pub mana_base_rate: u64,
    /// For identity operations.
    pub ghost_base_rate: u64,
}

/// Prices operations in the four token kinds.
#[derive(Debug, Clone, Copy, PartialEq, Eq, Structural)]
pub struct FeeCalculator {
    /// The base rates in force.
    pub base_rates: BaseRates,
}

impl FeeCalculator {
    /// A calculator with the stock base rates.
    pub fn new() -> (r: FeeCalculator)
        ensures
            r.base_rates == (BaseRates {
                gcc_base_rate: 1000000000u64,
                spirit_base_rate: 500000000u64,
                mana_base_rate: 750000000u64,
                ghost_base_rate: 0u64,
            }),
    {
        FeeCalculator {
            base_rates: BaseRates {
                gcc_base_rate: 1000000000,
                spirit_base_rate: 500000000,
                mana_base_rate: 750000000,
                ghost_base_rate: 0,
            },
        }
    }
}

/// One priced operation, fee by fee.
#[derive(Debug, Clone)]
pub struct FeeBreakdown {
    /// The base fee.
    pub base_fee: TokenAmount,
    /// The priority fee on top.
    pub priority_fee: TokenAmount,
    /// The cross-chain surcharge, where one applies.
    pub cross_chain_fee: Option<TokenAmount>,
    /// The bridge security surcharge.
    pub bridge_security_fee: TokenAmount,
    /// The whole fee across token kinds.
    pub total_fee: MultiTokenFee,
    /// How the fee is distributed.
    pub fee_distribution: FeeDistributionBreakdown,
}

/// Where one operation's fees go.
#[derive(Debug, Clone)]
pub struct FeeDistributionBreakdown {
    /// To the rollup validators.
    pub l2_validators: MultiTokenFee,
    /// To the anchor-chain validators.
    pub l1_validators: MultiTokenFee,
    /// To the security fund.
    pub security_fund: MultiTokenFee,
    /// To protocol development.
    pub protocol_development: MultiTokenFee,
    /// Burned.
    pub burn_amount: MultiTokenFee,
}

/// Health of the token economy's parts.
#[derive(Debug, Clone, Copy, PartialEq, Eq, Structural)]
pub struct TokenEconomyHealth {
    /// Everything answers.
    pub overall_healthy: bool,
    /// The token manager answers.
    pub token_manager_healthy: bool,
    /// The fee calculator answers.
    pub fee_calculator_healthy: bool,
    /// The fee distributor answers.
    pub fee_distributor_healthy: bool,
    /// The economics ledger answers.
    pub economics_healthy: bool,
    /// The balance ledger answers.
    pub gledger_healthy: bool,
}

} // verus!
