use vstd::prelude::*;

use crate::types::{dec_str, dec_u64, low64_of, Address, TokenAmount, TokenType, U256};

verus! {

/// One auxiliary chain service's endpoint.
#[derive(Debug, Clone, PartialEq, Eq)]
pub struct ServiceEndpoint {
    /// Host name or address.
    pub host: String,
    /// TCP port.
    pub port: u16,
    /// Whether to speak TLS.
    pub use_tls: bool,
    /// Request timeout, in milliseconds.
    pub timeout_ms: u64,
}

impl ServiceEndpoint {
    /// The endpoint as a URL: the scheme, the host and the port.
    pub fn url(&self) -> (r: String)
        ensures
            r@ == (if self.use_tls {
                "https"@
            } else {
                "http"@
            }) + "://"@ + self.host@ + ":"@ + dec_str(self.port as nat),
    {
        let mut s = if self.use_tls {
            String::from_str("https")
        } else {
            String::from_str("http")
        };
        s.append("://");
        s.append(self.host.as_str());
        s.append(":");
        let p = dec_u64(self.port as u64);
        s.append(p.as_str());
        s
    }

    /// The endpoint in host-and-port form, for gRPC dialing.
    pub fn grpc_endpoint(&self) -> (r: String)
        ensures
            r@ == self.host@ + ":"@ + dec_str(self.port as nat),
    {
        let mut s = String::from_str(self.host.as_str());
        s.append(":");
        let p = dec_u64(self.port as u64);
        s.append(p.as_str());
        s
    }
}

/// The endpoints of the six auxiliary chain services and the rollup
/// runtime, with shared retry settings.
#[derive(Debug, Clone)]
pub struct ServiceConfig {
    /// The chain daemon.
    pub ghostd: ServiceEndpoint,
    /// The wallet daemon.
    pub walletd: ServiceEndpoint,
    /// The identity service.
    pub gid: ServiceEndpoint,
    /// The naming service.
    pub cns: ServiceEndpoint,
    /// The balance ledger.
    pub gledger: ServiceEndpoint,
    /// The signature service.
    pub gsig: ServiceEndpoint,
    /// The rollup runtime.
    pub ghostplane: ServiceEndpoint,
    /// Default request timeout, in milliseconds.
    pub default_timeout_ms: u64,
    /// Retries before a call is abandoned.
    pub max_retries: u32,
    /// Whether calls authenticate through the security framework.
    pub enable_guardian_auth: bool,
}

impl Default for ServiceConfig {
    /// The stock layout: every service on localhost, on consecutive
    /// ports from 8545, the rollup runtime on 9090.
    fn default() -> (r: ServiceConfig)
        ensures
            r.ghostd.port == 8545,
            r.walletd.port == 8546,
            r.gid.port == 8547,
            r.cns.port == 8548,
            r.gledger.port == 8549,
            r.gsig.port == 8550,
            r.ghostplane.port == 9090,
            r.default_timeout_ms == 5000,
            r.max_retries == 3,
            r.enable_guardian_auth,
    {
        ServiceConfig {
            ghostd: ServiceEndpoint {
                host: String::from_str("localhost"),
                port: 8545,
                use_tls: false,
                timeout_ms: 5000,
            },
            walletd: ServiceEndpoint {
                host: String::from_str("localhost"),
                port: 8546,
                use_tls: false,
                timeout_ms: 5000,
            },
            gid: ServiceEndpoint {
                host: String::from_str("localhost"),
                port: 8547,
                use_tls: false,
                timeout_ms: 5000,
            },
            cns: ServiceEndpoint {
                host: String::from_str("localhost"),
                port: 8548,
                use_tls: false,
                timeout_ms: 5000,
            },
            gledger: ServiceEndpoint {
                host: String::from_str("localhost"),
                port: 8549,
                use_tls: false,
                timeout_ms: 5000,
            },
            gsig: ServiceEndpoint {
                host: String::from_str("localhost"),
                port: 8550,
                use_tls: false,
                timeout_ms: 5000,
            },
            ghostplane: ServiceEndpoint {
                host: String::from_str("localhost"),
                port: 9090,
                use_tls: false,
                timeout_ms: 10000,
            },
            default_timeout_ms: 5000,
            max_retries: 3,
            enable_guardian_auth: true,
        }
    }
}

/// Health of the auxiliary services, one flag per service.
#[derive(Debug, Clone)]
pub struct ServiceHealthStatus {
    /// Whether every service answered.
    pub all_healthy: bool,
    /// How many services answered.
    pub healthy_services: usize,
    /// Per-service verdicts, by service name.
    pub services: Vec<(String, bool)>,
}

/// The gas-bearing operations the balance ledger prices.
#[derive(Debug, Clone, Copy, PartialEq, Eq, Structural)]
pub enum GasOperation {
    /// A plain transfer.
    Transfer,
    /// A contract call.
    SmartContract,
    /// A rollup settlement.
    L2Settlement,
    /// A cross-chain move.
    CrossChain,
}

/// One balance delta the ledger applies after a rollup update.
#[derive(Debug, Clone)]
pub struct StateUpdate {
    /// The account changed.
    pub address: Address,
    /// The token changed.
    pub token_type: TokenType,
    /// The signed change, negative for debits.
    pub balance_change: i64,
    /// The balance after the change.
    pub new_balance: U256,
}

/// The flat transfer fee of a token kind, in its smallest unit.
pub open spec fn spec_transfer_fee(t: TokenType) -> nat {
    match t {
        TokenType::Gcc => 1000000000000000,
        TokenType::Spirit => 500000000000000,
        TokenType::Mana => 750000000000000,
        TokenType::GhostToken => 0,
    }
}

/// The fee a transfer of token `token_type` pays: a flat per-kind amount,
/// zero for the brand token.
pub fn calculate_transfer_fee(token_type: TokenType) -> (r: TokenAmount)
    ensures
        r.token_type == token_type,
        low64_of(r.amount.0@) == spec_transfer_fee(token_type),
        crate::types::high_zero(r.amount.0@),
{
    let fee_amount = match token_type {
        TokenType::Gcc => U256::from(1000000000000000),
        TokenType::Spirit => U256::from(500000000000000),
        TokenType::Mana => U256::from(750000000000000),
        TokenType::GhostToken => U256::zero(),
    };
    TokenAmount::new(token_type, fee_amount)
}

} // verus!
