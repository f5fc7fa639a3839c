use ghostbridge::bridge::BridgeHealthStatus;
use ghostbridge::config::SettlementConfig;
use ghostbridge::ffi_types::GhostPlaneConfig;
use ghostbridge::security::{GuardianConfig, ThreatLevel};
use ghostbridge::services::{GasOperation, ServiceConfig, ServiceEndpoint};
use ghostbridge::transport::{PoolConfig, QueryType};
use ghostbridge::types::{TokenType, U256};

#[test]
fn test_settlement_config_default() {
    let config = SettlementConfig::default();
    assert_eq!(config.target_tps, 50_000);
    assert_eq!(config.batch_size, 1000);
    assert_eq!(config.max_concurrent_batches, 20);
}

#[test]
fn test_ghostplane_config_default() {
    let config = GhostPlaneConfig::default();
    assert_eq!(config.network_id, 10000);
    assert!(config.enable_optimistic_execution);
}

#[test]
fn test_guardian_config_default() {
    let config = GuardianConfig::default();
    assert!(config.enable_zero_trust);
    assert!(config.require_identity_verification);
    assert_eq!(config.trust_level_threshold, 7);
}

#[test]
fn test_threat_level() {
    assert_eq!(ThreatLevel::Low, ThreatLevel::Low);
    assert_ne!(ThreatLevel::Low, ThreatLevel::High);
}

#[test]
fn test_service_config_default() {
    let config = ServiceConfig::default();
    assert_eq!(config.ghostd.port, 8545);
    assert_eq!(config.walletd.port, 8546);
    assert_eq!(config.gid.port, 8547);
    assert_eq!(config.cns.port, 8548);
    assert_eq!(config.gledger.port, 8549);
    assert_eq!(config.gsig.port, 8550);
    assert_eq!(config.ghostplane.port, 9090);
}

#[test]
fn test_service_endpoint_url() {
    let endpoint = ServiceEndpoint {
        host: "localhost".to_string(),
        port: 8545,
        use_tls: false,
        timeout_ms: 5000,
    };
    assert_eq!(endpoint.url(), "http://localhost:8545");

    let tls_endpoint = ServiceEndpoint {
        host: "example.com".to_string(),
        port: 443,
        use_tls: true,
        timeout_ms: 5000,
    };
    assert_eq!(tls_endpoint.url(), "https://example.com:443");
}

#[test]
fn test_service_endpoint_grpc() {
    let endpoint = ServiceEndpoint {
        host: "example.com".to_string(),
        port: 5000,
        use_tls: false,
        timeout_ms: 5000,
    };
    assert_eq!(endpoint.grpc_endpoint(), "example.com:5000");
}

#[test]
fn test_transfer_fee_calculation() {
    let gcc_fee = ghostbridge::services::calculate_transfer_fee(TokenType::Gcc);
    assert_eq!(gcc_fee.token_type, TokenType::Gcc);
    assert!(gcc_fee.amount.to_u64() > 0);

    let ghost_fee = ghostbridge::services::calculate_transfer_fee(TokenType::GhostToken);
    assert_eq!(ghost_fee.token_type, TokenType::GhostToken);
    assert_eq!(ghost_fee.amount, U256::zero());
}

#[test]
fn test_gas_operation_debug() {
    let op = GasOperation::SmartContract;
    let debug_str = format!("{:?}", op);
    assert!(debug_str.contains("SmartContract"));
}

#[test]
fn test_query_type() {
    assert_eq!(QueryType::A.code(), 1);
    assert_eq!(QueryType::AAAA.code(), 28);
    assert_eq!(QueryType::MX.code(), 15);
}

#[test]
fn test_pool_config_default() {
    let config = PoolConfig::default();
    assert_eq!(config.max_connections_per_endpoint, 50);
    assert!(config.enable_multiplexing);
}

#[test]
fn test_pool_entry() {
}

#[test]
fn test_bridge_health_status() {
    let status = BridgeHealthStatus {
        overall_healthy: true,
        services_healthy: true,
        ffi_healthy: true,
        settlement_healthy: true,
        healthy_services: 6,
    };

    assert!(status.overall_healthy);
    assert_eq!(status.healthy_services, 6);
}

#[test]
fn test_signature_scheme() {
    let scheme = ghostbridge::security::SignatureScheme::Ed25519;
    assert_eq!(scheme, ghostbridge::security::SignatureScheme::Ed25519);
}

#[test]
fn test_token_settings() {
    let config = ghostbridge::bridge::TokenConfig::default();

    assert!(config.gcc.is_deflationary);
    assert!(!config.spirit.is_deflationary);
    assert_eq!(config.ghost_token.decimals, 0);
}
