use ghostbridge::economy::{FeeBreakdown, FeeDistributionBreakdown};
use ghostbridge::types::{Address, ChainId, MultiTokenFee, TokenAmount, TokenType, U256};

#[test]
fn test_version() {
    assert!(!ghostbridge::version().is_empty());
}

#[test]
fn test_name() {
    assert_eq!(ghostbridge::name(), "ghostbridge");
}

#[test]
fn test_init() {
    // Should not panic
    ghostbridge::init();
}

#[test]
fn test_chain_id_display() {
    assert_eq!(ChainId::ethereum().display_string(), "1");
    assert_eq!(ChainId::ghostchain().display_string(), "9999");
}

#[test]
fn test_u256_arithmetic() {
    let a = U256::from(10);
    let b = U256::from(5);

    assert_eq!(a.saturating_add(&b).to_u64(), 15);
    assert_eq!(a.saturating_sub(&b).to_u64(), 5);
    assert_eq!(a.saturating_mul(&b).to_u64(), 50);
    assert_eq!(a.div_or_zero(&b).to_u64(), 2);
}

#[test]
fn test_token_amount() {
    let amount = TokenAmount::new(TokenType::Gcc, U256::from(1000000000000000000u64));
    assert_eq!(amount.to_human_readable(), "1");
}

#[test]
fn test_token_amount_fractional() {
    let amount = TokenAmount::new(TokenType::Gcc, U256::from(1500000000000000000u64));
    assert_eq!(amount.to_human_readable(), "1.500000000000000000");
    let whole = TokenAmount::new(TokenType::GhostToken, U256::from(7));
    assert_eq!(whole.to_human_readable(), "7");
    let small = TokenAmount::new(TokenType::Mana, U256::from(42));
    assert_eq!(small.to_human_readable(), "0.000000000000000042");
}

#[test]
fn test_u256_equality_and_zero() {
    assert_eq!(U256::from(0), U256::zero());
    assert!(U256::zero().is_zero());
    assert!(!U256::from(3).is_zero());
    assert_ne!(U256::from(1), U256::from(2));
}

#[test]
fn test_u256_pow() {
    assert_eq!(U256::from(2).pow(U256::from(10)).to_u64(), 1024);
    assert_eq!(U256::from(7).pow(U256::zero()).to_u64(), 1);
    assert_eq!(U256::from(10).pow(U256::from(18)).to_u64(), 1000000000000000000);
}

#[test]
fn test_fee_breakdown() {
    let base_fee = TokenAmount::new(TokenType::Gcc, U256::from(1000));
    let priority_fee = TokenAmount::new(TokenType::Gcc, U256::from(1200));

    let breakdown = FeeBreakdown {
        base_fee: base_fee.clone(),
        priority_fee: priority_fee.clone(),
        cross_chain_fee: None,
        bridge_security_fee: TokenAmount::new(TokenType::Gcc, U256::from(10)),
        total_fee: MultiTokenFee {
            gcc_fee: priority_fee,
            spirit_fee: TokenAmount::new(TokenType::Spirit, U256::zero()),
            mana_fee: TokenAmount::new(TokenType::Mana, U256::zero()),
            ghost_fee: TokenAmount::new(TokenType::GhostToken, U256::zero()),
        },
        fee_distribution: FeeDistributionBreakdown {
            l2_validators: MultiTokenFee {
                gcc_fee: TokenAmount::new(TokenType::Gcc, U256::from(480)),
                spirit_fee: TokenAmount::new(TokenType::Spirit, U256::zero()),
                mana_fee: TokenAmount::new(TokenType::Mana, U256::zero()),
                ghost_fee: TokenAmount::new(TokenType::GhostToken, U256::zero()),
            },
            l1_validators: MultiTokenFee {
                gcc_fee: TokenAmount::new(TokenType::Gcc, U256::from(360)),
                spirit_fee: TokenAmount::new(TokenType::Spirit, U256::zero()),
                mana_fee: TokenAmount::new(TokenType::Mana, U256::zero()),
                ghost_fee: TokenAmount::new(TokenType::GhostToken, U256::zero()),
            },
            security_fund: MultiTokenFee {
                gcc_fee: TokenAmount::new(TokenType::Gcc, U256::from(240)),
                spirit_fee: TokenAmount::new(TokenType::Spirit, U256::zero()),
                mana_fee: TokenAmount::new(TokenType::Mana, U256::zero()),
                ghost_fee: TokenAmount::new(TokenType::GhostToken, U256::zero()),
            },
            protocol_development: MultiTokenFee {
                gcc_fee: TokenAmount::new(TokenType::Gcc, U256::from(120)),
                spirit_fee: TokenAmount::new(TokenType::Spirit, U256::zero()),
                mana_fee: TokenAmount::new(TokenType::Mana, U256::zero()),
                ghost_fee: TokenAmount::new(TokenType::GhostToken, U256::zero()),
            },
            burn_amount: MultiTokenFee {
                gcc_fee: TokenAmount::new(TokenType::Gcc, U256::from(12)),
                spirit_fee: TokenAmount::new(TokenType::Spirit, U256::zero()),
                mana_fee: TokenAmount::new(TokenType::Mana, U256::zero()),
                ghost_fee: TokenAmount::new(TokenType::GhostToken, U256::zero()),
            },
        },
    };

    assert_eq!(breakdown.base_fee.amount.to_u64(), 1000);
    assert_eq!(breakdown.priority_fee.amount.to_u64(), 1200);
}

#[test]
fn test_multi_token_fee_total() {
    let fee = MultiTokenFee {
        gcc_fee: TokenAmount::new(TokenType::Gcc, U256::from(10)),
        spirit_fee: TokenAmount::new(TokenType::Spirit, U256::from(20)),
        mana_fee: TokenAmount::new(TokenType::Mana, U256::from(30)),
        ghost_fee: TokenAmount::new(TokenType::GhostToken, U256::from(5)),
    };
    assert_eq!(fee.total_value().to_u64(), 65);
}

#[test]
fn test_address_hex() {
    let addr = Address::from_hex("0x742d35Cc6634C0532925a3b8D431Df45C3f8D23B").unwrap();
    assert_eq!(addr.to_hex(), "0x742d35cc6634c0532925a3b8d431df45c3f8d23b");
}

#[test]
fn test_address_hex_rejections() {
    assert!(Address::from_hex("0x1234").is_none());
    assert!(Address::from_hex("742d35cc6634c0532925a3b8d431df45c3f8d2zz").is_none());
    // the bare digits, without the prefix, parse too
    assert!(Address::from_hex("742d35cc6634c0532925a3b8d431df45c3f8d23b").is_some());
}
