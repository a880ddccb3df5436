use atomic_ip::atomic_swap::state::admin::validate_price_bounds;
use atomic_ip::atomic_swap::state::AtomicSwap;
use atomic_ip::atomic_swap::types::{ContractError, OraclePriceUsedEvent, SwapStatus};
use atomic_ip::common::Addr;
use atomic_ip::crypto::create_commitment_hash;
use atomic_ip::ip_registry::state::IpRegistry;
use soroban_sdk::Env;

const REGISTRY: Addr = Addr { id: 100 };
const CONTRACT: Addr = Addr { id: 200 };
const TREASURY: Addr = Addr { id: 300 };
const TOKEN: Addr = Addr { id: 400 };
const ORACLE: Addr = Addr { id: 500 };
const SELLER: Addr = Addr { id: 1 };
const BUYER: Addr = Addr { id: 2 };

/// A registry holding one IP of the seller.
fn registry() -> (IpRegistry, u64) {
    let env = Env::default();
    let mut reg = IpRegistry::new(REGISTRY);
    let hash = create_commitment_hash(&env, &[0xAAu8; 32], &[0xBBu8; 32]);
    let ip_id = reg.commit_ip(&env, SELLER, hash, 0, 0).unwrap();
    (reg, ip_id)
}

/// A marketplace whose admin is the seller: the first swap makes its
/// seller the admin, and is cancelled to free the IP.
fn marketplace(reg: &IpRegistry, ip_id: u64) -> AtomicSwap {
    let mut swap = AtomicSwap::new(CONTRACT, TREASURY);
    swap.initialize(REGISTRY).unwrap();
    swap.initiate_swap(reg, TOKEN, ip_id, SELLER, 500, BUYER, 0, None, 0, false, 0).unwrap();
    swap.cancel_swap(0, SELLER, 0).unwrap();
    swap
}

fn oracle_swap(
    swap: &mut AtomicSwap,
    reg: &IpRegistry,
    ip_id: u64,
    min_price: i128,
    max_price: i128,
    quoted: i128,
) -> Result<(u64, OraclePriceUsedEvent), ContractError> {
    swap.initiate_swap_with_oracle_price(reg, TOKEN, ip_id, SELLER, BUYER, 0, None, 0, false, min_price, max_price, quoted, 0)
}

#[test]
fn test_set_oracle_stores_config() {
    let (reg, ip_id) = registry();
    let mut swap = marketplace(&reg, ip_id);
    swap.set_oracle(SELLER, ORACLE, true).unwrap();
    let config = swap.get_oracle_config().unwrap();
    assert_eq!(config.oracle_address, ORACLE);
    assert!(config.enabled);
}

#[test]
fn test_set_oracle_can_disable() {
    let (reg, ip_id) = registry();
    let mut swap = marketplace(&reg, ip_id);
    swap.set_oracle(SELLER, ORACLE, true).unwrap();
    swap.set_oracle(SELLER, ORACLE, false).unwrap();
    assert!(!swap.get_oracle_config().unwrap().enabled);
}

#[test]
fn test_set_oracle_unauthorized_rejected() {
    let (reg, ip_id) = registry();
    let mut swap = marketplace(&reg, ip_id);
    let result = swap.set_oracle(Addr { id: 66 }, ORACLE, true);
    assert_eq!(result.err(), Some(ContractError::Unauthorized));
    assert!(swap.get_oracle_config().is_none());
}

#[test]
fn test_get_oracle_config_none_when_not_set() {
    let mut swap = AtomicSwap::new(CONTRACT, TREASURY);
    swap.initialize(REGISTRY).unwrap();
    assert!(swap.get_oracle_config().is_none());
}

#[test]
fn test_get_oracle_price_returns_oracle_value() {
    let (reg, ip_id) = registry();
    let mut swap = marketplace(&reg, ip_id);
    swap.set_oracle(SELLER, ORACLE, true).unwrap();
    assert_eq!(swap.oracle_source(), Ok(ORACLE));
    assert_eq!(swap.get_oracle_price(750_000), Ok(750_000));
}

#[test]
fn test_get_oracle_price_fails_when_not_configured() {
    let mut swap = AtomicSwap::new(CONTRACT, TREASURY);
    swap.initialize(REGISTRY).unwrap();
    assert_eq!(swap.get_oracle_price(1_000_000).err(), Some(ContractError::OracleNotConfigured));
    assert_eq!(swap.oracle_source().err(), Some(ContractError::OracleNotConfigured));
}

#[test]
fn test_get_oracle_price_fails_when_disabled() {
    let (reg, ip_id) = registry();
    let mut swap = marketplace(&reg, ip_id);
    swap.set_oracle(SELLER, ORACLE, false).unwrap();
    assert_eq!(swap.get_oracle_price(1_000_000).err(), Some(ContractError::OracleNotConfigured));
}

#[test]
fn test_initiate_swap_with_oracle_price_uses_oracle_price() {
    let (reg, ip_id) = registry();
    let mut swap = marketplace(&reg, ip_id);
    swap.set_oracle(SELLER, ORACLE, true).unwrap();
    let (swap_id, event) = oracle_swap(&mut swap, &reg, ip_id, 0, 0, 500_000).unwrap();
    let record = swap.get_swap(swap_id).unwrap();
    assert_eq!(record.price, 500_000);
    assert_eq!(record.status, SwapStatus::Pending);
    assert_eq!(event, OraclePriceUsedEvent { swap_id, oracle_price: 500_000 });
}

#[test]
fn test_initiate_swap_with_oracle_price_respects_min_price() {
    let (reg, ip_id) = registry();
    let mut swap = marketplace(&reg, ip_id);
    swap.set_oracle(SELLER, ORACLE, true).unwrap();
    let result = oracle_swap(&mut swap, &reg, ip_id, 500, 0, 100);
    assert_eq!(result.err(), Some(ContractError::OraclePriceBelowMin));
}

#[test]
fn test_initiate_swap_with_oracle_price_respects_max_price() {
    let (reg, ip_id) = registry();
    let mut swap = marketplace(&reg, ip_id);
    swap.set_oracle(SELLER, ORACLE, true).unwrap();
    let result = oracle_swap(&mut swap, &reg, ip_id, 0, 500_000, 1_000_000);
    assert_eq!(result.err(), Some(ContractError::OraclePriceAboveMax));
}

#[test]
fn test_initiate_swap_with_oracle_price_within_bounds_succeeds() {
    let (reg, ip_id) = registry();
    let mut swap = marketplace(&reg, ip_id);
    swap.set_oracle(SELLER, ORACLE, true).unwrap();
    let (swap_id, _) = oracle_swap(&mut swap, &reg, ip_id, 100_000, 500_000, 300_000).unwrap();
    assert_eq!(swap.get_swap(swap_id).unwrap().price, 300_000);
}

#[test]
fn test_initiate_swap_with_oracle_price_fails_when_oracle_not_configured() {
    let (reg, ip_id) = registry();
    let mut swap = AtomicSwap::new(CONTRACT, TREASURY);
    swap.initialize(REGISTRY).unwrap();
    let result = oracle_swap(&mut swap, &reg, ip_id, 0, 0, 1_000_000);
    assert_eq!(result.err(), Some(ContractError::OracleNotConfigured));
}

#[test]
fn test_oracle_price_invalid_zero_rejected() {
    let (reg, ip_id) = registry();
    let mut swap = marketplace(&reg, ip_id);
    swap.set_oracle(SELLER, ORACLE, true).unwrap();
    assert_eq!(swap.get_oracle_price(0).err(), Some(ContractError::OraclePriceInvalid));
}

#[test]
fn price_bounds_of_zero_are_no_bounds() {
    assert!(validate_price_bounds(1, 0, 0).is_ok());
    assert!(validate_price_bounds(500, 500, 500).is_ok());
    assert_eq!(validate_price_bounds(499, 500, 0).err(), Some(ContractError::OraclePriceBelowMin));
    assert_eq!(validate_price_bounds(501, 0, 500).err(), Some(ContractError::OraclePriceAboveMax));
}
