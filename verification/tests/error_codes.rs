use atomic_ip::atomic_swap::types::ContractError as SwapError;
use atomic_ip::ip_registry::types::ContractError as RegistryError;

#[test]
fn swap_error_codes_are_stable() {
    assert_eq!(SwapError::SwapNotFound.code(), 1);
    assert_eq!(SwapError::InvalidKey.code(), 2);
    assert_eq!(SwapError::Unauthorized.code(), 23);
    assert_eq!(SwapError::FuncChanged.code(), 31);
    assert_eq!(SwapError::InsufficientReputation.code(), 40);
    assert_eq!(SwapError::OracleNotConfigured.code(), 46);
    assert_eq!(SwapError::ConditionNotMet.code(), 50);
}

#[test]
fn registry_error_codes_are_stable() {
    assert_eq!(RegistryError::IpNotFound.code(), 1);
    assert_eq!(RegistryError::Unauthorized.code(), 6);
    assert_eq!(RegistryError::NotAnArbitrator.code(), 23);
}
