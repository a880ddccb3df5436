use atomic_ip::atomic_swap::state::AtomicSwap;
use atomic_ip::atomic_swap::types::{SwapStatus, Transfer};
use atomic_ip::common::{Addr, Bytes32};
use atomic_ip::crypto::create_commitment_hash;
use atomic_ip::ip_registry::state::IpRegistry;
use atomic_ip::ip_registry::types::ContractError;
use soroban_sdk::Env;

const REGISTRY: Addr = Addr { id: 100 };
const CONTRACT: Addr = Addr { id: 200 };
const TREASURY: Addr = Addr { id: 300 };
const TOKEN: Addr = Addr { id: 400 };
const OWNER: Addr = Addr { id: 1 };
const OTHER: Addr = Addr { id: 2 };

fn filled(b: u8) -> Bytes32 {
    [b; 32]
}

#[test]
fn delegates_commit_and_chains_are_bounded() {
    let env = Env::default();
    let mut reg = IpRegistry::new(REGISTRY);
    let d1 = Addr { id: 11 };
    assert!(!reg.is_delegate(OWNER, d1));
    assert_eq!(reg.commit_ip_delegated(&env, OWNER, filled(1), 0, 0).err(), Some(ContractError::Unauthorized));

    reg.delegate_commitment_authority(OWNER, OWNER, d1).unwrap();
    assert!(reg.is_delegate(OWNER, d1));
    let ip_id = reg.commit_ip_delegated(&env, OWNER, filled(1), 0, 0).unwrap();
    let record = reg.get_ip(ip_id).unwrap();
    assert_eq!(record.owner, OWNER);
    assert_eq!(record.commitment_hash, filled(1));

    // Each delegate may delegate one level further, up to the maximum depth.
    let mut prev = d1;
    for k in 0..4u64 {
        let next = Addr { id: 20 + k };
        reg.delegate_commitment_authority(OWNER, prev, next).unwrap();
        assert!(reg.is_delegate(OWNER, next));
        prev = next;
    }
    assert_eq!(
        reg.delegate_commitment_authority(OWNER, prev, Addr { id: 99 }).err(),
        Some(ContractError::Unauthorized)
    );
    // A stranger cannot delegate.
    assert_eq!(
        reg.delegate_commitment_authority(OWNER, Addr { id: 77 }, Addr { id: 78 }).err(),
        Some(ContractError::Unauthorized)
    );

    reg.revoke_delegation(OWNER, d1);
    assert!(!reg.is_delegate(OWNER, d1));
}

#[test]
fn licenses_access_and_renewals() {
    let env = Env::default();
    let mut reg = IpRegistry::new(REGISTRY);
    let ip_id = reg.commit_ip(&env, OWNER, filled(5), 0, 0).unwrap();

    reg.grant_license(ip_id, OTHER, filled(9)).unwrap();
    assert_eq!(reg.get_licenses(ip_id).unwrap().len(), 1);
    reg.revoke_license(ip_id, OTHER).unwrap();
    assert_eq!(reg.get_licenses(ip_id).unwrap().len(), 0);
    assert_eq!(reg.revoke_license(ip_id, OTHER).err(), Some(ContractError::LicenseeNotFound));
    assert_eq!(reg.grant_license(99, OTHER, filled(9)).err(), Some(ContractError::IpNotFound));

    assert!(reg.check_ip_access(ip_id, OWNER, 3).unwrap());
    assert!(!reg.check_ip_access(ip_id, OTHER, 1).unwrap());
    reg.grant_ip_access(ip_id, OTHER, 2).unwrap();
    assert!(reg.check_ip_access(ip_id, OTHER, 2).unwrap());
    assert!(!reg.check_ip_access(ip_id, OTHER, 3).unwrap());
    assert_eq!(reg.grant_ip_access(ip_id, OTHER, 4).err(), Some(ContractError::Unauthorized));
    reg.revoke_ip_access(ip_id, OTHER).unwrap();
    assert!(!reg.check_ip_access(ip_id, OTHER, 1).unwrap());

    assert_eq!(reg.renew_ip(ip_id).unwrap(), 1);
    assert_eq!(reg.renew_ip(ip_id).unwrap(), 2);
    assert_eq!(reg.get_renewal_count(ip_id).unwrap(), 2);
    reg.revoke_ip(ip_id, 0).unwrap();
    assert_eq!(reg.renew_ip(ip_id).err(), Some(ContractError::IpAlreadyRevoked));
}

#[test]
fn stakes_are_slashed_once() {
    let env = Env::default();
    let mut reg = IpRegistry::new(REGISTRY);
    let ip_id = reg.commit_ip(&env, OWNER, filled(6), 0, 0).unwrap();
    assert_eq!(reg.slash_stake(ip_id).err(), Some(ContractError::StakeNotFound));
    reg.stake_commitment(ip_id, 500).unwrap();
    assert_eq!(reg.stake_commitment(ip_id, 500).err(), Some(ContractError::AlreadyStaked));
    let before = reg.get_reputation(OWNER);
    reg.slash_stake(ip_id).unwrap();
    let after = reg.get_reputation(OWNER);
    assert_eq!(after.score, before.score - 10);
    assert_eq!(after.disputes_lost, before.disputes_lost + 1);
    assert!(reg.get_stake(ip_id).unwrap().slashed);
    assert_eq!(reg.slash_stake(ip_id).err(), Some(ContractError::StakeAlreadySlashed));
}

#[test]
fn merging_different_commitments_is_refused() {
    let env = Env::default();
    let mut reg = IpRegistry::new(REGISTRY);
    let a = reg.commit_ip(&env, OWNER, filled(7), 0, 0).unwrap();
    let b = reg.commit_ip(&env, OTHER, filled(8), 0, 0).unwrap();
    assert_eq!(reg.merge_duplicate_commitment(a, b, 0).err(), Some(ContractError::CommitmentAlreadyRegistered));
    assert_eq!(reg.merge_duplicate_commitment(a, 99, 0).err(), Some(ContractError::IpNotFound));
    assert_eq!(reg.find_duplicate_commitment(&filled(7)), Some(a));
    assert_eq!(reg.find_duplicate_commitment(&filled(70)), None);
}

#[test]
fn escrow_paid_in_equals_escrow_paid_out() {
    // Collateral and an insurance premium: what comes in, less the premium,
    // goes back out on completion.
    let env = Env::default();
    let mut reg = IpRegistry::new(REGISTRY);
    let secret = filled(0x31);
    let blinding = filled(0x32);
    let ip_id = reg.commit_ip(&env, OWNER, create_commitment_hash(&env, &secret, &blinding), 0, 0).unwrap();
    let mut swap = AtomicSwap::new(CONTRACT, TREASURY);
    swap.initialize(REGISTRY).unwrap();
    let id = swap.initiate_swap(&reg, TOKEN, ip_id, OWNER, 1000, OTHER, 0, None, 50, true, 0).unwrap();
    let paid_in = swap.accept_swap(id, 0).unwrap();
    assert_eq!(
        paid_in,
        vec![
            Transfer { token: TOKEN, from: OTHER, to: CONTRACT, amount: 50 },
            Transfer { token: TOKEN, from: OTHER, to: CONTRACT, amount: 1000 },
            Transfer { token: TOKEN, from: OTHER, to: CONTRACT, amount: 20 },
        ]
    );
    assert_eq!(swap.get_swap_collateral(id), 50);
    let (_, paid_out) = swap.reveal_key(&mut reg, &env, id, OWNER, &secret, &blinding, 0).unwrap();
    let total_in: i128 = paid_in.iter().map(|t| t.amount).sum();
    let total_out: i128 = paid_out.iter().map(|t| t.amount).sum();
    assert_eq!(total_out, total_in - 20);
    assert!(paid_out.iter().all(|t| t.from == CONTRACT));
    assert_eq!(swap.get_swap(id).unwrap().status, SwapStatus::Completed);
}

#[test]
fn refund_returns_price_and_collateral() {
    let env = Env::default();
    let mut reg = IpRegistry::new(REGISTRY);
    let blinding = filled(0x42);
    let ip_id = reg.commit_ip(&env, OWNER, create_commitment_hash(&env, &filled(0x41), &blinding), 0, 0).unwrap();
    let mut swap = AtomicSwap::new(CONTRACT, TREASURY);
    swap.initialize(REGISTRY).unwrap();
    let id = swap.initiate_swap(&reg, TOKEN, ip_id, OWNER, 1000, OTHER, 0, None, 50, false, 0).unwrap();
    swap.accept_swap(id, 0).unwrap();
    let (event, t) = swap.reveal_key(&mut reg, &env, id, OWNER, &filled(0x99), &blinding, 0).unwrap();
    assert!(event.is_none());
    assert_eq!(
        t,
        vec![
            Transfer { token: TOKEN, from: CONTRACT, to: OTHER, amount: 1000 },
            Transfer { token: TOKEN, from: CONTRACT, to: OTHER, amount: 50 },
        ]
    );
    assert_eq!(swap.get_swap(id).unwrap().status, SwapStatus::Cancelled);
}

#[test]
fn audit_trail_records_commit_transfer_and_revoke() {
    let env = Env::default();
    let mut reg = IpRegistry::new(REGISTRY);
    let ip_id = reg.commit_ip(&env, OWNER, filled(0x51), 0, 1).unwrap();
    reg.transfer_ip(ip_id, OTHER, 2).unwrap();
    reg.revoke_ip(ip_id, 3).unwrap();
    let trail = reg.get_ip_audit_trail(ip_id).unwrap();
    assert_eq!(trail.len(), 3);
    assert_eq!(trail[0].timestamp, 1);
    assert_eq!(trail[2].timestamp, 3);
}
