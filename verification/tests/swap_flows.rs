use atomic_ip::atomic_swap::state::AtomicSwap;
use atomic_ip::atomic_swap::types::{ContractError, SwapCondition, SwapStatus, Transfer};
use atomic_ip::common::{Addr, Bytes32};
use atomic_ip::crypto::create_commitment_hash;
use atomic_ip::ip_registry::state::IpRegistry;
use soroban_sdk::Env;

const REGISTRY: Addr = Addr { id: 100 };
const CONTRACT: Addr = Addr { id: 200 };
const TREASURY: Addr = Addr { id: 300 };
const TOKEN: Addr = Addr { id: 400 };
const SELLER: Addr = Addr { id: 1 };
const BUYER: Addr = Addr { id: 2 };

struct World {
    env: Env,
    reg: IpRegistry,
    swap: AtomicSwap,
}

fn world() -> World {
    let mut swap = AtomicSwap::new(CONTRACT, TREASURY);
    swap.initialize(REGISTRY).unwrap();
    World { env: Env::default(), reg: IpRegistry::new(REGISTRY), swap }
}

/// Commits an IP for `owner` from a secret and blinding factor.
fn commit(w: &mut World, owner: Addr, secret: Bytes32, blinding: Bytes32) -> u64 {
    let hash = create_commitment_hash(&w.env, &secret, &blinding);
    w.reg.commit_ip(&w.env, owner, hash, 0, 0).unwrap()
}

/// The usual fixture: one IP of the seller committed from 0xAA / 0xBB.
fn with_ip() -> (World, u64, Bytes32, Bytes32) {
    let mut w = world();
    let secret = [0xAAu8; 32];
    let blinding = [0xBBu8; 32];
    let ip_id = commit(&mut w, SELLER, secret, blinding);
    (w, ip_id, secret, blinding)
}

fn initiate(w: &mut World, ip_id: u64, price: i128, now: u64) -> u64 {
    w.swap.initiate_swap(&w.reg, TOKEN, ip_id, SELLER, price, BUYER, 0, None, 0, false, now).unwrap()
}

fn settle_key(w: &mut World, swap_id: u64, secret: &Bytes32, blinding: &Bytes32, now: u64) -> Vec<Transfer> {
    let (_, t) = w.swap.reveal_key(&mut w.reg, &w.env, swap_id, SELLER, secret, blinding, now).unwrap();
    t
}

fn status(w: &World, swap_id: u64) -> SwapStatus {
    w.swap.get_swap(swap_id).unwrap().status
}

// ── Arbitration timeout ─────────────────────────────────────────────────────

const T0: u64 = 1_000_000;

fn disputed() -> (World, u64) {
    let (mut w, ip_id, _, _) = with_ip();
    let swap_id = initiate(&mut w, ip_id, 1000, T0);
    w.swap.accept_swap(swap_id, T0).unwrap();
    w.swap.raise_dispute(swap_id, T0).unwrap();
    (w, swap_id)
}

#[test]
fn test_request_arbitration_records_timestamp() {
    let (mut w, swap_id) = disputed();
    w.swap.request_arbitration(swap_id, BUYER, T0).unwrap();
    assert_eq!(status(&w, swap_id), SwapStatus::Disputed);
}

#[test]
fn test_auto_refund_before_timeout_rejected() {
    let (mut w, swap_id) = disputed();
    w.swap.request_arbitration(swap_id, BUYER, T0).unwrap();
    let result = w.swap.auto_refund_timeout(swap_id, T0 + 604_800);
    assert!(result.is_err(), "auto_refund must fail before timeout elapses");
}

#[test]
fn test_auto_refund_after_timeout_succeeds() {
    let (mut w, swap_id) = disputed();
    w.swap.request_arbitration(swap_id, BUYER, T0).unwrap();
    let t = w.swap.auto_refund_timeout(swap_id, T0 + 1_209_601).unwrap();
    assert_eq!(status(&w, swap_id), SwapStatus::Cancelled);
    assert_eq!(t[0], Transfer { token: TOKEN, from: CONTRACT, to: BUYER, amount: 1000 });
}

#[test]
fn test_auto_refund_without_arbitration_request_rejected() {
    let (mut w, swap_id) = disputed();
    let result = w.swap.auto_refund_timeout(swap_id, T0 + 2_000_000);
    assert!(result.is_err(), "auto_refund must fail when no arbitration was requested");
}

#[test]
fn test_auto_refund_only_once() {
    let (mut w, swap_id) = disputed();
    w.swap.request_arbitration(swap_id, BUYER, T0).unwrap();
    w.swap.auto_refund_timeout(swap_id, T0 + 1_209_601).unwrap();
    let result = w.swap.auto_refund_timeout(swap_id, T0 + 1_209_601);
    assert!(result.is_err(), "second auto_refund call must fail");
}

#[test]
fn test_third_party_can_trigger_auto_refund() {
    let (mut w, swap_id) = disputed();
    w.swap.request_arbitration(swap_id, BUYER, T0).unwrap();
    w.swap.auto_refund_timeout(swap_id, T0 + 1_209_601).unwrap();
    assert_eq!(status(&w, swap_id), SwapStatus::Cancelled);
}

#[test]
fn test_arbitration_timestamp_not_overwritten_on_second_request() {
    let (mut w, swap_id) = disputed();
    w.swap.request_arbitration(swap_id, BUYER, T0).unwrap();
    w.swap.request_arbitration(swap_id, SELLER, T0 + 604_800).unwrap();
    w.swap.auto_refund_timeout(swap_id, T0 + 604_800 + 604_801).unwrap();
    assert_eq!(status(&w, swap_id), SwapStatus::Cancelled);
}

#[test]
fn request_arbitration_by_stranger_is_unauthorized() {
    let (mut w, swap_id) = disputed();
    assert_eq!(w.swap.request_arbitration(swap_id, Addr { id: 77 }, T0).err(), Some(ContractError::Unauthorized));
}

// ── Conditional acceptance ──────────────────────────────────────────────────

#[test]
fn test_conditional_no_conditions_succeeds() {
    let (mut w, ip_id, _, _) = with_ip();
    let swap_id = initiate(&mut w, ip_id, 500, 0);
    let t = w.swap.accept_swap_conditional(swap_id, vec![], 0).unwrap();
    let swap = w.swap.get_swap(swap_id).unwrap();
    assert_eq!(swap.status, SwapStatus::Accepted);
    assert!(swap.conditions.is_empty());
    assert_eq!(t, vec![Transfer { token: TOKEN, from: BUYER, to: CONTRACT, amount: 500 }]);
}

#[test]
fn test_conditional_key_valid_reveal_succeeds() {
    let (mut w, ip_id, secret, blinding) = with_ip();
    let swap_id = initiate(&mut w, ip_id, 500, 0);
    w.swap.accept_swap_conditional(swap_id, vec![SwapCondition::KeyValid], 0).unwrap();
    assert_eq!(status(&w, swap_id), SwapStatus::Accepted);
    settle_key(&mut w, swap_id, &secret, &blinding, 0);
    assert_eq!(status(&w, swap_id), SwapStatus::Completed);
}

#[test]
fn test_conditional_price_below_passes() {
    let (mut w, ip_id, _, _) = with_ip();
    let swap_id = initiate(&mut w, ip_id, 300, 0);
    w.swap.accept_swap_conditional(swap_id, vec![SwapCondition::PriceBelow(500)], 0).unwrap();
    assert_eq!(status(&w, swap_id), SwapStatus::Accepted);
}

#[test]
fn test_conditional_price_below_fails() {
    let (mut w, ip_id, _, _) = with_ip();
    let swap_id = initiate(&mut w, ip_id, 500, 0);
    let result = w.swap.accept_swap_conditional(swap_id, vec![SwapCondition::PriceBelow(500)], 0);
    assert_eq!(result.err(), Some(ContractError::ConditionNotMet));
}

#[test]
fn test_conditional_time_after_passes() {
    let (mut w, ip_id, _, _) = with_ip();
    let swap_id = initiate(&mut w, ip_id, 500, 0);
    let threshold = 100;
    w.swap.accept_swap_conditional(swap_id, vec![SwapCondition::TimeAfter(threshold)], threshold).unwrap();
    assert_eq!(status(&w, swap_id), SwapStatus::Accepted);
}

#[test]
fn test_conditional_time_after_fails() {
    let (mut w, ip_id, _, _) = with_ip();
    let swap_id = initiate(&mut w, ip_id, 500, 0);
    let result = w.swap.accept_swap_conditional(swap_id, vec![SwapCondition::TimeAfter(9999)], 0);
    assert_eq!(result.err(), Some(ContractError::ConditionNotMet));
}

#[test]
fn test_conditional_multiple_all_pass() {
    let (mut w, ip_id, secret, blinding) = with_ip();
    let swap_id = initiate(&mut w, ip_id, 300, 0);
    let now = 0;
    let conditions = vec![SwapCondition::PriceBelow(500), SwapCondition::TimeAfter(now), SwapCondition::KeyValid];
    w.swap.accept_swap_conditional(swap_id, conditions, now).unwrap();
    assert_eq!(status(&w, swap_id), SwapStatus::Accepted);
    settle_key(&mut w, swap_id, &secret, &blinding, now);
    assert_eq!(status(&w, swap_id), SwapStatus::Completed);
}

#[test]
fn test_conditional_multiple_one_fails() {
    let (mut w, ip_id, _, _) = with_ip();
    let swap_id = initiate(&mut w, ip_id, 300, 0);
    let conditions = vec![SwapCondition::PriceBelow(500), SwapCondition::TimeAfter(9999)];
    let result = w.swap.accept_swap_conditional(swap_id, conditions, 0);
    assert_eq!(result.err(), Some(ContractError::ConditionNotMet));
    assert_eq!(status(&w, swap_id), SwapStatus::Pending);
}

#[test]
fn test_conditional_conditions_persist_to_reveal() {
    let (mut w, ip_id, secret, blinding) = with_ip();
    let swap_id = initiate(&mut w, ip_id, 300, 0);
    let now = 0;
    let conditions = vec![SwapCondition::PriceBelow(500), SwapCondition::TimeAfter(now)];
    w.swap.accept_swap_conditional(swap_id, conditions, now).unwrap();
    settle_key(&mut w, swap_id, &secret, &blinding, now + 100);
    assert_eq!(status(&w, swap_id), SwapStatus::Completed);
}

#[test]
fn test_conditional_on_accepted_swap_fails() {
    let (mut w, ip_id, _, _) = with_ip();
    let swap_id = initiate(&mut w, ip_id, 500, 0);
    w.swap.accept_swap(swap_id, 0).unwrap();
    let result = w.swap.accept_swap_conditional(swap_id, vec![], 0);
    assert!(result.is_err());
    assert_eq!(result.err(), Some(ContractError::NotPending));
}

// ── Multi-signer reveal ─────────────────────────────────────────────────────

const CO_SIGNER: Addr = Addr { id: 3 };

fn signed_swap(signers: Vec<Addr>) -> (World, u64, Bytes32, Bytes32) {
    let (mut w, ip_id, secret, blinding) = with_ip();
    let swap_id = w.swap.initiate_swap_with_signers(&w.reg, TOKEN, ip_id, SELLER, 1000, BUYER, signers, 0).unwrap();
    (w, swap_id, secret, blinding)
}

#[test]
fn test_reveal_blocked_until_all_signers_sign() {
    let (mut w, swap_id, secret, blinding) = signed_swap(vec![SELLER, CO_SIGNER]);
    w.swap.accept_swap(swap_id, 0).unwrap();
    w.swap.sign_swap_reveal(swap_id, SELLER).unwrap();
    let result = w.swap.reveal_key(&mut w.reg, &w.env, swap_id, SELLER, &secret, &blinding, 0);
    assert!(result.is_err(), "reveal must fail when not all signers have signed");
    assert_eq!(result.err(), Some(ContractError::NotAllSigned));
}

#[test]
fn test_reveal_succeeds_after_all_signers_sign() {
    let (mut w, swap_id, secret, blinding) = signed_swap(vec![SELLER, CO_SIGNER]);
    w.swap.accept_swap(swap_id, 0).unwrap();
    w.swap.sign_swap_reveal(swap_id, SELLER).unwrap();
    w.swap.sign_swap_reveal(swap_id, CO_SIGNER).unwrap();
    settle_key(&mut w, swap_id, &secret, &blinding, 0);
    assert_eq!(status(&w, swap_id), SwapStatus::Completed);
}

#[test]
fn test_non_required_signer_cannot_sign() {
    let (mut w, swap_id, _, _) = signed_swap(vec![SELLER, CO_SIGNER]);
    w.swap.accept_swap(swap_id, 0).unwrap();
    let result = w.swap.sign_swap_reveal(swap_id, Addr { id: 66 });
    assert!(result.is_err(), "outsider must not be able to sign");
}

#[test]
fn test_duplicate_signature_rejected() {
    let (mut w, swap_id, _, _) = signed_swap(vec![SELLER, CO_SIGNER]);
    w.swap.accept_swap(swap_id, 0).unwrap();
    w.swap.sign_swap_reveal(swap_id, SELLER).unwrap();
    let result = w.swap.sign_swap_reveal(swap_id, SELLER);
    assert!(result.is_err(), "duplicate signature must be rejected");
}

#[test]
fn test_three_signers_all_must_sign() {
    let signer3 = Addr { id: 4 };
    let (mut w, swap_id, secret, blinding) = signed_swap(vec![SELLER, CO_SIGNER, signer3]);
    w.swap.accept_swap(swap_id, 0).unwrap();
    w.swap.sign_swap_reveal(swap_id, SELLER).unwrap();
    w.swap.sign_swap_reveal(swap_id, CO_SIGNER).unwrap();
    assert!(
        w.swap.reveal_key(&mut w.reg, &w.env, swap_id, SELLER, &secret, &blinding, 0).is_err(),
        "reveal must fail with only 2 of 3 signatures"
    );
    w.swap.sign_swap_reveal(swap_id, signer3).unwrap();
    settle_key(&mut w, swap_id, &secret, &blinding, 0);
    assert_eq!(status(&w, swap_id), SwapStatus::Completed);
}

#[test]
fn test_sign_on_pending_swap_rejected() {
    let (mut w, swap_id, _, _) = signed_swap(vec![SELLER, CO_SIGNER]);
    let result = w.swap.sign_swap_reveal(swap_id, SELLER);
    assert!(result.is_err(), "sign must fail on a Pending swap");
}

#[test]
fn test_empty_signers_list_rejected() {
    let (mut w, ip_id, _, _) = with_ip();
    let result = w.swap.initiate_swap_with_signers(&w.reg, TOKEN, ip_id, SELLER, 1000, BUYER, vec![], 0);
    assert!(result.is_err(), "empty signers list must be rejected");
    assert_eq!(w.swap.swap_count(), 0);
}

// ── Reputation ──────────────────────────────────────────────────────────────

#[test]
fn test_default_reputation_is_50() {
    let (w, _, _, _) = with_ip();
    assert_eq!(w.swap.get_reputation(Addr { id: 55 }), 50);
}

#[test]
fn test_reputation_increases_on_successful_swap() {
    let (mut w, ip_id, secret, blinding) = with_ip();
    let swap_id = initiate(&mut w, ip_id, 1000, 0);
    w.swap.accept_swap(swap_id, 0).unwrap();
    settle_key(&mut w, swap_id, &secret, &blinding, 0);
    assert_eq!(w.swap.get_reputation(SELLER), 55);
    assert_eq!(w.swap.get_reputation(BUYER), 55);
}

#[test]
fn test_reputation_decreases_on_cancel_swap() {
    let (mut w, ip_id, _, _) = with_ip();
    let swap_id = initiate(&mut w, ip_id, 1000, 0);
    w.swap.cancel_swap(swap_id, SELLER, 0).unwrap();
    assert_eq!(w.swap.get_reputation(SELLER), 40);
}

#[test]
fn test_reputation_decreases_on_cancel_expired_swap() {
    let (mut w, ip_id, _, _) = with_ip();
    let swap_id = initiate(&mut w, ip_id, 1000, 0);
    w.swap.accept_swap(swap_id, 0).unwrap();
    let t = w.swap.cancel_expired_swap(swap_id, BUYER, 604_801).unwrap();
    assert_eq!(w.swap.get_reputation(SELLER), 40);
    assert_eq!(t, vec![Transfer { token: TOKEN, from: CONTRACT, to: BUYER, amount: 1000 }]);
}

#[test]
fn test_reputation_clamped_at_zero() {
    let mut w = world();
    for i in 0..6u8 {
        let ip_id_i = commit(&mut w, SELLER, [i + 1; 32], [i + 0x80; 32]);
        let swap_id = initiate(&mut w, ip_id_i, 100, 0);
        w.swap.cancel_swap(swap_id, SELLER, 0).unwrap();
    }
    assert_eq!(w.swap.get_reputation(SELLER), 0);
}

#[test]
fn test_reputation_clamped_at_100() {
    let mut w = world();
    for i in 0..10u8 {
        let s = [i + 1; 32];
        let b = [i + 0x80; 32];
        let ip_id_i = commit(&mut w, SELLER, s, b);
        let swap_id = initiate(&mut w, ip_id_i, 100, 0);
        w.swap.accept_swap(swap_id, 0).unwrap();
        settle_key(&mut w, swap_id, &s, &b, 0);
    }
    assert_eq!(w.swap.get_reputation(SELLER), 100);
}

#[test]
fn test_set_reputation_multiplier_enforced() {
    let (mut w, ip_id, _, _) = with_ip();
    let swap_id = initiate(&mut w, ip_id, 1000, 0);
    w.swap.set_reputation_multiplier(swap_id, 80).unwrap();
    let result = w.swap.accept_swap(swap_id, 0);
    assert!(result.is_err(), "accept_swap must fail when buyer reputation is below minimum");
    assert_eq!(result.err(), Some(ContractError::InsufficientReputation));
}

#[test]
fn test_set_reputation_multiplier_passes_when_met() {
    let (mut w, ip_id, _, _) = with_ip();
    let s2 = [0x11u8; 32];
    let b2 = [0x22u8; 32];
    let ip_id2 = commit(&mut w, SELLER, s2, b2);
    let swap_id2 = initiate(&mut w, ip_id2, 100, 0);
    w.swap.accept_swap(swap_id2, 0).unwrap();
    settle_key(&mut w, swap_id2, &s2, &b2, 0);

    let swap_id = initiate(&mut w, ip_id, 1000, 0);
    w.swap.set_reputation_multiplier(swap_id, 55).unwrap();
    w.swap.accept_swap(swap_id, 0).unwrap();
    assert_eq!(status(&w, swap_id), SwapStatus::Accepted);
}

// ── Rollback ────────────────────────────────────────────────────────────────

fn completed() -> (World, u64) {
    let (mut w, ip_id, secret, blinding) = with_ip();
    let swap_id = initiate(&mut w, ip_id, 1000, T0);
    w.swap.accept_swap(swap_id, T0).unwrap();
    settle_key(&mut w, swap_id, &secret, &blinding, T0);
    (w, swap_id)
}

#[test]
fn test_rollback_invalid_key_refunds_90_percent() {
    let (mut w, swap_id) = completed();
    let (rolled_back, _) = w.swap.validate_and_rollback_swap(swap_id, false, T0).unwrap();
    assert!(rolled_back);
    assert_eq!(status(&w, swap_id), SwapStatus::RolledBack);
}

#[test]
fn test_rollback_valid_key_returns_false_no_state_change() {
    let (mut w, swap_id) = completed();
    let (rolled_back, t) = w.swap.validate_and_rollback_swap(swap_id, true, T0).unwrap();
    assert!(!rolled_back);
    assert!(t.is_empty());
    assert_eq!(status(&w, swap_id), SwapStatus::Completed);
}

#[test]
fn test_rollback_after_24h_window_rejected() {
    let (mut w, swap_id) = completed();
    let result = w.swap.validate_and_rollback_swap(swap_id, false, T0 + 86_401);
    assert!(result.is_err(), "rollback must fail after 24h window");
    assert_eq!(result.err(), Some(ContractError::RollbackWindowExpired));
}

#[test]
fn test_rollback_within_24h_succeeds() {
    let (mut w, swap_id) = completed();
    let (rolled_back, _) = w.swap.validate_and_rollback_swap(swap_id, false, T0 + 86_399).unwrap();
    assert!(rolled_back);
}

#[test]
fn test_rollback_refund_amounts_are_correct() {
    let (mut w, swap_id) = completed();
    let (_, t) = w.swap.validate_and_rollback_swap(swap_id, false, T0).unwrap();
    let to_buyer: i128 = t.iter().filter(|x| x.to == BUYER).map(|x| x.amount).sum();
    assert_eq!(to_buyer, 900);
    assert_eq!(
        t,
        vec![
            Transfer { token: TOKEN, from: CONTRACT, to: BUYER, amount: 900 },
            Transfer { token: TOKEN, from: CONTRACT, to: TREASURY, amount: 100 },
        ]
    );
}

#[test]
fn test_rollback_only_buyer_can_call() {
    // The host checks the buyer's authorization; every refund goes to the
    // buyer the swap records, never to anyone else.
    let (mut w, swap_id) = completed();
    assert_eq!(w.swap.get_swap(swap_id).unwrap().buyer, BUYER);
    let (rolled_back, t) = w.swap.validate_and_rollback_swap(swap_id, false, T0).unwrap();
    assert!(rolled_back);
    assert!(t.iter().all(|x| x.to == BUYER || x.to == TREASURY));
    assert!(t.iter().any(|x| x.to == BUYER));
}

#[test]
fn test_rollback_cannot_be_called_twice() {
    let (mut w, swap_id) = completed();
    w.swap.validate_and_rollback_swap(swap_id, false, T0).unwrap();
    let result = w.swap.validate_and_rollback_swap(swap_id, false, T0);
    assert!(result.is_err(), "second rollback call must fail");
}

#[test]
fn test_rollback_on_non_completed_swap_rejected() {
    let (mut w, ip_id, _, _) = with_ip();
    let swap_id = initiate(&mut w, ip_id, 1000, T0);
    w.swap.accept_swap(swap_id, T0).unwrap();
    let result = w.swap.validate_and_rollback_swap(swap_id, false, T0);
    assert!(result.is_err(), "rollback must fail on non-Completed swap");
}

// ── Settlement scenarios ────────────────────────────────────────────────────

#[test]
fn full_swap_pays_fee_and_seller_and_moves_ip() {
    let (mut w, ip_id, secret, blinding) = with_ip();
    let swap_id = initiate(&mut w, ip_id, 100_000_000, 0);
    let paid = w.swap.accept_swap(swap_id, 0).unwrap();
    assert_eq!(paid, vec![Transfer { token: TOKEN, from: BUYER, to: CONTRACT, amount: 100_000_000 }]);
    let t = settle_key(&mut w, swap_id, &secret, &blinding, 5);
    assert_eq!(
        t,
        vec![
            Transfer { token: TOKEN, from: CONTRACT, to: TREASURY, amount: 2_500_000 },
            Transfer { token: TOKEN, from: CONTRACT, to: SELLER, amount: 97_500_000 },
        ]
    );
    assert_eq!(w.reg.get_ip(ip_id).unwrap().owner, BUYER);
    let history = w.swap.get_swap_history(swap_id);
    let statuses: Vec<SwapStatus> = history.iter().map(|h| h.status).collect();
    assert_eq!(statuses, vec![SwapStatus::Pending, SwapStatus::Accepted, SwapStatus::Completed]);
}

#[test]
fn invalid_key_refunds_buyer_and_cancels() {
    let (mut w, ip_id, _, blinding) = with_ip();
    let swap_id = initiate(&mut w, ip_id, 1000, 0);
    w.swap.accept_swap(swap_id, 0).unwrap();
    let (event, t) = w.swap.reveal_key(&mut w.reg, &w.env, swap_id, SELLER, &[0x01u8; 32], &blinding, 0).unwrap();
    assert!(event.is_none());
    assert_eq!(t, vec![Transfer { token: TOKEN, from: CONTRACT, to: BUYER, amount: 1000 }]);
    assert_eq!(status(&w, swap_id), SwapStatus::Cancelled);
    assert_eq!(w.reg.get_ip(ip_id).unwrap().owner, SELLER);
    // The IP is free again.
    assert!(w.swap.initiate_swap(&w.reg, TOKEN, ip_id, SELLER, 10, BUYER, 0, None, 0, false, 0).is_ok());
}

#[test]
fn initiation_errors() {
    let (mut w, ip_id, _, _) = with_ip();
    let e = |r: Result<u64, ContractError>| r.err();
    assert_eq!(
        e(w.swap.initiate_swap(&w.reg, TOKEN, ip_id, SELLER, 0, BUYER, 0, None, 0, false, 0)),
        Some(ContractError::PriceTooSmall)
    );
    assert_eq!(
        e(w.swap.initiate_swap(&w.reg, TOKEN, ip_id, BUYER, 10, SELLER, 0, None, 0, false, 0)),
        Some(ContractError::NotIPOwner)
    );
    assert_eq!(
        e(w.swap.initiate_swap(&w.reg, TOKEN, 42, SELLER, 10, BUYER, 0, None, 0, false, 0)),
        Some(ContractError::SwapNotFound)
    );
    initiate(&mut w, ip_id, 10, 0);
    assert_eq!(
        e(w.swap.initiate_swap(&w.reg, TOKEN, ip_id, SELLER, 10, BUYER, 0, None, 0, false, 0)),
        Some(ContractError::SwapExists)
    );
    let other = commit(&mut w, SELLER, [3u8; 32], [4u8; 32]);
    w.reg.revoke_ip(other, 0).unwrap();
    assert_eq!(
        e(w.swap.initiate_swap(&w.reg, TOKEN, other, SELLER, 10, BUYER, 0, None, 0, false, 0)),
        Some(ContractError::IpRevoked)
    );
    let mut fresh = AtomicSwap::new(CONTRACT, TREASURY);
    assert_eq!(
        e(fresh.initiate_swap(&w.reg, TOKEN, ip_id, SELLER, 10, BUYER, 0, None, 0, false, 0)),
        Some(ContractError::NotInitialized)
    );
}

#[test]
fn cancel_and_reveal_errors() {
    let (mut w, ip_id, secret, blinding) = with_ip();
    let swap_id = initiate(&mut w, ip_id, 1000, 0);
    assert_eq!(w.swap.cancel_swap(swap_id, Addr { id: 9 }, 0).err(), Some(ContractError::OnlySellerBuyer));
    assert_eq!(
        w.swap.reveal_key(&mut w.reg, &w.env, swap_id, SELLER, &secret, &blinding, 0).err(),
        Some(ContractError::NotAccepted)
    );
    w.swap.accept_swap(swap_id, 0).unwrap();
    assert_eq!(w.swap.cancel_swap(swap_id, SELLER, 0).err(), Some(ContractError::OnlyPending));
    assert_eq!(
        w.swap.reveal_key(&mut w.reg, &w.env, swap_id, BUYER, &secret, &blinding, 0).err(),
        Some(ContractError::OnlySellerReveal)
    );
    assert_eq!(w.swap.accept_swap(swap_id, 0).err(), Some(ContractError::NotPending));
    assert_eq!(w.swap.accept_swap(99, 0).err(), Some(ContractError::SwapNotFound));
}

#[test]
fn swap_indexes_list_each_party_and_ip() {
    let mut w = world();
    let ip1 = commit(&mut w, SELLER, [0x61u8; 32], [0x62u8; 32]);
    let ip2 = commit(&mut w, SELLER, [0x63u8; 32], [0x64u8; 32]);
    let a = initiate(&mut w, ip1, 10, 0);
    let b = initiate(&mut w, ip2, 20, 0);
    assert_eq!(w.swap.get_swaps_by_seller(SELLER), Some(vec![a, b]));
    assert_eq!(w.swap.get_swaps_by_buyer(BUYER), Some(vec![a, b]));
    assert_eq!(w.swap.get_swaps_by_ip(ip2), Some(vec![b]));
    assert_eq!(w.swap.get_swaps_by_seller(BUYER), None);
    assert_eq!(w.swap.swap_count(), 2);
}

#[test]
fn cancel_expired_swap_needs_time_past_expiry() {
    let (mut w, ip_id, _, _) = with_ip();
    let swap_id = initiate(&mut w, ip_id, 1000, 0);
    w.swap.accept_swap(swap_id, 0).unwrap();
    let expiry = w.swap.get_swap(swap_id).unwrap().expiry;
    assert_eq!(w.swap.cancel_expired_swap(swap_id, BUYER, expiry).err(), Some(ContractError::NotExpired));
    assert!(w.swap.cancel_expired_swap(swap_id, BUYER, expiry + 1).is_ok());
}

#[test]
fn protocol_config_changes_take_effect() {
    let (mut w, ip_id, secret, blinding) = with_ip();
    let first = initiate(&mut w, ip_id, 500, 0);
    w.swap.cancel_swap(first, SELLER, 0).unwrap();
    let new_treasury = Addr { id: 301 };
    assert_eq!(
        w.swap.admin_set_protocol_config(10_001, new_treasury, 10, 20, 0).err(),
        Some(ContractError::InvalidFeeBps)
    );
    assert_eq!(w.swap.admin_set_protocol_config(500, new_treasury, 10, 20, 0).err(), Some(ContractError::UnauthorizedUpg));
    let mut fresh = AtomicSwap::new(CONTRACT, TREASURY);
    fresh.initialize(REGISTRY).unwrap();
    fresh.admin_set_protocol_config(500, new_treasury, 10, 20, 0).unwrap();
    let config = fresh.protocol_config();
    assert_eq!(config.protocol_fee_bps, 500);
    assert_eq!(config.treasury, new_treasury);
    assert_eq!(config.dispute_window_seconds, 10);
    let swap_id = fresh.initiate_swap(&w.reg, TOKEN, ip_id, SELLER, 1000, BUYER, 0, None, 0, false, 0).unwrap();
    fresh.accept_swap(swap_id, 0).unwrap();
    let (_, t) = fresh.reveal_key(&mut w.reg, &w.env, swap_id, SELLER, &secret, &blinding, 0).unwrap();
    assert_eq!(
        t,
        vec![
            Transfer { token: TOKEN, from: CONTRACT, to: new_treasury, amount: 50 },
            Transfer { token: TOKEN, from: CONTRACT, to: SELLER, amount: 950 },
        ]
    );
}

#[test]
fn won_auction_locks_its_ip() {
    let (mut w, ip_id, _, _) = with_ip();
    let auction = w.swap.start_ip_auction(&w.reg, TOKEN, ip_id, SELLER, 100, 50, 0).unwrap();
    w.swap.place_bid(auction, BUYER, 150, 10).unwrap();
    let swap_id = w.swap.finalize_auction(auction, 60).unwrap().unwrap();
    assert_eq!(status(&w, swap_id), SwapStatus::Accepted);
    assert_eq!(
        w.swap.initiate_swap(&w.reg, TOKEN, ip_id, SELLER, 10, BUYER, 0, None, 0, false, 60).err(),
        Some(ContractError::SwapExists)
    );
}

#[test]
fn auction_closes_even_over_an_open_swap() {
    let (mut w, ip_id, _, _) = with_ip();
    let auction = w.swap.start_ip_auction(&w.reg, TOKEN, ip_id, SELLER, 100, 50, 0).unwrap();
    w.swap.place_bid(auction, BUYER, 150, 10).unwrap();
    let listed = initiate(&mut w, ip_id, 10, 20);
    let won = w.swap.finalize_auction(auction, 60).unwrap().unwrap();
    assert_eq!(won, listed + 1);
    let record = w.swap.get_swap(won).unwrap();
    assert_eq!(record.status, SwapStatus::Accepted);
    assert_eq!(record.price, 150);
    assert_eq!(record.buyer, BUYER);
    assert!(w.swap.get_auction(auction).unwrap().finalized);
    // The listed swap still holds the IP's lock.
    assert_eq!(
        w.swap.initiate_swap(&w.reg, TOKEN, ip_id, SELLER, 10, BUYER, 0, None, 0, false, 60).err(),
        Some(ContractError::SwapExists)
    );
}

#[test]
fn arbitration_settles_any_swap() {
    let (mut w, ip_id, _, _) = with_ip();
    let swap_id = initiate(&mut w, ip_id, 1000, 0);
    let t = w.swap.arbitrate_swap(swap_id, true, 0).unwrap();
    assert_eq!(t, vec![Transfer { token: TOKEN, from: CONTRACT, to: BUYER, amount: 1000 }]);
    assert_eq!(status(&w, swap_id), SwapStatus::Cancelled);
    assert_eq!(w.swap.arbitrate_swap(99, true, 0).err(), Some(ContractError::SwapNotFound));
}

#[test]
fn refund_of_a_huge_price_needs_no_fee() {
    let (mut w, ip_id, _, blinding) = with_ip();
    let price = i128::MAX / 2;
    let swap_id = initiate(&mut w, ip_id, price, 0);
    w.swap.accept_swap(swap_id, 0).unwrap();
    let (event, t) = w.swap.reveal_key(&mut w.reg, &w.env, swap_id, SELLER, &[0x01u8; 32], &blinding, 0).unwrap();
    assert!(event.is_none());
    assert_eq!(t, vec![Transfer { token: TOKEN, from: CONTRACT, to: BUYER, amount: price }]);
}
