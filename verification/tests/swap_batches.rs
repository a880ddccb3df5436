use atomic_ip::atomic_swap::state::AtomicSwap;
use atomic_ip::atomic_swap::types::{ContractError, PaymentSchedule, SwapFeeBreakdown, SwapStatus, Transfer};
use atomic_ip::common::{Addr, Bytes32};
use atomic_ip::crypto::create_commitment_hash;
use atomic_ip::ip_registry::state::IpRegistry;
use soroban_sdk::Env;

const REGISTRY: Addr = Addr { id: 100 };
const CONTRACT: Addr = Addr { id: 200 };
const TREASURY: Addr = Addr { id: 300 };
const TOKEN: Addr = Addr { id: 400 };
const SELLER: Addr = Addr { id: 1 };
const BUYER: Addr = Addr { id: 2 };

struct World {
    env: Env,
    reg: IpRegistry,
    swap: AtomicSwap,
}

fn world() -> World {
    let mut swap = AtomicSwap::new(CONTRACT, TREASURY);
    swap.initialize(REGISTRY).unwrap();
    World { env: Env::default(), reg: IpRegistry::new(REGISTRY), swap }
}

/// Commits an IP for the seller from `seed` and returns its id and key.
fn commit_ip(w: &mut World, seed: u8) -> (u64, Bytes32, Bytes32) {
    let secret = [seed; 32];
    let blinding = [seed.wrapping_add(0x80); 32];
    let hash = create_commitment_hash(&w.env, &secret, &blinding);
    let ip_id = w.reg.commit_ip(&w.env, SELLER, hash, 0, 0).unwrap();
    (ip_id, secret, blinding)
}

fn status(w: &World, swap_id: u64) -> SwapStatus {
    w.swap.get_swap(swap_id).unwrap().status
}

// ── Batch reveal, accept, arbitration and escrow ────────────────────────────

#[test]
fn test_batch_reveal_keys_updates_reputation() {
    let mut w = world();
    let (ip1, s1, b1) = commit_ip(&mut w, 0x01);
    let (ip2, s2, b2) = commit_ip(&mut w, 0x02);
    let ids = w.swap.batch_initiate_swap(&w.reg, TOKEN, &vec![ip1, ip2], SELLER, &vec![1000, 2000], BUYER, 0, None, 0).unwrap();
    w.swap.batch_accept_swaps(&ids, BUYER, 0).unwrap();

    assert_eq!(w.swap.get_reputation(SELLER), 50);
    assert_eq!(w.swap.get_reputation(BUYER), 50);

    let (fees, _) = w.swap.batch_reveal_keys(&w.reg, &w.env, &ids, &vec![s1, s2], &vec![b1, b2], SELLER, 0).unwrap();
    assert_eq!(fees.len(), 2);

    assert_eq!(w.swap.get_reputation(SELLER), 60);
    assert_eq!(w.swap.get_reputation(BUYER), 60);
}

#[test]
fn test_batch_reveal_keys_single_swap_reputation() {
    let mut w = world();
    let (ip1, s1, b1) = commit_ip(&mut w, 0x10);
    let ids = w.swap.batch_initiate_swap(&w.reg, TOKEN, &vec![ip1], SELLER, &vec![500], BUYER, 0, None, 0).unwrap();
    w.swap.batch_accept_swaps(&ids, BUYER, 0).unwrap();
    w.swap.batch_reveal_keys(&w.reg, &w.env, &ids, &vec![s1], &vec![b1], SELLER, 0).unwrap();
    assert_eq!(w.swap.get_reputation(SELLER), 55);
    assert_eq!(w.swap.get_reputation(BUYER), 55);
}

#[test]
fn batch_reveal_reports_fee_breakdown() {
    let mut w = world();
    let (ip1, s1, b1) = commit_ip(&mut w, 0x12);
    let referrer = Addr { id: 7 };
    let ids = w.swap.batch_initiate_swap(&w.reg, TOKEN, &vec![ip1], SELLER, &vec![1000], BUYER, 0, Some(referrer), 0).unwrap();
    w.swap.batch_accept_swaps(&ids, BUYER, 0).unwrap();
    let (fees, t) = w.swap.batch_reveal_keys(&w.reg, &w.env, &ids, &vec![s1], &vec![b1], SELLER, 0).unwrap();
    assert_eq!(
        fees,
        vec![SwapFeeBreakdown { swap_id: ids[0], price: 1000, protocol_fee: 25, referral_fee: 10, seller_amount: 965 }]
    );
    assert_eq!(
        t,
        vec![
            Transfer { token: TOKEN, from: CONTRACT, to: SELLER, amount: 965 },
            Transfer { token: TOKEN, from: CONTRACT, to: TREASURY, amount: 25 },
            Transfer { token: TOKEN, from: CONTRACT, to: referrer, amount: 10 },
        ]
    );
}

#[test]
fn batch_reveal_with_a_wrong_key_changes_nothing() {
    let mut w = world();
    let (ip1, s1, b1) = commit_ip(&mut w, 0x13);
    let (ip2, _s2, b2) = commit_ip(&mut w, 0x14);
    let ids = w.swap.batch_initiate_swap(&w.reg, TOKEN, &vec![ip1, ip2], SELLER, &vec![100, 200], BUYER, 0, None, 0).unwrap();
    w.swap.batch_accept_swaps(&ids, BUYER, 0).unwrap();
    let r = w.swap.batch_reveal_keys(&w.reg, &w.env, &ids, &vec![s1, [0u8; 32]], &vec![b1, b2], SELLER, 0);
    assert_eq!(r.err(), Some(ContractError::InvalidKey));
    assert_eq!(status(&w, ids[0]), SwapStatus::Accepted);
    assert_eq!(status(&w, ids[1]), SwapStatus::Accepted);
}

#[test]
fn test_batch_accept_swaps_collects_insurance_premium() {
    let mut w = world();
    let (ip1, _, _) = commit_ip(&mut w, 0x20);
    let (ip2, _, _) = commit_ip(&mut w, 0x21);
    let ids = w
        .swap
        .batch_initiate_swap_with_insurance(&w.reg, TOKEN, &vec![ip1, ip2], SELLER, &vec![1000, 2000], BUYER, 0, None, true, 0)
        .unwrap();
    let t = w.swap.batch_accept_swaps(&ids, BUYER, 0).unwrap();
    let premiums: i128 = t.iter().map(|x| x.amount).sum::<i128>() - 3000;
    assert_eq!(premiums, 60);
    assert_eq!(status(&w, ids[0]), SwapStatus::Accepted);
    assert_eq!(status(&w, ids[1]), SwapStatus::Accepted);
}

#[test]
fn test_batch_accept_swaps_no_insurance_no_premium() {
    let mut w = world();
    let (ip1, _, _) = commit_ip(&mut w, 0x30);
    let ids = w.swap.batch_initiate_swap(&w.reg, TOKEN, &vec![ip1], SELLER, &vec![1000], BUYER, 0, None, 0).unwrap();
    let t = w.swap.batch_accept_swaps(&ids, BUYER, 0).unwrap();
    let swap = w.swap.get_swap(ids[0]).unwrap();
    assert_eq!(swap.status, SwapStatus::Accepted);
    assert!(!swap.insurance_enabled);
    assert_eq!(swap.insurance_premium, 0);
    assert_eq!(t, vec![Transfer { token: TOKEN, from: BUYER, to: CONTRACT, amount: 1000 }]);
}

#[test]
fn batch_accept_by_wrong_buyer_changes_nothing() {
    let mut w = world();
    let (ip1, _, _) = commit_ip(&mut w, 0x31);
    let ids = w.swap.batch_initiate_swap(&w.reg, TOKEN, &vec![ip1], SELLER, &vec![1000], BUYER, 0, None, 0).unwrap();
    assert!(w.swap.batch_accept_swaps(&ids, Addr { id: 99 }, 0).is_err());
    assert_eq!(status(&w, ids[0]), SwapStatus::Pending);
}

#[test]
fn test_batch_arbitrate_swaps_refund() {
    let mut w = world();
    let (ip1, _, _) = commit_ip(&mut w, 0x40);
    let (ip2, _, _) = commit_ip(&mut w, 0x41);
    let ids = w.swap.batch_initiate_swap(&w.reg, TOKEN, &vec![ip1, ip2], SELLER, &vec![1000, 2000], BUYER, 0, None, 0).unwrap();
    w.swap.batch_accept_swaps(&ids, BUYER, 0).unwrap();
    w.swap.raise_dispute(ids[0], 0).unwrap();
    w.swap.raise_dispute(ids[1], 0).unwrap();
    w.swap.batch_arbitrate_swaps(&ids, true, 0).unwrap();
    assert_eq!(status(&w, ids[0]), SwapStatus::Cancelled);
    assert_eq!(status(&w, ids[1]), SwapStatus::Cancelled);
}

#[test]
fn test_batch_arbitrate_swaps_complete() {
    let mut w = world();
    let (ip1, _, _) = commit_ip(&mut w, 0x50);
    let ids = w.swap.batch_initiate_swap(&w.reg, TOKEN, &vec![ip1], SELLER, &vec![1000], BUYER, 0, None, 0).unwrap();
    w.swap.batch_accept_swaps(&ids, BUYER, 0).unwrap();
    w.swap.raise_dispute(ids[0], 0).unwrap();
    w.swap.batch_arbitrate_swaps(&ids, false, 0).unwrap();
    assert_eq!(status(&w, ids[0]), SwapStatus::Completed);
}

#[test]
fn test_batch_escrow_deposit_moves_to_accepted() {
    let mut w = world();
    let (ip1, _, _) = commit_ip(&mut w, 0x60);
    let (ip2, _, _) = commit_ip(&mut w, 0x61);
    let timeout = 3600;
    let ids = w
        .swap
        .batch_initiate_escrow(&w.reg, TOKEN, &vec![ip1, ip2], SELLER, &vec![500, 800], BUYER, &vec![timeout, timeout], 0)
        .unwrap();
    assert_eq!(status(&w, ids[0]), SwapStatus::Pending);
    assert_eq!(status(&w, ids[1]), SwapStatus::Pending);
    let t = w.swap.batch_escrow_deposit(&ids, BUYER, 0).unwrap();
    assert_eq!(status(&w, ids[0]), SwapStatus::Accepted);
    assert_eq!(status(&w, ids[1]), SwapStatus::Accepted);
    assert_eq!(t.iter().map(|x| x.amount).sum::<i128>(), 1300);
}

#[test]
fn test_batch_escrow_deposit_single() {
    let mut w = world();
    let (ip1, _, _) = commit_ip(&mut w, 0x70);
    let ids = w.swap.batch_initiate_escrow(&w.reg, TOKEN, &vec![ip1], SELLER, &vec![1000], BUYER, &vec![3600], 0).unwrap();
    w.swap.batch_escrow_deposit(&ids, BUYER, 0).unwrap();
    assert_eq!(status(&w, ids[0]), SwapStatus::Accepted);
}

#[test]
fn batch_escrow_deposit_wrong_buyer_is_refused() {
    let mut w = world();
    let (ip1, _, _) = commit_ip(&mut w, 0x71);
    let ids = w.swap.batch_initiate_escrow(&w.reg, TOKEN, &vec![ip1], SELLER, &vec![1000], BUYER, &vec![3600], 0).unwrap();
    assert!(w.swap.batch_escrow_deposit(&ids, Addr { id: 98 }, 0).is_err());
    assert_eq!(status(&w, ids[0]), SwapStatus::Pending);
}

#[test]
fn batch_initiate_rejects_bad_input_atomically() {
    let mut w = world();
    let (ip1, _, _) = commit_ip(&mut w, 0x72);
    let (ip2, _, _) = commit_ip(&mut w, 0x73);
    assert_eq!(
        w.swap.batch_initiate_swap(&w.reg, TOKEN, &vec![ip1, ip2], SELLER, &vec![10, 0], BUYER, 0, None, 0).err(),
        Some(ContractError::PriceTooSmall)
    );
    assert_eq!(
        w.swap.batch_initiate_swap(&w.reg, TOKEN, &vec![ip1, ip2], SELLER, &vec![10], BUYER, 0, None, 0).err(),
        Some(ContractError::PriceTooSmall)
    );
    assert_eq!(
        w.swap.batch_initiate_swap(&w.reg, TOKEN, &vec![ip1], SELLER, &vec![10, 20], BUYER, 0, None, 0).err(),
        Some(ContractError::PriceTooSmall)
    );
    assert!(w.swap.batch_initiate_swap(&w.reg, TOKEN, &vec![ip1, ip1], SELLER, &vec![10, 10], BUYER, 0, None, 0).is_err());
    assert_eq!(w.swap.swap_count(), 0);
}

// ── Installments ────────────────────────────────────────────────────────────

fn installment_swap(w: &mut World, seed: u8, price: i128) -> u64 {
    let (ip, _, _) = commit_ip(w, seed);
    let schedule = vec![PaymentSchedule { due_timestamp: 0, amount: price }];
    w.swap.initiate_swap_with_schedule(&w.reg, TOKEN, ip, SELLER, schedule, BUYER, 0).unwrap()
}

#[test]
fn test_get_installment_status_initial() {
    let mut w = world();
    let id = installment_swap(&mut w, 1, 600);
    let (paid, total, remaining) = w.swap.get_installment_status(id).unwrap();
    assert_eq!(paid, 0);
    assert_eq!(total, 600);
    assert_eq!(remaining, 600);
}

#[test]
fn test_get_installment_status_partial_paid() {
    let mut w = world();
    let id = installment_swap(&mut w, 1, 600);
    w.swap.submit_installment_payment(id, 200, 0).unwrap();
    let (paid, total, remaining) = w.swap.get_installment_status(id).unwrap();
    assert_eq!(paid, 200);
    assert_eq!(total, 600);
    assert_eq!(remaining, 400);
}

#[test]
fn test_swap_record_installment_fields_stored_and_retrieved() {
    let mut w = world();
    let id = installment_swap(&mut w, 1, 900);
    w.swap.submit_installment_payment(id, 300, 0).unwrap();
    let record = w.swap.get_swap(id).unwrap();
    assert_eq!(record.paid_amount, 300);
    assert!(record.is_installment);
    assert_eq!(record.price, 900);
}

#[test]
fn test_non_installment_swap_defaults() {
    let mut w = world();
    let (ip, _, _) = commit_ip(&mut w, 1);
    let id = w.swap.initiate_swap(&w.reg, TOKEN, ip, SELLER, 500, BUYER, 0, None, 0, false, 0).unwrap();
    let record = w.swap.get_swap(id).unwrap();
    assert!(!record.is_installment);
    assert_eq!(record.paid_amount, 0);
}

#[test]
fn test_installment_remaining_zero_when_fully_paid() {
    let mut w = world();
    let id = installment_swap(&mut w, 1, 300);
    w.swap.submit_installment_payment(id, 300, 0).unwrap();
    let (paid, total, remaining) = w.swap.get_installment_status(id).unwrap();
    assert_eq!(paid, 300);
    assert_eq!(total, 300);
    assert_eq!(remaining, 0);
    assert_eq!(status(&w, id), SwapStatus::Accepted);
}

#[test]
fn installment_payment_refusals() {
    let mut w = world();
    let (ip, _, _) = commit_ip(&mut w, 2);
    let plain = w.swap.initiate_swap(&w.reg, TOKEN, ip, SELLER, 300, BUYER, 0, None, 0, false, 0).unwrap();
    assert!(w.swap.submit_installment_payment(plain, 100, 0).is_err());
    let id = installment_swap(&mut w, 3, 300);
    assert!(w.swap.submit_installment_payment(id, 0, 0).is_err());
    w.swap.submit_installment_payment(id, 200, 0).unwrap();
    assert!(w.swap.submit_installment_payment(id, 200, 0).is_err());
    assert_eq!(w.swap.get_installment_status(id).unwrap(), (200, 300, 100));
}

// ── Batch cancellation ──────────────────────────────────────────────────────

/// Creates pending swaps until swap id `last` exists, each on a fresh IP,
/// with price `100 * (id + 1)`.
fn pending_swaps_up_to(w: &mut World, last: u64) {
    for id in 0..=last {
        let (ip, _, _) = commit_ip(w, id as u8 + 1);
        let got = w
            .swap
            .initiate_swap(&w.reg, TOKEN, ip, SELLER, 100 * (id as i128 + 1), BUYER, 0, None, 0, false, 0)
            .unwrap();
        assert_eq!(got, id);
    }
}

#[test]
fn test_batch_cancel_swaps_success() {
    let mut w = world();
    pending_swaps_up_to(&mut w, 3);
    let reasons = vec![b"no_longer_needed".to_vec(), b"price_changed".to_vec(), b"buyer_requested".to_vec()];
    let cancelled = w.swap.batch_cancel_swaps(&vec![1, 2, 3], SELLER, &reasons, 0).unwrap();
    assert_eq!(cancelled.len(), 3);
    assert_eq!(w.swap.get_cancellation_reason(1), Some(b"no_longer_needed".to_vec()));
    assert_eq!(w.swap.get_cancellation_reason(2), Some(b"price_changed".to_vec()));
    assert_eq!(status(&w, 1), SwapStatus::Cancelled);
    assert_eq!(status(&w, 2), SwapStatus::Cancelled);
    assert_eq!(status(&w, 0), SwapStatus::Pending);
}

#[test]
fn test_batch_cancel_swaps_by_buyer() {
    let mut w = world();
    pending_swaps_up_to(&mut w, 1);
    let cancelled = w.swap.batch_cancel_swaps(&vec![1], BUYER, &vec![b"buyer_cancel".to_vec()], 0).unwrap();
    assert_eq!(cancelled.len(), 1);
    assert_eq!(status(&w, 1), SwapStatus::Cancelled);
}

#[test]
fn batch_cancel_refusals_change_nothing() {
    let mut w = world();
    pending_swaps_up_to(&mut w, 2);
    assert!(w.swap.batch_cancel_swaps(&vec![1, 2], SELLER, &vec![b"reason".to_vec()], 0).is_err());
    assert_eq!(
        w.swap.batch_cancel_swaps(&vec![1], Addr { id: 55 }, &vec![b"cancel".to_vec()], 0).err(),
        Some(ContractError::OnlySellerBuyer)
    );
    w.swap.accept_swap(2, 0).unwrap();
    assert_eq!(
        w.swap.batch_cancel_swaps(&vec![1, 2], SELLER, &vec![b"a".to_vec(), b"b".to_vec()], 0).err(),
        Some(ContractError::OnlyPending)
    );
    assert_eq!(status(&w, 1), SwapStatus::Pending);
    assert_eq!(w.swap.get_cancellation_reason(1), None);
}

#[test]
fn test_batch_cancel_swaps_tracks_reasons_individually() {
    let mut w = world();
    pending_swaps_up_to(&mut w, 30);
    let reasons = vec![b"dup_ip".to_vec(), b"buyer_credit".to_vec(), b"price_disagreement".to_vec()];
    w.swap.batch_cancel_swaps(&vec![10, 20, 30], SELLER, &reasons, 0).unwrap();
    assert_eq!(w.swap.get_cancellation_reason(10).unwrap(), b"dup_ip".to_vec());
    assert_eq!(w.swap.get_cancellation_reason(20).unwrap(), b"buyer_credit".to_vec());
    assert_eq!(w.swap.get_cancellation_reason(30).unwrap(), b"price_disagreement".to_vec());
}

#[test]
fn test_swap_fee_breakdown_struct() {
    let breakdown = SwapFeeBreakdown { swap_id: 42, price: 1000, protocol_fee: 25, referral_fee: 10, seller_amount: 965 };
    assert_eq!(breakdown.swap_id, 42);
    assert_eq!(breakdown.price, 1000);
    assert_eq!(breakdown.protocol_fee, 25);
    assert_eq!(breakdown.referral_fee, 10);
    assert_eq!(breakdown.seller_amount, 965);
}

#[test]
fn test_batch_fee_breakdown_event_struct() {
    // The batch reveal reports one breakdown per swap, in order.
    let fee = SwapFeeBreakdown { swap_id: 1, price: 500, protocol_fee: 12, referral_fee: 5, seller_amount: 483 };
    let fees = vec![fee];
    let swap_ids = vec![1u64];
    assert_eq!(swap_ids.len(), 1);
    assert_eq!(swap_ids[0], 1);
    assert_eq!(fees.len(), 1);
    assert_eq!(fees[0].swap_id, 1);
    assert_eq!(fees[0].price, 500);
}

#[test]
fn test_batch_cancelled_event_struct() {
    // A batch cancellation returns the cancelled ids; each keeps its reason.
    let mut w = world();
    pending_swaps_up_to(&mut w, 3);
    let reasons = vec![b"reason1".to_vec(), b"reason2".to_vec(), b"reason3".to_vec()];
    let ids = w.swap.batch_cancel_swaps(&vec![1, 2, 3], SELLER, &reasons, 0).unwrap();
    assert_eq!(ids, vec![1, 2, 3]);
    assert_eq!(w.swap.get_cancellation_reason(1).unwrap(), b"reason1".to_vec());
    assert_eq!(w.swap.get_cancellation_reason(3).unwrap(), b"reason3".to_vec());
}

#[test]
fn scheduled_payments_follow_the_schedule_whatever_the_status() {
    let mut w = world();
    let (ip, _, _) = commit_ip(&mut w, 9);
    let schedule = vec![PaymentSchedule { due_timestamp: 0, amount: 100 }, PaymentSchedule { due_timestamp: 0, amount: 50 }];
    let id = w.swap.initiate_swap_with_schedule(&w.reg, TOKEN, ip, SELLER, schedule, BUYER, 0).unwrap();
    let (event, t) = w.swap.make_scheduled_payment(id, 0, 0).unwrap();
    assert_eq!(event.remaining_payments, 1);
    assert_eq!(t, vec![Transfer { token: TOKEN, from: BUYER, to: CONTRACT, amount: 100 }]);
    assert!(w.swap.make_scheduled_payment(id, 0, 0).is_err());
    w.swap.cancel_swap(id, SELLER, 0).unwrap();
    let (event, _) = w.swap.make_scheduled_payment(id, 1, 0).unwrap();
    assert_eq!(event.remaining_payments, 0);
    assert_eq!(w.swap.get_payments_made(id), vec![true, true]);
    assert_eq!(w.swap.get_swap(id).unwrap().status, SwapStatus::Accepted);
}
