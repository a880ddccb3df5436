//! Accepting, completing and cancelling swaps.
use vstd::prelude::*;
use soroban_sdk::Env;
use crate::common::{Addr, Bytes32};
use crate::crypto::commitment_of;
use crate::ip_registry::state::{IpRegistry, RegistryState};
use crate::atomic_swap::types::{
    ContractError, KeyRevealedEvent, SwapCondition, SwapHistoryEntry, SwapRecordView, SwapStatus, Transfer,
};
use super::{
    AtomicSwap, SwapEntryView, SwapState, ROLLBACK_WINDOW_SECONDS, adjust_reputation, lemma_close_swap_inv,
    lemma_closed_is_unlocked, lemma_pools_keep_inv, lemma_with_swap_inv, swap_entries_view, unlock_ip, with_swap,
};
use super::initiate::registry_matches;
use crate::ip_registry::state::lifecycle::transferred_state;

verus! {

broadcast use vstd::std_specs::hash::group_hash_axioms;

/// Whether one acceptance condition holds for a swap at `price` and `now`;
/// `KeyValid` is settled by the key check itself.
pub open spec fn condition_holds(c: SwapCondition, price: i128, now: u64) -> bool {
    match c {
        SwapCondition::KeyValid => true,
        SwapCondition::PriceBelow(threshold) => price < threshold,
        SwapCondition::TimeAfter(ts) => now >= ts,
    }
}

/// Whether every condition of `cs` holds.
pub open spec fn conditions_hold(cs: Seq<SwapCondition>, price: i128, now: u64) -> bool {
    forall|k: int| 0 <= k < cs.len() ==> #[trigger] condition_holds(cs[k], price, now)
}

/// The protocol fee on `price` under the configuration of `s`, rounded
/// down (nothing on a non-positive price).
pub open spec fn protocol_fee(s: SwapState, price: i128) -> int {
    if price > 0 {
        price * s.config.protocol_fee_bps / 10000
    } else {
        0
    }
}

/// The referral fee on `price` under the configuration of `s`, rounded
/// down, when a referrer is set.
pub open spec fn referral_fee(s: SwapState, price: i128, referrer: Option<Addr>) -> int {
    if referrer is Some && price > 0 {
        price * s.config.referral_fee_bps / 10000
    } else {
        0
    }
}

/// `amount * bps / 10000`, computed without intermediate overflow.
pub fn bps_of(amount: i128, bps: u32) -> (r: i128)
    requires
        amount >= 0,
        bps <= 10_000,
    ensures
        r == amount * bps / 10000,
        0 <= r <= amount,
{
    let q = amount / 10000;
    let m = amount % 10000;
    let b = bps as i128;
    proof {
        let bi = bps as int;
        assert(amount == q * 10000 + m);
        assert(0 <= m < 10000);
        assert(0 <= q * bi <= amount) by (nonlinear_arith)
            requires 0 <= bi <= 10000, amount == q * 10000 + m, 0 <= m < 10000, q >= 0;
        assert(0 <= m * bi <= 10000 * 10000) by (nonlinear_arith)
            requires 0 <= bi <= 10000, 0 <= m < 10000;
        assert(amount * bi == (q * bi) * 10000 + m * bi) by (nonlinear_arith)
            requires amount == q * 10000 + m;
        assert(((q * bi) * 10000 + m * bi) / 10000 == q * bi + (m * bi) / 10000) by (nonlinear_arith)
            requires m * bi >= 0;
        assert(q * bi + (m * bi) / 10000 <= amount) by (nonlinear_arith)
            requires 0 <= bi <= 10000, amount == q * 10000 + m, 0 <= m < 10000, q >= 0;
    }
    q * b + m * b / 10000
}

/// A payment from `from` into the marketplace's escrow.
pub open spec fn deposit(s: SwapState, token: Addr, from: Addr, amount: i128) -> Transfer {
    Transfer { token, from, to: s.contract, amount }
}

/// A payment out of the marketplace's escrow.
pub open spec fn release(s: SwapState, token: Addr, to: Addr, amount: i128) -> Transfer {
    Transfer { token, from: s.contract, to, amount }
}

/// `seq![t]` when `cond` holds, empty otherwise.
pub open spec fn transfer_if(cond: bool, t: Transfer) -> Seq<Transfer> {
    if cond {
        seq![t]
    } else {
        Seq::empty()
    }
}

/// The error the buyer's acceptance of swap `id` at `now` runs into, if any.
pub open spec fn accept_error(s: SwapState, id: u64, now: u64) -> Option<ContractError> {
    if s.paused {
        Some(ContractError::Paused)
    } else if !s.has_swap(id) {
        Some(ContractError::SwapNotFound)
    } else {
        let e = s.swaps[id as int];
        let r = e.record;
        if r.status != SwapStatus::Pending {
            Some(ContractError::NotPending)
        } else if r.required_approvals > 0 && e.approvals.len() < r.required_approvals {
            Some(ContractError::NeedApprovals)
        } else if r.conditions.len() > 0 && !conditions_hold(r.conditions, r.price, now) {
            Some(ContractError::ConditionNotMet)
        } else if e.min_reputation is Some && s.reputation_of(r.buyer) < e.min_reputation.unwrap() {
            Some(ContractError::InsufficientReputation)
        } else if r.collateral_amount > 0 && e.collateral is Some {
            Some(ContractError::AlreadyInit)
        } else {
            None
        }
    }
}

/// The state after the buyer accepts swap `id` at `now`: collateral is
/// held, the premium joins the token's insurance pool, and the swap is
/// Accepted.
pub open spec fn accepted_state(s: SwapState, id: u64, now: u64) -> SwapState {
    let e = s.swaps[id as int];
    let r = e.record;
    let s1 = with_swap(
        s,
        id,
        SwapEntryView {
            record: SwapRecordView { status: SwapStatus::Accepted, accept_timestamp: now, ..r },
            collateral: if r.collateral_amount > 0 { Some(r.collateral_amount) } else { e.collateral },
            history: e.history.push(SwapHistoryEntry { status: SwapStatus::Accepted, timestamp: now }),
            ..e
        },
    );
    if r.insurance_enabled && r.insurance_premium > 0 {
        SwapState {
            insurance_pools: s1.insurance_pools.insert(r.token.id, (s.pool_of(r.token) + r.insurance_premium) as i128),
            ..s1
        }
    } else {
        s1
    }
}

/// The payments the buyer makes when accepting swap `id`: collateral, the
/// price, then the insurance premium.
pub open spec fn accept_transfers(s: SwapState, id: u64) -> Seq<Transfer> {
    let r = s.record(id);
    transfer_if(r.collateral_amount > 0, deposit(s, r.token, r.buyer, r.collateral_amount)) + seq![
        deposit(s, r.token, r.buyer, r.price),
    ] + transfer_if(r.insurance_enabled && r.insurance_premium > 0, deposit(s, r.token, r.buyer, r.insurance_premium))
}

/// Whether the insurance pool can take the premium of swap `id`.
pub open spec fn premium_fits(s: SwapState, id: u64) -> bool {
    let r = s.record(id);
    r.insurance_enabled && r.insurance_premium > 0 ==> s.pool_of(r.token) + r.insurance_premium <= i128::MAX
}

/// Whether the key check of swap `id` passes against the registry.
pub open spec fn key_opens(reg: RegistryState, ip_id: u64, secret: Bytes32, blinding: Bytes32) -> bool {
    reg.has_ip(ip_id) && reg.record(ip_id).commitment_hash@ == commitment_of(secret@, blinding@)
}

/// The error the seller's key reveal for swap `id` runs into, if any: a key
/// for an IP the registry does not hold is reported with code 1. An invalid
/// key is no error: it refunds the buyer.
pub open spec fn reveal_error(
    s: SwapState,
    reg: RegistryState,
    id: u64,
    caller: Addr,
    secret: Bytes32,
    blinding: Bytes32,
    now: u64,
) -> Option<ContractError> {
    if !s.has_swap(id) {
        Some(ContractError::SwapNotFound)
    } else {
        let e = s.swaps[id as int];
        let r = e.record;
        if caller != r.seller {
            Some(ContractError::OnlySellerReveal)
        } else if r.status != SwapStatus::Accepted {
            Some(ContractError::NotAccepted)
        } else if e.signers is Some && e.signatures.len() < e.signers.unwrap().len() {
            Some(ContractError::NotAllSigned)
        } else if !reg.has_ip(r.ip_id) {
            Some(ContractError::SwapNotFound)
        } else if key_opens(reg, r.ip_id, secret, blinding) && r.conditions.len() > 0 && !conditions_hold(
            r.conditions,
            r.price,
            now,
        ) {
            Some(ContractError::ConditionNotMet)
        } else {
            None
        }
    }
}

/// The state after swap `id` is refunded at `now` for an invalid key: it is
/// cancelled, its IP released, the collateral record cleared, and an
/// insured swap becomes claimable.
pub open spec fn refunded_state(s: SwapState, id: u64, now: u64) -> SwapState {
    let e = s.swaps[id as int];
    let r = e.record;
    unlock_ip(
        with_swap(
            s,
            id,
            SwapEntryView {
                record: SwapRecordView { status: SwapStatus::Cancelled, ..r },
                collateral: if r.collateral_amount > 0 { None } else { e.collateral },
                insurance_claimable: r.insurance_enabled || e.insurance_claimable,
                history: e.history.push(SwapHistoryEntry { status: SwapStatus::Cancelled, timestamp: now }),
                ..e
            },
        ),
        r.ip_id,
    )
}

/// The refund of swap `id`: the price and any held collateral to the buyer.
pub open spec fn refund_transfers(s: SwapState, id: u64) -> Seq<Transfer> {
    let e = s.swaps[id as int];
    let r = e.record;
    seq![release(s, r.token, r.buyer, r.price)] + transfer_if(
        r.collateral_amount > 0 && e.collateral is Some,
        release(s, r.token, r.buyer, e.collateral.unwrap()),
    )
}

/// The state after swap `id` completes at `now`: the IP is released, the
/// collateral record is cleared, and both parties gain five reputation.
pub open spec fn completed_state(s: SwapState, id: u64, now: u64) -> SwapState {
    let e = s.swaps[id as int];
    let r = e.record;
    let s1 = unlock_ip(
        with_swap(
            s,
            id,
            SwapEntryView {
                record: SwapRecordView { status: SwapStatus::Completed, ..r },
                completion_timestamp: Some(now),
                history: e.history.push(SwapHistoryEntry { status: SwapStatus::Completed, timestamp: now }),
                collateral: if r.collateral_amount > 0 { None } else { e.collateral },
                ..e
            },
        ),
        r.ip_id,
    );
    adjust_reputation(adjust_reputation(s1, r.seller, 5), r.buyer, 5)
}

/// The payouts of a completed swap: the protocol fee to the treasury, the
/// referral fee to the referrer, the rest to the seller, and any held
/// collateral back to the buyer.
pub open spec fn reveal_transfers(s: SwapState, id: u64) -> Seq<Transfer> {
    let e = s.swaps[id as int];
    let r = e.record;
    let fee = protocol_fee(s, r.price);
    let referral = referral_fee(s, r.price, r.referrer);
    transfer_if(fee > 0, release(s, r.token, s.config.treasury, fee as i128)) + transfer_if(
        referral > 0,
        release(s, r.token, r.referrer.unwrap(), referral as i128),
    ) + seq![release(s, r.token, r.seller, (r.price - fee - referral) as i128)] + transfer_if(
        r.collateral_amount > 0 && e.collateral is Some,
        release(s, r.token, r.buyer, e.collateral.unwrap()),
    )
}

/// A single payment of `amount` from the buyer of swap `id` into escrow.
pub open spec fn buyer_payment(s: SwapState, id: u64, amount: i128) -> Seq<Transfer> {
    let r = s.record(id);
    seq![deposit(s, r.token, r.buyer, amount)]
}

/// The payouts when the seller settles swap `id` directly: the price less
/// the protocol fee to the seller, the fee to the treasury, and any held
/// collateral to the seller.
pub open spec fn seller_settlement(s: SwapState, id: u64) -> Seq<Transfer> {
    let e = s.swaps[id as int];
    let r = e.record;
    let fee = protocol_fee(s, r.price);
    seq![release(s, r.token, r.seller, (r.price - fee) as i128)] + transfer_if(
        fee > 0,
        release(s, r.token, s.config.treasury, fee as i128),
    ) + transfer_if(r.collateral_amount > 0 && e.collateral is Some, release(s, r.token, r.seller, e.collateral.unwrap()))
}

/// The payouts of rolling back swap `id`: 90 % of the price (rounded down)
/// to the buyer and the rest to the treasury.
pub open spec fn rollback_transfers(s: SwapState, id: u64) -> Seq<Transfer> {
    let r = s.record(id);
    let refund = r.price * 90 / 100;
    seq![release(s, r.token, r.buyer, refund as i128)] + transfer_if(
        r.price - refund > 0,
        release(s, r.token, s.config.treasury, (r.price - refund) as i128),
    )
}

/// The error a cancellation of pending swap `id` by `canceller` runs into.
pub open spec fn cancel_error(s: SwapState, id: u64, canceller: Addr) -> Option<ContractError> {
    if !s.has_swap(id) {
        Some(ContractError::SwapNotFound)
    } else {
        let r = s.record(id);
        if canceller != r.seller && canceller != r.buyer {
            Some(ContractError::OnlySellerBuyer)
        } else if r.status != SwapStatus::Pending {
            Some(ContractError::OnlyPending)
        } else {
            None
        }
    }
}

/// The state after swap `id` is cancelled at `now`, releasing its IP.
pub open spec fn cancelled_state(s: SwapState, id: u64, now: u64) -> SwapState {
    let e = s.swaps[id as int];
    unlock_ip(
        with_swap(
            s,
            id,
            SwapEntryView {
                record: SwapRecordView { status: SwapStatus::Cancelled, ..e.record },
                history: e.history.push(SwapHistoryEntry { status: SwapStatus::Cancelled, timestamp: now }),
                ..e
            },
        ),
        e.record.ip_id,
    )
}

/// Whether every condition holds (see [`conditions_hold`]).
fn evaluate_conditions(conditions: &Vec<SwapCondition>, price: i128, now: u64) -> (r: bool)
    ensures
        r == conditions_hold(conditions@, price, now),
{
    let mut k: usize = 0;
    while k < conditions.len()
        invariant
            0 <= k <= conditions@.len(),
            forall|j: int| 0 <= j < k ==> #[trigger] condition_holds(conditions@[j], price, now),
        decreases conditions@.len() - k,
    {
        let ok = match conditions[k] {
            SwapCondition::KeyValid => true,
            SwapCondition::PriceBelow(threshold) => price < threshold,
            SwapCondition::TimeAfter(ts) => now >= ts,
        };
        if !ok {
            assert(!condition_holds(conditions@[k as int], price, now));
            return false;
        }
        k = k + 1;
    }
    true
}

impl AtomicSwap {
    /// The error [`accept_error`] describes, checked on the concrete state.
    pub(crate) fn check_accept(&self, swap_id: u64, now: u64) -> (r: Result<(), ContractError>)
        requires
            self.wf(),
        ensures
            match accept_error(self@, swap_id, now) {
                Some(e) => r == Err::<(), ContractError>(e),
                None => r is Ok,
            },
    {
        if self.paused {
            return Err(ContractError::Paused);
        }
        if swap_id >= self.swaps.len() as u64 {
            return Err(ContractError::SwapNotFound);
        }
        let i = self.index_of(swap_id);
        let e = &self.swaps[i];
        if e.record.status != SwapStatus::Pending {
            return Err(ContractError::NotPending);
        }
        if e.record.required_approvals > 0 && e.approvals.len() < e.record.required_approvals as usize {
            return Err(ContractError::NeedApprovals);
        }
        if e.record.conditions.len() > 0 && !evaluate_conditions(&e.record.conditions, e.record.price, now) {
            return Err(ContractError::ConditionNotMet);
        }
        match e.min_reputation {
            Some(m) => {
                if self.get_reputation(e.record.buyer) < m {
                    return Err(ContractError::InsufficientReputation);
                }
            },
            None => {},
        }
        if e.record.collateral_amount > 0 && e.collateral.is_some() {
            return Err(ContractError::AlreadyInit);
        }
        Ok(())
    }

    /// The insurance pool of `token`.
    pub fn pool_of(&self, token: Addr) -> (r: i128)
        ensures
            r == self@.pool_of(token),
    {
        match self.insurance_pools.get(&token.id) {
            Some(p) => *p,
            None => 0,
        }
    }

    /// Moves swap `swap_id`, already checked by [`AtomicSwap::check_accept`],
    /// to Accepted and returns the buyer's payments.
    pub(crate) fn apply_accept(&mut self, swap_id: u64, now: u64) -> (t: Vec<Transfer>)
        requires
            old(self).wf(),
            accept_error(old(self)@, swap_id, now) is None,
            premium_fits(old(self)@, swap_id),
        ensures
            final(self).wf(),
            t@ == accept_transfers(old(self)@, swap_id),
            final(self)@ == accepted_state(old(self)@, swap_id, now),
    {
        let i = self.index_of(swap_id);
        let token = self.swaps[i].record.token;
        let buyer = self.swaps[i].record.buyer;
        let price = self.swaps[i].record.price;
        let collateral_amount = self.swaps[i].record.collateral_amount;
        let premium = self.swaps[i].record.insurance_premium;
        let insured = self.swaps[i].record.insurance_enabled;
        let ghost s = old(self)@;
        let mut t: Vec<Transfer> = Vec::new();
        if collateral_amount > 0 {
            t.push(Transfer { token, from: buyer, to: self.contract, amount: collateral_amount });
            self.swaps[i].collateral = Some(collateral_amount);
        }
        t.push(Transfer { token, from: buyer, to: self.contract, amount: price });
        if insured && premium > 0 {
            t.push(Transfer { token, from: buyer, to: self.contract, amount: premium });
        }
        self.swaps[i].record.accept_timestamp = now;
        self.swaps[i].record.status = SwapStatus::Accepted;
        self.swaps[i].history.push(SwapHistoryEntry { status: SwapStatus::Accepted, timestamp: now });
        proof {
            let e = s.swaps[i as int];
            let r = e.record;
            let w = SwapEntryView {
                record: SwapRecordView { status: SwapStatus::Accepted, accept_timestamp: now, ..r },
                collateral: if r.collateral_amount > 0 { Some(r.collateral_amount) } else { e.collateral },
                history: e.history.push(SwapHistoryEntry { status: SwapStatus::Accepted, timestamp: now }),
                ..e
            };
            assert(e.is_consistent());
            assert(swap_entries_view(self.swaps@) =~= s.swaps.update(i as int, w));
            assert(self@ =~= with_swap(s, swap_id, w));
            lemma_with_swap_inv(s, swap_id, w);
            assert(t@ =~= accept_transfers(s, swap_id));
        }
        let ghost mid = self@;
        if insured && premium > 0 {
            let pool = self.pool_of(token);
            self.insurance_pools.insert(token.id, pool + premium);
        }
        proof {
            assert(self@ =~= (SwapState { insurance_pools: self@.insurance_pools, ..mid }));
            lemma_pools_keep_inv(mid, self@.insurance_pools);
        }
        assert(self@ =~= accepted_state(s, swap_id, now));
        t
    }

    /// The buyer accepts swap `swap_id` at `now` (see [`accept_error`] and
    /// [`accepted_state`]); returns the payments the host performs, in
    /// order. The buyer's authorization is checked by the host before this
    /// call.
    pub fn accept_swap(&mut self, swap_id: u64, now: u64) -> (r: Result<Vec<Transfer>, ContractError>)
        requires
            old(self).wf(),
            accept_error(old(self)@, swap_id, now) is None ==> premium_fits(old(self)@, swap_id),
        ensures
            final(self).wf(),
            match accept_error(old(self)@, swap_id, now) {
                Some(e) => r == Err::<Vec<Transfer>, ContractError>(e) && final(self)@ == old(self)@,
                None => r matches Ok(t) && t@ == accept_transfers(old(self)@, swap_id) && final(self)@
                    == accepted_state(old(self)@, swap_id, now),
            },
    {
        match self.check_accept(swap_id, now) {
            Err(e) => Err(e),
            Ok(()) => Ok(self.apply_accept(swap_id, now)),
        }
    }

    /// The buyer accepts swap `swap_id` with `conditions`, which replace the
    /// swap's and must hold now (except `KeyValid`, checked at reveal). The
    /// buyer pays the price only. The buyer's authorization is checked by
    /// the host before this call.
    pub fn accept_swap_conditional(&mut self, swap_id: u64, conditions: Vec<SwapCondition>, now: u64) -> (r:
        Result<Vec<Transfer>, ContractError>)
        requires
            old(self).wf(),
        ensures
            final(self).wf(),
            r is Err ==> final(self)@ == old(self)@,
            old(self)@.paused ==> r == Err::<Vec<Transfer>, ContractError>(ContractError::Paused),
            !old(self)@.paused && !old(self)@.has_swap(swap_id) ==> r == Err::<Vec<Transfer>, ContractError>(
                ContractError::SwapNotFound,
            ),
            !old(self)@.paused && old(self)@.has_swap(swap_id) ==> {
                let e = old(self)@.swaps[swap_id as int];
                let rec = e.record;
                if rec.status != SwapStatus::Pending {
                    r == Err::<Vec<Transfer>, ContractError>(ContractError::NotPending)
                } else if rec.required_approvals > 0 && e.approvals.len() < rec.required_approvals {
                    r == Err::<Vec<Transfer>, ContractError>(ContractError::NeedApprovals)
                } else if !conditions_hold(conditions@, rec.price, now) {
                    r == Err::<Vec<Transfer>, ContractError>(ContractError::ConditionNotMet)
                } else {
                    r matches Ok(t) && t@ == buyer_payment(old(self)@, swap_id, rec.price)
                        && final(self)@ == with_swap(
                        old(self)@,
                        swap_id,
                        SwapEntryView {
                            record: SwapRecordView {
                                status: SwapStatus::Accepted,
                                accept_timestamp: now,
                                conditions: conditions@,
                                ..rec
                            },
                            history: e.history.push(
                                SwapHistoryEntry { status: SwapStatus::Accepted, timestamp: now },
                            ),
                            ..e
                        },
                    )
                }
            },
    {
        if self.paused {
            return Err(ContractError::Paused);
        }
        if swap_id >= self.swaps.len() as u64 {
            return Err(ContractError::SwapNotFound);
        }
        let i = self.index_of(swap_id);
        if self.swaps[i].record.status != SwapStatus::Pending {
            return Err(ContractError::NotPending);
        }
        let required = self.swaps[i].record.required_approvals;
        if required > 0 && self.swaps[i].approvals.len() < required as usize {
            return Err(ContractError::NeedApprovals);
        }
        let price = self.swaps[i].record.price;
        if !evaluate_conditions(&conditions, price, now) {
            return Err(ContractError::ConditionNotMet);
        }
        let ghost s = old(self)@;
        let ghost cv = conditions@;
        let token = self.swaps[i].record.token;
        let buyer = self.swaps[i].record.buyer;
        let mut t: Vec<Transfer> = Vec::new();
        t.push(Transfer { token, from: buyer, to: self.contract, amount: price });
        self.swaps[i].record.conditions = conditions;
        self.swaps[i].record.accept_timestamp = now;
        self.swaps[i].record.status = SwapStatus::Accepted;
        self.swaps[i].history.push(SwapHistoryEntry { status: SwapStatus::Accepted, timestamp: now });
        proof {
            let e = s.swaps[i as int];
            let w = SwapEntryView {
                record: SwapRecordView {
                    status: SwapStatus::Accepted,
                    accept_timestamp: now,
                    conditions: cv,
                    ..e.record
                },
                history: e.history.push(SwapHistoryEntry { status: SwapStatus::Accepted, timestamp: now }),
                ..e
            };
            assert(swap_entries_view(self.swaps@) =~= s.swaps.update(i as int, w));
            assert(self@ =~= with_swap(s, swap_id, w));
        }
        Ok(t)
    }

    /// The buyer accepts `quantity` units of swap `swap_id` at the
    /// proportional price `price * quantity / swap quantity` (rounded down),
    /// which becomes the swap's price and is paid now. A quantity of zero or
    /// above the swap's is refused with `InvalidKey`. The buyer's
    /// authorization is checked by the host before this call.
    pub fn accept_swap_partial(&mut self, swap_id: u64, quantity: u32, now: u64) -> (r: Result<
        Vec<Transfer>,
        ContractError,
    >)
        requires
            old(self).wf(),
            old(self)@.has_swap(swap_id) && 0 < quantity <= old(self)@.record(swap_id).quantity ==> {
                let p = old(self)@.record(swap_id).price;
                i128::MIN <= p * quantity <= i128::MAX
            },
        ensures
            final(self).wf(),
            r is Err ==> final(self)@ == old(self)@,
            old(self)@.paused ==> r == Err::<Vec<Transfer>, ContractError>(ContractError::Paused),
            !old(self)@.paused && !old(self)@.has_swap(swap_id) ==> r == Err::<Vec<Transfer>, ContractError>(
                ContractError::SwapNotFound,
            ),
            !old(self)@.paused && old(self)@.has_swap(swap_id) ==> {
                let e = old(self)@.swaps[swap_id as int];
                let rec = e.record;
                let p = (rec.price * quantity) / (rec.quantity as int);
                if rec.status != SwapStatus::Pending {
                    r == Err::<Vec<Transfer>, ContractError>(ContractError::NotPending)
                } else if quantity == 0 || quantity > rec.quantity {
                    r == Err::<Vec<Transfer>, ContractError>(ContractError::InvalidKey)
                } else {
                    (r matches Ok(t) && t@ == buyer_payment(old(self)@, swap_id, p as i128) && final(self)@ == with_swap(
                        old(self)@,
                        swap_id,
                        SwapEntryView {
                            record: SwapRecordView {
                                price: p as i128,
                                quantity,
                                status: SwapStatus::Accepted,
                                accept_timestamp: now,
                                ..rec
                            },
                            history: e.history.push(
                                SwapHistoryEntry { status: SwapStatus::Accepted, timestamp: now },
                            ),
                            ..e
                        },
                    ))
                }
            },
    {
        if self.paused {
            return Err(ContractError::Paused);
        }
        if swap_id >= self.swaps.len() as u64 {
            return Err(ContractError::SwapNotFound);
        }
        let i = self.index_of(swap_id);
        if self.swaps[i].record.status != SwapStatus::Pending {
            return Err(ContractError::NotPending);
        }
        let total = self.swaps[i].record.quantity;
        if quantity == 0 || quantity > total {
            return Err(ContractError::InvalidKey);
        }
        let ghost s = old(self)@;
        let price = self.swaps[i].record.price;
        let partial = price * (quantity as i128) / (total as i128);
        let token = self.swaps[i].record.token;
        let buyer = self.swaps[i].record.buyer;
        let mut t: Vec<Transfer> = Vec::new();
        t.push(Transfer { token, from: buyer, to: self.contract, amount: partial });
        self.swaps[i].record.price = partial;
        self.swaps[i].record.quantity = quantity;
        self.swaps[i].record.accept_timestamp = now;
        self.swaps[i].record.status = SwapStatus::Accepted;
        self.swaps[i].history.push(SwapHistoryEntry { status: SwapStatus::Accepted, timestamp: now });
        proof {
            let e = s.swaps[i as int];
            let w = SwapEntryView {
                record: SwapRecordView {
                    price: partial,
                    quantity,
                    status: SwapStatus::Accepted,
                    accept_timestamp: now,
                    ..e.record
                },
                history: e.history.push(SwapHistoryEntry { status: SwapStatus::Accepted, timestamp: now }),
                ..e
            };
            assert(swap_entries_view(self.swaps@) =~= s.swaps.update(i as int, w));
            assert(self@ =~= with_swap(s, swap_id, w));
        }
        Ok(t)
    }
}

impl AtomicSwap {
    /// Completes swap `swap_id`, already checked, at `now`; returns the
    /// settlement event and payouts.
    #[verifier::rlimit(40)]
    pub(crate) fn apply_reveal(&mut self, swap_id: u64, now: u64) -> (r: (KeyRevealedEvent, Vec<Transfer>))
        requires
            old(self).wf(),
            old(self)@.has_swap(swap_id),
        ensures
            final(self).wf(),
            r.1@ == reveal_transfers(old(self)@, swap_id),
            ({
                let s = old(self)@;
                let rec = s.record(swap_id);
                r.0 == KeyRevealedEvent {
                    swap_id,
                    seller_amount: (rec.price - protocol_fee(s, rec.price) - referral_fee(s, rec.price, rec.referrer)) as i128,
                    fee_amount: protocol_fee(s, rec.price) as i128,
                }
            }),
            final(self)@ == completed_state(old(self)@, swap_id, now),
    {
        let i = self.index_of(swap_id);
        let ghost s = old(self)@;
        let price = self.swaps[i].record.price;
        let token = self.swaps[i].record.token;
        let seller = self.swaps[i].record.seller;
        let buyer = self.swaps[i].record.buyer;
        let referrer = self.swaps[i].record.referrer;
        let collateral_amount = self.swaps[i].record.collateral_amount;
        let collateral = self.swaps[i].collateral;
        let fee: i128 = if price > 0 {
            bps_of(price, self.config.protocol_fee_bps)
        } else {
            0
        };
        let referral: i128 = match referrer {
            Some(_) => if price > 0 {
                bps_of(price, self.config.referral_fee_bps)
            } else {
                0
            },
            None => 0,
        };
        let seller_amount = price - fee - referral;
        self.release_swap_ip(swap_id);
        let ghost s1 = self@;
        let mut t: Vec<Transfer> = Vec::new();
        if fee > 0 {
            t.push(Transfer { token, from: self.contract, to: self.config.treasury, amount: fee });
        }
        if referral > 0 {
            match referrer {
                Some(to) => t.push(Transfer { token, from: self.contract, to, amount: referral }),
                None => {},
            }
        }
        t.push(Transfer { token, from: self.contract, to: seller, amount: seller_amount });
        if collateral_amount > 0 {
            match collateral {
                Some(c) => t.push(Transfer { token, from: self.contract, to: buyer, amount: c }),
                None => {},
            }
            self.swaps[i].collateral = None;
        }
        self.swaps[i].record.status = SwapStatus::Completed;
        self.swaps[i].completion_timestamp = Some(now);
        self.swaps[i].history.push(SwapHistoryEntry { status: SwapStatus::Completed, timestamp: now });
        proof {
            let e = s.swaps[i as int];
            let r = e.record;
            let w = SwapEntryView {
                record: SwapRecordView { status: SwapStatus::Completed, ..r },
                completion_timestamp: Some(now),
                history: e.history.push(SwapHistoryEntry { status: SwapStatus::Completed, timestamp: now }),
                collateral: if r.collateral_amount > 0 { None } else { e.collateral },
                ..e
            };
            assert(e.is_consistent());
            assert(swap_entries_view(self.swaps@) =~= s.swaps.update(i as int, w));
            assert(self@ =~= with_swap(s1, swap_id, w));
            lemma_close_swap_inv(s1, swap_id, w);
            assert(t@ =~= reveal_transfers(s, swap_id));
        }
        self.update_reputation(seller, 5);
        self.update_reputation(buyer, 5);
        (KeyRevealedEvent { swap_id, seller_amount, fee_amount: fee }, t)
    }

    /// The seller reveals the secret and blinding factor of the swapped IP.
    /// When they open its commitment in the registry the swap completes
    /// (see [`completed_state`] and [`reveal_transfers`]) and the IP passes
    /// to the buyer; otherwise the buyer is refunded and the swap cancelled
    /// (see [`refunded_state`] and [`refund_transfers`]). Returns the
    /// settlement event of a completion and the payouts. The caller's
    /// authorization is checked by the host before this call.
    pub fn reveal_key(
        &mut self,
        registry: &mut IpRegistry,
        env: &Env,
        swap_id: u64,
        caller: Addr,
        secret: &Bytes32,
        blinding_factor: &Bytes32,
        now: u64,
    ) -> (r: Result<(Option<KeyRevealedEvent>, Vec<Transfer>), ContractError>)
        requires
            old(self).wf(),
            old(registry).wf(),
            registry_matches(old(self)@, old(registry)@),
        ensures
            final(self).wf(),
            final(registry).wf(),
            match reveal_error(old(self)@, old(registry)@, swap_id, caller, *secret, *blinding_factor, now) {
                Some(e) => r == Err::<(Option<KeyRevealedEvent>, Vec<Transfer>), ContractError>(e) && final(self)@
                    == old(self)@ && final(registry)@ == old(registry)@,
                None => {
                    let s = old(self)@;
                    let rec = s.record(swap_id);
                    if key_opens(old(registry)@, rec.ip_id, *secret, *blinding_factor) {
                        r matches Ok(v) && v.0 == Some(
                            KeyRevealedEvent {
                                swap_id,
                                seller_amount: (rec.price - protocol_fee(s, rec.price) - referral_fee(
                                    s,
                                    rec.price,
                                    rec.referrer,
                                )) as i128,
                                fee_amount: protocol_fee(s, rec.price) as i128,
                            },
                        ) && v.1@ == reveal_transfers(s, swap_id) && final(self)@ == completed_state(s, swap_id, now)
                            && final(registry)@ == transferred_state(old(registry)@, rec.ip_id, rec.buyer, now)
                    } else {
                        r matches Ok(v) && v.0 is None && v.1@ == refund_transfers(s, swap_id) && final(self)@
                            == refunded_state(s, swap_id, now) && final(registry)@ == old(registry)@
                    }
                },
            },
    {
        if swap_id >= self.swaps.len() as u64 {
            return Err(ContractError::SwapNotFound);
        }
        let i = self.index_of(swap_id);
        if caller != self.swaps[i].record.seller {
            return Err(ContractError::OnlySellerReveal);
        }
        if self.swaps[i].record.status != SwapStatus::Accepted {
            return Err(ContractError::NotAccepted);
        }
        match &self.swaps[i].signers {
            Some(sg) => {
                if self.swaps[i].signatures.len() < sg.len() {
                    return Err(ContractError::NotAllSigned);
                }
            },
            None => {},
        }
        let ip_id = self.swaps[i].record.ip_id;
        let valid = match registry.verify_commitment(env, ip_id, secret, blinding_factor) {
            Err(_) => {
                return Err(ContractError::SwapNotFound);
            },
            Ok(v) => v,
        };
        if !valid {
            return Ok((None, self.apply_refund(swap_id, now)));
        }
        if self.swaps[i].record.conditions.len() > 0 && !evaluate_conditions(
            &self.swaps[i].record.conditions,
            self.swaps[i].record.price,
            now,
        ) {
            return Err(ContractError::ConditionNotMet);
        }
        let buyer = self.swaps[i].record.buyer;
        let (event, t) = self.apply_reveal(swap_id, now);
        let _ = registry.transfer_ip(ip_id, buyer, now);
        Ok((Some(event), t))
    }

    /// Refunds and cancels swap `swap_id` for an invalid key at `now`.
    pub(crate) fn apply_refund(&mut self, swap_id: u64, now: u64) -> (t: Vec<Transfer>)
        requires
            old(self).wf(),
            old(self)@.has_swap(swap_id),
        ensures
            final(self).wf(),
            t@ == refund_transfers(old(self)@, swap_id),
            final(self)@ == refunded_state(old(self)@, swap_id, now),
    {
        let i = self.index_of(swap_id);
        let ghost s = old(self)@;
        let token = self.swaps[i].record.token;
        let buyer = self.swaps[i].record.buyer;
        self.release_swap_ip(swap_id);
        let ghost s1 = self@;
        let mut t: Vec<Transfer> = Vec::new();
        t.push(Transfer { token, from: self.contract, to: buyer, amount: self.swaps[i].record.price });
        if self.swaps[i].record.collateral_amount > 0 {
            match self.swaps[i].collateral {
                Some(c) => t.push(Transfer { token, from: self.contract, to: buyer, amount: c }),
                None => {},
            }
            self.swaps[i].collateral = None;
        }
        let insured = self.swaps[i].record.insurance_enabled;
        self.swaps[i].record.status = SwapStatus::Cancelled;
        if insured {
            self.swaps[i].insurance_claimable = true;
        }
        self.swaps[i].history.push(SwapHistoryEntry { status: SwapStatus::Cancelled, timestamp: now });
        proof {
            let e = s.swaps[i as int];
            let r = e.record;
            let w = SwapEntryView {
                record: SwapRecordView { status: SwapStatus::Cancelled, ..r },
                collateral: if r.collateral_amount > 0 { None } else { e.collateral },
                insurance_claimable: r.insurance_enabled || e.insurance_claimable,
                history: e.history.push(SwapHistoryEntry { status: SwapStatus::Cancelled, timestamp: now }),
                ..e
            };
            assert(e.is_consistent());
            assert(swap_entries_view(self.swaps@) =~= s.swaps.update(i as int, w));
            assert(self@ =~= with_swap(s1, swap_id, w));
            lemma_close_swap_inv(s1, swap_id, w);
            assert(t@ =~= refund_transfers(s, swap_id));
        }
        t
    }

    /// The seller reveals the key; a key that opens the commitment completes
    /// the swap (the fee to the treasury, the rest and any collateral to the
    /// seller), any other refunds the buyer (price and collateral) and
    /// cancels it. Returns whether the key was valid and the payouts. The
    /// caller's authorization is checked by the host before this call.
    pub fn verify_and_complete_swap(
        &mut self,
        registry: &IpRegistry,
        env: &Env,
        swap_id: u64,
        caller: Addr,
        secret: &Bytes32,
        blinding_factor: &Bytes32,
        now: u64,
    ) -> (r: Result<(bool, Vec<Transfer>), ContractError>)
        requires
            old(self).wf(),
            registry.wf(),
        ensures
            final(self).wf(),
            r is Err ==> final(self)@ == old(self)@,
            !old(self)@.has_swap(swap_id) ==> r == Err::<(bool, Vec<Transfer>), ContractError>(
                ContractError::SwapNotFound,
            ),
            old(self)@.has_swap(swap_id) ==> {
                let s = old(self)@;
                let e = s.swaps[swap_id as int];
                let rec = e.record;
                let cleared = SwapEntryView {
                    collateral: if rec.collateral_amount > 0 { None } else { e.collateral },
                    ..e
                };
                let completed = SwapEntryView {
                    record: SwapRecordView { status: SwapStatus::Completed, ..rec },
                    history: e.history.push(SwapHistoryEntry { status: SwapStatus::Completed, timestamp: now }),
                    ..cleared
                };
                let cancelled = SwapEntryView {
                    record: SwapRecordView { status: SwapStatus::Cancelled, ..rec },
                    history: e.history.push(SwapHistoryEntry { status: SwapStatus::Cancelled, timestamp: now }),
                    ..cleared
                };
                if caller != rec.seller {
                    r == Err::<(bool, Vec<Transfer>), ContractError>(ContractError::OnlySellerReveal)
                } else if rec.status != SwapStatus::Accepted {
                    r == Err::<(bool, Vec<Transfer>), ContractError>(ContractError::NotAccepted)
                } else if !registry@.has_ip(rec.ip_id) {
                    r == Err::<(bool, Vec<Transfer>), ContractError>(ContractError::SwapNotFound)
                } else if key_opens(registry@, rec.ip_id, *secret, *blinding_factor) {
                    r matches Ok(v) && v.0 && v.1@ == seller_settlement(s, swap_id) && final(self)@ == unlock_ip(
                        with_swap(s, swap_id, completed),
                        rec.ip_id,
                    )
                } else {
                    r matches Ok(v) && !v.0 && v.1@ == refund_transfers(s, swap_id) && final(self)@ == unlock_ip(
                        with_swap(s, swap_id, cancelled),
                        rec.ip_id,
                    )
                }
            },
    {
        if swap_id >= self.swaps.len() as u64 {
            return Err(ContractError::SwapNotFound);
        }
        let i = self.index_of(swap_id);
        if caller != self.swaps[i].record.seller {
            return Err(ContractError::OnlySellerReveal);
        }
        if self.swaps[i].record.status != SwapStatus::Accepted {
            return Err(ContractError::NotAccepted);
        }
        let valid = match registry.verify_commitment(env, self.swaps[i].record.ip_id, secret, blinding_factor) {
            Err(_) => {
                return Err(ContractError::SwapNotFound);
            },
            Ok(v) => v,
        };
        let ghost s = old(self)@;
        let price = self.swaps[i].record.price;
        let token = self.swaps[i].record.token;
        let seller = self.swaps[i].record.seller;
        let buyer = self.swaps[i].record.buyer;
        let collateral_amount = self.swaps[i].record.collateral_amount;
        let collateral = self.swaps[i].collateral;
        self.release_swap_ip(swap_id);
        let ghost s1 = self@;
        let mut t: Vec<Transfer> = Vec::new();
        let status = if valid {
            let fee: i128 = if price > 0 {
                bps_of(price, self.config.protocol_fee_bps)
            } else {
                0
            };
            t.push(Transfer { token, from: self.contract, to: seller, amount: price - fee });
            if fee > 0 {
                t.push(Transfer { token, from: self.contract, to: self.config.treasury, amount: fee });
            }
            if collateral_amount > 0 {
                match collateral {
                    Some(c) => t.push(Transfer { token, from: self.contract, to: seller, amount: c }),
                    None => {},
                }
            }
            SwapStatus::Completed
        } else {
            t.push(Transfer { token, from: self.contract, to: buyer, amount: price });
            if collateral_amount > 0 {
                match collateral {
                    Some(c) => t.push(Transfer { token, from: self.contract, to: buyer, amount: c }),
                    None => {},
                }
            }
            SwapStatus::Cancelled
        };
        if collateral_amount > 0 {
            self.swaps[i].collateral = None;
        }
        self.swaps[i].record.status = status;
        self.swaps[i].history.push(SwapHistoryEntry { status, timestamp: now });
        proof {
            let e = s.swaps[i as int];
            let rec = e.record;
            let cleared = SwapEntryView {
                collateral: if rec.collateral_amount > 0 { None } else { e.collateral },
                ..e
            };
            let w = SwapEntryView {
                record: SwapRecordView { status, ..rec },
                history: e.history.push(SwapHistoryEntry { status, timestamp: now }),
                ..cleared
            };
            assert(e.is_consistent());
            assert(swap_entries_view(self.swaps@) =~= s.swaps.update(i as int, w));
            assert(self@ =~= with_swap(s1, swap_id, w));
            lemma_close_swap_inv(s1, swap_id, w);
            if valid {
                assert(t@ =~= seq![release(s, rec.token, rec.seller, (rec.price - protocol_fee(s, rec.price)) as i128)]
                    + transfer_if(protocol_fee(s, rec.price) > 0, release(s, rec.token, s.config.treasury, protocol_fee(s, rec.price) as i128))
                    + transfer_if(
                    rec.collateral_amount > 0 && e.collateral is Some,
                    release(s, rec.token, rec.seller, e.collateral.unwrap()),
                ));
            } else {
                assert(t@ =~= seq![release(s, rec.token, rec.buyer, rec.price)] + transfer_if(
                    rec.collateral_amount > 0 && e.collateral is Some,
                    release(s, rec.token, rec.buyer, e.collateral.unwrap()),
                ));
            }
        }
        Ok((valid, t))
    }

    /// Cancels pending swap `swap_id` on behalf of its seller or buyer,
    /// releasing the IP; the canceller loses ten reputation. The
    /// canceller's authorization is checked by the host before this call.
    pub fn cancel_swap(&mut self, swap_id: u64, canceller: Addr, now: u64) -> (r: Result<(), ContractError>)
        requires
            old(self).wf(),
        ensures
            final(self).wf(),
            match cancel_error(old(self)@, swap_id, canceller) {
                Some(e) => r == Err::<(), ContractError>(e) && final(self)@ == old(self)@,
                None => r is Ok && final(self)@ == adjust_reputation(
                    cancelled_state(old(self)@, swap_id, now),
                    canceller,
                    -10,
                ),
            },
    {
        if swap_id >= self.swaps.len() as u64 {
            return Err(ContractError::SwapNotFound);
        }
        let i = self.index_of(swap_id);
        if canceller != self.swaps[i].record.seller && canceller != self.swaps[i].record.buyer {
            return Err(ContractError::OnlySellerBuyer);
        }
        if self.swaps[i].record.status != SwapStatus::Pending {
            return Err(ContractError::OnlyPending);
        }
        self.apply_cancel(swap_id, now);
        self.update_reputation(canceller, -10);
        Ok(())
    }

    /// Cancels swap `swap_id` at `now` and releases its IP.
    pub(crate) fn apply_cancel(&mut self, swap_id: u64, now: u64)
        requires
            old(self).wf(),
            old(self)@.has_swap(swap_id),
        ensures
            final(self).wf(),
            final(self)@ == cancelled_state(old(self)@, swap_id, now),
    {
        self.release_swap_ip(swap_id);
        self.record_status(swap_id, SwapStatus::Cancelled, now);
        assert(self@.swaps =~= cancelled_state(old(self)@, swap_id, now).swaps);
    }

    /// The buyer cancels a pending swap once it has expired (`now` is not
    /// before its expiry); nothing was paid, so nothing is refunded. The
    /// caller's authorization is checked by the host before this call.
    pub fn cancel_pending_swap(&mut self, swap_id: u64, caller: Addr, now: u64) -> (r: Result<(), ContractError>)
        requires
            old(self).wf(),
        ensures
            final(self).wf(),
            r is Err ==> final(self)@ == old(self)@,
            !old(self)@.has_swap(swap_id) ==> r == Err::<(), ContractError>(ContractError::SwapNotFound),
            old(self)@.has_swap(swap_id) ==> {
                let rec = old(self)@.record(swap_id);
                if caller != rec.buyer {
                    r == Err::<(), ContractError>(ContractError::OnlyBuyerCancel)
                } else if rec.status != SwapStatus::Pending {
                    r == Err::<(), ContractError>(ContractError::NotPending)
                } else if now < rec.expiry {
                    r == Err::<(), ContractError>(ContractError::PendingNotExpired)
                } else {
                    r is Ok && final(self)@ == cancelled_state(old(self)@, swap_id, now)
                }
            },
    {
        if swap_id >= self.swaps.len() as u64 {
            return Err(ContractError::SwapNotFound);
        }
        let i = self.index_of(swap_id);
        if caller != self.swaps[i].record.buyer {
            return Err(ContractError::OnlyBuyerCancel);
        }
        if self.swaps[i].record.status != SwapStatus::Pending {
            return Err(ContractError::NotPending);
        }
        if now < self.swaps[i].record.expiry {
            return Err(ContractError::PendingNotExpired);
        }
        self.apply_cancel(swap_id, now);
        Ok(())
    }

    /// The buyer cancels an accepted swap whose expiry has passed (`now` is
    /// after it): the price and any held collateral are refunded and
    /// the seller loses ten reputation. The caller's authorization is
    /// checked by the host before this call.
    pub fn cancel_expired_swap(&mut self, swap_id: u64, caller: Addr, now: u64) -> (r: Result<
        Vec<Transfer>,
        ContractError,
    >)
        requires
            old(self).wf(),
        ensures
            final(self).wf(),
            r is Err ==> final(self)@ == old(self)@,
            !old(self)@.has_swap(swap_id) ==> r == Err::<Vec<Transfer>, ContractError>(ContractError::SwapNotFound),
            old(self)@.has_swap(swap_id) ==> {
                let s = old(self)@;
                let e = s.swaps[swap_id as int];
                let rec = e.record;
                if rec.status != SwapStatus::Accepted {
                    r == Err::<Vec<Transfer>, ContractError>(ContractError::NotInAccepted)
                } else if caller != rec.buyer {
                    r == Err::<Vec<Transfer>, ContractError>(ContractError::OnlyBuyerCancel)
                } else if now <= rec.expiry {
                    r == Err::<Vec<Transfer>, ContractError>(ContractError::NotExpired)
                } else {
                    r matches Ok(t) && t@ == refund_transfers(s, swap_id) && final(self)@ == adjust_reputation(
                        cancelled_state(
                            with_swap(
                                s,
                                swap_id,
                                SwapEntryView {
                                    collateral: if rec.collateral_amount > 0 { None } else { e.collateral },
                                    ..e
                                },
                            ),
                            swap_id,
                            now,
                        ),
                        rec.seller,
                        -10,
                    )
                }
            },
    {
        if swap_id >= self.swaps.len() as u64 {
            return Err(ContractError::SwapNotFound);
        }
        let i = self.index_of(swap_id);
        if self.swaps[i].record.status != SwapStatus::Accepted {
            return Err(ContractError::NotInAccepted);
        }
        if caller != self.swaps[i].record.buyer {
            return Err(ContractError::OnlyBuyerCancel);
        }
        if now <= self.swaps[i].record.expiry {
            return Err(ContractError::NotExpired);
        }
        let t = self.refund_buyer(swap_id);
        let seller = self.swaps[i].record.seller;
        self.apply_cancel(swap_id, now);
        self.update_reputation(seller, -10);
        Ok(t)
    }

    /// Refunds the buyer of swap `swap_id` its price and any held collateral
    /// (clearing the collateral record).
    pub(crate) fn refund_buyer(&mut self, swap_id: u64) -> (t: Vec<Transfer>)
        requires
            old(self).wf(),
            old(self)@.has_swap(swap_id),
        ensures
            final(self).wf(),
            ({
                let s = old(self)@;
                let e = s.swaps[swap_id as int];
                let rec = e.record;
                &&& t@ == seq![release(s, rec.token, rec.buyer, rec.price)] + transfer_if(
                    rec.collateral_amount > 0 && e.collateral is Some,
                    release(s, rec.token, rec.buyer, e.collateral.unwrap()),
                )
                &&& final(self)@ == with_swap(
                    s,
                    swap_id,
                    SwapEntryView { collateral: if rec.collateral_amount > 0 { None } else { e.collateral }, ..e },
                )
            }),
    {
        let i = self.index_of(swap_id);
        let ghost s = old(self)@;
        let token = self.swaps[i].record.token;
        let buyer = self.swaps[i].record.buyer;
        let price = self.swaps[i].record.price;
        let collateral_amount = self.swaps[i].record.collateral_amount;
        let mut t: Vec<Transfer> = Vec::new();
        t.push(Transfer { token, from: self.contract, to: buyer, amount: price });
        if collateral_amount > 0 {
            match self.swaps[i].collateral {
                Some(c) => t.push(Transfer { token, from: self.contract, to: buyer, amount: c }),
                None => {},
            }
            self.swaps[i].collateral = None;
        }
        proof {
            let e = s.swaps[i as int];
            let rec = e.record;
            let w = SwapEntryView { collateral: if rec.collateral_amount > 0 { None } else { e.collateral }, ..e };
            assert(swap_entries_view(self.swaps@) =~= s.swaps.update(i as int, w));
            assert(self@ =~= with_swap(s, swap_id, w));
            assert(t@ =~= seq![release(s, rec.token, rec.buyer, rec.price)] + transfer_if(
                rec.collateral_amount > 0 && e.collateral is Some,
                release(s, rec.token, rec.buyer, e.collateral.unwrap()),
            ));
        }
        t
    }

    /// Within a day of completion the buyer may report the key invalid: 90 %
    /// of the price (rounded down) goes back to the buyer, the rest to the
    /// treasury, and the swap is RolledBack. Reporting it valid changes
    /// nothing. Returns whether it was rolled back, and the payouts. The
    /// buyer's authorization is checked by the host before this call.
    pub fn validate_and_rollback_swap(&mut self, swap_id: u64, is_key_valid: bool, now: u64) -> (r: Result<
        (bool, Vec<Transfer>),
        ContractError,
    >)
        requires
            old(self).wf(),
        ensures
            final(self).wf(),
            r is Err ==> final(self)@ == old(self)@,
            !old(self)@.has_swap(swap_id) ==> r == Err::<(bool, Vec<Transfer>), ContractError>(
                ContractError::SwapNotFound,
            ),
            old(self)@.has_swap(swap_id) ==> {
                let s = old(self)@;
                let e = s.swaps[swap_id as int];
                let rec = e.record;
                let done_at: u64 = match e.completion_timestamp {
                    Some(ts) => ts,
                    None => 0,
                };
                let elapsed = if now >= done_at { now - done_at } else { 0 };
                let refund = rec.price * 90 / 100;
                if rec.status != SwapStatus::Completed {
                    r == Err::<(bool, Vec<Transfer>), ContractError>(ContractError::NotInAccepted)
                } else if elapsed > ROLLBACK_WINDOW_SECONDS {
                    r == Err::<(bool, Vec<Transfer>), ContractError>(ContractError::RollbackWindowExpired)
                } else if is_key_valid {
                    r matches Ok(v) && !v.0 && v.1@.len() == 0 && final(self)@ == s
                } else {
                    (r matches Ok(v) && v.0 && v.1@ == rollback_transfers(s, swap_id) && final(self)@ == with_swap(
                        s,
                        swap_id,
                        SwapEntryView {
                            record: SwapRecordView { status: SwapStatus::RolledBack, ..rec },
                            completion_timestamp: None,
                            history: e.history.push(
                                SwapHistoryEntry { status: SwapStatus::RolledBack, timestamp: now },
                            ),
                            ..e
                        },
                    ))
                }
            },
    {
        if swap_id >= self.swaps.len() as u64 {
            return Err(ContractError::SwapNotFound);
        }
        let i = self.index_of(swap_id);
        if self.swaps[i].record.status != SwapStatus::Completed {
            return Err(ContractError::NotInAccepted);
        }
        let done_at: u64 = match self.swaps[i].completion_timestamp {
            Some(ts) => ts,
            None => 0,
        };
        let elapsed: u64 = if now >= done_at { now - done_at } else { 0 };
        if elapsed > ROLLBACK_WINDOW_SECONDS {
            return Err(ContractError::RollbackWindowExpired);
        }
        if is_key_valid {
            return Ok((false, Vec::new()));
        }
        let ghost s = old(self)@;
        let price = self.swaps[i].record.price;
        let token = self.swaps[i].record.token;
        let buyer = self.swaps[i].record.buyer;
        proof {
            assert(s.swaps[i as int].is_consistent());
            let p = price as int;
            assert(p * 9000 / 10000 == p * 90 / 100) by (nonlinear_arith)
                requires p >= 0;
        }
        let refund = bps_of(price, 9000);
        let penalty = price - refund;
        let mut t: Vec<Transfer> = Vec::new();
        t.push(Transfer { token, from: self.contract, to: buyer, amount: refund });
        if penalty > 0 {
            t.push(Transfer { token, from: self.contract, to: self.config.treasury, amount: penalty });
        }
        self.swaps[i].record.status = SwapStatus::RolledBack;
        self.swaps[i].completion_timestamp = None;
        self.swaps[i].history.push(SwapHistoryEntry { status: SwapStatus::RolledBack, timestamp: now });
        proof {
            let e = s.swaps[i as int];
            let w = SwapEntryView {
                record: SwapRecordView { status: SwapStatus::RolledBack, ..e.record },
                completion_timestamp: None,
                history: e.history.push(SwapHistoryEntry { status: SwapStatus::RolledBack, timestamp: now }),
                ..e
            };
            assert(e.is_consistent());
            assert(swap_entries_view(self.swaps@) =~= s.swaps.update(i as int, w));
            assert(self@ =~= with_swap(s, swap_id, w));
            lemma_closed_is_unlocked(s, swap_id);
            lemma_with_swap_inv(s, swap_id, w);
        }
        Ok((true, t))
    }
}

} // verus!
