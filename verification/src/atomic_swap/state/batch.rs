//! Operations on several swaps at once. Each either succeeds for every item
//! or fails with the error of its first failing item and changes nothing.
use vstd::prelude::*;
use soroban_sdk::Env;
use crate::common::{Addr, Bytes32};
use crate::ip_registry::state::{IpRegistry, RegistryState};
use crate::atomic_swap::types::{
    ContractError, SwapFeeBreakdown, SwapHistoryEntry, SwapMode, SwapRecordView, SwapStatus, Transfer,
};
use super::{
    AtomicSwap, SwapEntryView, SwapState, SWAP_LIFETIME_SECONDS,
    adjust_reputation, lemma_close_swap_inv, lemma_pools_keep_inv, lemma_with_swap_inv, swap_entries_view,
    unlock_ip, with_swap,
};
use super::initiate::{created_state, fresh_swap, ownership_error, pending_record, registry_matches};
use super::settle::{
    bps_of, cancelled_state, deposit, key_opens, protocol_fee, referral_fee, release, transfer_if,
};
use super::extras::accepted_entry;

verus! {

broadcast use vstd::std_specs::hash::group_hash_axioms;

/// The first error among items `i..n`, where `err(k)` is item `k`'s.
pub open spec fn first_error_from(err: spec_fn(int) -> Option<ContractError>, i: int, n: int) -> Option<
    ContractError,
>
    decreases n - i,
{
    if i < 0 || i >= n {
        None
    } else if err(i) is Some {
        err(i)
    } else {
        first_error_from(err, i + 1, n)
    }
}

/// The state after steps `0..n` are applied in order.
pub open spec fn fold_steps(s: SwapState, n: int, step: spec_fn(SwapState, int) -> SwapState) -> SwapState
    decreases n,
{
    if n <= 0 {
        s
    } else {
        step(fold_steps(s, n - 1, step), n - 1)
    }
}

/// What steps `0..n` produce, in order, each from the state before it.
pub open spec fn fold_outputs<T>(
    s: SwapState,
    n: int,
    step: spec_fn(SwapState, int) -> SwapState,
    out: spec_fn(SwapState, int) -> Seq<T>,
) -> Seq<T>
    decreases n,
{
    if n <= 0 {
        Seq::empty()
    } else {
        fold_outputs(s, n - 1, step, out) + out(fold_steps(s, n - 1, step), n - 1)
    }
}

/// Whether `ids[i]` occurs before position `i`.
pub open spec fn repeated(ids: Seq<u64>, i: int) -> bool {
    exists|j: int| 0 <= j < i && ids[j] == ids[i]
}

proof fn lemma_first_error_prefix(err: spec_fn(int) -> Option<ContractError>, i: int, n: int)
    requires
        0 <= i <= n,
        forall|k: int| 0 <= k < i ==> #[trigger] err(k) is None,
    ensures
        first_error_from(err, 0, n) == first_error_from(err, i, n),
    decreases i,
{
    if i > 0 {
        lemma_first_error_prefix(err, i - 1, n);
    }
}

/// Whether `ids[i]` occurs before position `i`.
fn occurs_before(ids: &Vec<u64>, i: usize) -> (r: bool)
    requires
        i < ids@.len(),
    ensures
        r == repeated(ids@, i as int),
{
    let mut j: usize = 0;
    while j < i
        invariant
            0 <= j <= i,
            i < ids@.len(),
            forall|k: int| 0 <= k < j ==> ids@[k] != ids@[i as int],
        decreases i - j,
    {
        if ids[j] == ids[i] {
            return true;
        }
        j = j + 1;
    }
    false
}

// ── Listing several IPs ─────────────────────────────────────────────────────

/// The error listing item `k` (IP `ips[k]` at `prices[k]`) runs into, given
/// the items before it were listed.
pub open spec fn listing_item_error(
    s: SwapState,
    reg: RegistryState,
    ips: Seq<u64>,
    prices: Seq<i128>,
    seller: Addr,
    k: int,
) -> Option<ContractError> {
    if prices[k] <= 0 {
        Some(ContractError::PriceTooSmall)
    } else if ownership_error(s, reg, ips[k], seller) is Some {
        ownership_error(s, reg, ips[k], seller)
    } else if s.active_swaps.contains_key(ips[k]) || repeated(ips, k) {
        Some(ContractError::SwapExists)
    } else {
        None
    }
}

/// The error a batch listing reports: that of its first failing item.
pub open spec fn listing_batch_error(
    s: SwapState,
    reg: RegistryState,
    ips: Seq<u64>,
    prices: Seq<i128>,
    seller: Addr,
) -> Option<ContractError> {
    first_error_from(|k: int| listing_item_error(s, reg, ips, prices, seller, k), 0, ips.len() as int)
}

/// How the items of a batch listing are stored.
pub ghost struct ListingTerms {
    pub token: Addr,
    pub seller: Addr,
    pub buyer: Addr,
    pub required_approvals: u32,
    pub referrer: Option<Addr>,
    pub insurance_enabled: bool,
    pub mode: SwapMode,
    pub index_ip: bool,
    pub now: u64,
}

/// Listing step `k`: IP `ips[k]` for `prices[k]`, expiring at `expiries[k]`.
pub open spec fn listing_step(
    terms: ListingTerms,
    ips: Seq<u64>,
    prices: Seq<i128>,
    expiries: Seq<u64>,
) -> spec_fn(SwapState, int) -> SwapState {
    |st: SwapState, k: int|
        created_state(
            st,
            fresh_swap(
                pending_record(
                    ips[k],
                    terms.seller,
                    terms.buyer,
                    prices[k],
                    terms.token,
                    expiries[k],
                    terms.required_approvals,
                    terms.referrer,
                    0,
                    terms.insurance_enabled,
                    false,
                ),
                terms.mode,
                None,
                None,
                terms.now,
            ),
            true,
            terms.index_ip,
        )
}

/// The ids `first, first + 1, ...` of `n` consecutive swaps.
pub open spec fn consecutive_ids(first: int, n: int) -> Seq<u64> {
    Seq::new(n as nat, |k: int| (first + k) as u64)
}

// ── Accepting several swaps ─────────────────────────────────────────────────

/// The error accepting item `k` of a batch for `buyer` runs into.
pub open spec fn accept_item_error(s: SwapState, ids: Seq<u64>, buyer: Addr, k: int) -> Option<ContractError> {
    let id = ids[k];
    if !s.has_swap(id) {
        Some(ContractError::SwapNotFound)
    } else {
        let e = s.swaps[id as int];
        if e.record.buyer != buyer {
            Some(ContractError::Unauthorized)
        } else if e.record.status != SwapStatus::Pending || repeated(ids, k) {
            Some(ContractError::NotPending)
        } else if e.record.required_approvals > 0 && e.approvals.len() < e.record.required_approvals {
            Some(ContractError::NeedApprovals)
        } else {
            None
        }
    }
}

/// Accepting swap `id` within a batch: collateral is taken unless already
/// held, then the price and the premium.
pub open spec fn batch_accept_step(s: SwapState, id: u64, now: u64) -> SwapState {
    let e = s.swaps[id as int];
    let r = e.record;
    let s1 = with_swap(
        s,
        id,
        SwapEntryView {
            collateral: if r.collateral_amount > 0 && e.collateral is None {
                Some(r.collateral_amount)
            } else {
                e.collateral
            },
            ..accepted_entry(e, now)
        },
    );
    if r.insurance_enabled && r.insurance_premium > 0 {
        SwapState {
            insurance_pools: s1.insurance_pools.insert(r.token.id, (s.pool_of(r.token) + r.insurance_premium) as i128),
            ..s1
        }
    } else {
        s1
    }
}

/// The buyer's payments for swap `id` within a batch acceptance.
pub open spec fn batch_accept_transfers(s: SwapState, id: u64) -> Seq<Transfer> {
    let e = s.swaps[id as int];
    let r = e.record;
    transfer_if(r.collateral_amount > 0 && e.collateral is None, deposit(s, r.token, r.buyer, r.collateral_amount))
        + seq![deposit(s, r.token, r.buyer, r.price)] + transfer_if(
        r.insurance_enabled && r.insurance_premium > 0,
        deposit(s, r.token, r.buyer, r.insurance_premium),
    )
}

/// Step `k` of a batch acceptance of `ids`.
pub open spec fn accept_step(ids: Seq<u64>, now: u64) -> spec_fn(SwapState, int) -> SwapState {
    |st: SwapState, k: int| batch_accept_step(st, ids[k], now)
}

/// Whether the insurance pool can take the premium of item `k` of a batch
/// acceptance, after the items before it.
pub open spec fn premium_fits_at(s: SwapState, ids: Seq<u64>, now: u64, k: int) -> bool {
    let st = fold_steps(s, k, accept_step(ids, now));
    let r = st.swaps[ids[k] as int].record;
    r.insurance_enabled && r.insurance_premium > 0 ==> st.pool_of(r.token) + r.insurance_premium <= i128::MAX
}

// ── Revealing several keys ──────────────────────────────────────────────────

/// The error revealing item `k` of a batch by `seller` runs into.
pub open spec fn reveal_item_error(
    s: SwapState,
    reg: RegistryState,
    ids: Seq<u64>,
    secrets: Seq<Bytes32>,
    blindings: Seq<Bytes32>,
    seller: Addr,
    k: int,
) -> Option<ContractError> {
    let id = ids[k];
    if !s.has_swap(id) {
        Some(ContractError::SwapNotFound)
    } else {
        let r = s.swaps[id as int].record;
        if seller != r.seller {
            Some(ContractError::OnlySellerReveal)
        } else if r.status != SwapStatus::Accepted || repeated(ids, k) {
            Some(ContractError::NotAccepted)
        } else if !reg.has_ip(r.ip_id) {
            Some(ContractError::SwapNotFound)
        } else if !key_opens(reg, r.ip_id, secrets[k], blindings[k]) {
            Some(ContractError::InvalidKey)
        } else {
            None
        }
    }
}

/// Completing swap `id` within a batch reveal at `now`.
pub open spec fn batch_reveal_step(s: SwapState, id: u64, now: u64) -> SwapState {
    let e = s.swaps[id as int];
    let r = e.record;
    let s1 = unlock_ip(
        with_swap(
            s,
            id,
            SwapEntryView {
                record: SwapRecordView { status: SwapStatus::Completed, ..r },
                history: e.history.push(SwapHistoryEntry { status: SwapStatus::Completed, timestamp: now }),
                collateral: if r.collateral_amount > 0 { None } else { e.collateral },
                ..e
            },
        ),
        r.ip_id,
    );
    adjust_reputation(adjust_reputation(s1, r.seller, 5), r.buyer, 5)
}

/// The payouts of swap `id` within a batch reveal: the seller's share, the
/// protocol fee, the referral fee, then the collateral to the seller.
pub open spec fn batch_reveal_transfers(s: SwapState, id: u64) -> Seq<Transfer> {
    let e = s.swaps[id as int];
    let r = e.record;
    let fee = protocol_fee(s, r.price);
    let referral = referral_fee(s, r.price, r.referrer);
    seq![release(s, r.token, r.seller, (r.price - fee - referral) as i128)] + transfer_if(
        fee > 0,
        release(s, r.token, s.config.treasury, fee as i128),
    ) + transfer_if(referral > 0, release(s, r.token, r.referrer.unwrap(), referral as i128)) + transfer_if(
        r.collateral_amount > 0 && e.collateral is Some,
        release(s, r.token, r.seller, e.collateral.unwrap()),
    )
}

/// The fee breakdown of swap `id` within a batch reveal.
pub open spec fn fee_breakdown(s: SwapState, id: u64) -> SwapFeeBreakdown {
    let r = s.swaps[id as int].record;
    let fee = protocol_fee(s, r.price);
    let referral = referral_fee(s, r.price, r.referrer);
    SwapFeeBreakdown {
        swap_id: id,
        price: r.price,
        protocol_fee: fee as i128,
        referral_fee: referral as i128,
        seller_amount: (r.price - fee - referral) as i128,
    }
}

// ── Cancelling several swaps ────────────────────────────────────────────────

/// The error cancelling item `k` of a batch by `canceller` runs into.
pub open spec fn cancel_item_error(s: SwapState, ids: Seq<u64>, canceller: Addr, k: int) -> Option<ContractError> {
    let id = ids[k];
    if !s.has_swap(id) {
        Some(ContractError::SwapNotFound)
    } else {
        let r = s.swaps[id as int].record;
        if canceller != r.seller && canceller != r.buyer {
            Some(ContractError::OnlySellerBuyer)
        } else if r.status != SwapStatus::Pending || repeated(ids, k) {
            Some(ContractError::OnlyPending)
        } else {
            None
        }
    }
}

/// Cancelling swap `id` for `reason` within a batch.
pub open spec fn batch_cancel_step(s: SwapState, id: u64, reason: Seq<u8>, canceller: Addr, now: u64) -> SwapState {
    let c = cancelled_state(s, id, now);
    adjust_reputation(
        with_swap(c, id, SwapEntryView { cancel_reason: Some(reason), ..c.swaps[id as int] }),
        canceller,
        -10,
    )
}

// ── Arbitrating several swaps ───────────────────────────────────────────────

/// The error arbitrating item `k` of a batch runs into.
pub open spec fn arbitrate_item_error(s: SwapState, ids: Seq<u64>, k: int) -> Option<ContractError> {
    let id = ids[k];
    if !s.has_swap(id) {
        Some(ContractError::SwapNotFound)
    } else if s.swaps[id as int].record.status != SwapStatus::Disputed || repeated(ids, k) {
        Some(ContractError::NotDisputed)
    } else {
        None
    }
}

/// Deciding swap `id` within a batch arbitration at `now`.
pub open spec fn batch_arbitrate_step(s: SwapState, id: u64, refund: bool, now: u64) -> SwapState {
    let e = s.swaps[id as int];
    let r = e.record;
    let status = if refund { SwapStatus::Cancelled } else { SwapStatus::Completed };
    unlock_ip(
        with_swap(
            s,
            id,
            SwapEntryView {
                record: SwapRecordView { status, ..r },
                collateral: if r.collateral_amount > 0 { None } else { e.collateral },
                history: e.history.push(SwapHistoryEntry { status, timestamp: now }),
                ..e
            },
        ),
        r.ip_id,
    )
}

/// The payouts of swap `id` within a batch arbitration.
pub open spec fn batch_arbitrate_transfers(s: SwapState, id: u64, refund: bool) -> Seq<Transfer> {
    let e = s.swaps[id as int];
    let r = e.record;
    let held = r.collateral_amount > 0 && e.collateral is Some;
    let fee = protocol_fee(s, r.price);
    if refund {
        seq![release(s, r.token, r.buyer, r.price)] + transfer_if(
            held,
            release(s, r.token, r.buyer, e.collateral.unwrap()),
        )
    } else {
        seq![release(s, r.token, r.seller, (r.price - fee) as i128)] + transfer_if(
            fee > 0,
            release(s, r.token, s.config.treasury, fee as i128),
        ) + transfer_if(held, release(s, r.token, r.seller, e.collateral.unwrap()))
    }
}

// ── Depositing into several escrow swaps ────────────────────────────────────

/// The error depositing into item `k` of a batch for `buyer` runs into.
pub open spec fn deposit_item_error(s: SwapState, ids: Seq<u64>, buyer: Addr, k: int) -> Option<ContractError> {
    let id = ids[k];
    if !s.has_swap(id) {
        Some(ContractError::SwapNotFound)
    } else {
        let e = s.swaps[id as int];
        if e.record.buyer != buyer || e.mode != SwapMode::Escrow {
            Some(ContractError::Unauthorized)
        } else if e.record.status != SwapStatus::Pending || repeated(ids, k) {
            Some(ContractError::NotPending)
        } else {
            None
        }
    }
}

/// Depositing into escrow swap `id` within a batch at `now`.
pub open spec fn batch_deposit_step(s: SwapState, id: u64, now: u64) -> SwapState {
    let e = s.swaps[id as int];
    with_swap(s, id, SwapEntryView { escrow_deposit: Some(e.record.price), ..accepted_entry(e, now) })
}

impl AtomicSwap {
    /// Checks every item of a batch listing (see [`listing_batch_error`]).
    fn check_listing_batch(&self, registry: &IpRegistry, ip_ids: &Vec<u64>, prices: &Vec<i128>, seller: Addr) -> (r:
        Result<(), ContractError>)
        requires
            self.wf(),
            registry.wf(),
            prices@.len() >= ip_ids@.len(),
        ensures
            match listing_batch_error(self@, registry@, ip_ids@, prices@, seller) {
                Some(e) => r == Err::<(), ContractError>(e),
                None => r is Ok,
            },
            r is Ok ==> forall|k: int|
                0 <= k < ip_ids@.len() ==> #[trigger] listing_item_error(self@, registry@, ip_ids@, prices@, seller, k)
                    is None,
    {
        let ghost err = |k: int| listing_item_error(self@, registry@, ip_ids@, prices@, seller, k);
        let mut k: usize = 0;
        while k < ip_ids.len()
            invariant
                self.wf(),
                registry.wf(),
                prices@.len() >= ip_ids@.len(),
                0 <= k <= ip_ids@.len(),
                err == (|k: int| listing_item_error(self@, registry@, ip_ids@, prices@, seller, k)),
                forall|j: int| 0 <= j < k ==> #[trigger] err(j) is None,
            decreases ip_ids@.len() - k,
        {
            let mut found: Option<ContractError> = None;
            if prices[k] <= 0 {
                found = Some(ContractError::PriceTooSmall);
            } else {
                match self.check_ownership(registry, ip_ids[k], seller) {
                    Err(e) => {
                        found = Some(e);
                    },
                    Ok(()) => {
                        if self.active_swaps.contains_key(&ip_ids[k]) || occurs_before(ip_ids, k) {
                            found = Some(ContractError::SwapExists);
                        }
                    },
                }
            }
            assert(found == err(k as int));
            match found {
                Some(e) => {
                    proof {
                        lemma_first_error_prefix(err, k as int, ip_ids@.len() as int);
                    }
                    return Err(e);
                },
                None => {},
            }
            k = k + 1;
        }
        proof {
            lemma_first_error_prefix(err, ip_ids@.len() as int, ip_ids@.len() as int);
            assert forall|j: int| 0 <= j < ip_ids@.len() implies #[trigger] listing_item_error(
                self@,
                registry@,
                ip_ids@,
                prices@,
                seller,
                j,
            ) is None by {
                assert(err(j) is None);
            }
        }
        Ok(())
    }

    /// Lists every validated item of a batch (see [`listing_step`]).
    fn list_batch(
        &mut self,
        token: Addr,
        ip_ids: &Vec<u64>,
        seller: Addr,
        prices: &Vec<i128>,
        buyer: Addr,
        required_approvals: u32,
        referrer: Option<Addr>,
        insurance_enabled: bool,
        mode: SwapMode,
        index_ip: bool,
        expiries: &Vec<u64>,
        now: u64,
    ) -> (ids: Vec<u64>)
        requires
            old(self).wf(),
            old(self)@.swaps.len() + ip_ids@.len() <= u64::MAX,
            prices@.len() >= ip_ids@.len(),
            expiries@.len() >= ip_ids@.len(),
            forall|k: int| 0 <= k < ip_ids@.len() ==> #[trigger] prices@[k] > 0,
            insurance_enabled ==> forall|k: int| 0 <= k < ip_ids@.len() ==> #[trigger] prices@[k] * 2 <= i128::MAX,
            forall|k: int|
                0 <= k < ip_ids@.len() ==> !old(self)@.active_swaps.contains_key(#[trigger] ip_ids@[k]) && !repeated(
                    ip_ids@,
                    k,
                ),
        ensures
            final(self).wf(),
            ids@ == consecutive_ids(old(self)@.swaps.len() as int, ip_ids@.len() as int),
            final(self)@ == fold_steps(
                old(self)@,
                ip_ids@.len() as int,
                listing_step(
                    ListingTerms {
                        token,
                        seller,
                        buyer,
                        required_approvals,
                        referrer,
                        insurance_enabled,
                        mode,
                        index_ip,
                        now,
                    },
                    ip_ids@,
                    prices@,
                    expiries@,
                ),
            ),
    {
        let ghost terms = ListingTerms {
            token,
            seller,
            buyer,
            required_approvals,
            referrer,
            insurance_enabled,
            mode,
            index_ip,
            now,
        };
        let ghost step = listing_step(terms, ip_ids@, prices@, expiries@);
        let ghost s0 = old(self)@;
        let mut ids: Vec<u64> = Vec::new();
        let mut k: usize = 0;
        while k < ip_ids.len()
            invariant
                self.wf(),
                0 <= k <= ip_ids@.len(),
                s0.swaps.len() + ip_ids@.len() <= u64::MAX,
                prices@.len() >= ip_ids@.len(),
                expiries@.len() >= ip_ids@.len(),
                forall|j: int| 0 <= j < ip_ids@.len() ==> #[trigger] prices@[j] > 0,
                insurance_enabled ==> forall|j: int| 0 <= j < ip_ids@.len() ==> #[trigger] prices@[j] * 2 <= i128::MAX,
                step == listing_step(terms, ip_ids@, prices@, expiries@),
                terms == (ListingTerms {
                    token,
                    seller,
                    buyer,
                    required_approvals,
                    referrer,
                    insurance_enabled,
                    mode,
                    index_ip,
                    now,
                }),
                self@ == fold_steps(s0, k as int, step),
                self@.swaps.len() == s0.swaps.len() + k,
                ids@ == consecutive_ids(s0.swaps.len() as int, k as int),
                forall|j: int| 0 <= j < ip_ids@.len() ==> !repeated(ip_ids@, j),
                forall|j: int| k <= j < ip_ids@.len() ==> !self@.active_swaps.contains_key(#[trigger] ip_ids@[j]),
            decreases ip_ids@.len() - k,
        {
            let rec = Self::pending(
                ip_ids[k],
                seller,
                buyer,
                prices[k],
                token,
                expiries[k],
                required_approvals,
                referrer,
                0,
                insurance_enabled,
                false,
            );
            let entry = Self::new_entry(rec, mode, None, None, now);
            let ghost before = self@;
            let id = self.create_swap(entry, true, index_ip);
            ids.push(id);
            proof {
                assert(self@ == step(before, k as int));
                assert(ids@ =~= consecutive_ids(s0.swaps.len() as int, k + 1));
                assert forall|j: int| k + 1 <= j < ip_ids@.len() implies !self@.active_swaps.contains_key(
                    #[trigger] ip_ids@[j],
                ) by {
                    assert(!repeated(ip_ids@, j));
                    assert(ip_ids@[j] != ip_ids@[k as int]);
                    assert(!before.active_swaps.contains_key(ip_ids@[j]));
                }
            }
            k = k + 1;
        }
        ids
    }

    /// The expiry `now + lifetime`, `n` times.
    fn lifetimes(n: usize, now: u64) -> (r: Vec<u64>)
        requires
            now + SWAP_LIFETIME_SECONDS <= u64::MAX,
        ensures
            r@ == Seq::new(n as nat, |k: int| (now + SWAP_LIFETIME_SECONDS) as u64),
    {
        let mut r: Vec<u64> = Vec::new();
        let mut k: usize = 0;
        while k < n
            invariant
                0 <= k <= n,
                now + SWAP_LIFETIME_SECONDS <= u64::MAX,
                r@ == Seq::new(k as nat, |j: int| (now + SWAP_LIFETIME_SECONDS) as u64),
            decreases n - k,
        {
            r.push(now + SWAP_LIFETIME_SECONDS);
            assert(r@ =~= Seq::new((k + 1) as nat, |j: int| (now + SWAP_LIFETIME_SECONDS) as u64));
            k = k + 1;
        }
        r
    }

    /// Lists IP `ip_ids[k]` at `prices[k]` for each `k`, all to `buyer` in
    /// `token`, each expiring seven days after `now`; returns the swap ids.
    /// Insured swaps carry a premium of 2 % of their price. The seller's
    /// authorization is checked by the host before this call.
    pub fn batch_initiate_swap_with_insurance(
        &mut self,
        registry: &IpRegistry,
        token: Addr,
        ip_ids: &Vec<u64>,
        seller: Addr,
        prices: &Vec<i128>,
        buyer: Addr,
        required_approvals: u32,
        referrer: Option<Addr>,
        insurance_enabled: bool,
        now: u64,
    ) -> (r: Result<Vec<u64>, ContractError>)
        requires
            old(self).wf(),
            registry.wf(),
            registry_matches(old(self)@, registry@),
            !old(self)@.paused && prices@.len() == ip_ids@.len() && listing_batch_error(
                old(self)@,
                registry@,
                ip_ids@,
                prices@,
                seller,
            ) is None ==> {
                &&& old(self)@.swaps.len() + ip_ids@.len() <= u64::MAX
                &&& now + SWAP_LIFETIME_SECONDS <= u64::MAX
                &&& insurance_enabled ==> forall|k: int|
                    0 <= k < ip_ids@.len() ==> #[trigger] prices@[k] * 2 <= i128::MAX
            },
        ensures
            final(self).wf(),
            r is Err ==> final(self)@ == old(self)@,
            old(self)@.paused ==> r == Err::<Vec<u64>, ContractError>(ContractError::Paused),
            !old(self)@.paused && prices@.len() != ip_ids@.len() ==> r == Err::<Vec<u64>, ContractError>(
                ContractError::PriceTooSmall,
            ),
            !old(self)@.paused && prices@.len() == ip_ids@.len() ==> match listing_batch_error(
                old(self)@,
                registry@,
                ip_ids@,
                prices@,
                seller,
            ) {
                Some(e) => r == Err::<Vec<u64>, ContractError>(e),
                None => r matches Ok(ids) && ids@ == consecutive_ids(
                    old(self)@.swaps.len() as int,
                    ip_ids@.len() as int,
                ) && final(self)@ == fold_steps(
                    old(self)@,
                    ip_ids@.len() as int,
                    listing_step(
                        ListingTerms {
                            token,
                            seller,
                            buyer,
                            required_approvals,
                            referrer,
                            insurance_enabled,
                            mode: SwapMode::Atomic,
                            index_ip: true,
                            now,
                        },
                        ip_ids@,
                        prices@,
                        Seq::new(ip_ids@.len(), |k: int| (now + SWAP_LIFETIME_SECONDS) as u64),
                    ),
                ),
            },
    {
        if self.paused {
            return Err(ContractError::Paused);
        }
        if prices.len() != ip_ids.len() {
            return Err(ContractError::PriceTooSmall);
        }
        match self.check_listing_batch(registry, ip_ids, prices, seller) {
            Err(e) => {
                return Err(e);
            },
            Ok(()) => {},
        }
        proof {
            assert forall|k: int| 0 <= k < ip_ids@.len() implies #[trigger] prices@[k] > 0 by {
                assert(listing_item_error(old(self)@, registry@, ip_ids@, prices@, seller, k) is None);
            }
            assert forall|k: int| 0 <= k < ip_ids@.len() implies !old(self)@.active_swaps.contains_key(
                #[trigger] ip_ids@[k],
            ) && !repeated(ip_ids@, k) by {
                assert(listing_item_error(old(self)@, registry@, ip_ids@, prices@, seller, k) is None);
            }
        }
        let expiries = Self::lifetimes(ip_ids.len(), now);
        let ids = self.list_batch(
            token,
            ip_ids,
            seller,
            prices,
            buyer,
            required_approvals,
            referrer,
            insurance_enabled,
            SwapMode::Atomic,
            true,
            &expiries,
            now,
        );
        Ok(ids)
    }

    /// Lists IP `ip_ids[k]` at `prices[k]` for each `k` without insurance
    /// (see [`AtomicSwap::batch_initiate_swap_with_insurance`]).
    pub fn batch_initiate_swap(
        &mut self,
        registry: &IpRegistry,
        token: Addr,
        ip_ids: &Vec<u64>,
        seller: Addr,
        prices: &Vec<i128>,
        buyer: Addr,
        required_approvals: u32,
        referrer: Option<Addr>,
        now: u64,
    ) -> (r: Result<Vec<u64>, ContractError>)
        requires
            old(self).wf(),
            registry.wf(),
            registry_matches(old(self)@, registry@),
            !old(self)@.paused && prices@.len() == ip_ids@.len() && listing_batch_error(
                old(self)@,
                registry@,
                ip_ids@,
                prices@,
                seller,
            ) is None ==> {
                &&& old(self)@.swaps.len() + ip_ids@.len() <= u64::MAX
                &&& now + SWAP_LIFETIME_SECONDS <= u64::MAX
            },
        ensures
            final(self).wf(),
            r is Err ==> final(self)@ == old(self)@,
            old(self)@.paused ==> r == Err::<Vec<u64>, ContractError>(ContractError::Paused),
            !old(self)@.paused && prices@.len() != ip_ids@.len() ==> r == Err::<Vec<u64>, ContractError>(
                ContractError::PriceTooSmall,
            ),
            !old(self)@.paused && prices@.len() == ip_ids@.len() ==> match listing_batch_error(
                old(self)@,
                registry@,
                ip_ids@,
                prices@,
                seller,
            ) {
                Some(e) => r == Err::<Vec<u64>, ContractError>(e),
                None => r matches Ok(ids) && ids@ == consecutive_ids(
                    old(self)@.swaps.len() as int,
                    ip_ids@.len() as int,
                ) && final(self)@ == fold_steps(
                    old(self)@,
                    ip_ids@.len() as int,
                    listing_step(
                        ListingTerms {
                            token,
                            seller,
                            buyer,
                            required_approvals,
                            referrer,
                            insurance_enabled: false,
                            mode: SwapMode::Atomic,
                            index_ip: true,
                            now,
                        },
                        ip_ids@,
                        prices@,
                        Seq::new(ip_ids@.len(), |k: int| (now + SWAP_LIFETIME_SECONDS) as u64),
                    ),
                ),
            },
    {
        self.batch_initiate_swap_with_insurance(
            registry,
            token,
            ip_ids,
            seller,
            prices,
            buyer,
            required_approvals,
            referrer,
            false,
            now,
        )
    }

    /// Lists IP `ip_ids[k]` at `prices[k]` in escrow mode, expiring at
    /// `timeouts[k]`, for each `k`. The three lists must be non-empty and of
    /// equal length (`PriceTooSmall`). The seller's authorization is checked
    /// by the host before this call.
    pub fn batch_initiate_escrow(
        &mut self,
        registry: &IpRegistry,
        token: Addr,
        ip_ids: &Vec<u64>,
        seller: Addr,
        prices: &Vec<i128>,
        buyer: Addr,
        timeouts: &Vec<u64>,
        now: u64,
    ) -> (r: Result<Vec<u64>, ContractError>)
        requires
            old(self).wf(),
            registry.wf(),
            registry_matches(old(self)@, registry@),
            !old(self)@.paused && ip_ids@.len() > 0 && prices@.len() == ip_ids@.len() && timeouts@.len()
                == ip_ids@.len() && listing_batch_error(old(self)@, registry@, ip_ids@, prices@, seller) is None
                ==> old(self)@.swaps.len() + ip_ids@.len() <= u64::MAX,
        ensures
            final(self).wf(),
            r is Err ==> final(self)@ == old(self)@,
            old(self)@.paused ==> r == Err::<Vec<u64>, ContractError>(ContractError::Paused),
            !old(self)@.paused && (ip_ids@.len() == 0 || prices@.len() != ip_ids@.len() || timeouts@.len()
                != ip_ids@.len()) ==> r == Err::<Vec<u64>, ContractError>(ContractError::PriceTooSmall),
            !old(self)@.paused && ip_ids@.len() > 0 && prices@.len() == ip_ids@.len() && timeouts@.len()
                == ip_ids@.len() ==> match listing_batch_error(old(self)@, registry@, ip_ids@, prices@, seller) {
                Some(e) => r == Err::<Vec<u64>, ContractError>(e),
                None => r matches Ok(ids) && ids@ == consecutive_ids(
                    old(self)@.swaps.len() as int,
                    ip_ids@.len() as int,
                ) && final(self)@ == fold_steps(
                    old(self)@,
                    ip_ids@.len() as int,
                    listing_step(
                        ListingTerms {
                            token,
                            seller,
                            buyer,
                            required_approvals: 0,
                            referrer: None,
                            insurance_enabled: false,
                            mode: SwapMode::Escrow,
                            index_ip: true,
                            now,
                        },
                        ip_ids@,
                        prices@,
                        timeouts@,
                    ),
                ),
            },
    {
        if self.paused {
            return Err(ContractError::Paused);
        }
        let n = ip_ids.len();
        if n == 0 || prices.len() != n || timeouts.len() != n {
            return Err(ContractError::PriceTooSmall);
        }
        match self.check_listing_batch(registry, ip_ids, prices, seller) {
            Err(e) => {
                return Err(e);
            },
            Ok(()) => {},
        }
        proof {
            assert forall|k: int| 0 <= k < ip_ids@.len() implies #[trigger] prices@[k] > 0 by {
                assert(listing_item_error(old(self)@, registry@, ip_ids@, prices@, seller, k) is None);
            }
            assert forall|k: int| 0 <= k < ip_ids@.len() implies !old(self)@.active_swaps.contains_key(
                #[trigger] ip_ids@[k],
            ) && !repeated(ip_ids@, k) by {
                assert(listing_item_error(old(self)@, registry@, ip_ids@, prices@, seller, k) is None);
            }
        }
        let ids = self.list_batch(
            token,
            ip_ids,
            seller,
            prices,
            buyer,
            0,
            None,
            false,
            SwapMode::Escrow,
            true,
            timeouts,
            now,
        );
        Ok(ids)
    }
}

impl AtomicSwap {
    /// Accepts swap `swap_id` within a batch (see [`batch_accept_step`]).
    fn apply_batch_accept(&mut self, swap_id: u64, now: u64) -> (t: Vec<Transfer>)
        requires
            old(self).wf(),
            old(self)@.has_swap(swap_id),
            ({
                let r = old(self)@.record(swap_id);
                r.insurance_enabled && r.insurance_premium > 0 ==> old(self)@.pool_of(r.token) + r.insurance_premium
                    <= i128::MAX
            }),
        ensures
            final(self).wf(),
            t@ == batch_accept_transfers(old(self)@, swap_id),
            final(self)@ == batch_accept_step(old(self)@, swap_id, now),
    {
        let i = self.index_of(swap_id);
        let ghost s = old(self)@;
        let token = self.swaps[i].record.token;
        let buyer = self.swaps[i].record.buyer;
        let price = self.swaps[i].record.price;
        let collateral_amount = self.swaps[i].record.collateral_amount;
        let premium = self.swaps[i].record.insurance_premium;
        let insured = self.swaps[i].record.insurance_enabled;
        let mut t: Vec<Transfer> = Vec::new();
        if collateral_amount > 0 && self.swaps[i].collateral.is_none() {
            t.push(Transfer { token, from: buyer, to: self.contract, amount: collateral_amount });
            self.swaps[i].collateral = Some(collateral_amount);
        }
        t.push(Transfer { token, from: buyer, to: self.contract, amount: price });
        if insured && premium > 0 {
            t.push(Transfer { token, from: buyer, to: self.contract, amount: premium });
        }
        self.swaps[i].record.accept_timestamp = now;
        self.swaps[i].record.status = SwapStatus::Accepted;
        self.swaps[i].history.push(SwapHistoryEntry { status: SwapStatus::Accepted, timestamp: now });
        proof {
            let e = s.swaps[i as int];
            let r = e.record;
            assert(e.is_consistent());
            let w = SwapEntryView {
                collateral: if r.collateral_amount > 0 && e.collateral is None {
                    Some(r.collateral_amount)
                } else {
                    e.collateral
                },
                ..accepted_entry(e, now)
            };
            assert(swap_entries_view(self.swaps@) =~= s.swaps.update(i as int, w));
            assert(self@ =~= with_swap(s, swap_id, w));
            lemma_with_swap_inv(s, swap_id, w);
            assert(t@ =~= batch_accept_transfers(s, swap_id));
        }
        let ghost mid = self@;
        if insured && premium > 0 {
            let pool = self.pool_of(token);
            self.insurance_pools.insert(token.id, pool + premium);
        }
        proof {
            assert(self@ =~= (SwapState { insurance_pools: self@.insurance_pools, ..mid }));
            lemma_pools_keep_inv(mid, self@.insurance_pools);
        }
        assert(self@ =~= batch_accept_step(s, swap_id, now));
        t
    }

    /// The buyer accepts every swap of `swap_ids`; each must be theirs,
    /// pending, and approved as required (see [`accept_item_error`]). Collateral
    /// not yet held, the prices and the premiums are paid; returns the
    /// payments in order. The buyer's authorization is checked by the host
    /// before this call.
    pub fn batch_accept_swaps(&mut self, swap_ids: &Vec<u64>, buyer: Addr, now: u64) -> (r: Result<
        Vec<Transfer>,
        ContractError,
    >)
        requires
            old(self).wf(),
            forall|k: int|
                0 <= k < swap_ids@.len() && (forall|j: int|
                    0 <= j <= k ==> #[trigger] accept_item_error(old(self)@, swap_ids@, buyer, j) is None)
                    ==> #[trigger] premium_fits_at(old(self)@, swap_ids@, now, k),
        ensures
            final(self).wf(),
            r is Err ==> final(self)@ == old(self)@,
            old(self)@.paused ==> r == Err::<Vec<Transfer>, ContractError>(ContractError::Paused),
            !old(self)@.paused ==> match first_error_from(
                |k: int| accept_item_error(old(self)@, swap_ids@, buyer, k),
                0,
                swap_ids@.len() as int,
            ) {
                Some(e) => r == Err::<Vec<Transfer>, ContractError>(e),
                None => r matches Ok(t) && t@ == fold_outputs(
                    old(self)@,
                    swap_ids@.len() as int,
                    accept_step(swap_ids@, now),
                    |st: SwapState, k: int| batch_accept_transfers(st, swap_ids@[k]),
                ) && final(self)@ == fold_steps(old(self)@, swap_ids@.len() as int, accept_step(swap_ids@, now)),
            },
    {
        if self.paused {
            return Err(ContractError::Paused);
        }
        let ghost s0 = self@;
        let ghost ids = swap_ids@;
        let ghost err = |k: int| accept_item_error(s0, ids, buyer, k);
        let mut k: usize = 0;
        while k < swap_ids.len()
            invariant
                self.wf(),
                self@ == s0,
                s0 == old(self)@,
                !s0.paused,
                ids == swap_ids@,
                0 <= k <= ids.len(),
                err == (|k: int| accept_item_error(s0, ids, buyer, k)),
                forall|j: int| 0 <= j < k ==> #[trigger] err(j) is None,
            decreases ids.len() - k,
        {
            let id = swap_ids[k];
            let mut found: Option<ContractError> = None;
            if id >= self.swaps.len() as u64 {
                found = Some(ContractError::SwapNotFound);
            } else {
                let i = self.index_of(id);
                let e = &self.swaps[i];
                if e.record.buyer != buyer {
                    found = Some(ContractError::Unauthorized);
                } else if e.record.status != SwapStatus::Pending || occurs_before(swap_ids, k) {
                    found = Some(ContractError::NotPending);
                } else if e.record.required_approvals > 0 && e.approvals.len() < e.record.required_approvals as usize {
                    found = Some(ContractError::NeedApprovals);
                }
            }
            assert(found == err(k as int));
            match found {
                Some(e) => {
                    proof {
                        lemma_first_error_prefix(err, k as int, ids.len() as int);
                    }
                    return Err(e);
                },
                None => {},
            }
            k = k + 1;
        }
        proof {
            lemma_first_error_prefix(err, ids.len() as int, ids.len() as int);
        }
        let ghost step = accept_step(ids, now);
        let ghost out = |st: SwapState, k: int| batch_accept_transfers(st, ids[k]);
        let mut t: Vec<Transfer> = Vec::new();
        let mut k: usize = 0;
        while k < swap_ids.len()
            invariant
                self.wf(),
                ids == swap_ids@,
                0 <= k <= ids.len(),
                step == accept_step(ids, now),
                out == (|st: SwapState, k: int| batch_accept_transfers(st, ids[k])),
                forall|j: int| 0 <= j < ids.len() ==> #[trigger] err(j) is None,
                err == (|k: int| accept_item_error(s0, ids, buyer, k)),
                forall|m: int|
                    0 <= m < ids.len() && (forall|j: int|
                        0 <= j <= m ==> #[trigger] accept_item_error(s0, ids, buyer, j) is None)
                        ==> #[trigger] premium_fits_at(s0, ids, now, m),
                self@ == fold_steps(s0, k as int, step),
                t@ == fold_outputs(s0, k as int, step, out),
                self@.swaps.len() == s0.swaps.len(),
                forall|j: int|
                    0 <= j < s0.swaps.len() && !(exists|m: int| 0 <= m < k && ids[m] == j) ==> #[trigger] self@.swaps[j]
                        == s0.swaps[j],
            decreases ids.len() - k,
        {
            let id = swap_ids[k];
            proof {
                assert(err(k as int) is None);
                assert(!repeated(ids, k as int));
                assert(self@.swaps[id as int] == s0.swaps[id as int]);
                assert forall|j: int| 0 <= j <= k implies #[trigger] accept_item_error(s0, ids, buyer, j) is None by {
                    assert(err(j) is None);
                }
                assert(premium_fits_at(s0, ids, now, k as int));
            }
            let ghost before = self@;
            let mut more = self.apply_batch_accept(id, now);
            t.append(&mut more);
            proof {
                assert(self@ == step(before, k as int));
                assert forall|j: int|
                    0 <= j < s0.swaps.len() && !(exists|m: int| 0 <= m < k + 1 && ids[m] == j) implies #[trigger] self@.swaps[j]
                        == s0.swaps[j] by {
                    assert(j != ids[k as int]);
                    assert(!(exists|m: int| 0 <= m < k && ids[m] == j));
                }
            }
            k = k + 1;
        }
        Ok(t)
    }
}

/// Step `k` of a batch reveal of `ids`.
pub open spec fn reveal_step(ids: Seq<u64>, now: u64) -> spec_fn(SwapState, int) -> SwapState {
    |st: SwapState, k: int| batch_reveal_step(st, ids[k], now)
}

/// Step `k` of a batch cancellation of `ids` for `reasons`.
pub open spec fn cancel_step(ids: Seq<u64>, reasons: Seq<Vec<u8>>, canceller: Addr, now: u64) -> spec_fn(
    SwapState,
    int,
) -> SwapState {
    |st: SwapState, k: int| batch_cancel_step(st, ids[k], reasons[k]@, canceller, now)
}

/// Step `k` of a batch arbitration of `ids`.
pub open spec fn arbitrate_step(ids: Seq<u64>, refund: bool, now: u64) -> spec_fn(SwapState, int) -> SwapState {
    |st: SwapState, k: int| batch_arbitrate_step(st, ids[k], refund, now)
}

/// Step `k` of a batch escrow deposit into `ids`.
pub open spec fn deposit_step(ids: Seq<u64>, now: u64) -> spec_fn(SwapState, int) -> SwapState {
    |st: SwapState, k: int| batch_deposit_step(st, ids[k], now)
}

impl AtomicSwap {
    /// Completes swap `swap_id` within a batch reveal.
    fn apply_batch_reveal(&mut self, swap_id: u64, now: u64) -> (r: (SwapFeeBreakdown, Vec<Transfer>))
        requires
            old(self).wf(),
            old(self)@.has_swap(swap_id),
        ensures
            final(self).wf(),
            r.0 == fee_breakdown(old(self)@, swap_id),
            r.1@ == batch_reveal_transfers(old(self)@, swap_id),
            final(self)@ == batch_reveal_step(old(self)@, swap_id, now),
    {
        let i = self.index_of(swap_id);
        let ghost s = old(self)@;
        let price = self.swaps[i].record.price;
        let token = self.swaps[i].record.token;
        let seller = self.swaps[i].record.seller;
        let buyer = self.swaps[i].record.buyer;
        let referrer = self.swaps[i].record.referrer;
        let held = self.swaps[i].record.collateral_amount > 0;
        let collateral = self.swaps[i].collateral;
        let fee: i128 = if price > 0 {
            bps_of(price, self.config.protocol_fee_bps)
        } else {
            0
        };
        let referral: i128 = match referrer {
            Some(_) => if price > 0 {
                bps_of(price, self.config.referral_fee_bps)
            } else {
                0
            },
            None => 0,
        };
        let seller_amount = price - fee - referral;
        self.release_swap_ip(swap_id);
        let ghost s1 = self@;
        let mut t: Vec<Transfer> = Vec::new();
        t.push(Transfer { token, from: self.contract, to: seller, amount: seller_amount });
        if fee > 0 {
            t.push(Transfer { token, from: self.contract, to: self.config.treasury, amount: fee });
        }
        if referral > 0 {
            match referrer {
                Some(to) => t.push(Transfer { token, from: self.contract, to, amount: referral }),
                None => {},
            }
        }
        if held {
            match collateral {
                Some(c) => t.push(Transfer { token, from: self.contract, to: seller, amount: c }),
                None => {},
            }
            self.swaps[i].collateral = None;
        }
        self.swaps[i].record.status = SwapStatus::Completed;
        self.swaps[i].history.push(SwapHistoryEntry { status: SwapStatus::Completed, timestamp: now });
        proof {
            let e = s.swaps[i as int];
            let r = e.record;
            let w = SwapEntryView {
                record: SwapRecordView { status: SwapStatus::Completed, ..r },
                history: e.history.push(SwapHistoryEntry { status: SwapStatus::Completed, timestamp: now }),
                collateral: if r.collateral_amount > 0 { None } else { e.collateral },
                ..e
            };
            assert(e.is_consistent());
            assert(swap_entries_view(self.swaps@) =~= s.swaps.update(i as int, w));
            assert(self@ =~= with_swap(s1, swap_id, w));
            lemma_close_swap_inv(s1, swap_id, w);
            assert(t@ =~= batch_reveal_transfers(s, swap_id));
        }
        self.update_reputation(seller, 5);
        self.update_reputation(buyer, 5);
        (SwapFeeBreakdown { swap_id, price, protocol_fee: fee, referral_fee: referral, seller_amount }, t)
    }

    /// The seller reveals the keys of several accepted swaps at once
    /// (`secrets[k]` and `blinding_factors[k]` for `swap_ids[k]`; lists of
    /// unequal length are refused with `InvalidKey`). Each completes as in
    /// [`batch_reveal_step`]; returns each swap's fee breakdown and all
    /// payouts. The seller's authorization is checked by the host before
    /// this call.
    pub fn batch_reveal_keys(
        &mut self,
        registry: &IpRegistry,
        env: &Env,
        swap_ids: &Vec<u64>,
        secrets: &Vec<Bytes32>,
        blinding_factors: &Vec<Bytes32>,
        seller: Addr,
        now: u64,
    ) -> (r: Result<(Vec<SwapFeeBreakdown>, Vec<Transfer>), ContractError>)
        requires
            old(self).wf(),
            registry.wf(),
        ensures
            final(self).wf(),
            r is Err ==> final(self)@ == old(self)@,
            secrets@.len() != swap_ids@.len() || blinding_factors@.len() != swap_ids@.len() ==> r == Err::<
                (Vec<SwapFeeBreakdown>, Vec<Transfer>),
                ContractError,
            >(ContractError::InvalidKey),
            secrets@.len() == swap_ids@.len() && blinding_factors@.len() == swap_ids@.len() ==> match first_error_from(
                |k: int| reveal_item_error(old(self)@, registry@, swap_ids@, secrets@, blinding_factors@, seller, k),
                0,
                swap_ids@.len() as int,
            ) {
                Some(e) => r == Err::<(Vec<SwapFeeBreakdown>, Vec<Transfer>), ContractError>(e),
                None => r matches Ok(v) && v.0@ == fold_outputs(
                    old(self)@,
                    swap_ids@.len() as int,
                    reveal_step(swap_ids@, now),
                    |st: SwapState, k: int| seq![fee_breakdown(st, swap_ids@[k])],
                ) && v.1@ == fold_outputs(
                    old(self)@,
                    swap_ids@.len() as int,
                    reveal_step(swap_ids@, now),
                    |st: SwapState, k: int| batch_reveal_transfers(st, swap_ids@[k]),
                ) && final(self)@ == fold_steps(old(self)@, swap_ids@.len() as int, reveal_step(swap_ids@, now)),
            },
    {
        let n = swap_ids.len();
        if secrets.len() != n || blinding_factors.len() != n {
            return Err(ContractError::InvalidKey);
        }
        let ghost s0 = self@;
        let ghost ids = swap_ids@;
        let ghost err = |k: int| reveal_item_error(s0, registry@, ids, secrets@, blinding_factors@, seller, k);
        let mut k: usize = 0;
        while k < n
            invariant
                self.wf(),
                registry.wf(),
                self@ == s0,
                s0 == old(self)@,
                ids == swap_ids@,
                n == ids.len(),
                secrets@.len() == n,
                blinding_factors@.len() == n,
                0 <= k <= n,
                err == (|k: int| reveal_item_error(s0, registry@, ids, secrets@, blinding_factors@, seller, k)),
                forall|j: int| 0 <= j < k ==> #[trigger] err(j) is None,
            decreases n - k,
        {
            let id = swap_ids[k];
            let mut found: Option<ContractError> = None;
            if id >= self.swaps.len() as u64 {
                found = Some(ContractError::SwapNotFound);
            } else {
                let i = self.index_of(id);
                if seller != self.swaps[i].record.seller {
                    found = Some(ContractError::OnlySellerReveal);
                } else if self.swaps[i].record.status != SwapStatus::Accepted || occurs_before(swap_ids, k) {
                    found = Some(ContractError::NotAccepted);
                } else {
                    match registry.verify_commitment(env, self.swaps[i].record.ip_id, &secrets[k], &blinding_factors[k]) {
                        Err(_) => {
                            found = Some(ContractError::SwapNotFound);
                        },
                        Ok(valid) => {
                            if !valid {
                                found = Some(ContractError::InvalidKey);
                            }
                        },
                    }
                }
            }
            assert(found == err(k as int));
            match found {
                Some(e) => {
                    proof {
                        lemma_first_error_prefix(err, k as int, n as int);
                    }
                    return Err(e);
                },
                None => {},
            }
            k = k + 1;
        }
        proof {
            lemma_first_error_prefix(err, n as int, n as int);
        }
        let ghost step = reveal_step(ids, now);
        let ghost out_b = |st: SwapState, k: int| seq![fee_breakdown(st, ids[k])];
        let ghost out_t = |st: SwapState, k: int| batch_reveal_transfers(st, ids[k]);
        let mut fees: Vec<SwapFeeBreakdown> = Vec::new();
        let mut t: Vec<Transfer> = Vec::new();
        let mut k: usize = 0;
        while k < n
            invariant
                self.wf(),
                ids == swap_ids@,
                n == ids.len(),
                0 <= k <= n,
                step == reveal_step(ids, now),
                out_b == (|st: SwapState, k: int| seq![fee_breakdown(st, ids[k])]),
                out_t == (|st: SwapState, k: int| batch_reveal_transfers(st, ids[k])),
                forall|j: int| 0 <= j < n ==> #[trigger] err(j) is None,
                err == (|k: int| reveal_item_error(s0, registry@, ids, secrets@, blinding_factors@, seller, k)),
                self@ == fold_steps(s0, k as int, step),
                fees@ == fold_outputs(s0, k as int, step, out_b),
                t@ == fold_outputs(s0, k as int, step, out_t),
                self@.swaps.len() == s0.swaps.len(),
                forall|j: int|
                    0 <= j < s0.swaps.len() && !(exists|m: int| 0 <= m < k && ids[m] == j) ==> #[trigger] self@.swaps[j]
                        == s0.swaps[j],
            decreases n - k,
        {
            let id = swap_ids[k];
            proof {
                assert(err(k as int) is None);
                assert(!repeated(ids, k as int));
                assert(self@.swaps[id as int] == s0.swaps[id as int]);
            }
            let ghost before = self@;
            let (b, mut more) = self.apply_batch_reveal(id, now);
            fees.push(b);
            t.append(&mut more);
            proof {
                assert(self@ == step(before, k as int));
                assert forall|j: int|
                    0 <= j < s0.swaps.len() && !(exists|m: int| 0 <= m < k + 1 && ids[m] == j) implies #[trigger] self@.swaps[j]
                        == s0.swaps[j] by {
                    assert(j != ids[k as int]);
                    assert(!(exists|m: int| 0 <= m < k && ids[m] == j));
                }
            }
            k = k + 1;
        }
        Ok((fees, t))
    }

    /// Cancels swap `swap_id` for `reason` within a batch.
    fn apply_batch_cancel(&mut self, swap_id: u64, reason: Vec<u8>, canceller: Addr, now: u64)
        requires
            old(self).wf(),
            old(self)@.has_swap(swap_id),
        ensures
            final(self).wf(),
            final(self)@ == batch_cancel_step(old(self)@, swap_id, reason@, canceller, now),
    {
        let i = self.index_of(swap_id);
        self.apply_cancel(swap_id, now);
        let ghost c = self@;
        let ghost rv = reason@;
        self.swaps[i].cancel_reason = Some(reason);
        proof {
            let e = c.swaps[i as int];
            assert(e.is_consistent());
            assert(swap_entries_view(self.swaps@) =~= c.swaps.update(
                i as int,
                SwapEntryView { cancel_reason: Some(rv), ..e },
            ));
            assert(self@ =~= with_swap(c, swap_id, SwapEntryView { cancel_reason: Some(rv), ..e }));
            lemma_with_swap_inv(c, swap_id, SwapEntryView { cancel_reason: Some(rv), ..e });
        }
        self.update_reputation(canceller, -10);
    }

    /// The seller or buyer cancels several pending swaps, `reasons[k]` being
    /// recorded for `swap_ids[k]` (lists of unequal length are refused with
    /// `InvalidKey`); the canceller loses ten reputation per swap. Returns
    /// the cancelled ids. The canceller's authorization is checked by the
    /// host before this call.
    pub fn batch_cancel_swaps(&mut self, swap_ids: &Vec<u64>, canceller: Addr, reasons: &Vec<Vec<u8>>, now: u64) -> (r:
        Result<Vec<u64>, ContractError>)
        requires
            old(self).wf(),
        ensures
            final(self).wf(),
            r is Err ==> final(self)@ == old(self)@,
            reasons@.len() != swap_ids@.len() ==> r == Err::<Vec<u64>, ContractError>(ContractError::InvalidKey),
            reasons@.len() == swap_ids@.len() ==> match first_error_from(
                |k: int| cancel_item_error(old(self)@, swap_ids@, canceller, k),
                0,
                swap_ids@.len() as int,
            ) {
                Some(e) => r == Err::<Vec<u64>, ContractError>(e),
                None => r matches Ok(ids) && ids@ == swap_ids@ && final(self)@ == fold_steps(
                    old(self)@,
                    swap_ids@.len() as int,
                    cancel_step(swap_ids@, reasons@, canceller, now),
                ),
            },
    {
        let n = swap_ids.len();
        if reasons.len() != n {
            return Err(ContractError::InvalidKey);
        }
        let ghost s0 = self@;
        let ghost ids = swap_ids@;
        let ghost err = |k: int| cancel_item_error(s0, ids, canceller, k);
        let mut k: usize = 0;
        while k < n
            invariant
                self.wf(),
                self@ == s0,
                s0 == old(self)@,
                ids == swap_ids@,
                n == ids.len(),
                0 <= k <= n,
                reasons@.len() == n,
                err == (|k: int| cancel_item_error(s0, ids, canceller, k)),
                forall|j: int| 0 <= j < k ==> #[trigger] err(j) is None,
            decreases n - k,
        {
            let id = swap_ids[k];
            let mut found: Option<ContractError> = None;
            if id >= self.swaps.len() as u64 {
                found = Some(ContractError::SwapNotFound);
            } else {
                let i = self.index_of(id);
                if canceller != self.swaps[i].record.seller && canceller != self.swaps[i].record.buyer {
                    found = Some(ContractError::OnlySellerBuyer);
                } else if self.swaps[i].record.status != SwapStatus::Pending || occurs_before(swap_ids, k) {
                    found = Some(ContractError::OnlyPending);
                }
            }
            assert(found == err(k as int));
            match found {
                Some(e) => {
                    proof {
                        lemma_first_error_prefix(err, k as int, n as int);
                    }
                    return Err(e);
                },
                None => {},
            }
            k = k + 1;
        }
        proof {
            lemma_first_error_prefix(err, n as int, n as int);
        }
        let ghost step = cancel_step(ids, reasons@, canceller, now);
        let mut done: Vec<u64> = Vec::new();
        let mut k: usize = 0;
        while k < n
            invariant
                self.wf(),
                ids == swap_ids@,
                n == ids.len(),
                reasons@.len() == n,
                0 <= k <= n,
                step == cancel_step(ids, reasons@, canceller, now),
                forall|j: int| 0 <= j < n ==> #[trigger] err(j) is None,
                err == (|k: int| cancel_item_error(s0, ids, canceller, k)),
                self@ == fold_steps(s0, k as int, step),
                done@ == ids.subrange(0, k as int),
                self@.swaps.len() == s0.swaps.len(),
                forall|j: int|
                    0 <= j < s0.swaps.len() && !(exists|m: int| 0 <= m < k && ids[m] == j) ==> #[trigger] self@.swaps[j]
                        == s0.swaps[j],
            decreases n - k,
        {
            let id = swap_ids[k];
            proof {
                assert(err(k as int) is None);
            }
            let reason = crate::common::copy_vec(&reasons[k]);
            let ghost before = self@;
            self.apply_batch_cancel(id, reason, canceller, now);
            done.push(id);
            proof {
                assert(self@ == step(before, k as int));
                assert(done@ =~= ids.subrange(0, k + 1));
                assert forall|j: int|
                    0 <= j < s0.swaps.len() && !(exists|m: int| 0 <= m < k + 1 && ids[m] == j) implies #[trigger] self@.swaps[j]
                        == s0.swaps[j] by {
                    assert(j != ids[k as int]);
                    assert(!(exists|m: int| 0 <= m < k && ids[m] == j));
                }
            }
            k = k + 1;
        }
        assert(ids.subrange(0, n as int) =~= ids);
        Ok(done)
    }

    /// Decides swap `swap_id` within a batch arbitration.
    fn apply_batch_arbitration(&mut self, swap_id: u64, refund: bool, now: u64) -> (t: Vec<Transfer>)
        requires
            old(self).wf(),
            old(self)@.has_swap(swap_id),
        ensures
            final(self).wf(),
            t@ == batch_arbitrate_transfers(old(self)@, swap_id, refund),
            final(self)@ == batch_arbitrate_step(old(self)@, swap_id, refund, now),
    {
        let i = self.index_of(swap_id);
        let ghost s = old(self)@;
        let token = self.swaps[i].record.token;
        let price = self.swaps[i].record.price;
        let buyer = self.swaps[i].record.buyer;
        let seller = self.swaps[i].record.seller;
        let held = self.swaps[i].record.collateral_amount > 0;
        let collateral = self.swaps[i].collateral;
        self.release_swap_ip(swap_id);
        let ghost s1 = self@;
        let mut t: Vec<Transfer> = Vec::new();
        let status = if refund {
            t.push(Transfer { token, from: self.contract, to: buyer, amount: price });
            if held {
                match collateral {
                    Some(c) => t.push(Transfer { token, from: self.contract, to: buyer, amount: c }),
                    None => {},
                }
            }
            SwapStatus::Cancelled
        } else {
            let fee: i128 = if price > 0 {
                bps_of(price, self.config.protocol_fee_bps)
            } else {
                0
            };
            t.push(Transfer { token, from: self.contract, to: seller, amount: price - fee });
            if fee > 0 {
                t.push(Transfer { token, from: self.contract, to: self.config.treasury, amount: fee });
            }
            if held {
                match collateral {
                    Some(c) => t.push(Transfer { token, from: self.contract, to: seller, amount: c }),
                    None => {},
                }
            }
            SwapStatus::Completed
        };
        if held {
            self.swaps[i].collateral = None;
        }
        self.swaps[i].record.status = status;
        self.swaps[i].history.push(SwapHistoryEntry { status, timestamp: now });
        proof {
            let e = s.swaps[i as int];
            let r = e.record;
            let w = SwapEntryView {
                record: SwapRecordView { status, ..r },
                collateral: if r.collateral_amount > 0 { None } else { e.collateral },
                history: e.history.push(SwapHistoryEntry { status, timestamp: now }),
                ..e
            };
            assert(e.is_consistent());
            assert(swap_entries_view(self.swaps@) =~= s.swaps.update(i as int, w));
            assert(self@ =~= with_swap(s1, swap_id, w));
            lemma_close_swap_inv(s1, swap_id, w);
            assert(t@ =~= batch_arbitrate_transfers(s, swap_id, refund));
        }
        t
    }

    /// Decides several disputed swaps the same way (`refund` or complete;
    /// see [`batch_arbitrate_step`]) and returns all payouts. The
    /// arbitrator's authorization is checked by the host before this call.
    pub fn batch_arbitrate_swaps(&mut self, swap_ids: &Vec<u64>, refund: bool, now: u64) -> (r: Result<
        Vec<Transfer>,
        ContractError,
    >)
        requires
            old(self).wf(),
        ensures
            final(self).wf(),
            r is Err ==> final(self)@ == old(self)@,
            match first_error_from(|k: int| arbitrate_item_error(old(self)@, swap_ids@, k), 0, swap_ids@.len() as int) {
                Some(e) => r == Err::<Vec<Transfer>, ContractError>(e),
                None => r matches Ok(t) && t@ == fold_outputs(
                    old(self)@,
                    swap_ids@.len() as int,
                    arbitrate_step(swap_ids@, refund, now),
                    |st: SwapState, k: int| batch_arbitrate_transfers(st, swap_ids@[k], refund),
                ) && final(self)@ == fold_steps(
                    old(self)@,
                    swap_ids@.len() as int,
                    arbitrate_step(swap_ids@, refund, now),
                ),
            },
    {
        let n = swap_ids.len();
        let ghost s0 = self@;
        let ghost ids = swap_ids@;
        let ghost err = |k: int| arbitrate_item_error(s0, ids, k);
        let mut k: usize = 0;
        while k < n
            invariant
                self.wf(),
                self@ == s0,
                s0 == old(self)@,
                ids == swap_ids@,
                n == ids.len(),
                0 <= k <= n,
                err == (|k: int| arbitrate_item_error(s0, ids, k)),
                forall|j: int| 0 <= j < k ==> #[trigger] err(j) is None,
            decreases n - k,
        {
            let id = swap_ids[k];
            let mut found: Option<ContractError> = None;
            if id >= self.swaps.len() as u64 {
                found = Some(ContractError::SwapNotFound);
            } else {
                let i = self.index_of(id);
                if self.swaps[i].record.status != SwapStatus::Disputed || occurs_before(swap_ids, k) {
                    found = Some(ContractError::NotDisputed);
                }
            }
            assert(found == err(k as int));
            match found {
                Some(e) => {
                    proof {
                        lemma_first_error_prefix(err, k as int, n as int);
                    }
                    return Err(e);
                },
                None => {},
            }
            k = k + 1;
        }
        proof {
            lemma_first_error_prefix(err, n as int, n as int);
        }
        let ghost step = arbitrate_step(ids, refund, now);
        let ghost out = |st: SwapState, k: int| batch_arbitrate_transfers(st, ids[k], refund);
        let mut t: Vec<Transfer> = Vec::new();
        let mut k: usize = 0;
        while k < n
            invariant
                self.wf(),
                ids == swap_ids@,
                n == ids.len(),
                0 <= k <= n,
                step == arbitrate_step(ids, refund, now),
                out == (|st: SwapState, k: int| batch_arbitrate_transfers(st, ids[k], refund)),
                forall|j: int| 0 <= j < n ==> #[trigger] err(j) is None,
                err == (|k: int| arbitrate_item_error(s0, ids, k)),
                self@ == fold_steps(s0, k as int, step),
                t@ == fold_outputs(s0, k as int, step, out),
                self@.swaps.len() == s0.swaps.len(),
                forall|j: int|
                    0 <= j < s0.swaps.len() && !(exists|m: int| 0 <= m < k && ids[m] == j) ==> #[trigger] self@.swaps[j]
                        == s0.swaps[j],
            decreases n - k,
        {
            let id = swap_ids[k];
            proof {
                assert(err(k as int) is None);
                assert(!repeated(ids, k as int));
                assert(self@.swaps[id as int] == s0.swaps[id as int]);
            }
            let ghost before = self@;
            let mut more = self.apply_batch_arbitration(id, refund, now);
            t.append(&mut more);
            proof {
                assert(self@ == step(before, k as int));
                assert forall|j: int|
                    0 <= j < s0.swaps.len() && !(exists|m: int| 0 <= m < k + 1 && ids[m] == j) implies #[trigger] self@.swaps[j]
                        == s0.swaps[j] by {
                    assert(j != ids[k as int]);
                    assert(!(exists|m: int| 0 <= m < k && ids[m] == j));
                }
            }
            k = k + 1;
        }
        Ok(t)
    }

    /// The buyer deposits into several escrow-mode swaps at once (see
    /// [`deposit_item_error`] and [`batch_deposit_step`]); returns the
    /// payments. The buyer's authorization is checked by the host before
    /// this call.
    pub fn batch_escrow_deposit(&mut self, swap_ids: &Vec<u64>, buyer: Addr, now: u64) -> (r: Result<
        Vec<Transfer>,
        ContractError,
    >)
        requires
            old(self).wf(),
        ensures
            final(self).wf(),
            r is Err ==> final(self)@ == old(self)@,
            match first_error_from(|k: int| deposit_item_error(old(self)@, swap_ids@, buyer, k), 0, swap_ids@.len() as int) {
                Some(e) => r == Err::<Vec<Transfer>, ContractError>(e),
                None => r matches Ok(t) && t@ == fold_outputs(
                    old(self)@,
                    swap_ids@.len() as int,
                    deposit_step(swap_ids@, now),
                    |st: SwapState, k: int| seq![
                        deposit(
                            st,
                            st.swaps[swap_ids@[k] as int].record.token,
                            st.swaps[swap_ids@[k] as int].record.buyer,
                            st.swaps[swap_ids@[k] as int].record.price,
                        ),
                    ],
                ) && final(self)@ == fold_steps(old(self)@, swap_ids@.len() as int, deposit_step(swap_ids@, now)),
            },
    {
        let n = swap_ids.len();
        let ghost s0 = self@;
        let ghost ids = swap_ids@;
        let ghost err = |k: int| deposit_item_error(s0, ids, buyer, k);
        let mut k: usize = 0;
        while k < n
            invariant
                self.wf(),
                self@ == s0,
                s0 == old(self)@,
                ids == swap_ids@,
                n == ids.len(),
                0 <= k <= n,
                err == (|k: int| deposit_item_error(s0, ids, buyer, k)),
                forall|j: int| 0 <= j < k ==> #[trigger] err(j) is None,
            decreases n - k,
        {
            let id = swap_ids[k];
            let mut found: Option<ContractError> = None;
            if id >= self.swaps.len() as u64 {
                found = Some(ContractError::SwapNotFound);
            } else {
                let i = self.index_of(id);
                if self.swaps[i].record.buyer != buyer || self.swaps[i].mode != SwapMode::Escrow {
                    found = Some(ContractError::Unauthorized);
                } else if self.swaps[i].record.status != SwapStatus::Pending || occurs_before(swap_ids, k) {
                    found = Some(ContractError::NotPending);
                }
            }
            assert(found == err(k as int));
            match found {
                Some(e) => {
                    proof {
                        lemma_first_error_prefix(err, k as int, n as int);
                    }
                    return Err(e);
                },
                None => {},
            }
            k = k + 1;
        }
        proof {
            lemma_first_error_prefix(err, n as int, n as int);
        }
        let ghost step = deposit_step(ids, now);
        let ghost out = |st: SwapState, k: int| seq![
            deposit(
                st,
                st.swaps[ids[k] as int].record.token,
                st.swaps[ids[k] as int].record.buyer,
                st.swaps[ids[k] as int].record.price,
            ),
        ];
        let mut t: Vec<Transfer> = Vec::new();
        let mut k: usize = 0;
        while k < n
            invariant
                self.wf(),
                ids == swap_ids@,
                n == ids.len(),
                0 <= k <= n,
                step == deposit_step(ids, now),
                out == (|st: SwapState, k: int| seq![
                    deposit(
                        st,
                        st.swaps[ids[k] as int].record.token,
                        st.swaps[ids[k] as int].record.buyer,
                        st.swaps[ids[k] as int].record.price,
                    ),
                ]),
                forall|j: int| 0 <= j < n ==> #[trigger] err(j) is None,
                err == (|k: int| deposit_item_error(s0, ids, buyer, k)),
                self@ == fold_steps(s0, k as int, step),
                t@ == fold_outputs(s0, k as int, step, out),
                self@.swaps.len() == s0.swaps.len(),
                forall|j: int|
                    0 <= j < s0.swaps.len() && !(exists|m: int| 0 <= m < k && ids[m] == j) ==> #[trigger] self@.swaps[j]
                        == s0.swaps[j],
            decreases n - k,
        {
            let id = swap_ids[k];
            proof {
                assert(err(k as int) is None);
            }
            let ghost before = self@;
            let mut more = self.apply_escrow_deposit(id, now);
            t.append(&mut more);
            proof {
                assert(self@ == step(before, k as int));
                assert forall|j: int|
                    0 <= j < s0.swaps.len() && !(exists|m: int| 0 <= m < k + 1 && ids[m] == j) implies #[trigger] self@.swaps[j]
                        == s0.swaps[j] by {
                    assert(j != ids[k as int]);
                    assert(!(exists|m: int| 0 <= m < k && ids[m] == j));
                }
            }
            k = k + 1;
        }
        Ok(t)
    }
}

} // verus!
