//! Approvals, expiry extension, renegotiation, co-signers, escrow mode,
//! payment schedules and instalments.
use vstd::prelude::*;
use crate::common::{Addr, clamp_i128, contains_addr, sat_add_i128, sat_sub_i128, copy_vec};
use crate::ip_registry::state::IpRegistry;
use crate::atomic_swap::types::{
    ContractError, PaymentSchedule, RenegotiationOffer, ScheduledPaymentMadeEvent, SwapExpiryExtendedEvent,
    SwapHistoryEntry, SwapMode, SwapRecordView, SwapStatus, Transfer,
};
use super::{
    AtomicSwap, SwapEntryView, SwapState, SWAP_LIFETIME_SECONDS, lemma_close_swap_inv, lemma_with_swap_inv,
    swap_entries_view, unlock_ip,
    with_swap,
};
use super::initiate::{created_state, fresh_swap, listing_error, pending_record, registry_matches};
use super::settle::{buyer_payment, deposit, release, transfer_if};

verus! {

/// The total of a payment schedule, each addition saturating at the bounds
/// of `i128`.
pub open spec fn schedule_total(p: Seq<PaymentSchedule>) -> i128
    decreases p.len(),
{
    if p.len() == 0 {
        0
    } else {
        clamp_i128(schedule_total(p.drop_last()) + p.last().amount)
    }
}

/// Whether every scheduled payment was made.
pub open spec fn all_paid(made: Seq<bool>) -> bool {
    forall|k: int| 0 <= k < made.len() ==> #[trigger] made[k]
}

/// The entry of swap `id` moved to Accepted at `now`.
pub open spec fn accepted_entry(e: SwapEntryView, now: u64) -> SwapEntryView {
    SwapEntryView {
        record: SwapRecordView { status: SwapStatus::Accepted, accept_timestamp: now, ..e.record },
        history: e.history.push(SwapHistoryEntry { status: SwapStatus::Accepted, timestamp: now }),
        ..e
    }
}

impl AtomicSwap {
    /// `approver` approves pending swap `swap_id`; each approver counts once.
    /// The approver's authorization is checked by the host before this call.
    pub fn approve_swap(&mut self, swap_id: u64, approver: Addr) -> (r: Result<(), ContractError>)
        requires
            old(self).wf(),
        ensures
            final(self).wf(),
            r is Err ==> final(self)@ == old(self)@,
            !old(self)@.has_swap(swap_id) ==> r == Err::<(), ContractError>(ContractError::SwapNotFound),
            old(self)@.has_swap(swap_id) ==> {
                let e = old(self)@.swaps[swap_id as int];
                if e.record.status != SwapStatus::Pending {
                    r == Err::<(), ContractError>(ContractError::NotPending)
                } else if e.approvals.contains(approver) {
                    r == Err::<(), ContractError>(ContractError::AlreadyApproved)
                } else {
                    r is Ok && final(self)@ == with_swap(
                        old(self)@,
                        swap_id,
                        SwapEntryView { approvals: e.approvals.push(approver), ..e },
                    )
                }
            },
    {
        if swap_id >= self.swaps.len() as u64 {
            return Err(ContractError::SwapNotFound);
        }
        let i = self.index_of(swap_id);
        if self.swaps[i].record.status != SwapStatus::Pending {
            return Err(ContractError::NotPending);
        }
        if contains_addr(&self.swaps[i].approvals, approver) {
            return Err(ContractError::AlreadyApproved);
        }
        self.swaps[i].approvals.push(approver);
        proof {
            let e = old(self)@.swaps[i as int];
            let w = SwapEntryView { approvals: e.approvals.push(approver), ..e };
            assert(swap_entries_view(self.swaps@) =~= old(self)@.swaps.update(i as int, w));
            assert(self@ =~= with_swap(old(self)@, swap_id, w));
        }
        Ok(())
    }

    /// The seller moves the expiry of pending swap `swap_id` to a strictly
    /// later `new_expiry`. The seller's authorization is checked by the host
    /// before this call.
    pub fn extend_swap_expiry(&mut self, swap_id: u64, new_expiry: u64) -> (r: Result<
        SwapExpiryExtendedEvent,
        ContractError,
    >)
        requires
            old(self).wf(),
        ensures
            final(self).wf(),
            r is Err ==> final(self)@ == old(self)@,
            !old(self)@.has_swap(swap_id) ==> r == Err::<SwapExpiryExtendedEvent, ContractError>(
                ContractError::SwapNotFound,
            ),
            old(self)@.has_swap(swap_id) ==> {
                let e = old(self)@.swaps[swap_id as int];
                if e.record.status != SwapStatus::Pending {
                    r == Err::<SwapExpiryExtendedEvent, ContractError>(ContractError::NotPending)
                } else if new_expiry <= e.record.expiry {
                    r == Err::<SwapExpiryExtendedEvent, ContractError>(ContractError::ExpiryNotGreater)
                } else {
                    r == Ok::<SwapExpiryExtendedEvent, ContractError>(
                        SwapExpiryExtendedEvent { swap_id, old_expiry: e.record.expiry, new_expiry },
                    ) && final(self)@ == with_swap(
                        old(self)@,
                        swap_id,
                        SwapEntryView { record: SwapRecordView { expiry: new_expiry, ..e.record }, ..e },
                    )
                }
            },
    {
        if swap_id >= self.swaps.len() as u64 {
            return Err(ContractError::SwapNotFound);
        }
        let i = self.index_of(swap_id);
        if self.swaps[i].record.status != SwapStatus::Pending {
            return Err(ContractError::NotPending);
        }
        let old_expiry = self.swaps[i].record.expiry;
        if new_expiry <= old_expiry {
            return Err(ContractError::ExpiryNotGreater);
        }
        self.swaps[i].record.expiry = new_expiry;
        proof {
            let e = old(self)@.swaps[i as int];
            let w = SwapEntryView { record: SwapRecordView { expiry: new_expiry, ..e.record }, ..e };
            assert(swap_entries_view(self.swaps@) =~= old(self)@.swaps.update(i as int, w));
            assert(self@ =~= with_swap(old(self)@, swap_id, w));
        }
        Ok(SwapExpiryExtendedEvent { swap_id, old_expiry, new_expiry })
    }

    /// The seller proposes `new_price` for pending swap `swap_id`, replacing
    /// any earlier offer. The seller's authorization is checked by the host
    /// before this call.
    pub fn renegotiate_swap(&mut self, swap_id: u64, new_price: i128, now: u64) -> (r: Result<(), ContractError>)
        requires
            old(self).wf(),
        ensures
            final(self).wf(),
            r is Err ==> final(self)@ == old(self)@,
            old(self)@.paused ==> r == Err::<(), ContractError>(ContractError::Paused),
            !old(self)@.paused && !old(self)@.has_swap(swap_id) ==> r == Err::<(), ContractError>(
                ContractError::SwapNotFound,
            ),
            !old(self)@.paused && old(self)@.has_swap(swap_id) ==> {
                let e = old(self)@.swaps[swap_id as int];
                if e.record.status != SwapStatus::Pending {
                    r == Err::<(), ContractError>(ContractError::NotPending)
                } else if new_price <= 0 {
                    r == Err::<(), ContractError>(ContractError::PriceTooSmall)
                } else {
                    r is Ok && final(self)@ == with_swap(
                        old(self)@,
                        swap_id,
                        SwapEntryView {
                            renegotiation: Some(
                                RenegotiationOffer { new_price, proposer: e.record.seller, timestamp: now },
                            ),
                            ..e
                        },
                    )
                }
            },
    {
        if self.paused {
            return Err(ContractError::Paused);
        }
        if swap_id >= self.swaps.len() as u64 {
            return Err(ContractError::SwapNotFound);
        }
        let i = self.index_of(swap_id);
        if self.swaps[i].record.status != SwapStatus::Pending {
            return Err(ContractError::NotPending);
        }
        if new_price <= 0 {
            return Err(ContractError::PriceTooSmall);
        }
        let offer = RenegotiationOffer { new_price, proposer: self.swaps[i].record.seller, timestamp: now };
        self.swaps[i].renegotiation = Some(offer);
        proof {
            let e = old(self)@.swaps[i as int];
            let w = SwapEntryView { renegotiation: Some(offer), ..e };
            assert(swap_entries_view(self.swaps@) =~= old(self)@.swaps.update(i as int, w));
            assert(self@ =~= with_swap(old(self)@, swap_id, w));
        }
        Ok(())
    }

    /// The buyer accepts the pending offer on swap `swap_id`, whose price
    /// becomes the offered one; without an offer `SwapNotFound`. The buyer's
    /// authorization is checked by the host before this call.
    pub fn accept_renegotiation(&mut self, swap_id: u64) -> (r: Result<(), ContractError>)
        requires
            old(self).wf(),
        ensures
            final(self).wf(),
            r is Err ==> final(self)@ == old(self)@,
            old(self)@.paused ==> r == Err::<(), ContractError>(ContractError::Paused),
            !old(self)@.paused && !old(self)@.has_swap(swap_id) ==> r == Err::<(), ContractError>(
                ContractError::SwapNotFound,
            ),
            !old(self)@.paused && old(self)@.has_swap(swap_id) ==> {
                let e = old(self)@.swaps[swap_id as int];
                if e.record.status != SwapStatus::Pending {
                    r == Err::<(), ContractError>(ContractError::NotPending)
                } else if e.renegotiation is None {
                    r == Err::<(), ContractError>(ContractError::SwapNotFound)
                } else {
                    r is Ok && final(self)@ == with_swap(
                        old(self)@,
                        swap_id,
                        SwapEntryView {
                            record: SwapRecordView { price: e.renegotiation.unwrap().new_price, ..e.record },
                            renegotiation: None,
                            ..e
                        },
                    )
                }
            },
    {
        if self.paused {
            return Err(ContractError::Paused);
        }
        if swap_id >= self.swaps.len() as u64 {
            return Err(ContractError::SwapNotFound);
        }
        let i = self.index_of(swap_id);
        if self.swaps[i].record.status != SwapStatus::Pending {
            return Err(ContractError::NotPending);
        }
        let offer = match self.swaps[i].renegotiation {
            Some(o) => o,
            None => {
                return Err(ContractError::SwapNotFound);
            },
        };
        self.swaps[i].record.price = offer.new_price;
        self.swaps[i].renegotiation = None;
        proof {
            let e = old(self)@.swaps[i as int];
            let w = SwapEntryView {
                record: SwapRecordView { price: offer.new_price, ..e.record },
                renegotiation: None,
                ..e
            };
            assert(swap_entries_view(self.swaps@) =~= old(self)@.swaps.update(i as int, w));
            assert(self@ =~= with_swap(old(self)@, swap_id, w));
        }
        Ok(())
    }

    /// The seller of pending swap `swap_id` requires buyer reputation of at
    /// least `min_reputation`. The seller's authorization is checked by the
    /// host before this call.
    pub fn set_reputation_multiplier(&mut self, swap_id: u64, min_reputation: u32) -> (r: Result<(), ContractError>)
        requires
            old(self).wf(),
        ensures
            final(self).wf(),
            r is Err ==> final(self)@ == old(self)@,
            !old(self)@.has_swap(swap_id) ==> r == Err::<(), ContractError>(ContractError::SwapNotFound),
            old(self)@.has_swap(swap_id) ==> {
                let e = old(self)@.swaps[swap_id as int];
                if e.record.status != SwapStatus::Pending {
                    r == Err::<(), ContractError>(ContractError::NotPending)
                } else {
                    r is Ok && final(self)@ == with_swap(
                        old(self)@,
                        swap_id,
                        SwapEntryView { min_reputation: Some(min_reputation), ..e },
                    )
                }
            },
    {
        if swap_id >= self.swaps.len() as u64 {
            return Err(ContractError::SwapNotFound);
        }
        let i = self.index_of(swap_id);
        if self.swaps[i].record.status != SwapStatus::Pending {
            return Err(ContractError::NotPending);
        }
        self.swaps[i].min_reputation = Some(min_reputation);
        proof {
            let e = old(self)@.swaps[i as int];
            let w = SwapEntryView { min_reputation: Some(min_reputation), ..e };
            assert(e.is_consistent());
            assert(swap_entries_view(self.swaps@) =~= old(self)@.swaps.update(i as int, w));
            assert(self@ =~= with_swap(old(self)@, swap_id, w));
            lemma_with_swap_inv(old(self)@, swap_id, w);
        }
        Ok(())
    }

    /// A required co-signer of accepted swap `swap_id` signs off on the key
    /// reveal, once. The signer's authorization is checked by the host
    /// before this call.
    pub fn sign_swap_reveal(&mut self, swap_id: u64, signer: Addr) -> (r: Result<(), ContractError>)
        requires
            old(self).wf(),
        ensures
            final(self).wf(),
            r is Err ==> final(self)@ == old(self)@,
            !old(self)@.has_swap(swap_id) ==> r == Err::<(), ContractError>(ContractError::SwapNotFound),
            old(self)@.has_swap(swap_id) ==> {
                let e = old(self)@.swaps[swap_id as int];
                if e.record.status != SwapStatus::Accepted {
                    r == Err::<(), ContractError>(ContractError::NotAccepted)
                } else if e.signers is None {
                    r == Err::<(), ContractError>(ContractError::Unauthorized)
                } else if !e.signers.unwrap().contains(signer) {
                    r == Err::<(), ContractError>(ContractError::NotARequiredSigner)
                } else if e.signatures.contains(signer) {
                    r == Err::<(), ContractError>(ContractError::AlreadySigned)
                } else {
                    r is Ok && final(self)@ == with_swap(
                        old(self)@,
                        swap_id,
                        SwapEntryView { signatures: e.signatures.push(signer), ..e },
                    )
                }
            },
    {
        if swap_id >= self.swaps.len() as u64 {
            return Err(ContractError::SwapNotFound);
        }
        let i = self.index_of(swap_id);
        if self.swaps[i].record.status != SwapStatus::Accepted {
            return Err(ContractError::NotAccepted);
        }
        let required = match &self.swaps[i].signers {
            Some(sg) => contains_addr(sg, signer),
            None => {
                return Err(ContractError::Unauthorized);
            },
        };
        if !required {
            return Err(ContractError::NotARequiredSigner);
        }
        if contains_addr(&self.swaps[i].signatures, signer) {
            return Err(ContractError::AlreadySigned);
        }
        self.swaps[i].signatures.push(signer);
        proof {
            let e = old(self)@.swaps[i as int];
            let w = SwapEntryView { signatures: e.signatures.push(signer), ..e };
            assert(swap_entries_view(self.swaps@) =~= old(self)@.swaps.update(i as int, w));
            assert(self@ =~= with_swap(old(self)@, swap_id, w));
        }
        Ok(())
    }

    /// The buyer deposits the price of escrow-mode swap `swap_id`, which
    /// becomes Accepted. The buyer's authorization is checked by the host
    /// before this call.
    pub fn escrow_deposit(&mut self, swap_id: u64, now: u64) -> (r: Result<Vec<Transfer>, ContractError>)
        requires
            old(self).wf(),
        ensures
            final(self).wf(),
            r is Err ==> final(self)@ == old(self)@,
            !old(self)@.has_swap(swap_id) ==> r == Err::<Vec<Transfer>, ContractError>(ContractError::SwapNotFound),
            old(self)@.has_swap(swap_id) ==> {
                let s = old(self)@;
                let e = s.swaps[swap_id as int];
                if e.mode != SwapMode::Escrow {
                    r == Err::<Vec<Transfer>, ContractError>(ContractError::Unauthorized)
                } else if e.record.status != SwapStatus::Pending {
                    r == Err::<Vec<Transfer>, ContractError>(ContractError::NotPending)
                } else {
                    r matches Ok(t) && t@ == buyer_payment(s, swap_id, e.record.price)
                        && final(self)@ == with_swap(
                        s,
                        swap_id,
                        SwapEntryView { escrow_deposit: Some(e.record.price), ..accepted_entry(e, now) },
                    )
                }
            },
    {
        if swap_id >= self.swaps.len() as u64 {
            return Err(ContractError::SwapNotFound);
        }
        let i = self.index_of(swap_id);
        if self.swaps[i].mode != SwapMode::Escrow {
            return Err(ContractError::Unauthorized);
        }
        if self.swaps[i].record.status != SwapStatus::Pending {
            return Err(ContractError::NotPending);
        }
        Ok(self.apply_escrow_deposit(swap_id, now))
    }

    /// Records the buyer's deposit into escrow-mode swap `swap_id`.
    pub(crate) fn apply_escrow_deposit(&mut self, swap_id: u64, now: u64) -> (t: Vec<Transfer>)
        requires
            old(self).wf(),
            old(self)@.has_swap(swap_id),
        ensures
            final(self).wf(),
            ({
                let s = old(self)@;
                let e = s.swaps[swap_id as int];
                &&& t@ == buyer_payment(s, swap_id, e.record.price)
                &&& final(self)@ == with_swap(
                    s,
                    swap_id,
                    SwapEntryView { escrow_deposit: Some(e.record.price), ..accepted_entry(e, now) },
                )
            }),
    {
        let i = self.index_of(swap_id);
        let price = self.swaps[i].record.price;
        let mut t: Vec<Transfer> = Vec::new();
        t.push(Transfer {
            token: self.swaps[i].record.token,
            from: self.swaps[i].record.buyer,
            to: self.contract,
            amount: price,
        });
        self.swaps[i].escrow_deposit = Some(price);
        self.swaps[i].record.accept_timestamp = now;
        self.swaps[i].record.status = SwapStatus::Accepted;
        self.swaps[i].history.push(SwapHistoryEntry { status: SwapStatus::Accepted, timestamp: now });
        proof {
            let e = old(self)@.swaps[i as int];
            assert(e.is_consistent());
            let w = SwapEntryView { escrow_deposit: Some(e.record.price), ..accepted_entry(e, now) };
            assert(swap_entries_view(self.swaps@) =~= old(self)@.swaps.update(i as int, w));
            assert(self@ =~= with_swap(old(self)@, swap_id, w));
            lemma_with_swap_inv(old(self)@, swap_id, w);
        }
        t
    }

    /// After the expiry of accepted escrow-mode swap `swap_id` has passed
    /// (`now` later than it), the buyer withdraws the deposit and the swap
    /// is cancelled. The buyer's authorization is checked by the host
    /// before this call.
    pub fn escrow_withdraw(&mut self, swap_id: u64, now: u64) -> (r: Result<Vec<Transfer>, ContractError>)
        requires
            old(self).wf(),
        ensures
            final(self).wf(),
            r is Err ==> final(self)@ == old(self)@,
            !old(self)@.has_swap(swap_id) ==> r == Err::<Vec<Transfer>, ContractError>(ContractError::SwapNotFound),
            old(self)@.has_swap(swap_id) ==> {
                let s = old(self)@;
                let e = s.swaps[swap_id as int];
                let held: i128 = match e.escrow_deposit {
                    Some(d) => d,
                    None => 0,
                };
                if e.mode != SwapMode::Escrow {
                    r == Err::<Vec<Transfer>, ContractError>(ContractError::Unauthorized)
                } else if e.record.status != SwapStatus::Accepted {
                    r == Err::<Vec<Transfer>, ContractError>(ContractError::NotAccepted)
                } else if now <= e.record.expiry {
                    r == Err::<Vec<Transfer>, ContractError>(ContractError::NotExpired)
                } else {
                    r matches Ok(t) && t@ == transfer_if(held > 0, release(s, e.record.token, e.record.buyer, held))
                        && final(self)@ == unlock_ip(
                        with_swap(
                            s,
                            swap_id,
                            SwapEntryView {
                                record: SwapRecordView { status: SwapStatus::Cancelled, ..e.record },
                                escrow_deposit: None,
                                history: e.history.push(
                                    SwapHistoryEntry { status: SwapStatus::Cancelled, timestamp: now },
                                ),
                                ..e
                            },
                        ),
                        e.record.ip_id,
                    )
                }
            },
    {
        if swap_id >= self.swaps.len() as u64 {
            return Err(ContractError::SwapNotFound);
        }
        let i = self.index_of(swap_id);
        if self.swaps[i].mode != SwapMode::Escrow {
            return Err(ContractError::Unauthorized);
        }
        if self.swaps[i].record.status != SwapStatus::Accepted {
            return Err(ContractError::NotAccepted);
        }
        if now <= self.swaps[i].record.expiry {
            return Err(ContractError::NotExpired);
        }
        let held: i128 = match self.swaps[i].escrow_deposit {
            Some(d) => d,
            None => 0,
        };
        self.release_swap_ip(swap_id);
        let ghost s1 = self@;
        let mut t: Vec<Transfer> = Vec::new();
        if held > 0 {
            t.push(Transfer {
                token: self.swaps[i].record.token,
                from: self.contract,
                to: self.swaps[i].record.buyer,
                amount: held,
            });
        }
        self.swaps[i].record.status = SwapStatus::Cancelled;
        self.swaps[i].escrow_deposit = None;
        self.swaps[i].history.push(SwapHistoryEntry { status: SwapStatus::Cancelled, timestamp: now });
        proof {
            let e = old(self)@.swaps[i as int];
            let w = SwapEntryView {
                record: SwapRecordView { status: SwapStatus::Cancelled, ..e.record },
                escrow_deposit: None,
                history: e.history.push(SwapHistoryEntry { status: SwapStatus::Cancelled, timestamp: now }),
                ..e
            };
            assert(e.is_consistent());
            assert(swap_entries_view(self.swaps@) =~= old(self)@.swaps.update(i as int, w));
            assert(self@ =~= with_swap(s1, swap_id, w));
            lemma_close_swap_inv(s1, swap_id, w);
        }
        Ok(t)
    }

    /// The total of a payment schedule (see [`schedule_total`]).
    pub fn schedule_total(schedule: &Vec<PaymentSchedule>) -> (r: i128)
        ensures
            r == schedule_total(schedule@),
    {
        let mut total: i128 = 0;
        let mut k: usize = 0;
        while k < schedule.len()
            invariant
                0 <= k <= schedule@.len(),
                total == schedule_total(schedule@.subrange(0, k as int)),
            decreases schedule@.len() - k,
        {
            assert(schedule@.subrange(0, (k + 1) as int).drop_last() =~= schedule@.subrange(0, k as int));
            total = sat_add_i128(total, schedule[k].amount);
            k = k + 1;
        }
        assert(schedule@.subrange(0, schedule@.len() as int) =~= schedule@);
        total
    }

    /// Lists IP `ip_id` for sale paid by `schedule`: the price is the
    /// schedule's total and the swap becomes Accepted once every payment is
    /// made. An empty schedule is refused with `PriceTooSmall`. The seller's
    /// authorization is checked by the host before this call.
    pub fn initiate_swap_with_schedule(
        &mut self,
        registry: &IpRegistry,
        token: Addr,
        ip_id: u64,
        seller: Addr,
        schedule: Vec<PaymentSchedule>,
        buyer: Addr,
        now: u64,
    ) -> (r: Result<u64, ContractError>)
        requires
            old(self).wf(),
            registry.wf(),
            registry_matches(old(self)@, registry@),
            !old(self)@.paused && schedule@.len() > 0 && listing_error(
                old(self)@,
                registry@,
                ip_id,
                seller,
                schedule_total(schedule@),
            ) is None ==> {
                &&& old(self)@.swaps.len() < u64::MAX
                &&& now + SWAP_LIFETIME_SECONDS <= u64::MAX
            },
        ensures
            final(self).wf(),
            r is Err ==> final(self)@ == old(self)@,
            old(self)@.paused ==> r == Err::<u64, ContractError>(ContractError::Paused),
            !old(self)@.paused && schedule@.len() == 0 ==> r == Err::<u64, ContractError>(
                ContractError::PriceTooSmall,
            ),
            !old(self)@.paused && schedule@.len() > 0 ==> match listing_error(
                old(self)@,
                registry@,
                ip_id,
                seller,
                schedule_total(schedule@),
            ) {
                Some(e) => r == Err::<u64, ContractError>(e),
                None => r == Ok::<u64, ContractError>(old(self)@.swaps.len() as u64) && final(self)@ == created_state(
                    old(self)@,
                    fresh_swap(
                        pending_record(
                            ip_id,
                            seller,
                            buyer,
                            schedule_total(schedule@),
                            token,
                            (now + SWAP_LIFETIME_SECONDS) as u64,
                            0,
                            None,
                            0,
                            false,
                            true,
                        ),
                        SwapMode::Atomic,
                        None,
                        Some(schedule@),
                        now,
                    ),
                    true,
                    true,
                ),
            },
    {
        if self.paused {
            return Err(ContractError::Paused);
        }
        if schedule.len() == 0 {
            return Err(ContractError::PriceTooSmall);
        }
        let total = Self::schedule_total(&schedule);
        match self.check_listing(registry, ip_id, seller, total) {
            Err(e) => {
                return Err(e);
            },
            Ok(()) => {},
        }
        let rec = Self::pending(
            ip_id,
            seller,
            buyer,
            total,
            token,
            now + SWAP_LIFETIME_SECONDS,
            0,
            None,
            0,
            false,
            true,
        );
        let entry = Self::new_entry(rec, SwapMode::Atomic, None, Some(schedule), now);
        Ok(self.create_swap(entry, true, true))
    }

    /// The buyer makes scheduled payment `payment_index` of swap `swap_id`,
    /// whatever its status, once it is due; when every payment is made the
    /// swap becomes Accepted.
    /// Returns the payment event and transfer. The buyer's authorization is
    /// checked by the host before this call.
    pub fn make_scheduled_payment(&mut self, swap_id: u64, payment_index: u32, now: u64) -> (r: Result<
        (ScheduledPaymentMadeEvent, Vec<Transfer>),
        ContractError,
    >)
        requires
            old(self).wf(),
            old(self)@.has_swap(swap_id) && old(self)@.swaps[swap_id as int].schedule is Some
                ==> old(self)@.swaps[swap_id as int].schedule.unwrap().len() <= u32::MAX,
        ensures
            final(self).wf(),
            r is Err ==> final(self)@ == old(self)@,
            !old(self)@.has_swap(swap_id) ==> r == Err::<(ScheduledPaymentMadeEvent, Vec<Transfer>), ContractError>(
                ContractError::SwapNotFound,
            ),
            old(self)@.has_swap(swap_id) ==> {
                let s = old(self)@;
                let e = s.swaps[swap_id as int];
                let p = e.schedule.unwrap();
                let k = payment_index as int;
                let made = e.payments_made.update(k, true);
                let e1 = SwapEntryView { payments_made: made, ..e };
                if e.schedule is None {
                    r == Err::<(ScheduledPaymentMadeEvent, Vec<Transfer>), ContractError>(ContractError::SwapNotFound)
                } else if k >= p.len() {
                    r == Err::<(ScheduledPaymentMadeEvent, Vec<Transfer>), ContractError>(ContractError::InvalidKey)
                } else if e.payments_made[k] {
                    r == Err::<(ScheduledPaymentMadeEvent, Vec<Transfer>), ContractError>(ContractError::AlreadyInit)
                } else if now < p[k].due_timestamp {
                    r == Err::<(ScheduledPaymentMadeEvent, Vec<Transfer>), ContractError>(ContractError::NotExpired)
                } else {
                    r matches Ok(v) && v.0 == (ScheduledPaymentMadeEvent {
                        swap_id,
                        payment_index,
                        amount: p[k].amount,
                        remaining_payments: (p.len() - (k + 1)) as u32,
                    }) && v.1@ == buyer_payment(s, swap_id, p[k].amount) && final(self)@
                        == with_swap(s, swap_id, if all_paid(made) { accepted_entry(e1, now) } else { e1 })
                }
            },
    {
        if swap_id >= self.swaps.len() as u64 {
            return Err(ContractError::SwapNotFound);
        }
        let i = self.index_of(swap_id);
        let (n, amount, due) = match &self.swaps[i].schedule {
            None => {
                return Err(ContractError::SwapNotFound);
            },
            Some(p) => {
                if payment_index as usize >= p.len() {
                    return Err(ContractError::InvalidKey);
                }
                (p.len(), p[payment_index as usize].amount, p[payment_index as usize].due_timestamp)
            },
        };
        let k = payment_index as usize;
        if self.swaps[i].payments_made[k] {
            return Err(ContractError::AlreadyInit);
        }
        if now < due {
            return Err(ContractError::NotExpired);
        }
        let ghost s = old(self)@;
        let mut t: Vec<Transfer> = Vec::new();
        t.push(Transfer {
            token: self.swaps[i].record.token,
            from: self.swaps[i].record.buyer,
            to: self.contract,
            amount,
        });
        self.swaps[i].payments_made.set(k, true);
        let mut every = true;
        let mut j: usize = 0;
        while j < self.swaps[i].payments_made.len()
            invariant
                i < self.swaps@.len(),
                0 <= j <= self.swaps@[i as int].payments_made@.len(),
                every == (forall|m: int| 0 <= m < j ==> #[trigger] self.swaps@[i as int].payments_made@[m]),
            decreases self.swaps@[i as int].payments_made@.len() - j,
        {
            if !self.swaps[i].payments_made[j] {
                every = false;
            }
            j = j + 1;
        }
        proof {
            let e = s.swaps[i as int];
            let e1 = SwapEntryView { payments_made: e.payments_made.update(k as int, true), ..e };
            assert(swap_entries_view(self.swaps@) =~= s.swaps.update(i as int, e1));
        }
        if every {
            self.swaps[i].record.status = SwapStatus::Accepted;
            self.swaps[i].record.accept_timestamp = now;
            self.swaps[i].history.push(SwapHistoryEntry { status: SwapStatus::Accepted, timestamp: now });
            proof {
                let e = s.swaps[i as int];
                let e1 = SwapEntryView { payments_made: e.payments_made.update(k as int, true), ..e };
                assert(swap_entries_view(self.swaps@) =~= s.swaps.update(i as int, accepted_entry(e1, now)));
            }
        }
        proof {
            let e = s.swaps[i as int];
            let e1 = SwapEntryView { payments_made: e.payments_made.update(k as int, true), ..e };
            let w = if all_paid(e1.payments_made) { accepted_entry(e1, now) } else { e1 };
            assert(e.is_consistent());
            assert(self@ =~= with_swap(s, swap_id, w));
            lemma_with_swap_inv(s, swap_id, w);
        }
        let remaining = (n as u32) - (payment_index + 1);
        Ok((ScheduledPaymentMadeEvent { swap_id, payment_index, amount, remaining_payments: remaining }, t))
    }

    /// The payment schedule of swap `swap_id` (empty if none).
    pub fn get_payment_schedule(&self, swap_id: u64) -> (r: Vec<PaymentSchedule>)
        requires
            self.wf(),
        ensures
            r@ == if self@.has_swap(swap_id) && self@.swaps[swap_id as int].schedule is Some {
                self@.swaps[swap_id as int].schedule.unwrap()
            } else {
                Seq::empty()
            },
    {
        if swap_id >= self.swaps.len() as u64 {
            return Vec::new();
        }
        let i = self.index_of(swap_id);
        match &self.swaps[i].schedule {
            Some(p) => copy_vec(p),
            None => Vec::new(),
        }
    }

    /// Which scheduled payments of swap `swap_id` were made (empty if none).
    pub fn get_payments_made(&self, swap_id: u64) -> (r: Vec<bool>)
        requires
            self.wf(),
        ensures
            r@ == if self@.has_swap(swap_id) { self@.swaps[swap_id as int].payments_made } else { Seq::empty() },
    {
        if swap_id >= self.swaps.len() as u64 {
            return Vec::new();
        }
        let i = self.index_of(swap_id);
        copy_vec(&self.swaps[i].payments_made)
    }

    /// The buyer pays `payment_amount` toward instalment swap `swap_id`; it
    /// must be positive and not exceed what remains. Once the price is paid
    /// the swap becomes Accepted. The buyer's authorization is checked by
    /// the host before this call.
    pub fn submit_installment_payment(&mut self, swap_id: u64, payment_amount: i128, now: u64) -> (r: Result<
        Vec<Transfer>,
        ContractError,
    >)
        requires
            old(self).wf(),
        ensures
            final(self).wf(),
            r is Err ==> final(self)@ == old(self)@,
            !old(self)@.has_swap(swap_id) ==> r == Err::<Vec<Transfer>, ContractError>(ContractError::SwapNotFound),
            old(self)@.has_swap(swap_id) ==> {
                let s = old(self)@;
                let e = s.swaps[swap_id as int];
                let rec = e.record;
                let paid = clamp_i128(rec.paid_amount + payment_amount);
                let e1 = SwapEntryView { record: SwapRecordView { paid_amount: paid, ..rec }, ..e };
                if !rec.is_installment || rec.status != SwapStatus::Pending {
                    r == Err::<Vec<Transfer>, ContractError>(ContractError::NotPending)
                } else if payment_amount <= 0 || payment_amount > clamp_i128(rec.price - rec.paid_amount) {
                    r == Err::<Vec<Transfer>, ContractError>(ContractError::PriceTooSmall)
                } else {
                    r matches Ok(t) && t@ == buyer_payment(s, swap_id, payment_amount) && final(self)@
                        == with_swap(s, swap_id, if paid >= rec.price { accepted_entry(e1, now) } else { e1 })
                }
            },
    {
        if swap_id >= self.swaps.len() as u64 {
            return Err(ContractError::SwapNotFound);
        }
        let i = self.index_of(swap_id);
        if !self.swaps[i].record.is_installment || self.swaps[i].record.status != SwapStatus::Pending {
            return Err(ContractError::NotPending);
        }
        let price = self.swaps[i].record.price;
        let paid_before = self.swaps[i].record.paid_amount;
        if payment_amount <= 0 || payment_amount > sat_sub_i128(price, paid_before) {
            return Err(ContractError::PriceTooSmall);
        }
        let ghost s = old(self)@;
        let mut t: Vec<Transfer> = Vec::new();
        t.push(Transfer {
            token: self.swaps[i].record.token,
            from: self.swaps[i].record.buyer,
            to: self.contract,
            amount: payment_amount,
        });
        let paid = sat_add_i128(paid_before, payment_amount);
        self.swaps[i].record.paid_amount = paid;
        if paid >= price {
            self.swaps[i].record.status = SwapStatus::Accepted;
            self.swaps[i].record.accept_timestamp = now;
            self.swaps[i].history.push(SwapHistoryEntry { status: SwapStatus::Accepted, timestamp: now });
        }
        proof {
            let e = s.swaps[i as int];
            let e1 = SwapEntryView { record: SwapRecordView { paid_amount: paid, ..e.record }, ..e };
            let w = if paid >= price { accepted_entry(e1, now) } else { e1 };
            assert(e.is_consistent());
            assert(swap_entries_view(self.swaps@) =~= s.swaps.update(i as int, w));
            assert(self@ =~= with_swap(s, swap_id, w));
            lemma_with_swap_inv(s, swap_id, w);
        }
        Ok(t)
    }

    /// `(paid, price, remaining)` of swap `swap_id`, the remainder saturating.
    pub fn get_installment_status(&self, swap_id: u64) -> (r: Result<(i128, i128, i128), ContractError>)
        requires
            self.wf(),
        ensures
            match r {
                Ok(v) => self@.has_swap(swap_id) && v == (
                    self@.record(swap_id).paid_amount,
                    self@.record(swap_id).price,
                    clamp_i128(self@.record(swap_id).price - self@.record(swap_id).paid_amount),
                ),
                Err(e) => !self@.has_swap(swap_id) && e == ContractError::SwapNotFound,
            },
    {
        if swap_id >= self.swaps.len() as u64 {
            return Err(ContractError::SwapNotFound);
        }
        let i = self.index_of(swap_id);
        let price = self.swaps[i].record.price;
        let paid = self.swaps[i].record.paid_amount;
        Ok((paid, price, sat_sub_i128(price, paid)))
    }

    /// The collateral held for swap `swap_id` (zero if none).
    pub fn get_swap_collateral(&self, swap_id: u64) -> (r: i128)
        requires
            self.wf(),
        ensures
            r == if self@.has_swap(swap_id) && self@.swaps[swap_id as int].collateral is Some {
                self@.swaps[swap_id as int].collateral.unwrap()
            } else {
                0
            },
    {
        if swap_id >= self.swaps.len() as u64 {
            return 0;
        }
        let i = self.index_of(swap_id);
        match self.swaps[i].collateral {
            Some(c) => c,
            None => 0,
        }
    }
}

} // verus!
