//! Disputes, arbitration, admin rollback and insurance claims.
use vstd::prelude::*;
use vstd::string::StringSliceAdditionalSpecFns;
use crate::common::{Addr, bytes_of};
use crate::atomic_swap::types::{
    ContractError, DisputeResolvedEvent, SwapHistoryEntry, SwapRecordView, SwapStatus, Transfer,
};
use super::{
    AtomicSwap, SwapEntryView, SwapState, ARBITRATION_TIMEOUT_SECONDS, lemma_close_swap_inv,
    lemma_with_swap_inv, swap_entries_view, unlock_ip, unlocked, with_swap,
};
use super::settle::{bps_of, protocol_fee, release, transfer_if};

verus! {

broadcast use vstd::std_specs::hash::group_hash_axioms;

/// The reason recorded when an admin refunds a disputed swap.
pub open spec fn dispute_refund_reason() -> Seq<u8> {
    "dispute_refund".spec_bytes()
}

/// The reason recorded when a dispute times out.
pub open spec fn dispute_timeout_reason() -> Seq<u8> {
    "dispute_timeout".spec_bytes()
}

/// The reason recorded when arbitration times out.
pub open spec fn arbitration_timeout_reason() -> Seq<u8> {
    "arbitration_timeout".spec_bytes()
}

/// The error an admin-only call by `caller` runs into, if any.
pub open spec fn admin_error(s: SwapState, caller: Addr) -> Option<ContractError> {
    match s.admin {
        None => Some(ContractError::NotInitialized),
        Some(a) => if a != caller {
            Some(ContractError::Unauthorized)
        } else {
            None
        },
    }
}

/// `a - b`, or 0 when `b > a`.
pub open spec fn elapsed_since(now: u64, then: u64) -> int {
    if now >= then {
        now - then
    } else {
        0
    }
}

/// The entry of swap `id` with its status set at `now` and its collateral
/// record cleared when collateral was required.
pub open spec fn settled_entry(s: SwapState, id: u64, status: SwapStatus, now: u64) -> SwapEntryView {
    let e = s.swaps[id as int];
    SwapEntryView {
        record: SwapRecordView { status, ..e.record },
        collateral: if e.record.collateral_amount > 0 { None } else { e.collateral },
        history: e.history.push(SwapHistoryEntry { status, timestamp: now }),
        ..e
    }
}

/// The payouts when an arbitrator decides swap `id`: a refund returns the
/// price and collateral to the buyer; otherwise the collateral and the price
/// less the protocol fee go to the seller and the fee to the treasury.
pub open spec fn arbitration_transfers(s: SwapState, id: u64, refund: bool) -> Seq<Transfer> {
    let e = s.swaps[id as int];
    let r = e.record;
    let held = r.collateral_amount > 0 && e.collateral is Some;
    let fee = protocol_fee(s, r.price);
    if refund {
        seq![release(s, r.token, r.buyer, r.price)] + transfer_if(held, release(s, r.token, r.buyer, e.collateral.unwrap()))
    } else {
        transfer_if(held, release(s, r.token, r.seller, e.collateral.unwrap())) + seq![
            release(s, r.token, r.seller, (r.price - fee) as i128),
        ] + transfer_if(fee > 0, release(s, r.token, s.config.treasury, fee as i128))
    }
}

/// The price of swap `id` paid back from escrow to its buyer.
pub open spec fn price_refund(s: SwapState, id: u64) -> Seq<Transfer> {
    let r = s.record(id);
    seq![release(s, r.token, r.buyer, r.price)]
}

/// The insurance payout on swap `id`: the price, or what the token's pool
/// holds if less, to the buyer.
pub open spec fn insurance_payout(s: SwapState, id: u64) -> Seq<Transfer> {
    let r = s.record(id);
    let pool = s.pool_of(r.token);
    seq![release(s, r.token, r.buyer, if pool >= r.price { r.price } else { pool })]
}

/// The payouts when the admin resolves the dispute on swap `id`: a refund
/// returns the price to the buyer; otherwise the protocol fee goes to the
/// treasury and the rest of the price to the seller.
pub open spec fn dispute_resolution_transfers(s: SwapState, id: u64, refunded: bool) -> Seq<Transfer> {
    let r = s.record(id);
    let fee = protocol_fee(s, r.price);
    if refunded {
        price_refund(s, id)
    } else {
        transfer_if(fee > 0, release(s, r.token, s.config.treasury, fee as i128)) + seq![
            release(s, r.token, r.seller, (r.price - fee) as i128),
        ]
    }
}

/// The state after an arbitrator decides swap `id` at `now`.
pub open spec fn arbitrated_state(s: SwapState, id: u64, refund: bool, now: u64) -> SwapState {
    let status = if refund { SwapStatus::Cancelled } else { SwapStatus::Completed };
    unlock_ip(with_swap(s, id, settled_entry(s, id, status, now)), s.swaps[id as int].record.ip_id)
}

impl AtomicSwap {
    /// Checks that `caller` is the admin (see [`admin_error`]).
    pub(crate) fn check_admin(&self, caller: Addr) -> (r: Result<(), ContractError>)
        requires
            self.wf(),
        ensures
            match admin_error(self@, caller) {
                Some(e) => r == Err::<(), ContractError>(e),
                None => r is Ok,
            },
    {
        match self.admin {
            None => Err(ContractError::NotInitialized),
            Some(a) => if a != caller {
                Err(ContractError::Unauthorized)
            } else {
                Ok(())
            },
        }
    }

    /// The buyer disputes accepted swap `swap_id`, within a day of acceptance.
    /// The buyer's authorization is checked by the host before this call.
    pub fn raise_dispute(&mut self, swap_id: u64, now: u64) -> (r: Result<(), ContractError>)
        requires
            old(self).wf(),
        ensures
            final(self).wf(),
            r is Err ==> final(self)@ == old(self)@,
            !old(self)@.has_swap(swap_id) ==> r == Err::<(), ContractError>(ContractError::SwapNotFound),
            old(self)@.has_swap(swap_id) ==> {
                let e = old(self)@.swaps[swap_id as int];
                if e.record.status != SwapStatus::Accepted {
                    r == Err::<(), ContractError>(ContractError::NotAccepted)
                } else if elapsed_since(now, e.record.accept_timestamp) >= old(self)@.config.dispute_window_seconds {
                    r == Err::<(), ContractError>(ContractError::DisputeExpired)
                } else {
                    r is Ok && final(self)@ == with_swap(
                        old(self)@,
                        swap_id,
                        SwapEntryView {
                            record: SwapRecordView {
                                status: SwapStatus::Disputed,
                                dispute_timestamp: now,
                                ..e.record
                            },
                            history: e.history.push(SwapHistoryEntry { status: SwapStatus::Disputed, timestamp: now }),
                            ..e
                        },
                    )
                }
            },
    {
        if swap_id >= self.swaps.len() as u64 {
            return Err(ContractError::SwapNotFound);
        }
        let i = self.index_of(swap_id);
        if self.swaps[i].record.status != SwapStatus::Accepted {
            return Err(ContractError::NotAccepted);
        }
        let accepted_at = self.swaps[i].record.accept_timestamp;
        let elapsed: u64 = if now >= accepted_at { now - accepted_at } else { 0 };
        if elapsed >= self.config.dispute_window_seconds {
            return Err(ContractError::DisputeExpired);
        }
        self.swaps[i].record.status = SwapStatus::Disputed;
        self.swaps[i].record.dispute_timestamp = now;
        self.swaps[i].history.push(SwapHistoryEntry { status: SwapStatus::Disputed, timestamp: now });
        proof {
            let e = old(self)@.swaps[i as int];
            let w = SwapEntryView {
                record: SwapRecordView { status: SwapStatus::Disputed, dispute_timestamp: now, ..e.record },
                history: e.history.push(SwapHistoryEntry { status: SwapStatus::Disputed, timestamp: now }),
                ..e
            };
            assert(swap_entries_view(self.swaps@) =~= old(self)@.swaps.update(i as int, w));
            assert(self@ =~= with_swap(old(self)@, swap_id, w));
        }
        Ok(())
    }

    /// Sets the status and cancellation reason of swap `swap_id`, recording
    /// the status at `now`.
    fn close_with_reason(&mut self, swap_id: u64, status: SwapStatus, reason: Vec<u8>, now: u64)
        requires
            old(self).wf(),
            old(self)@.has_swap(swap_id),
            !status.is_open(),
            unlocked(old(self)@, swap_id),
        ensures
            final(self).wf(),
            final(self)@ == with_swap(
                old(self)@,
                swap_id,
                SwapEntryView {
                    record: SwapRecordView { status, ..old(self)@.record(swap_id) },
                    cancel_reason: Some(reason@),
                    history: old(self)@.swaps[swap_id as int].history.push(SwapHistoryEntry { status, timestamp: now }),
                    ..old(self)@.swaps[swap_id as int]
                },
            ),
    {
        let i = self.index_of(swap_id);
        let ghost rv = reason@;
        self.swaps[i].record.status = status;
        self.swaps[i].cancel_reason = Some(reason);
        self.swaps[i].history.push(SwapHistoryEntry { status, timestamp: now });
        proof {
            let e = old(self)@.swaps[i as int];
            let w = SwapEntryView {
                record: SwapRecordView { status, ..e.record },
                cancel_reason: Some(rv),
                history: e.history.push(SwapHistoryEntry { status, timestamp: now }),
                ..e
            };
            assert(e.is_consistent());
            assert(swap_entries_view(self.swaps@) =~= old(self)@.swaps.update(i as int, w));
            assert(self@ =~= with_swap(old(self)@, swap_id, w));
            lemma_close_swap_inv(old(self)@, swap_id, w);
        }
    }

    /// The admin settles disputed swap `swap_id`: a refund returns the price
    /// to the buyer and cancels it (reason "dispute_refund"); otherwise the
    /// seller is paid the price less the protocol fee, which goes to the
    /// treasury. The caller's authorization is checked by the host before
    /// this call.
    pub fn resolve_dispute(&mut self, swap_id: u64, caller: Addr, refunded: bool, now: u64) -> (r: Result<
        (DisputeResolvedEvent, Vec<Transfer>),
        ContractError,
    >)
        requires
            old(self).wf(),
        ensures
            final(self).wf(),
            r is Err ==> final(self)@ == old(self)@,
            admin_error(old(self)@, caller) is Some ==> r == Err::<(DisputeResolvedEvent, Vec<Transfer>), ContractError>(
                admin_error(old(self)@, caller).unwrap(),
            ),
            admin_error(old(self)@, caller) is None && !old(self)@.has_swap(swap_id) ==> r == Err::<
                (DisputeResolvedEvent, Vec<Transfer>),
                ContractError,
            >(ContractError::SwapNotFound),
            admin_error(old(self)@, caller) is None && old(self)@.has_swap(swap_id) ==> {
                let s = old(self)@;
                let e = s.swaps[swap_id as int];
                let rec = e.record;
                let fee = protocol_fee(s, rec.price);
                if rec.status != SwapStatus::Disputed {
                    r == Err::<(DisputeResolvedEvent, Vec<Transfer>), ContractError>(ContractError::NotDisputed)
                } else if refunded {
                    r matches Ok(v) && v.0 == (DisputeResolvedEvent { swap_id, refunded }) && v.1@
                        == dispute_resolution_transfers(s, swap_id, refunded) && final(self)@ == unlock_ip(
                        with_swap(
                            s,
                            swap_id,
                            SwapEntryView {
                                record: SwapRecordView { status: SwapStatus::Cancelled, ..rec },
                                cancel_reason: Some(dispute_refund_reason()),
                                history: e.history.push(
                                    SwapHistoryEntry { status: SwapStatus::Cancelled, timestamp: now },
                                ),
                                ..e
                            },
                        ),
                        rec.ip_id,
                    )
                } else {
                    r matches Ok(v) && v.0 == (DisputeResolvedEvent { swap_id, refunded }) && v.1@
                        == dispute_resolution_transfers(s, swap_id, refunded) && final(self)@ == unlock_ip(
                        with_swap(
                            s,
                            swap_id,
                            SwapEntryView {
                                record: SwapRecordView { status: SwapStatus::Completed, ..rec },
                                history: e.history.push(
                                    SwapHistoryEntry { status: SwapStatus::Completed, timestamp: now },
                                ),
                                ..e
                            },
                        ),
                        rec.ip_id,
                    )
                }
            },
    {
        match self.check_admin(caller) {
            Err(e) => {
                return Err(e);
            },
            Ok(()) => {},
        }
        if swap_id >= self.swaps.len() as u64 {
            return Err(ContractError::SwapNotFound);
        }
        let i = self.index_of(swap_id);
        if self.swaps[i].record.status != SwapStatus::Disputed {
            return Err(ContractError::NotDisputed);
        }
        let ghost s = old(self)@;
        let token = self.swaps[i].record.token;
        let price = self.swaps[i].record.price;
        self.release_swap_ip(swap_id);
        let mut t: Vec<Transfer> = Vec::new();
        if refunded {
            t.push(Transfer { token, from: self.contract, to: self.swaps[i].record.buyer, amount: price });
            self.close_with_reason(swap_id, SwapStatus::Cancelled, bytes_of("dispute_refund"), now);
        } else {
            let fee: i128 = if price > 0 {
                bps_of(price, self.config.protocol_fee_bps)
            } else {
                0
            };
            if fee > 0 {
                t.push(Transfer { token, from: self.contract, to: self.config.treasury, amount: fee });
            }
            t.push(Transfer { token, from: self.contract, to: self.swaps[i].record.seller, amount: price - fee });
            self.record_status(swap_id, SwapStatus::Completed, now);
            proof {
                let e = s.swaps[swap_id as int];
                assert(self@.swaps =~= s.swaps.update(
                    swap_id as int,
                    SwapEntryView {
                        record: SwapRecordView { status: SwapStatus::Completed, ..e.record },
                        history: e.history.push(SwapHistoryEntry { status: SwapStatus::Completed, timestamp: now }),
                        ..e
                    },
                ));
                let rec = s.record(swap_id);
                assert(t@ =~= transfer_if(
                    protocol_fee(s, rec.price) > 0,
                    release(s, rec.token, s.config.treasury, protocol_fee(s, rec.price) as i128),
                ) + seq![release(s, rec.token, rec.seller, (rec.price - protocol_fee(s, rec.price)) as i128)]);
            }
        }
        Ok((DisputeResolvedEvent { swap_id, refunded }, t))
    }

    /// The admin cancels swap `swap_id` for `reason` unless it completed
    /// (`NotInAccepted`); when the buyer had paid (Accepted or Disputed) the
    /// price, any held collateral and the premium are refunded, and the IP's
    /// lock is released. The caller's authorization is checked by the host
    /// before this call.
    pub fn admin_rollback_swap(&mut self, swap_id: u64, caller: Addr, reason: Vec<u8>, now: u64) -> (r: Result<
        Vec<Transfer>,
        ContractError,
    >)
        requires
            old(self).wf(),
        ensures
            final(self).wf(),
            r is Err ==> final(self)@ == old(self)@,
            admin_error(old(self)@, caller) is Some ==> r == Err::<Vec<Transfer>, ContractError>(
                admin_error(old(self)@, caller).unwrap(),
            ),
            admin_error(old(self)@, caller) is None && !old(self)@.has_swap(swap_id) ==> r == Err::<
                Vec<Transfer>,
                ContractError,
            >(ContractError::SwapNotFound),
            admin_error(old(self)@, caller) is None && old(self)@.has_swap(swap_id) ==> {
                let s = old(self)@;
                let e = s.swaps[swap_id as int];
                let rec = e.record;
                let paid = rec.status == SwapStatus::Accepted || rec.status == SwapStatus::Disputed;
                if rec.status == SwapStatus::Completed {
                    r == Err::<Vec<Transfer>, ContractError>(ContractError::NotInAccepted)
                } else {
                    r matches Ok(t) && t@ == (if paid {
                        seq![release(s, rec.token, rec.buyer, rec.price)] + transfer_if(
                            e.collateral is Some,
                            release(s, rec.token, rec.buyer, e.collateral.unwrap()),
                        ) + transfer_if(rec.insurance_premium > 0, release(s, rec.token, rec.buyer, rec.insurance_premium))
                    } else {
                        Seq::empty()
                    }) && final(self)@ == unlock_ip(
                        with_swap(
                            s,
                            swap_id,
                            SwapEntryView {
                                record: SwapRecordView { status: SwapStatus::Cancelled, ..rec },
                                collateral: if paid { None } else { e.collateral },
                                cancel_reason: Some(reason@),
                                history: e.history.push(
                                    SwapHistoryEntry { status: SwapStatus::Cancelled, timestamp: now },
                                ),
                                ..e
                            },
                        ),
                        rec.ip_id,
                    )
                }
            },
    {
        match self.check_admin(caller) {
            Err(e) => {
                return Err(e);
            },
            Ok(()) => {},
        }
        if swap_id >= self.swaps.len() as u64 {
            return Err(ContractError::SwapNotFound);
        }
        let i = self.index_of(swap_id);
        let status = self.swaps[i].record.status;
        if status == SwapStatus::Completed {
            return Err(ContractError::NotInAccepted);
        }
        let ghost s = old(self)@;
        let ghost rv = reason@;
        let token = self.swaps[i].record.token;
        let buyer = self.swaps[i].record.buyer;
        self.release_swap_ip(swap_id);
        let ghost s1 = self@;
        let mut t: Vec<Transfer> = Vec::new();
        let paid = status == SwapStatus::Accepted || status == SwapStatus::Disputed;
        if paid {
            t.push(Transfer { token, from: self.contract, to: buyer, amount: self.swaps[i].record.price });
            match self.swaps[i].collateral {
                Some(c) => t.push(Transfer { token, from: self.contract, to: buyer, amount: c }),
                None => {},
            }
            self.swaps[i].collateral = None;
            let premium = self.swaps[i].record.insurance_premium;
            if premium > 0 {
                t.push(Transfer { token, from: self.contract, to: buyer, amount: premium });
            }
        }
        self.swaps[i].record.status = SwapStatus::Cancelled;
        self.swaps[i].cancel_reason = Some(reason);
        self.swaps[i].history.push(SwapHistoryEntry { status: SwapStatus::Cancelled, timestamp: now });
        proof {
            let e = s.swaps[i as int];
            let rec = e.record;
            let w = SwapEntryView {
                record: SwapRecordView { status: SwapStatus::Cancelled, ..rec },
                collateral: if paid { None } else { e.collateral },
                cancel_reason: Some(rv),
                history: e.history.push(SwapHistoryEntry { status: SwapStatus::Cancelled, timestamp: now }),
                ..e
            };
            assert(e.is_consistent());
            assert(swap_entries_view(self.swaps@) =~= s1.swaps.update(i as int, w));
            assert(self@ =~= with_swap(s1, swap_id, w));
            lemma_close_swap_inv(s1, swap_id, w);
            if paid {
                assert(t@ =~= seq![release(s, rec.token, rec.buyer, rec.price)] + transfer_if(
                    e.collateral is Some,
                    release(s, rec.token, rec.buyer, e.collateral.unwrap()),
                ) + transfer_if(rec.insurance_premium > 0, release(s, rec.token, rec.buyer, rec.insurance_premium)));
            } else {
                assert(t@ =~= Seq::<Transfer>::empty());
            }
        }
        Ok(t)
    }

    /// Once a dispute has been open for the dispute timeout, anyone may
    /// refund the buyer and cancel the swap (reason "dispute_timeout").
    pub fn auto_resolve_dispute(&mut self, swap_id: u64, now: u64) -> (r: Result<
        (DisputeResolvedEvent, Vec<Transfer>),
        ContractError,
    >)
        requires
            old(self).wf(),
        ensures
            final(self).wf(),
            r is Err ==> final(self)@ == old(self)@,
            !old(self)@.has_swap(swap_id) ==> r == Err::<(DisputeResolvedEvent, Vec<Transfer>), ContractError>(
                ContractError::SwapNotFound,
            ),
            old(self)@.has_swap(swap_id) ==> {
                let s = old(self)@;
                let e = s.swaps[swap_id as int];
                let rec = e.record;
                if rec.status != SwapStatus::Disputed {
                    r == Err::<(DisputeResolvedEvent, Vec<Transfer>), ContractError>(ContractError::NotDisputed)
                } else if elapsed_since(now, rec.dispute_timestamp) < s.config.dispute_timeout_secs {
                    r == Err::<(DisputeResolvedEvent, Vec<Transfer>), ContractError>(ContractError::NotExpired)
                } else {
                    r matches Ok(v) && v.0 == (DisputeResolvedEvent { swap_id, refunded: true }) && v.1@ == price_refund(
                        s,
                        swap_id,
                    ) && final(self)@ == unlock_ip(
                        with_swap(
                            s,
                            swap_id,
                            SwapEntryView {
                                record: SwapRecordView { status: SwapStatus::Cancelled, ..rec },
                                cancel_reason: Some(dispute_timeout_reason()),
                                history: e.history.push(
                                    SwapHistoryEntry { status: SwapStatus::Cancelled, timestamp: now },
                                ),
                                ..e
                            },
                        ),
                        rec.ip_id,
                    )
                }
            },
    {
        if swap_id >= self.swaps.len() as u64 {
            return Err(ContractError::SwapNotFound);
        }
        let i = self.index_of(swap_id);
        if self.swaps[i].record.status != SwapStatus::Disputed {
            return Err(ContractError::NotDisputed);
        }
        let disputed_at = self.swaps[i].record.dispute_timestamp;
        let elapsed: u64 = if now >= disputed_at { now - disputed_at } else { 0 };
        if elapsed < self.config.dispute_timeout_secs {
            return Err(ContractError::NotExpired);
        }
        let token = self.swaps[i].record.token;
        let mut t: Vec<Transfer> = Vec::new();
        t.push(Transfer { token, from: self.contract, to: self.swaps[i].record.buyer, amount: self.swaps[i].record.price });
        self.release_swap_ip(swap_id);
        self.close_with_reason(swap_id, SwapStatus::Cancelled, bytes_of("dispute_timeout"), now);
        Ok((DisputeResolvedEvent { swap_id, refunded: true }, t))
    }

    /// The buyer or seller of disputed swap `swap_id` asks for arbitration;
    /// the first request's time is kept. The requester's authorization is
    /// checked by the host before this call.
    pub fn request_arbitration(&mut self, swap_id: u64, requester: Addr, now: u64) -> (r: Result<(), ContractError>)
        requires
            old(self).wf(),
        ensures
            final(self).wf(),
            r is Err ==> final(self)@ == old(self)@,
            !old(self)@.has_swap(swap_id) ==> r == Err::<(), ContractError>(ContractError::SwapNotFound),
            old(self)@.has_swap(swap_id) ==> {
                let e = old(self)@.swaps[swap_id as int];
                if requester != e.record.buyer && requester != e.record.seller {
                    r == Err::<(), ContractError>(ContractError::Unauthorized)
                } else if e.record.status != SwapStatus::Disputed {
                    r == Err::<(), ContractError>(ContractError::NotDisputed)
                } else {
                    r is Ok && final(self)@ == if e.arbitration_timestamp is Some {
                        old(self)@
                    } else {
                        with_swap(old(self)@, swap_id, SwapEntryView { arbitration_timestamp: Some(now), ..e })
                    }
                }
            },
    {
        if swap_id >= self.swaps.len() as u64 {
            return Err(ContractError::SwapNotFound);
        }
        let i = self.index_of(swap_id);
        if requester != self.swaps[i].record.buyer && requester != self.swaps[i].record.seller {
            return Err(ContractError::Unauthorized);
        }
        if self.swaps[i].record.status != SwapStatus::Disputed {
            return Err(ContractError::NotDisputed);
        }
        if self.swaps[i].arbitration_timestamp.is_none() {
            self.swaps[i].arbitration_timestamp = Some(now);
            proof {
                let e = old(self)@.swaps[i as int];
                let w = SwapEntryView { arbitration_timestamp: Some(now), ..e };
                assert(swap_entries_view(self.swaps@) =~= old(self)@.swaps.update(i as int, w));
                assert(self@ =~= with_swap(old(self)@, swap_id, w));
            }
        }
        Ok(())
    }

    /// Once arbitration has been pending for the arbitration timeout, anyone
    /// may refund the buyer and cancel the swap (reason
    /// "arbitration_timeout").
    pub fn auto_refund_timeout(&mut self, swap_id: u64, now: u64) -> (r: Result<Vec<Transfer>, ContractError>)
        requires
            old(self).wf(),
        ensures
            final(self).wf(),
            r is Err ==> final(self)@ == old(self)@,
            !old(self)@.has_swap(swap_id) ==> r == Err::<Vec<Transfer>, ContractError>(ContractError::SwapNotFound),
            old(self)@.has_swap(swap_id) ==> {
                let s = old(self)@;
                let e = s.swaps[swap_id as int];
                let rec = e.record;
                if rec.status != SwapStatus::Disputed || e.arbitration_timestamp is None {
                    r == Err::<Vec<Transfer>, ContractError>(ContractError::NotDisputed)
                } else if elapsed_since(now, e.arbitration_timestamp.unwrap()) < ARBITRATION_TIMEOUT_SECONDS {
                    r == Err::<Vec<Transfer>, ContractError>(ContractError::ArbitrationNotTimedOut)
                } else {
                    r matches Ok(t) && t@ == price_refund(s, swap_id) && final(self)@ == unlock_ip(
                        with_swap(
                            s,
                            swap_id,
                            SwapEntryView {
                                record: SwapRecordView { status: SwapStatus::Cancelled, ..rec },
                                arbitration_timestamp: None,
                                cancel_reason: Some(arbitration_timeout_reason()),
                                history: e.history.push(
                                    SwapHistoryEntry { status: SwapStatus::Cancelled, timestamp: now },
                                ),
                                ..e
                            },
                        ),
                        rec.ip_id,
                    )
                }
            },
    {
        if swap_id >= self.swaps.len() as u64 {
            return Err(ContractError::SwapNotFound);
        }
        let i = self.index_of(swap_id);
        if self.swaps[i].record.status != SwapStatus::Disputed {
            return Err(ContractError::NotDisputed);
        }
        let requested_at = match self.swaps[i].arbitration_timestamp {
            Some(ts) => ts,
            None => {
                return Err(ContractError::NotDisputed);
            },
        };
        let elapsed: u64 = if now >= requested_at { now - requested_at } else { 0 };
        if elapsed < ARBITRATION_TIMEOUT_SECONDS {
            return Err(ContractError::ArbitrationNotTimedOut);
        }
        let token = self.swaps[i].record.token;
        let mut t: Vec<Transfer> = Vec::new();
        t.push(Transfer { token, from: self.contract, to: self.swaps[i].record.buyer, amount: self.swaps[i].record.price });
        self.release_swap_ip(swap_id);
        let ghost s = self@;
        let reason = bytes_of("arbitration_timeout");
        let ghost rv = reason@;
        self.swaps[i].record.status = SwapStatus::Cancelled;
        self.swaps[i].arbitration_timestamp = None;
        self.swaps[i].cancel_reason = Some(reason);
        self.swaps[i].history.push(SwapHistoryEntry { status: SwapStatus::Cancelled, timestamp: now });
        proof {
            let e = s.swaps[i as int];
            let w = SwapEntryView {
                record: SwapRecordView { status: SwapStatus::Cancelled, ..e.record },
                arbitration_timestamp: None,
                cancel_reason: Some(rv),
                history: e.history.push(SwapHistoryEntry { status: SwapStatus::Cancelled, timestamp: now }),
                ..e
            };
            assert(e.is_consistent());
            assert(swap_entries_view(self.swaps@) =~= s.swaps.update(i as int, w));
            assert(self@ =~= with_swap(s, swap_id, w));
            lemma_close_swap_inv(s, swap_id, w);
        }
        Ok(t)
    }

    /// Decides swap `swap_id`, whatever its status (see
    /// [`arbitration_transfers`] and [`arbitrated_state`]). The arbitrator's
    /// authorization is checked by the host before this call.
    pub fn arbitrate_swap(&mut self, swap_id: u64, refund: bool, now: u64) -> (r: Result<Vec<Transfer>, ContractError>)
        requires
            old(self).wf(),
        ensures
            final(self).wf(),
            !old(self)@.has_swap(swap_id) ==> r == Err::<Vec<Transfer>, ContractError>(ContractError::SwapNotFound)
                && final(self)@ == old(self)@,
            old(self)@.has_swap(swap_id) ==> (r matches Ok(t) && t@ == arbitration_transfers(
                old(self)@,
                swap_id,
                refund,
            ) && final(self)@ == arbitrated_state(old(self)@, swap_id, refund, now)),
    {
        if swap_id >= self.swaps.len() as u64 {
            return Err(ContractError::SwapNotFound);
        }
        Ok(self.apply_arbitration(swap_id, refund, now))
    }

    /// Carries out an arbitrator's decision on swap `swap_id`.
    pub(crate) fn apply_arbitration(&mut self, swap_id: u64, refund: bool, now: u64) -> (t: Vec<Transfer>)
        requires
            old(self).wf(),
            old(self)@.has_swap(swap_id),
        ensures
            final(self).wf(),
            t@ == arbitration_transfers(old(self)@, swap_id, refund),
            final(self)@ == arbitrated_state(old(self)@, swap_id, refund, now),
    {
        let i = self.index_of(swap_id);
        let ghost s = old(self)@;
        let token = self.swaps[i].record.token;
        let price = self.swaps[i].record.price;
        let buyer = self.swaps[i].record.buyer;
        let seller = self.swaps[i].record.seller;
        let held = self.swaps[i].record.collateral_amount > 0;
        let collateral = self.swaps[i].collateral;
        self.release_swap_ip(swap_id);
        let ghost s1 = self@;
        let mut t: Vec<Transfer> = Vec::new();
        let status = if refund {
            t.push(Transfer { token, from: self.contract, to: buyer, amount: price });
            if held {
                match collateral {
                    Some(c) => t.push(Transfer { token, from: self.contract, to: buyer, amount: c }),
                    None => {},
                }
            }
            SwapStatus::Cancelled
        } else {
            if held {
                match collateral {
                    Some(c) => t.push(Transfer { token, from: self.contract, to: seller, amount: c }),
                    None => {},
                }
            }
            let fee: i128 = if price > 0 {
                bps_of(price, self.config.protocol_fee_bps)
            } else {
                0
            };
            t.push(Transfer { token, from: self.contract, to: seller, amount: price - fee });
            if fee > 0 {
                t.push(Transfer { token, from: self.contract, to: self.config.treasury, amount: fee });
            }
            SwapStatus::Completed
        };
        if held {
            self.swaps[i].collateral = None;
        }
        self.swaps[i].record.status = status;
        self.swaps[i].history.push(SwapHistoryEntry { status, timestamp: now });
        proof {
            assert(s.swaps[i as int].is_consistent());
            assert(swap_entries_view(self.swaps@) =~= s.swaps.update(i as int, settled_entry(s, swap_id, status, now)));
            assert(self@ =~= with_swap(s1, swap_id, settled_entry(s, swap_id, status, now)));
            lemma_close_swap_inv(s1, swap_id, settled_entry(s, swap_id, status, now));
            assert(t@ =~= arbitration_transfers(s, swap_id, refund));
        }
        t
    }

    /// The buyer of an insured swap marked claimable is paid the price from
    /// the token's insurance pool, or what the pool holds if less.
    pub fn claim_insurance(&mut self, swap_id: u64) -> (r: Result<Vec<Transfer>, ContractError>)
        requires
            old(self).wf(),
        ensures
            final(self).wf(),
            r is Err ==> final(self)@ == old(self)@,
            !old(self)@.has_swap(swap_id) ==> r == Err::<Vec<Transfer>, ContractError>(ContractError::SwapNotFound),
            old(self)@.has_swap(swap_id) ==> {
                let s = old(self)@;
                let e = s.swaps[swap_id as int];
                let rec = e.record;
                let pool = s.pool_of(rec.token);
                let paid: i128 = if pool >= rec.price { rec.price } else { pool };
                if !rec.insurance_enabled || !e.insurance_claimable {
                    r == Err::<Vec<Transfer>, ContractError>(ContractError::Unauthorized)
                } else {
                    r matches Ok(t) && t@ == insurance_payout(s, swap_id) && final(self)@ == (SwapState {
                        insurance_pools: s.insurance_pools.insert(rec.token.id, (pool - paid) as i128),
                        ..with_swap(s, swap_id, SwapEntryView { insurance_claimable: false, ..e })
                    })
                }
            },
    {
        if swap_id >= self.swaps.len() as u64 {
            return Err(ContractError::SwapNotFound);
        }
        let i = self.index_of(swap_id);
        if !self.swaps[i].record.insurance_enabled || !self.swaps[i].insurance_claimable {
            return Err(ContractError::Unauthorized);
        }
        let ghost s = old(self)@;
        let token = self.swaps[i].record.token;
        let price = self.swaps[i].record.price;
        assert(s.swaps[i as int].is_consistent());
        let pool = self.pool_of(token);
        let paid = if pool >= price { price } else { pool };
        let mut t: Vec<Transfer> = Vec::new();
        t.push(Transfer { token, from: self.contract, to: self.swaps[i].record.buyer, amount: paid });
        self.swaps[i].insurance_claimable = false;
        proof {
            let e = s.swaps[i as int];
            assert(swap_entries_view(self.swaps@) =~= s.swaps.update(
                i as int,
                SwapEntryView { insurance_claimable: false, ..e },
            ));
        }
        self.insurance_pools.insert(token.id, pool - paid);
        proof {
            let e = s.swaps[i as int];
            assert(self@ =~= (SwapState {
                insurance_pools: s.insurance_pools.insert(token.id, (pool - paid) as i128),
                ..with_swap(s, swap_id, SwapEntryView { insurance_claimable: false, ..e })
            }));
        }
        Ok(t)
    }
}

} // verus!
