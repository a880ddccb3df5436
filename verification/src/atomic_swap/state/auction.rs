//! English auctions of an IP, settled as a swap with the highest bidder.
use vstd::prelude::*;
use crate::common::Addr;
use crate::ip_registry::state::IpRegistry;
use crate::atomic_swap::types::{AuctionRecord, ContractError, SwapMode, SwapRecordView, SwapStatus, Transfer};
use super::{AtomicSwap, SwapState, SWAP_LIFETIME_SECONDS};
use super::initiate::{created_state, fresh_swap, ownership_error, pending_record, registry_matches};
use super::settle::{deposit, release, transfer_if};

verus! {

broadcast use vstd::std_specs::hash::group_hash_axioms;

/// The error starting an auction of IP `ip_id` runs into, if any.
pub open spec fn auction_error(s: SwapState, reg: crate::ip_registry::state::RegistryState, ip_id: u64, seller: Addr, min_bid: i128) -> Option<
    ContractError,
> {
    if s.paused {
        Some(ContractError::Paused)
    } else if min_bid <= 0 {
        Some(ContractError::PriceTooSmall)
    } else if ownership_error(s, reg, ip_id, seller) is Some {
        ownership_error(s, reg, ip_id, seller)
    } else if s.active_auctions.contains_key(ip_id) {
        Some(ContractError::SwapExists)
    } else {
        None
    }
}

/// The error a bid of `amount` on auction `id` at `now` runs into, if any.
pub open spec fn bid_error(s: SwapState, id: u64, amount: i128, now: u64) -> Option<ContractError> {
    if !s.has_auction(id) {
        Some(ContractError::SwapNotFound)
    } else {
        let a = s.auctions[id as int];
        if a.finalized {
            Some(ContractError::AlreadyInit)
        } else if now >= a.end_time {
            Some(ContractError::NotExpired)
        } else if amount < a.min_bid || amount <= a.highest_bid {
            Some(ContractError::PriceTooSmall)
        } else {
            None
        }
    }
}

/// The payments of a bid of `amount` by `bidder` on auction `id`: the
/// previous highest bidder, if any, gets their bid back from escrow, and the
/// new bid goes into escrow.
pub open spec fn bid_transfers(s: SwapState, id: u64, bidder: Addr, amount: i128) -> Seq<Transfer> {
    let a = s.auctions[id as int];
    transfer_if(a.highest_bidder is Some, release(s, a.token, a.highest_bidder.unwrap(), a.highest_bid)) + seq![
        deposit(s, a.token, bidder, amount),
    ]
}

/// The swap an auction won by `buyer` becomes: Accepted at `now` for the
/// winning bid, expiring seven days later.
pub open spec fn won_record(a: AuctionRecord, buyer: Addr, now: u64) -> SwapRecordView {
    SwapRecordView {
        status: SwapStatus::Accepted,
        accept_timestamp: now,
        ..pending_record(
            a.ip_id,
            a.seller,
            buyer,
            a.highest_bid,
            a.token,
            (now + SWAP_LIFETIME_SECONDS) as u64,
            0,
            None,
            0,
            false,
            false,
        )
    }
}

impl AtomicSwap {
    /// The seller auctions IP `ip_id` from `now` for `duration_seconds`,
    /// starting at `min_bid`; one auction per IP at a time. Returns the
    /// auction id (ids start at 0). The seller's authorization is checked
    /// by the host before this call.
    pub fn start_ip_auction(
        &mut self,
        registry: &IpRegistry,
        token: Addr,
        ip_id: u64,
        seller: Addr,
        min_bid: i128,
        duration_seconds: u64,
        now: u64,
    ) -> (r: Result<u64, ContractError>)
        requires
            old(self).wf(),
            registry.wf(),
            registry_matches(old(self)@, registry@),
            auction_error(old(self)@, registry@, ip_id, seller, min_bid) is None ==> {
                &&& old(self)@.auctions.len() < u64::MAX
                &&& now + duration_seconds <= u64::MAX
            },
        ensures
            final(self).wf(),
            match auction_error(old(self)@, registry@, ip_id, seller, min_bid) {
                Some(e) => r == Err::<u64, ContractError>(e) && final(self)@ == old(self)@,
                None => r == Ok::<u64, ContractError>(old(self)@.auctions.len() as u64) && final(self)@ == (SwapState {
                    auctions: old(self)@.auctions.push(
                        AuctionRecord {
                            auction_id: old(self)@.auctions.len() as u64,
                            ip_id,
                            seller,
                            token,
                            min_bid,
                            highest_bid: 0,
                            highest_bidder: None,
                            start_time: now,
                            end_time: (now + duration_seconds) as u64,
                            finalized: false,
                        },
                    ),
                    active_auctions: old(self)@.active_auctions.insert(ip_id, old(self)@.auctions.len() as u64),
                    ..old(self)@
                }),
            },
    {
        if self.paused {
            return Err(ContractError::Paused);
        }
        if min_bid <= 0 {
            return Err(ContractError::PriceTooSmall);
        }
        match self.check_ownership(registry, ip_id, seller) {
            Err(e) => {
                return Err(e);
            },
            Ok(()) => {},
        }
        if self.active_auctions.contains_key(&ip_id) {
            return Err(ContractError::SwapExists);
        }
        let auction_id = self.auctions.len() as u64;
        let a = AuctionRecord {
            auction_id,
            ip_id,
            seller,
            token,
            min_bid,
            highest_bid: 0,
            highest_bidder: None,
            start_time: now,
            end_time: now + duration_seconds,
            finalized: false,
        };
        self.auctions.push(a);
        self.active_auctions.insert(ip_id, auction_id);
        assert(self@ =~= (SwapState {
            auctions: old(self)@.auctions.push(a),
            active_auctions: old(self)@.active_auctions.insert(ip_id, auction_id),
            ..old(self)@
        }));
        Ok(auction_id)
    }

    /// `bidder` bids `bid_amount` on auction `auction_id` at `now`; the bid
    /// must reach the minimum and beat the highest bid. The previous highest
    /// bidder is refunded. The bidder's authorization is checked by the host
    /// before this call.
    pub fn place_bid(&mut self, auction_id: u64, bidder: Addr, bid_amount: i128, now: u64) -> (r: Result<
        Vec<Transfer>,
        ContractError,
    >)
        requires
            old(self).wf(),
        ensures
            final(self).wf(),
            match bid_error(old(self)@, auction_id, bid_amount, now) {
                Some(e) => r == Err::<Vec<Transfer>, ContractError>(e) && final(self)@ == old(self)@,
                None => {
                    let s = old(self)@;
                    let a = s.auctions[auction_id as int];
                    r matches Ok(t) && t@ == bid_transfers(s, auction_id, bidder, bid_amount) && final(self)@ == (SwapState {
                        auctions: s.auctions.update(
                            auction_id as int,
                            AuctionRecord { highest_bid: bid_amount, highest_bidder: Some(bidder), ..a },
                        ),
                        ..s
                    })
                },
            },
    {
        if auction_id >= self.auctions.len() as u64 {
            return Err(ContractError::SwapNotFound);
        }
        let n = self.auctions.len();
        assert(auction_id < n);
        let k = auction_id as usize;
        let mut a = self.auctions[k];
        if a.finalized {
            return Err(ContractError::AlreadyInit);
        }
        if now >= a.end_time {
            return Err(ContractError::NotExpired);
        }
        if bid_amount < a.min_bid || bid_amount <= a.highest_bid {
            return Err(ContractError::PriceTooSmall);
        }
        let mut t: Vec<Transfer> = Vec::new();
        match a.highest_bidder {
            Some(prev) => t.push(Transfer { token: a.token, from: self.contract, to: prev, amount: a.highest_bid }),
            None => {},
        }
        t.push(Transfer { token: a.token, from: bidder, to: self.contract, amount: bid_amount });
        a.highest_bid = bid_amount;
        a.highest_bidder = Some(bidder);
        self.auctions.set(k, a);
        assert(self@ =~= (SwapState { auctions: old(self)@.auctions.update(auction_id as int, a), ..old(self)@ }));
        proof {
            let s0 = old(self)@;
            let s1 = self@;
            assert(s0.inv());
            assert(s1.auctions.len() == s0.auctions.len());
            assert forall|j: int| 0 <= j < s1.auctions.len() implies #[trigger] s1.auctions[j].auction_id == j
                && s1.auctions[j].bids_ok() by {
                assert(s0.auctions[j].auction_id == j && s0.auctions[j].bids_ok());
                if j != k as int {
                    assert(s0.auctions[j] == s1.auctions[j]);
                }
            }
            assert(s1.config == s0.config);
        }
        Ok(t)
    }

    /// Closes auction `auction_id` once it has ended (`now` not before its
    /// end) and releases the IP's auction slot. With a highest bidder, an
    /// Accepted swap for the winning bid is created and its id returned; it
    /// takes the IP's lock unless another swap already holds it.
    pub fn finalize_auction(&mut self, auction_id: u64, now: u64) -> (r: Result<Option<u64>, ContractError>)
        requires
            old(self).wf(),
            old(self)@.has_auction(auction_id) && old(self)@.auctions[auction_id as int].highest_bidder is Some
                ==> old(self)@.swaps.len() < u64::MAX && now + SWAP_LIFETIME_SECONDS <= u64::MAX,
        ensures
            final(self).wf(),
            r is Err ==> final(self)@ == old(self)@,
            !old(self)@.has_auction(auction_id) ==> r == Err::<Option<u64>, ContractError>(
                ContractError::SwapNotFound,
            ),
            old(self)@.has_auction(auction_id) ==> {
                let s = old(self)@;
                let a = s.auctions[auction_id as int];
                let closed = SwapState {
                    auctions: s.auctions.update(auction_id as int, AuctionRecord { finalized: true, ..a }),
                    active_auctions: s.active_auctions.remove(a.ip_id),
                    ..s
                };
                if a.finalized {
                    r == Err::<Option<u64>, ContractError>(ContractError::AlreadyInit)
                } else if now < a.end_time {
                    r == Err::<Option<u64>, ContractError>(ContractError::NotExpired)
                } else {
                    match a.highest_bidder {
                        None => r == Ok::<Option<u64>, ContractError>(None) && final(self)@ == closed,
                        Some(buyer) => r == Ok::<Option<u64>, ContractError>(Some(s.swaps.len() as u64))
                            && final(self)@ == created_state(
                            closed,
                            fresh_swap(won_record(a, buyer, now), SwapMode::Atomic, None, None, now),
                            !s.active_swaps.contains_key(a.ip_id),
                            true,
                        ),
                    }
                }
            },
    {
        if auction_id >= self.auctions.len() as u64 {
            return Err(ContractError::SwapNotFound);
        }
        let n = self.auctions.len();
        assert(auction_id < n);
        let k = auction_id as usize;
        let mut a = self.auctions[k];
        if a.finalized {
            return Err(ContractError::AlreadyInit);
        }
        if now < a.end_time {
            return Err(ContractError::NotExpired);
        }
        let lock = !self.active_swaps.contains_key(&a.ip_id);
        a.finalized = true;
        self.auctions.set(k, a);
        self.active_auctions.remove(&a.ip_id);
        proof {
            let a0 = old(self)@.auctions[auction_id as int];
            assert(self@ =~= (SwapState {
                auctions: old(self)@.auctions.update(auction_id as int, AuctionRecord { finalized: true, ..a0 }),
                active_auctions: old(self)@.active_auctions.remove(a0.ip_id),
                ..old(self)@
            }));
        }
        match a.highest_bidder {
            None => Ok(None),
            Some(buyer) => {
                let mut rec = Self::pending(
                    a.ip_id,
                    a.seller,
                    buyer,
                    a.highest_bid,
                    a.token,
                    now + SWAP_LIFETIME_SECONDS,
                    0,
                    None,
                    0,
                    false,
                    false,
                );
                rec.status = SwapStatus::Accepted;
                rec.accept_timestamp = now;
                assert(rec@ == won_record(old(self)@.auctions[auction_id as int], buyer, now));
                let entry = Self::new_entry(rec, SwapMode::Atomic, None, None, now);
                Ok(Some(self.create_swap(entry, lock, true)))
            },
        }
    }

    /// Auction `auction_id`.
    pub fn get_auction(&self, auction_id: u64) -> (r: Result<AuctionRecord, ContractError>)
        requires
            self.wf(),
        ensures
            match r {
                Ok(a) => self@.has_auction(auction_id) && a == self@.auctions[auction_id as int],
                Err(e) => !self@.has_auction(auction_id) && e == ContractError::SwapNotFound,
            },
    {
        if auction_id >= self.auctions.len() as u64 {
            return Err(ContractError::SwapNotFound);
        }
        let n = self.auctions.len();
        assert(auction_id < n);
        Ok(self.auctions[auction_id as usize])
    }
}

} // verus!
