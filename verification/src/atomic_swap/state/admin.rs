//! Administration, the price oracle, and read access.
use vstd::prelude::*;
use crate::common::{Addr, copy_vec};
use crate::ip_registry::state::IpRegistry;
use crate::atomic_swap::types::{
    ContractError, OracleConfig, OraclePriceUsedEvent, ProtocolConfig, SwapHistoryEntry, SwapMode, SwapRecord, SwapRecordView,
};
use super::{AtomicSwap, SwapState, ARBITRATION_TIMEOUT_SECONDS, SWAP_LIFETIME_SECONDS, id_lists, listed};
use super::initiate::{admin_after_initiation, created_state, fresh_swap, listing_error, pending_record, registry_matches};
use super::disputes::admin_error;

verus! {

broadcast use vstd::std_specs::hash::group_hash_axioms;

/// The error a price from the oracle runs into against optional bounds
/// (zero means no bound).
pub open spec fn price_bounds_error(price: i128, min_price: i128, max_price: i128) -> Option<ContractError> {
    if min_price > 0 && price < min_price {
        Some(ContractError::OraclePriceBelowMin)
    } else if max_price > 0 && price > max_price {
        Some(ContractError::OraclePriceAboveMax)
    } else {
        None
    }
}

/// Checks `price` against optional bounds `min_price` and `max_price`; a
/// bound of zero is no bound.
pub fn validate_price_bounds(price: i128, min_price: i128, max_price: i128) -> (r: Result<(), ContractError>)
    ensures
        match price_bounds_error(price, min_price, max_price) {
            Some(e) => r == Err::<(), ContractError>(e),
            None => r is Ok,
        },
{
    if min_price > 0 && price < min_price {
        return Err(ContractError::OraclePriceBelowMin);
    }
    if max_price > 0 && price > max_price {
        return Err(ContractError::OraclePriceAboveMax);
    }
    Ok(())
}

/// The error reading a price from the oracle runs into: no enabled oracle,
/// or a quote that is not positive.
pub open spec fn oracle_error(s: SwapState, quoted: i128) -> Option<ContractError> {
    if s.oracle is None || !s.oracle.unwrap().enabled {
        Some(ContractError::OracleNotConfigured)
    } else if quoted <= 0 {
        Some(ContractError::OraclePriceInvalid)
    } else {
        None
    }
}

impl AtomicSwap {
    /// The admin, if one is set.
    pub fn admin(&self) -> (r: Option<Addr>)
        requires
            self.wf(),
        ensures
            r == self@.admin,
    {
        self.admin
    }

    /// The admin points the marketplace at a price oracle (or disables it).
    /// The caller's authorization is checked by the host before this call.
    pub fn set_oracle(&mut self, caller: Addr, oracle_address: Addr, enabled: bool) -> (r: Result<(), ContractError>)
        requires
            old(self).wf(),
        ensures
            final(self).wf(),
            match admin_error(old(self)@, caller) {
                Some(e) => r == Err::<(), ContractError>(e) && final(self)@ == old(self)@,
                None => r is Ok && final(self)@ == (SwapState {
                    oracle: Some(OracleConfig { oracle_address, enabled }),
                    ..old(self)@
                }),
            },
    {
        match self.check_admin(caller) {
            Err(e) => {
                return Err(e);
            },
            Ok(()) => {},
        }
        self.oracle = Some(OracleConfig { oracle_address, enabled });
        assert(self@ =~= (SwapState { oracle: Some(OracleConfig { oracle_address, enabled }), ..old(self)@ }));
        Ok(())
    }

    /// The oracle configuration, if set.
    pub fn get_oracle_config(&self) -> (r: Option<OracleConfig>)
        requires
            self.wf(),
        ensures
            r == self@.oracle,
    {
        self.oracle
    }

    /// The oracle the host asks for a price; `OracleNotConfigured` when none
    /// is set or it is disabled.
    pub fn oracle_source(&self) -> (r: Result<Addr, ContractError>)
        requires
            self.wf(),
        ensures
            match r {
                Ok(a) => self@.oracle is Some && self@.oracle.unwrap().enabled && a == self@.oracle.unwrap().oracle_address,
                Err(e) => (self@.oracle is None || !self@.oracle.unwrap().enabled) && e
                    == ContractError::OracleNotConfigured,
            },
    {
        match self.oracle {
            Some(c) => if c.enabled {
                Ok(c.oracle_address)
            } else {
                Err(ContractError::OracleNotConfigured)
            },
            None => Err(ContractError::OracleNotConfigured),
        }
    }

    /// Accepts `quoted`, the price the configured oracle returned, when an
    /// oracle is enabled and the price is positive (see [`oracle_error`]).
    pub fn get_oracle_price(&self, quoted: i128) -> (r: Result<i128, ContractError>)
        requires
            self.wf(),
        ensures
            match oracle_error(self@, quoted) {
                Some(e) => r == Err::<i128, ContractError>(e),
                None => r == Ok::<i128, ContractError>(quoted),
            },
    {
        match self.oracle_source() {
            Err(e) => {
                return Err(e);
            },
            Ok(_) => {},
        }
        if quoted <= 0 {
            return Err(ContractError::OraclePriceInvalid);
        }
        Ok(quoted)
    }

    /// Lists IP `ip_id` at `oracle_price`, the price the configured oracle
    /// quoted for `token`, when it lies within the optional bounds; then as
    /// [`AtomicSwap::initiate_swap`]. Returns the swap id and the event
    /// recording the price used.
    pub fn initiate_swap_with_oracle_price(
        &mut self,
        registry: &IpRegistry,
        token: Addr,
        ip_id: u64,
        seller: Addr,
        buyer: Addr,
        required_approvals: u32,
        referrer: Option<Addr>,
        collateral_amount: i128,
        insurance_enabled: bool,
        min_price: i128,
        max_price: i128,
        oracle_price: i128,
        now: u64,
    ) -> (r: Result<(u64, OraclePriceUsedEvent), ContractError>)
        requires
            old(self).wf(),
            registry.wf(),
            registry_matches(old(self)@, registry@),
            !old(self)@.paused && listing_error(old(self)@, registry@, ip_id, seller, oracle_price) is None ==> {
                &&& old(self)@.swaps.len() < u64::MAX
                &&& now + SWAP_LIFETIME_SECONDS <= u64::MAX
                &&& insurance_enabled ==> oracle_price * 2 <= i128::MAX
            },
        ensures
            final(self).wf(),
            r is Err ==> final(self)@ == old(self)@,
            oracle_error(old(self)@, oracle_price) is Some ==> r == Err::<(u64, OraclePriceUsedEvent), ContractError>(
                oracle_error(old(self)@, oracle_price).unwrap(),
            ),
            oracle_error(old(self)@, oracle_price) is None ==> match price_bounds_error(
                oracle_price,
                min_price,
                max_price,
            ) {
                Some(e) => r == Err::<(u64, OraclePriceUsedEvent), ContractError>(e),
                None => if old(self)@.paused {
                    r == Err::<(u64, OraclePriceUsedEvent), ContractError>(ContractError::Paused)
                } else {
                    match listing_error(old(self)@, registry@, ip_id, seller, oracle_price) {
                        Some(e) => r == Err::<(u64, OraclePriceUsedEvent), ContractError>(e),
                        None => r == Ok::<(u64, OraclePriceUsedEvent), ContractError>(
                            (
                                old(self)@.swaps.len() as u64,
                                OraclePriceUsedEvent { swap_id: old(self)@.swaps.len() as u64, oracle_price },
                            ),
                        ) && final(self)@ == created_state(
                            SwapState { admin: admin_after_initiation(old(self)@, seller), ..old(self)@ },
                            fresh_swap(
                                pending_record(
                                    ip_id,
                                    seller,
                                    buyer,
                                    oracle_price,
                                    token,
                                    (now + SWAP_LIFETIME_SECONDS) as u64,
                                    required_approvals,
                                    referrer,
                                    collateral_amount,
                                    insurance_enabled,
                                    false,
                                ),
                                SwapMode::Atomic,
                                None,
                                None,
                                now,
                            ),
                            true,
                            true,
                        ),
                    }
                },
            },
    {
        let price = match self.get_oracle_price(oracle_price) {
            Err(e) => {
                return Err(e);
            },
            Ok(p) => p,
        };
        match validate_price_bounds(price, min_price, max_price) {
            Err(e) => {
                return Err(e);
            },
            Ok(()) => {},
        }
        match self.initiate_swap(
            registry,
            token,
            ip_id,
            seller,
            price,
            buyer,
            required_approvals,
            referrer,
            collateral_amount,
            insurance_enabled,
            now,
        ) {
            Err(e) => Err(e),
            Ok(swap_id) => Ok((swap_id, OraclePriceUsedEvent { swap_id, oracle_price: price })),
        }
    }

    /// Checks that an upgrade is possible: an admin must be set
    /// (`UnauthorizedUpg` otherwise). Returns the admin, whose authorization
    /// the host checks before replacing the WASM.
    pub fn upgrade(&self) -> (r: Result<Addr, ContractError>)
        requires
            self.wf(),
        ensures
            match self@.admin {
                Some(a) => r == Ok::<Addr, ContractError>(a),
                None => r == Err::<Addr, ContractError>(ContractError::UnauthorizedUpg),
            },
    {
        match self.admin {
            Some(a) => Ok(a),
            None => Err(ContractError::UnauthorizedUpg),
        }
    }

    /// The admin replaces the protocol configuration: fee rates (each at
    /// most 10 000 basis points, `InvalidFeeBps` otherwise), treasury and
    /// dispute time limits; the arbitration timeout stays fourteen days.
    /// The call must come from the admin, which the contract itself becomes
    /// when none is set (`UnauthorizedUpg` when another admin is set). The
    /// contract's authorization is checked by the host before this call.
    pub fn admin_set_protocol_config(
        &mut self,
        protocol_fee_bps: u32,
        treasury: Addr,
        dispute_window_seconds: u64,
        dispute_timeout_secs: u64,
        referral_fee_bps: u32,
    ) -> (r: Result<(), ContractError>)
        requires
            old(self).wf(),
        ensures
            final(self).wf(),
            r is Err ==> final(self)@ == old(self)@,
            protocol_fee_bps > 10_000 || referral_fee_bps > 10_000 ==> r == Err::<(), ContractError>(
                ContractError::InvalidFeeBps,
            ),
            protocol_fee_bps <= 10_000 && referral_fee_bps <= 10_000 ==> {
                let updated = SwapState {
                    admin: Some(old(self)@.contract),
                    config: ProtocolConfig {
                        protocol_fee_bps,
                        treasury,
                        dispute_window_seconds,
                        dispute_timeout_secs,
                        referral_fee_bps,
                        arbitration_timeout_seconds: ARBITRATION_TIMEOUT_SECONDS,
                    },
                    ..old(self)@
                };
                match old(self)@.admin {
                    None => r is Ok && final(self)@ == updated,
                    Some(a) => if a == old(self)@.contract {
                        r is Ok && final(self)@ == updated
                    } else {
                        r == Err::<(), ContractError>(ContractError::UnauthorizedUpg)
                    },
                }
            },
    {
        if protocol_fee_bps > 10_000 || referral_fee_bps > 10_000 {
            return Err(ContractError::InvalidFeeBps);
        }
        match self.admin {
            None => {},
            Some(a) => if a != self.contract {
                return Err(ContractError::UnauthorizedUpg);
            },
        }
        self.admin = Some(self.contract);
        self.config = ProtocolConfig {
            protocol_fee_bps,
            treasury,
            dispute_window_seconds,
            dispute_timeout_secs,
            referral_fee_bps,
            arbitration_timeout_seconds: ARBITRATION_TIMEOUT_SECONDS,
        };
        Ok(())
    }

    /// Sets the admin to `new_admin`; once an admin is set only it may be
    /// named again (`Unauthorized`). The new admin's authorization is
    /// checked by the host before this call.
    pub fn set_admin(&mut self, new_admin: Addr) -> (r: Result<(), ContractError>)
        requires
            old(self).wf(),
        ensures
            final(self).wf(),
            old(self)@.admin is Some && old(self)@.admin != Some(new_admin) ==> r == Err::<(), ContractError>(
                ContractError::Unauthorized,
            ) && final(self)@ == old(self)@,
            !(old(self)@.admin is Some && old(self)@.admin != Some(new_admin)) ==> r is Ok && final(self)@ == (SwapState {
                admin: Some(new_admin),
                ..old(self)@
            }),
    {
        match self.admin {
            Some(a) => if a != new_admin {
                return Err(ContractError::Unauthorized);
            },
            None => {},
        }
        self.admin = Some(new_admin);
        assert(self@ =~= (SwapState { admin: Some(new_admin), ..old(self)@ }));
        Ok(())
    }

    /// The admin pauses (`true`) or resumes (`false`) new listings and
    /// acceptances.
    fn set_paused(&mut self, caller: Addr, paused: bool) -> (r: Result<(), ContractError>)
        requires
            old(self).wf(),
        ensures
            final(self).wf(),
            match admin_error(old(self)@, caller) {
                Some(e) => r == Err::<(), ContractError>(e) && final(self)@ == old(self)@,
                None => r is Ok && final(self)@ == (SwapState { paused, ..old(self)@ }),
            },
    {
        match self.check_admin(caller) {
            Err(e) => {
                return Err(e);
            },
            Ok(()) => {},
        }
        self.paused = paused;
        assert(self@ =~= (SwapState { paused, ..old(self)@ }));
        Ok(())
    }

    /// The admin pauses new listings and acceptances. The caller's
    /// authorization is checked by the host before this call.
    pub fn pause(&mut self, caller: Addr) -> (r: Result<(), ContractError>)
        requires
            old(self).wf(),
        ensures
            final(self).wf(),
            match admin_error(old(self)@, caller) {
                Some(e) => r == Err::<(), ContractError>(e) && final(self)@ == old(self)@,
                None => r is Ok && final(self)@ == (SwapState { paused: true, ..old(self)@ }),
            },
    {
        self.set_paused(caller, true)
    }

    /// The admin resumes new listings and acceptances. The caller's
    /// authorization is checked by the host before this call.
    pub fn unpause(&mut self, caller: Addr) -> (r: Result<(), ContractError>)
        requires
            old(self).wf(),
        ensures
            final(self).wf(),
            match admin_error(old(self)@, caller) {
                Some(e) => r == Err::<(), ContractError>(e) && final(self)@ == old(self)@,
                None => r is Ok && final(self)@ == (SwapState { paused: false, ..old(self)@ }),
            },
    {
        self.set_paused(caller, false)
    }

    /// The swaps `seller` initiated, if any.
    pub fn get_swaps_by_seller(&self, seller: Addr) -> (r: Option<Vec<u64>>)
        requires
            self.wf(),
        ensures
            match r {
                Some(v) => self@.seller_swaps.contains_key(seller.id) && v@ == self@.seller_swaps[seller.id],
                None => !self@.seller_swaps.contains_key(seller.id),
            },
    {
        Self::ids_under(&self.seller_swaps, seller.id)
    }

    /// The swaps `buyer` is the buyer of, if any.
    pub fn get_swaps_by_buyer(&self, buyer: Addr) -> (r: Option<Vec<u64>>)
        requires
            self.wf(),
        ensures
            match r {
                Some(v) => self@.buyer_swaps.contains_key(buyer.id) && v@ == self@.buyer_swaps[buyer.id],
                None => !self@.buyer_swaps.contains_key(buyer.id),
            },
    {
        Self::ids_under(&self.buyer_swaps, buyer.id)
    }

    /// The swaps listed for IP `ip_id`, if any.
    pub fn get_swaps_by_ip(&self, ip_id: u64) -> (r: Option<Vec<u64>>)
        requires
            self.wf(),
        ensures
            match r {
                Some(v) => self@.ip_swaps.contains_key(ip_id) && v@ == self@.ip_swaps[ip_id],
                None => !self@.ip_swaps.contains_key(ip_id),
            },
    {
        Self::ids_under(&self.ip_swaps, ip_id)
    }

    /// The record of swap `swap_id`, if it exists.
    pub fn get_swap(&self, swap_id: u64) -> (r: Option<SwapRecord>)
        requires
            self.wf(),
        ensures
            match r {
                Some(rec) => self@.has_swap(swap_id) && rec@ == self@.record(swap_id),
                None => !self@.has_swap(swap_id),
            },
    {
        if swap_id >= self.swaps.len() as u64 {
            return None;
        }
        let i = self.index_of(swap_id);
        Some(self.swaps[i].record.copy())
    }

    /// Why swap `swap_id` was cancelled, when a reason was recorded.
    pub fn get_cancellation_reason(&self, swap_id: u64) -> (r: Option<Vec<u8>>)
        requires
            self.wf(),
        ensures
            match r {
                Some(v) => self@.has_swap(swap_id) && self@.swaps[swap_id as int].cancel_reason == Some(v@),
                None => !self@.has_swap(swap_id) || self@.swaps[swap_id as int].cancel_reason is None,
            },
    {
        if swap_id >= self.swaps.len() as u64 {
            return None;
        }
        let i = self.index_of(swap_id);
        match &self.swaps[i].cancel_reason {
            Some(v) => Some(copy_vec(v)),
            None => None,
        }
    }

    /// How many swaps were created; the next one gets this id.
    pub fn swap_count(&self) -> (r: u64)
        requires
            self.wf(),
        ensures
            r == self@.swaps.len(),
    {
        self.swaps.len() as u64
    }

    /// The status history of swap `swap_id`, oldest first (empty if none).
    pub fn get_swap_history(&self, swap_id: u64) -> (r: Vec<SwapHistoryEntry>)
        requires
            self.wf(),
        ensures
            r@ == if self@.has_swap(swap_id) { self@.swaps[swap_id as int].history } else { Seq::empty() },
    {
        if swap_id >= self.swaps.len() as u64 {
            return Vec::new();
        }
        let i = self.index_of(swap_id);
        copy_vec(&self.swaps[i].history)
    }
}

} // verus!
