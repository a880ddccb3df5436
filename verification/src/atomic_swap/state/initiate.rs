//! Creating swaps.
use vstd::prelude::*;
use crate::common::Addr;
use crate::ip_registry::state::{IpRegistry, RegistryState};
use crate::atomic_swap::types::{
    ContractError, PaymentSchedule, SwapCondition, SwapHistoryEntry, SwapMode, SwapRecord, SwapRecordView,
    SwapStatus,
};
use super::{AtomicSwap, SwapEntry, opt_view, SwapEntryView, SwapState, SWAP_LIFETIME_SECONDS, listed, swap_entries_view, id_lists};

verus! {

broadcast use vstd::std_specs::hash::group_hash_axioms;

/// The error a seller's claim on IP `ip_id` runs into, checked against the
/// registry: a missing IP is reported with code 1 (the registry's
/// `IpNotFound`), which this enum names `SwapNotFound`.
pub open spec fn ownership_error(s: SwapState, reg: RegistryState, ip_id: u64, seller: Addr) -> Option<
    ContractError,
> {
    if s.registry is None {
        Some(ContractError::NotInitialized)
    } else if !reg.has_ip(ip_id) {
        Some(ContractError::SwapNotFound)
    } else if reg.record(ip_id).owner != seller {
        Some(ContractError::NotIPOwner)
    } else if reg.record(ip_id).revoked {
        Some(ContractError::IpRevoked)
    } else {
        None
    }
}

/// The error creating a swap of IP `ip_id` at `price` runs into, if any.
pub open spec fn listing_error(s: SwapState, reg: RegistryState, ip_id: u64, seller: Addr, price: i128) -> Option<
    ContractError,
> {
    if price <= 0 {
        Some(ContractError::PriceTooSmall)
    } else if ownership_error(s, reg, ip_id, seller) is Some {
        ownership_error(s, reg, ip_id, seller)
    } else if s.active_swaps.contains_key(ip_id) {
        Some(ContractError::SwapExists)
    } else {
        None
    }
}

/// A pending swap record as the initiation entry points create it.
pub open spec fn pending_record(
    ip_id: u64,
    seller: Addr,
    buyer: Addr,
    price: i128,
    token: Addr,
    expiry: u64,
    required_approvals: u32,
    referrer: Option<Addr>,
    collateral_amount: i128,
    insurance_enabled: bool,
    is_installment: bool,
) -> SwapRecordView {
    SwapRecordView {
        ip_id,
        seller,
        buyer,
        price,
        token,
        status: SwapStatus::Pending,
        expiry,
        accept_timestamp: 0,
        required_approvals,
        dispute_timestamp: 0,
        referrer,
        collateral_amount,
        insurance_premium: if insurance_enabled { (price * 2 / 100) as i128 } else { 0 },
        insurance_enabled,
        escrow_agent: None,
        quantity: 1,
        conditions: Seq::empty(),
        paid_amount: 0,
        is_installment,
    }
}

/// The entry of a new swap whose history starts with its status at `now`.
pub open spec fn fresh_swap(
    rec: SwapRecordView,
    mode: SwapMode,
    signers: Option<Seq<Addr>>,
    schedule: Option<Seq<PaymentSchedule>>,
    now: u64,
) -> SwapEntryView {
    SwapEntryView {
        record: rec,
        mode,
        history: seq![SwapHistoryEntry { status: rec.status, timestamp: now }],
        approvals: Seq::empty(),
        cancel_reason: None,
        collateral: None,
        insurance_claimable: false,
        renegotiation: None,
        escrow_deposit: None,
        min_reputation: None,
        arbitration_timestamp: None,
        signers,
        signatures: Seq::empty(),
        completion_timestamp: None,
        schedule,
        payments_made: match schedule {
            Some(p) => Seq::new(p.len(), |k: int| false),
            None => Seq::empty(),
        },
    }
}

/// The state after swap `e` is stored with the next id: it is listed for
/// its seller and buyer, locks its IP when `lock`, and is listed for its IP
/// when `index_ip`.
pub open spec fn created_state(s: SwapState, e: SwapEntryView, lock: bool, index_ip: bool) -> SwapState {
    let id = s.swaps.len() as u64;
    let rec = e.record;
    SwapState {
        swaps: s.swaps.push(e),
        active_swaps: if lock { s.active_swaps.insert(rec.ip_id, id) } else { s.active_swaps },
        seller_swaps: s.seller_swaps.insert(rec.seller.id, listed(s.seller_swaps, rec.seller.id).push(id)),
        buyer_swaps: s.buyer_swaps.insert(rec.buyer.id, listed(s.buyer_swaps, rec.buyer.id).push(id)),
        ip_swaps: if index_ip {
            s.ip_swaps.insert(rec.ip_id, listed(s.ip_swaps, rec.ip_id).push(id))
        } else {
            s.ip_swaps
        },
        ..s
    }
}

/// The admin after a swap is initiated by `seller`: the seller unless one is set.
pub open spec fn admin_after_initiation(s: SwapState, seller: Addr) -> Option<Addr> {
    match s.admin {
        Some(a) => Some(a),
        None => Some(seller),
    }
}

/// Whether a registry is the one a marketplace was initialized with.
pub open spec fn registry_matches(s: SwapState, reg: RegistryState) -> bool {
    s.registry is Some ==> reg.contract == s.registry.unwrap()
}

/// Appends `id` to the list of `key` in one of the swap indexes.
fn append_id(m: &mut std::collections::HashMap<u64, Vec<u64>>, key: u64, id: u64)
    ensures
        id_lists(final(m)@) == id_lists(old(m)@).insert(key, listed(id_lists(old(m)@), key).push(id)),
{
    let mut ids = match AtomicSwap::ids_under(m, key) {
        Some(v) => v,
        None => Vec::new(),
    };
    ids.push(id);
    m.insert(key, ids);
    assert(id_lists(m@) =~= id_lists(old(m)@).insert(key, listed(id_lists(old(m)@), key).push(id)));
}

impl AtomicSwap {
    /// Checks `seller`'s claim on IP `ip_id` against the registry.
    pub(crate) fn check_ownership(&self, registry: &IpRegistry, ip_id: u64, seller: Addr) -> (r: Result<
        (),
        ContractError,
    >)
        requires
            self.wf(),
            registry.wf(),
        ensures
            match ownership_error(self@, registry@, ip_id, seller) {
                Some(e) => r == Err::<(), ContractError>(e),
                None => r is Ok,
            },
    {
        if self.registry.is_none() {
            return Err(ContractError::NotInitialized);
        }
        match registry.get_ip(ip_id) {
            Err(_) => Err(ContractError::SwapNotFound),
            Ok(rec) => {
                if rec.owner != seller {
                    Err(ContractError::NotIPOwner)
                } else if rec.revoked {
                    Err(ContractError::IpRevoked)
                } else {
                    Ok(())
                }
            },
        }
    }

    /// Checks that a swap of IP `ip_id` at `price` may be created.
    pub(crate) fn check_listing(&self, registry: &IpRegistry, ip_id: u64, seller: Addr, price: i128) -> (r: Result<
        (),
        ContractError,
    >)
        requires
            self.wf(),
            registry.wf(),
        ensures
            match listing_error(self@, registry@, ip_id, seller, price) {
                Some(e) => r == Err::<(), ContractError>(e),
                None => r is Ok,
            },
    {
        if price <= 0 {
            return Err(ContractError::PriceTooSmall);
        }
        match self.check_ownership(registry, ip_id, seller) {
            Err(e) => {
                return Err(e);
            },
            Ok(()) => {},
        }
        if self.active_swaps.contains_key(&ip_id) {
            return Err(ContractError::SwapExists);
        }
        Ok(())
    }

    /// Stores a new swap with the next id (see [`created_state`]).
    pub(crate) fn create_swap(&mut self, entry: SwapEntry, lock: bool, index_ip: bool) -> (id: u64)
        requires
            old(self).wf(),
            old(self)@.swaps.len() < u64::MAX,
            entry@.is_consistent(),
            lock ==> entry@.record.status.is_open(),
            lock ==> !old(self)@.active_swaps.contains_key(entry@.record.ip_id),
        ensures
            final(self).wf(),
            id == old(self)@.swaps.len(),
            final(self)@ == created_state(old(self)@, entry@, lock, index_ip),
    {
        let id = self.swaps.len() as u64;
        let ip_id = entry.record.ip_id;
        let seller = entry.record.seller;
        let buyer = entry.record.buyer;
        let ghost e = entry@;
        self.swaps.push(entry);
        if lock {
            self.active_swaps.insert(ip_id, id);
        }
        append_id(&mut self.seller_swaps, seller.id, id);
        append_id(&mut self.buyer_swaps, buyer.id, id);
        if index_ip {
            append_id(&mut self.ip_swaps, ip_id, id);
        }
        assert(swap_entries_view(self.swaps@) =~= old(self)@.swaps.push(e));
        assert(self@ =~= created_state(old(self)@, e, lock, index_ip));
        proof {
            let s0 = old(self)@;
            let s1 = self@;
            assert forall|k: u64| #[trigger] s1.active_swaps.contains_key(k) implies s1.active_swaps[k] < s1.swaps.len()
                && s1.swaps[s1.active_swaps[k] as int].record.ip_id == k
                && s1.swaps[s1.active_swaps[k] as int].record.status.is_open() by {
                if !(lock && k == ip_id) {
                    assert(s0.active_swaps.contains_key(k));
                }
            }
            assert forall|o: u64, k: int| s1.seller_swaps.contains_key(o) && 0 <= k < s1.seller_swaps[o].len() implies s1.sells(
                o,
                #[trigger] s1.seller_swaps[o][k],
            ) by {
                if !(o == seller.id && k == listed(s0.seller_swaps, o).len()) {
                    assert(s0.seller_swaps.contains_key(o));
                    assert(s0.seller_swaps[o][k] == s1.seller_swaps[o][k]);
                    assert(s0.sells(o, s0.seller_swaps[o][k]));
                }
            }
            assert forall|o: u64, k: int| s1.buyer_swaps.contains_key(o) && 0 <= k < s1.buyer_swaps[o].len() implies s1.buys(
                o,
                #[trigger] s1.buyer_swaps[o][k],
            ) by {
                if !(o == buyer.id && k == listed(s0.buyer_swaps, o).len()) {
                    assert(s0.buyer_swaps.contains_key(o));
                    assert(s0.buyer_swaps[o][k] == s1.buyer_swaps[o][k]);
                    assert(s0.buys(o, s0.buyer_swaps[o][k]));
                }
            }
            assert forall|p: u64, k: int| s1.ip_swaps.contains_key(p) && 0 <= k < s1.ip_swaps[p].len() implies s1.trades(
                p,
                #[trigger] s1.ip_swaps[p][k],
            ) by {
                if !(index_ip && p == ip_id && k == listed(s0.ip_swaps, p).len()) {
                    assert(s0.ip_swaps.contains_key(p));
                    assert(s0.ip_swaps[p][k] == s1.ip_swaps[p][k]);
                    assert(s0.trades(p, s0.ip_swaps[p][k]));
                }
            }
        }
        id
    }

    /// A new entry holding `record`, whose history starts at `now`.
    pub(crate) fn new_entry(
        record: SwapRecord,
        mode: SwapMode,
        signers: Option<Vec<Addr>>,
        schedule: Option<Vec<PaymentSchedule>>,
        now: u64,
    ) -> (e: SwapEntry)
        ensures
            e@ == fresh_swap(record@, mode, opt_view(signers), opt_view(schedule), now),
    {
        let mut history: Vec<SwapHistoryEntry> = Vec::new();
        history.push(SwapHistoryEntry { status: record.status, timestamp: now });
        let mut payments_made: Vec<bool> = Vec::new();
        let ghost sched = opt_view(schedule);
        match &schedule {
            Some(p) => {
                let mut k: usize = 0;
                while k < p.len()
                    invariant
                        0 <= k <= p@.len(),
                        payments_made@ == Seq::new(k as nat, |j: int| false),
                    decreases p@.len() - k,
                {
                    payments_made.push(false);
                    assert(payments_made@ =~= Seq::new((k + 1) as nat, |j: int| false));
                    k = k + 1;
                }
            },
            None => {},
        }
        let e = SwapEntry {
            record,
            mode,
            history,
            approvals: Vec::new(),
            cancel_reason: None,
            collateral: None,
            insurance_claimable: false,
            renegotiation: None,
            escrow_deposit: None,
            min_reputation: None,
            arbitration_timestamp: None,
            signers,
            signatures: Vec::new(),
            completion_timestamp: None,
            schedule,
            payments_made,
        };
        assert(e@.payments_made =~= fresh_swap(e@.record, mode, e@.signers, sched, now).payments_made);
        assert(e@ =~= fresh_swap(e@.record, mode, e@.signers, sched, now));
        e
    }

    /// A pending swap record (see [`pending_record`]).
    pub(crate) fn pending(
        ip_id: u64,
        seller: Addr,
        buyer: Addr,
        price: i128,
        token: Addr,
        expiry: u64,
        required_approvals: u32,
        referrer: Option<Addr>,
        collateral_amount: i128,
        insurance_enabled: bool,
        is_installment: bool,
    ) -> (r: SwapRecord)
        requires
            insurance_enabled ==> 0 <= price && price * 2 <= i128::MAX,
        ensures
            r@ == pending_record(
                ip_id,
                seller,
                buyer,
                price,
                token,
                expiry,
                required_approvals,
                referrer,
                collateral_amount,
                insurance_enabled,
                is_installment,
            ),
    {
        let r = SwapRecord {
            ip_id,
            seller,
            buyer,
            price,
            token,
            status: SwapStatus::Pending,
            expiry,
            accept_timestamp: 0,
            required_approvals,
            dispute_timestamp: 0,
            referrer,
            collateral_amount,
            insurance_premium: if insurance_enabled { price * 2 / 100 } else { 0 },
            insurance_enabled,
            escrow_agent: None,
            quantity: 1,
            conditions: Vec::new(),
            paid_amount: 0,
            is_installment,
        };
        assert(r@.conditions =~= Seq::<SwapCondition>::empty());
        r
    }

    /// Stores the IP registry this marketplace checks ownership against; it
    /// can be set once (`AlreadyInit` afterwards).
    pub fn initialize(&mut self, ip_registry: Addr) -> (r: Result<(), ContractError>)
        requires
            old(self).wf(),
        ensures
            final(self).wf(),
            old(self)@.registry is Some ==> r == Err::<(), ContractError>(ContractError::AlreadyInit)
                && final(self)@ == old(self)@,
            old(self)@.registry is None ==> r is Ok && final(self)@ == (SwapState {
                registry: Some(ip_registry),
                ..old(self)@
            }),
    {
        if self.registry.is_some() {
            return Err(ContractError::AlreadyInit);
        }
        self.registry = Some(ip_registry);
        assert(self@ =~= (SwapState { registry: Some(ip_registry), ..old(self)@ }));
        Ok(())
    }

    /// Lists IP `ip_id` for sale to `buyer` at `price` and returns the swap
    /// id (ids start at 0). The swap expires seven days after `now`, locks
    /// the IP, and the first initiator becomes admin when none is set. The
    /// seller's authorization is checked by the host before this call.
    pub fn initiate_swap(
        &mut self,
        registry: &IpRegistry,
        token: Addr,
        ip_id: u64,
        seller: Addr,
        price: i128,
        buyer: Addr,
        required_approvals: u32,
        referrer: Option<Addr>,
        collateral_amount: i128,
        insurance_enabled: bool,
        now: u64,
    ) -> (r: Result<u64, ContractError>)
        requires
            old(self).wf(),
            registry.wf(),
            registry_matches(old(self)@, registry@),
            !old(self)@.paused && listing_error(old(self)@, registry@, ip_id, seller, price) is None ==> {
                &&& old(self)@.swaps.len() < u64::MAX
                &&& now + SWAP_LIFETIME_SECONDS <= u64::MAX
                &&& insurance_enabled ==> price * 2 <= i128::MAX
            },
        ensures
            final(self).wf(),
            old(self)@.paused ==> r == Err::<u64, ContractError>(ContractError::Paused) && final(self)@ == old(
                self,
            )@,
            !old(self)@.paused ==> match listing_error(old(self)@, registry@, ip_id, seller, price) {
                Some(e) => r == Err::<u64, ContractError>(e) && final(self)@ == old(self)@,
                None => r == Ok::<u64, ContractError>(old(self)@.swaps.len() as u64) && final(self)@
                    == created_state(
                    SwapState { admin: admin_after_initiation(old(self)@, seller), ..old(self)@ },
                    fresh_swap(
                        pending_record(
                            ip_id,
                            seller,
                            buyer,
                            price,
                            token,
                            (now + SWAP_LIFETIME_SECONDS) as u64,
                            required_approvals,
                            referrer,
                            collateral_amount,
                            insurance_enabled,
                            false,
                        ),
                        SwapMode::Atomic,
                        None,
                        None,
                        now,
                    ),
                    true,
                    true,
                ),
            },
    {
        if self.paused {
            return Err(ContractError::Paused);
        }
        match self.check_listing(registry, ip_id, seller, price) {
            Err(e) => {
                return Err(e);
            },
            Ok(()) => {},
        }
        if self.admin.is_none() {
            self.admin = Some(seller);
        }
        assert(self@ =~= (SwapState { admin: admin_after_initiation(old(self)@, seller), ..old(self)@ }));
        let rec = Self::pending(
            ip_id,
            seller,
            buyer,
            price,
            token,
            now + SWAP_LIFETIME_SECONDS,
            required_approvals,
            referrer,
            collateral_amount,
            insurance_enabled,
            false,
        );
        let entry = Self::new_entry(rec, SwapMode::Atomic, None, None, now);
        Ok(self.create_swap(entry, true, true))
    }

    /// Lists IP `ip_id` for sale in escrow mode: the buyer deposits the price
    /// later, and may withdraw it after `timeout` if no key was revealed.
    /// The swap is not listed under its IP. The seller's authorization is
    /// checked by the host before this call.
    pub fn initiate_escrow_swap(
        &mut self,
        registry: &IpRegistry,
        token: Addr,
        ip_id: u64,
        seller: Addr,
        price: i128,
        buyer: Addr,
        timeout: u64,
        now: u64,
    ) -> (r: Result<u64, ContractError>)
        requires
            old(self).wf(),
            registry.wf(),
            registry_matches(old(self)@, registry@),
            !old(self)@.paused && listing_error(old(self)@, registry@, ip_id, seller, price) is None
                ==> old(self)@.swaps.len() < u64::MAX,
        ensures
            final(self).wf(),
            old(self)@.paused ==> r == Err::<u64, ContractError>(ContractError::Paused) && final(self)@ == old(
                self,
            )@,
            !old(self)@.paused ==> match listing_error(old(self)@, registry@, ip_id, seller, price) {
                Some(e) => r == Err::<u64, ContractError>(e) && final(self)@ == old(self)@,
                None => r == Ok::<u64, ContractError>(old(self)@.swaps.len() as u64) && final(self)@
                    == created_state(
                    old(self)@,
                    fresh_swap(
                        pending_record(ip_id, seller, buyer, price, token, timeout, 0, None, 0, false, false),
                        SwapMode::Escrow,
                        None,
                        None,
                        now,
                    ),
                    true,
                    false,
                ),
            },
    {
        if self.paused {
            return Err(ContractError::Paused);
        }
        match self.check_listing(registry, ip_id, seller, price) {
            Err(e) => {
                return Err(e);
            },
            Ok(()) => {},
        }
        let rec = Self::pending(ip_id, seller, buyer, price, token, timeout, 0, None, 0, false, false);
        let entry = Self::new_entry(rec, SwapMode::Escrow, None, None, now);
        Ok(self.create_swap(entry, true, false))
    }

    /// Lists IP `ip_id` for sale with co-signers who must all sign before the
    /// key may be revealed; an empty signer list is refused
    /// (`Unauthorized`). The seller's authorization is checked by the host
    /// before this call.
    pub fn initiate_swap_with_signers(
        &mut self,
        registry: &IpRegistry,
        token: Addr,
        ip_id: u64,
        seller: Addr,
        price: i128,
        buyer: Addr,
        signers: Vec<Addr>,
        now: u64,
    ) -> (r: Result<u64, ContractError>)
        requires
            old(self).wf(),
            registry.wf(),
            registry_matches(old(self)@, registry@),
            !old(self)@.paused && listing_error(old(self)@, registry@, ip_id, seller, price) is None ==> {
                &&& old(self)@.swaps.len() < u64::MAX
                &&& now + SWAP_LIFETIME_SECONDS <= u64::MAX
            },
        ensures
            final(self).wf(),
            old(self)@.paused ==> r == Err::<u64, ContractError>(ContractError::Paused) && final(self)@ == old(
                self,
            )@,
            !old(self)@.paused ==> match listing_error(old(self)@, registry@, ip_id, seller, price) {
                Some(e) => r == Err::<u64, ContractError>(e) && final(self)@ == old(self)@,
                None => if signers@.len() == 0 {
                    r == Err::<u64, ContractError>(ContractError::Unauthorized) && final(self)@ == old(self)@
                } else {
                    r == Ok::<u64, ContractError>(old(self)@.swaps.len() as u64) && final(self)@ == created_state(
                        old(self)@,
                        fresh_swap(
                            pending_record(
                                ip_id,
                                seller,
                                buyer,
                                price,
                                token,
                                (now + SWAP_LIFETIME_SECONDS) as u64,
                                0,
                                None,
                                0,
                                false,
                                false,
                            ),
                            SwapMode::Atomic,
                            Some(signers@),
                            None,
                            now,
                        ),
                        true,
                        true,
                    )
                },
            },
    {
        if self.paused {
            return Err(ContractError::Paused);
        }
        match self.check_listing(registry, ip_id, seller, price) {
            Err(e) => {
                return Err(e);
            },
            Ok(()) => {},
        }
        if signers.len() == 0 {
            return Err(ContractError::Unauthorized);
        }
        let rec = Self::pending(
            ip_id,
            seller,
            buyer,
            price,
            token,
            now + SWAP_LIFETIME_SECONDS,
            0,
            None,
            0,
            false,
            false,
        );
        let entry = Self::new_entry(rec, SwapMode::Atomic, Some(signers), None, now);
        Ok(self.create_swap(entry, true, true))
    }
}

} // verus!
