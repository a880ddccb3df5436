//! The marketplace's state, its mathematical model, and the steps every
//! operation is built from.
use vstd::prelude::*;
use std::collections::HashMap;
use crate::common::{Addr, copy_ids};
use super::types::{
    AuctionRecord, OracleConfig, PaymentSchedule, ProtocolConfig, RenegotiationOffer, SwapHistoryEntry,
    SwapMode, SwapRecord, SwapRecordView, SwapStatus, Transfer,
};
pub mod initiate;
pub mod settle;
pub mod disputes;
pub mod extras;
pub mod admin;
pub mod auction;
pub mod batch;
pub mod laws;

verus! {

broadcast use vstd::std_specs::hash::group_hash_axioms;

/// Protocol fee in basis points of the price.
pub const PROTOCOL_FEE_BPS: u32 = 250;

/// Referral fee in basis points of the price, paid when a referrer is set.
pub const REFERRAL_FEE_BPS: u32 = 100;

/// How long after acceptance the buyer may raise a dispute (one day).
pub const DISPUTE_WINDOW_SECONDS: u64 = 86_400;

/// How long a dispute may stay open before anyone may refund the buyer (seven days).
pub const DISPUTE_TIMEOUT_SECS: u64 = 604_800;

/// How long after arbitration is requested the buyer may be refunded (fourteen days).
pub const ARBITRATION_TIMEOUT_SECONDS: u64 = 1_209_600;

/// Lifetime of a new swap (seven days).
pub const SWAP_LIFETIME_SECONDS: u64 = 604_800;

/// How long after completion the buyer may roll back for an invalid key (one day).
pub const ROLLBACK_WINDOW_SECONDS: u64 = 86_400;

/// Reputation an address starts with.
pub const DEFAULT_REPUTATION: u32 = 50;

/// Highest reputation.
pub const MAX_REPUTATION: u32 = 100;

/// Everything the marketplace keeps about one swap.
pub struct SwapEntry {
    pub record: SwapRecord,
    pub mode: SwapMode,
    pub history: Vec<SwapHistoryEntry>,
    pub approvals: Vec<Addr>,
    pub cancel_reason: Option<Vec<u8>>,
    /// Collateral held for the buyer, once deposited.
    pub collateral: Option<i128>,
    pub insurance_claimable: bool,
    pub renegotiation: Option<RenegotiationOffer>,
    pub escrow_deposit: Option<i128>,
    /// Minimum buyer reputation the seller asks for.
    pub min_reputation: Option<u32>,
    pub arbitration_timestamp: Option<u64>,
    /// Co-signers who must sign before the key may be revealed.
    pub signers: Option<Vec<Addr>>,
    pub signatures: Vec<Addr>,
    pub completion_timestamp: Option<u64>,
    pub schedule: Option<Vec<PaymentSchedule>>,
    pub payments_made: Vec<bool>,
}

/// The mathematical content of a [`SwapEntry`].
pub ghost struct SwapEntryView {
    pub record: SwapRecordView,
    pub mode: SwapMode,
    pub history: Seq<SwapHistoryEntry>,
    pub approvals: Seq<Addr>,
    pub cancel_reason: Option<Seq<u8>>,
    pub collateral: Option<i128>,
    pub insurance_claimable: bool,
    pub renegotiation: Option<RenegotiationOffer>,
    pub escrow_deposit: Option<i128>,
    pub min_reputation: Option<u32>,
    pub arbitration_timestamp: Option<u64>,
    pub signers: Option<Seq<Addr>>,
    pub signatures: Seq<Addr>,
    pub completion_timestamp: Option<u64>,
    pub schedule: Option<Seq<PaymentSchedule>>,
    pub payments_made: Seq<bool>,
}

impl View for SwapEntry {
    type V = SwapEntryView;

    open spec fn view(&self) -> SwapEntryView {
        SwapEntryView {
            record: self.record@,
            mode: self.mode,
            history: self.history@,
            approvals: self.approvals@,
            cancel_reason: opt_view(self.cancel_reason),
            collateral: self.collateral,
            insurance_claimable: self.insurance_claimable,
            renegotiation: self.renegotiation,
            escrow_deposit: self.escrow_deposit,
            min_reputation: self.min_reputation,
            arbitration_timestamp: self.arbitration_timestamp,
            signers: opt_view(self.signers),
            signatures: self.signatures@,
            completion_timestamp: self.completion_timestamp,
            schedule: opt_view(self.schedule),
            payments_made: self.payments_made@,
        }
    }
}

/// The swap marketplace.
pub struct AtomicSwap {
    pub(crate) contract: Addr,
    pub(crate) config: ProtocolConfig,
    pub(crate) registry: Option<Addr>,
    pub(crate) admin: Option<Addr>,
    pub(crate) paused: bool,
    pub(crate) swaps: Vec<SwapEntry>,
    pub(crate) active_swaps: HashMap<u64, u64>,
    pub(crate) seller_swaps: HashMap<u64, Vec<u64>>,
    pub(crate) buyer_swaps: HashMap<u64, Vec<u64>>,
    pub(crate) ip_swaps: HashMap<u64, Vec<u64>>,
    pub(crate) insurance_pools: HashMap<u64, i128>,
    pub(crate) reputations: HashMap<u64, u32>,
    pub(crate) auctions: Vec<AuctionRecord>,
    pub(crate) active_auctions: HashMap<u64, u64>,
    pub(crate) oracle: Option<OracleConfig>,
}

/// The mathematical model of the marketplace.
pub ghost struct SwapState {
    /// The marketplace contract's own address (it holds escrowed funds).
    pub contract: Addr,
    /// The fee schedule and time limits in force; fees and penalties go
    /// to its treasury.
    pub config: ProtocolConfig,
    /// The IP registry the marketplace was initialized with.
    pub registry: Option<Addr>,
    pub admin: Option<Addr>,
    pub paused: bool,
    /// `swaps[k]` is the swap with id `k`.
    pub swaps: Seq<SwapEntryView>,
    /// The swap currently locking each IP.
    pub active_swaps: Map<u64, u64>,
    pub seller_swaps: Map<u64, Seq<u64>>,
    pub buyer_swaps: Map<u64, Seq<u64>>,
    pub ip_swaps: Map<u64, Seq<u64>>,
    /// Insurance pool per token.
    pub insurance_pools: Map<u64, i128>,
    pub reputations: Map<u64, u32>,
    /// `auctions[k]` is the auction with id `k`.
    pub auctions: Seq<AuctionRecord>,
    /// The auction currently running for each IP.
    pub active_auctions: Map<u64, u64>,
    pub oracle: Option<OracleConfig>,
}

pub open spec fn swap_entries_view(s: Seq<SwapEntry>) -> Seq<SwapEntryView> {
    s.map_values(|e: SwapEntry| e@)
}

pub open spec fn id_lists(m: Map<u64, Vec<u64>>) -> Map<u64, Seq<u64>> {
    m.map_values(|v: Vec<u64>| v@)
}

impl View for AtomicSwap {
    type V = SwapState;

    closed spec fn view(&self) -> SwapState {
        SwapState {
            contract: self.contract,
            config: self.config,
            registry: self.registry,
            admin: self.admin,
            paused: self.paused,
            swaps: swap_entries_view(self.swaps@),
            active_swaps: self.active_swaps@,
            seller_swaps: id_lists(self.seller_swaps@),
            buyer_swaps: id_lists(self.buyer_swaps@),
            ip_swaps: id_lists(self.ip_swaps@),
            insurance_pools: self.insurance_pools@,
            reputations: self.reputations@,
            auctions: self.auctions@,
            active_auctions: self.active_auctions@,
            oracle: self.oracle,
        }
    }
}

/// The view of an optional list.
pub open spec fn opt_view<T>(o: Option<Vec<T>>) -> Option<Seq<T>> {
    match o {
        Some(v) => Some(v@),
        None => None,
    }
}

/// The ids listed under `key` (empty if none).
pub open spec fn listed(m: Map<u64, Seq<u64>>, key: u64) -> Seq<u64> {
    if m.contains_key(key) {
        m[key]
    } else {
        Seq::empty()
    }
}

/// `x` clamped to `lo..=hi`.
pub open spec fn clamp(x: int, lo: int, hi: int) -> int {
    if x < lo {
        lo
    } else if x > hi {
        hi
    } else {
        x
    }
}

impl SwapState {
    pub open spec fn has_swap(self, swap_id: u64) -> bool {
        swap_id < self.swaps.len()
    }

    /// The record of an existing swap.
    pub open spec fn record(self, swap_id: u64) -> SwapRecordView
        recommends
            self.has_swap(swap_id),
    {
        self.swaps[swap_id as int].record
    }

    /// The reputation of an address (the default if none is stored).
    pub open spec fn reputation_of(self, a: Addr) -> u32 {
        if self.reputations.contains_key(a.id) {
            self.reputations[a.id]
        } else {
            DEFAULT_REPUTATION
        }
    }

    /// The insurance pool of a token (zero if none).
    pub open spec fn pool_of(self, token: Addr) -> i128 {
        if self.insurance_pools.contains_key(token.id) {
            self.insurance_pools[token.id]
        } else {
            0
        }
    }

    pub open spec fn has_auction(self, auction_id: u64) -> bool {
        auction_id < self.auctions.len()
    }

    /// Whether swap `id` exists and its seller is numbered `o`.
    pub open spec fn sells(self, o: u64, id: u64) -> bool {
        self.has_swap(id) && self.record(id).seller.id == o
    }

    /// Whether swap `id` exists and its buyer is numbered `o`.
    pub open spec fn buys(self, o: u64, id: u64) -> bool {
        self.has_swap(id) && self.record(id).buyer.id == o
    }

    /// Whether swap `id` exists and trades IP `ip`.
    pub open spec fn trades(self, ip: u64, id: u64) -> bool {
        self.has_swap(id) && self.record(id).ip_id == ip
    }

    /// Well-formedness of the model.
    pub open spec fn inv(self) -> bool {
        &&& self.swaps.len() <= u64::MAX
        &&& self.auctions.len() <= u64::MAX
        &&& self.config.protocol_fee_bps <= 10_000
        &&& self.config.referral_fee_bps <= 10_000
        &&& forall|k: int|
            0 <= k < self.auctions.len() ==> (#[trigger] self.auctions[k]).auction_id == k && self.auctions[k].bids_ok()
        &&& forall|a: u64| #[trigger] self.reputations.dom().contains(a) ==> self.reputations[a] <= MAX_REPUTATION
        &&& forall|k: int| 0 <= k < self.swaps.len() ==> (#[trigger] self.swaps[k]).is_consistent()
        &&& forall|ip: u64|
            #[trigger] self.active_swaps.contains_key(ip) ==> self.active_swaps[ip] < self.swaps.len()
                && self.swaps[self.active_swaps[ip] as int].record.ip_id == ip
                && self.swaps[self.active_swaps[ip] as int].record.status.is_open()
        &&& forall|o: u64, k: int|
            self.seller_swaps.contains_key(o) && 0 <= k < self.seller_swaps[o].len() ==> self.sells(
                o,
                #[trigger] self.seller_swaps[o][k],
            )
        &&& forall|o: u64, k: int|
            self.buyer_swaps.contains_key(o) && 0 <= k < self.buyer_swaps[o].len() ==> self.buys(
                o,
                #[trigger] self.buyer_swaps[o][k],
            )
        &&& forall|ip: u64, k: int|
            self.ip_swaps.contains_key(ip) && 0 <= k < self.ip_swaps[ip].len() ==> self.trades(
                ip,
                #[trigger] self.ip_swaps[ip][k],
            )
    }
}

impl AuctionRecord {
    /// The highest bid is nothing while no one has bid, and otherwise at
    /// least the minimum bid (and never negative).
    pub open spec fn bids_ok(self) -> bool {
        &&& self.highest_bid >= 0
        &&& self.highest_bidder is None ==> self.highest_bid == 0
        &&& self.highest_bidder is Some ==> self.highest_bid >= self.min_bid
    }
}

impl SwapEntryView {
    /// The history is never empty, its last entry is the current status,
    /// neither the price nor a pending offer is negative, and a payment
    /// schedule has one payment flag per instalment.
    pub open spec fn is_consistent(self) -> bool {
        &&& self.history.len() > 0
        &&& self.history.last().status == self.record.status
        &&& self.record.price >= 0
        &&& self.renegotiation is Some ==> self.renegotiation.unwrap().new_price > 0
        &&& self.schedule is Some ==> self.payments_made.len() == self.schedule.unwrap().len()
    }
}

/// Replacing a swap by a consistent entry keeps the model well-formed.
pub proof fn lemma_with_swap_inv(s: SwapState, swap_id: u64, e: SwapEntryView)
    requires
        s.inv(),
        s.has_swap(swap_id),
        e.is_consistent(),
        e.record.ip_id == s.record(swap_id).ip_id,
        e.record.seller == s.record(swap_id).seller,
        e.record.buyer == s.record(swap_id).buyer,
        e.record.status.is_open() || e.record.status == s.record(swap_id).status || unlocked(s, swap_id),
    ensures
        with_swap(s, swap_id, e).inv(),
{
    let t = with_swap(s, swap_id, e);
    assert forall|k: int| 0 <= k < t.swaps.len() implies (#[trigger] t.swaps[k]).is_consistent() by {
        if k != swap_id as int {
            assert(s.swaps[k].is_consistent());
        }
    }
    assert forall|ip: u64| #[trigger] t.active_swaps.contains_key(ip) implies t.active_swaps[ip] < t.swaps.len()
        && t.swaps[t.active_swaps[ip] as int].record.ip_id == ip
        && t.swaps[t.active_swaps[ip] as int].record.status.is_open() by {
        assert(s.active_swaps.contains_key(ip));
    }
    assert forall|o: u64, k: int| t.seller_swaps.contains_key(o) && 0 <= k < t.seller_swaps[o].len() implies t.sells(
        o,
        #[trigger] t.seller_swaps[o][k],
    ) by {
        assert(s.sells(o, s.seller_swaps[o][k]));
    }
    assert forall|o: u64, k: int| t.buyer_swaps.contains_key(o) && 0 <= k < t.buyer_swaps[o].len() implies t.buys(
        o,
        #[trigger] t.buyer_swaps[o][k],
    ) by {
        assert(s.buys(o, s.buyer_swaps[o][k]));
    }
    assert forall|ip: u64, k: int| t.ip_swaps.contains_key(ip) && 0 <= k < t.ip_swaps[ip].len() implies t.trades(
        ip,
        #[trigger] t.ip_swaps[ip][k],
    ) by {
        assert(s.trades(ip, s.ip_swaps[ip][k]));
    }
}

/// Closing swap `swap_id`, which holds no lock, by a consistent entry
/// restores well-formedness.
pub proof fn lemma_close_swap_inv(s: SwapState, swap_id: u64, e: SwapEntryView)
    requires
        s.inv(),
        s.has_swap(swap_id),
        e.is_consistent(),
        e.record.ip_id == s.record(swap_id).ip_id,
        e.record.seller == s.record(swap_id).seller,
        e.record.buyer == s.record(swap_id).buyer,
        !e.record.status.is_open(),
        unlocked(s, swap_id),
    ensures
        with_swap(s, swap_id, e).inv(),
{
    let t = with_swap(s, swap_id, e);
    assert forall|k: int| 0 <= k < t.swaps.len() implies (#[trigger] t.swaps[k]).is_consistent() by {
        if k != swap_id as int {
            assert(s.swaps[k].is_consistent());
        }
    }
    assert forall|ip: u64| #[trigger] t.active_swaps.contains_key(ip) implies t.active_swaps[ip] < t.swaps.len()
        && t.swaps[t.active_swaps[ip] as int].record.ip_id == ip
        && t.swaps[t.active_swaps[ip] as int].record.status.is_open() by {
        assert(s.active_swaps.contains_key(ip));
    }
    assert forall|o: u64, k: int| t.seller_swaps.contains_key(o) && 0 <= k < t.seller_swaps[o].len() implies t.sells(
        o,
        #[trigger] t.seller_swaps[o][k],
    ) by {
        assert(s.sells(o, s.seller_swaps[o][k]));
    }
    assert forall|o: u64, k: int| t.buyer_swaps.contains_key(o) && 0 <= k < t.buyer_swaps[o].len() implies t.buys(
        o,
        #[trigger] t.buyer_swaps[o][k],
    ) by {
        assert(s.buys(o, s.buyer_swaps[o][k]));
    }
    assert forall|ip: u64, k: int| t.ip_swaps.contains_key(ip) && 0 <= k < t.ip_swaps[ip].len() implies t.trades(
        ip,
        #[trigger] t.ip_swaps[ip][k],
    ) by {
        assert(s.trades(ip, s.ip_swaps[ip][k]));
    }
}

/// The insurance pools play no part in well-formedness.
pub proof fn lemma_pools_keep_inv(s: SwapState, pools: Map<u64, i128>)
    requires
        s.inv(),
    ensures
        (SwapState { insurance_pools: pools, ..s }).inv(),
{
}

/// No IP lock points at swap `swap_id`.
pub open spec fn unlocked(s: SwapState, swap_id: u64) -> bool {
    forall|ip: u64| #[trigger] s.active_swaps.contains_key(ip) ==> s.active_swaps[ip] != swap_id
}

/// A swap that is no longer open holds no lock.
pub proof fn lemma_closed_is_unlocked(s: SwapState, swap_id: u64)
    requires
        s.inv(),
        s.has_swap(swap_id),
        !s.record(swap_id).status.is_open(),
    ensures
        unlocked(s, swap_id),
{
    assert forall|ip: u64| #[trigger] s.active_swaps.contains_key(ip) implies s.active_swaps[ip] != swap_id by {
        if s.active_swaps[ip] == swap_id {
            assert(s.swaps[s.active_swaps[ip] as int].record.status.is_open());
        }
    }
}

/// Releasing the lock of a swap's IP leaves no lock on that swap.
pub proof fn lemma_unlock_frees(s: SwapState, swap_id: u64)
    requires
        s.inv(),
        s.has_swap(swap_id),
    ensures
        unlock_ip(s, s.record(swap_id).ip_id).inv(),
        unlocked(unlock_ip(s, s.record(swap_id).ip_id), swap_id),
{
    let ip0 = s.record(swap_id).ip_id;
    let t = unlock_ip(s, ip0);
    assert forall|ip: u64| #[trigger] t.active_swaps.contains_key(ip) implies t.active_swaps[ip] != swap_id by {
        assert(s.active_swaps.contains_key(ip));
    }
    assert forall|ip: u64| #[trigger] t.active_swaps.contains_key(ip) implies t.active_swaps[ip] < t.swaps.len()
        && t.swaps[t.active_swaps[ip] as int].record.ip_id == ip
        && t.swaps[t.active_swaps[ip] as int].record.status.is_open() by {
        assert(s.active_swaps.contains_key(ip));
    }
}

/// The state with swap `swap_id` replaced by `e`.
pub open spec fn with_swap(s: SwapState, swap_id: u64, e: SwapEntryView) -> SwapState {
    SwapState { swaps: s.swaps.update(swap_id as int, e), ..s }
}

/// The state with the reputation of `a` moved by `delta`, clamped to 0..=100.
pub open spec fn adjust_reputation(s: SwapState, a: Addr, delta: int) -> SwapState {
    SwapState {
        reputations: s.reputations.insert(a.id, clamp(s.reputation_of(a) + delta, 0, MAX_REPUTATION as int) as u32),
        ..s
    }
}

/// The state with the IP lock of `ip_id` released.
pub open spec fn unlock_ip(s: SwapState, ip_id: u64) -> SwapState {
    SwapState { active_swaps: s.active_swaps.remove(ip_id), ..s }
}

/// The initial protocol configuration, paying fees to `treasury`.
pub open spec fn config_of(treasury: Addr) -> ProtocolConfig {
    ProtocolConfig {
        protocol_fee_bps: PROTOCOL_FEE_BPS,
        treasury,
        dispute_window_seconds: DISPUTE_WINDOW_SECONDS,
        dispute_timeout_secs: DISPUTE_TIMEOUT_SECS,
        referral_fee_bps: REFERRAL_FEE_BPS,
        arbitration_timeout_seconds: ARBITRATION_TIMEOUT_SECONDS,
    }
}

impl AtomicSwap {
    /// Well-formedness of the concrete state.
    pub closed spec fn wf(&self) -> bool {
        self@.inv()
    }

    /// A well-formed marketplace satisfies the model's invariant.
    pub proof fn lemma_wf_inv(&self)
        requires
            self.wf(),
        ensures
            self@.inv(),
    {
    }

    /// A marketplace deployed at `contract` that pays fees to `treasury`.
    pub fn new(contract: Addr, treasury: Addr) -> (r: AtomicSwap)
        ensures
            r.wf(),
            r@.contract == contract,
            r@.config == config_of(treasury),
            r@.registry is None,
            r@.admin is None,
            !r@.paused,
            r@.swaps.len() == 0,
            r@.active_swaps == Map::<u64, u64>::empty(),
            r@.seller_swaps == Map::<u64, Seq<u64>>::empty(),
            r@.buyer_swaps == Map::<u64, Seq<u64>>::empty(),
            r@.ip_swaps == Map::<u64, Seq<u64>>::empty(),
            r@.insurance_pools == Map::<u64, i128>::empty(),
            r@.reputations == Map::<u64, u32>::empty(),
            r@.auctions.len() == 0,
            r@.active_auctions == Map::<u64, u64>::empty(),
            r@.oracle is None,
    {
        let r = AtomicSwap {
            contract,
            config: ProtocolConfig {
                protocol_fee_bps: PROTOCOL_FEE_BPS,
                treasury,
                dispute_window_seconds: DISPUTE_WINDOW_SECONDS,
                dispute_timeout_secs: DISPUTE_TIMEOUT_SECS,
                referral_fee_bps: REFERRAL_FEE_BPS,
                arbitration_timeout_seconds: ARBITRATION_TIMEOUT_SECONDS,
            },
            registry: None,
            admin: None,
            paused: false,
            swaps: Vec::new(),
            active_swaps: HashMap::new(),
            seller_swaps: HashMap::new(),
            buyer_swaps: HashMap::new(),
            ip_swaps: HashMap::new(),
            insurance_pools: HashMap::new(),
            reputations: HashMap::new(),
            auctions: Vec::new(),
            active_auctions: HashMap::new(),
            oracle: None,
        };
        assert(r@.seller_swaps =~= Map::<u64, Seq<u64>>::empty());
        assert(r@.buyer_swaps =~= Map::<u64, Seq<u64>>::empty());
        assert(r@.ip_swaps =~= Map::<u64, Seq<u64>>::empty());
        r
    }

    /// The protocol configuration swaps settle with.
    pub fn protocol_config(&self) -> (c: ProtocolConfig)
        ensures
            c == self@.config,
    {
        self.config
    }

    /// The position of swap `swap_id` in the swap list.
    pub(crate) fn index_of(&self, swap_id: u64) -> (i: usize)
        requires
            self@.has_swap(swap_id),
        ensures
            i == swap_id,
            i < self.swaps@.len(),
    {
        let n = self.swaps.len();
        assert(swap_id < n);
        swap_id as usize
    }

    /// Moves swap `swap_id` to `status` at `now`, recording the step in its history.
    pub(crate) fn record_status(&mut self, swap_id: u64, status: SwapStatus, now: u64)
        requires
            old(self).wf(),
            old(self)@.has_swap(swap_id),
            !status.is_open() ==> unlocked(old(self)@, swap_id),
        ensures
            final(self).wf(),
            final(self)@ == with_swap(
                old(self)@,
                swap_id,
                SwapEntryView {
                    record: SwapRecordView { status, ..old(self)@.record(swap_id) },
                    history: old(self)@.swaps[swap_id as int].history.push(
                        SwapHistoryEntry { status, timestamp: now },
                    ),
                    ..old(self)@.swaps[swap_id as int]
                },
            ),
    {
        let i = self.index_of(swap_id);
        self.swaps[i].record.status = status;
        self.swaps[i].history.push(SwapHistoryEntry { status, timestamp: now });
        proof {
            let e = old(self)@.swaps[i as int];
            let w = SwapEntryView {
                record: SwapRecordView { status, ..e.record },
                history: e.history.push(SwapHistoryEntry { status, timestamp: now }),
                ..e
            };
            assert(old(self)@.swaps[i as int].is_consistent());
            assert(swap_entries_view(self.swaps@) =~= old(self)@.swaps.update(i as int, w));
            assert(self@ =~= with_swap(old(self)@, swap_id, w));
            if status.is_open() {
                lemma_with_swap_inv(old(self)@, swap_id, w);
            } else {
                lemma_close_swap_inv(old(self)@, swap_id, w);
            }
        }
    }

    /// Releases the lock on the IP of swap `swap_id`, after which no lock
    /// points at the swap.
    pub(crate) fn release_swap_ip(&mut self, swap_id: u64)
        requires
            old(self).wf(),
            old(self)@.has_swap(swap_id),
        ensures
            final(self).wf(),
            final(self)@ == unlock_ip(old(self)@, old(self)@.record(swap_id).ip_id),
            unlocked(final(self)@, swap_id),
    {
        let i = self.index_of(swap_id);
        let ip_id = self.swaps[i].record.ip_id;
        proof {
            lemma_unlock_frees(old(self)@, swap_id);
        }
        self.active_swaps.remove(&ip_id);
        assert(self@ =~= unlock_ip(old(self)@, ip_id));
    }

    /// The reputation of `address` (50 if none is stored).
    pub fn get_reputation(&self, address: Addr) -> (r: u32)
        requires
            self.wf(),
        ensures
            r == self@.reputation_of(address),
            r <= MAX_REPUTATION,
    {
        match self.reputations.get(&address.id) {
            Some(r) => {
                assert(self@.reputations.dom().contains(address.id));
                *r
            },
            None => DEFAULT_REPUTATION,
        }
    }

    /// Moves the reputation of `address` by `delta`, clamped to 0..=100.
    pub(crate) fn update_reputation(&mut self, address: Addr, delta: i32)
        requires
            old(self).wf(),
        ensures
            final(self).wf(),
            final(self)@ == adjust_reputation(old(self)@, address, delta as int),
    {
        let current = self.get_reputation(address) as i64;
        let sum = current + delta as i64;
        let updated: u32 = if sum < 0 {
            0
        } else if sum > MAX_REPUTATION as i64 {
            MAX_REPUTATION
        } else {
            sum as u32
        };
        self.reputations.insert(address.id, updated);
        assert(self@ =~= adjust_reputation(old(self)@, address, delta as int));
    }

    /// The ids listed under `key` in one of the swap indexes.
    pub(crate) fn ids_under(m: &HashMap<u64, Vec<u64>>, key: u64) -> (r: Option<Vec<u64>>)
        ensures
            match r {
                Some(v) => m@.contains_key(key) && v@ == m@[key]@,
                None => !m@.contains_key(key),
            },
    {
        match m.get(&key) {
            Some(v) => Some(copy_ids(v)),
            None => None,
        }
    }
}

} // verus!
