//! Properties the marketplace keeps across its operations.
use vstd::prelude::*;
use crate::common::{Addr, Bytes32};
use crate::ip_registry::state::RegistryState;
use crate::atomic_swap::types::{ContractError, SwapStatus, Transfer};
use super::{AtomicSwap, SwapState, MAX_REPUTATION, listed};
use super::initiate::listing_error;
use super::settle::{
    accept_error, accept_transfers, accepted_state, cancel_error, cancelled_state, completed_state, key_opens,
    buyer_payment, deposit, protocol_fee, referral_fee, refund_transfers, refunded_state, release, reveal_error, reveal_transfers,
    rollback_transfers, seller_settlement, transfer_if,
};
use super::batch::{batch_accept_transfers, batch_arbitrate_transfers, batch_reveal_transfers, cancel_item_error, fee_breakdown};
use super::disputes::{arbitrated_state, arbitration_transfers, dispute_resolution_transfers, insurance_payout, price_refund};
use super::auction::{bid_error, bid_transfers, won_record};
use crate::crypto::sha256_spec;

verus! {

/// The sum of the amounts of a sequence of payments.
pub open spec fn total_amount(ts: Seq<Transfer>) -> int
    decreases ts.len(),
{
    if ts.len() == 0 {
        0
    } else {
        total_amount(ts.drop_last()) + ts.last().amount
    }
}

/// Whether every payment of `ts` leaves `from`.
pub open spec fn all_from(ts: Seq<Transfer>, from: Addr) -> bool {
    forall|k: int| 0 <= k < ts.len() ==> (#[trigger] ts[k]).from == from
}

/// Whether every payment of `ts` goes to `to`.
pub open spec fn all_to(ts: Seq<Transfer>, to: Addr) -> bool {
    forall|k: int| 0 <= k < ts.len() ==> (#[trigger] ts[k]).to == to
}

/// The insurance premium the buyer of swap `id` pays on acceptance.
pub open spec fn premium_paid(s: SwapState, id: u64) -> int {
    let r = s.record(id);
    if r.insurance_enabled && r.insurance_premium > 0 {
        r.insurance_premium as int
    } else {
        0
    }
}

proof fn lemma_total_concat(a: Seq<Transfer>, b: Seq<Transfer>)
    ensures
        total_amount(a + b) == total_amount(a) + total_amount(b),
    decreases b.len(),
{
    if b.len() > 0 {
        lemma_total_concat(a, b.drop_last());
        assert((a + b).drop_last() =~= a + b.drop_last());
    } else {
        assert(a + b =~= a);
    }
}

proof fn lemma_total_one(t: Transfer)
    ensures
        total_amount(seq![t]) == t.amount,
{
    assert(seq![t].drop_last() =~= Seq::<Transfer>::empty());
    assert(total_amount(Seq::<Transfer>::empty()) == 0);
    assert(seq![t].last() == t);
}

/// Each fee on a positive price lies between nothing and the whole price;
/// when the configured rates add up to at most 100 %, the two fees together
/// do not exceed the price, so the seller's share is never negative.
pub proof fn law_fees_fit_in_price(s: SwapState, price: i128, referrer: Option<Addr>)
    requires
        s.inv(),
        price > 0,
    ensures
        0 <= protocol_fee(s, price) <= price,
        0 <= referral_fee(s, price, referrer) <= price,
        s.config.protocol_fee_bps + s.config.referral_fee_bps <= 10_000 ==> protocol_fee(s, price) + referral_fee(
            s,
            price,
            referrer,
        ) <= price,
{
    let a = s.config.protocol_fee_bps as int;
    let b = s.config.referral_fee_bps as int;
    let p = price as int;
    assert(0 <= p * a / 10000 <= p) by (nonlinear_arith)
        requires p > 0, 0 <= a <= 10000;
    assert(0 <= p * b / 10000 <= p) by (nonlinear_arith)
        requires p > 0, 0 <= b <= 10000;
    if a + b <= 10000 {
        assert(p * a / 10000 + p * b / 10000 <= p) by (nonlinear_arith)
            requires p > 0, 0 <= a, 0 <= b, a + b <= 10000;
    }
}

/// Escrow balances: what the buyer pays into the marketplace on acceptance,
/// less the insurance premium (which joins the token's insurance pool), is
/// exactly what the marketplace pays back out when the seller reveals a valid
/// key, and exactly what it refunds when the key is invalid.
#[verifier::rlimit(30)]
pub proof fn law_escrow_balances(s: SwapState, id: u64, now: u64)
    requires
        s.inv(),
        accept_error(s, id, now) is None,
    ensures
        ({
            let a = accepted_state(s, id, now);
            let paid_in = total_amount(accept_transfers(s, id)) - premium_paid(s, id);
            &&& all_to(accept_transfers(s, id), s.contract)
            &&& all_from(reveal_transfers(a, id), s.contract)
            &&& all_from(refund_transfers(a, id), s.contract)
            &&& total_amount(reveal_transfers(a, id)) == paid_in
            &&& total_amount(refund_transfers(a, id)) == paid_in
        }),
{
    let a = accepted_state(s, id, now);
    let r = s.record(id);
    assert(a.record(id) == crate::atomic_swap::types::SwapRecordView {
        status: SwapStatus::Accepted,
        accept_timestamp: now,
        ..r
    });
    assert(a.contract == s.contract);
    let fee = protocol_fee(s, r.price);
    let referral = referral_fee(s, r.price, r.referrer);
    if r.price > 0 {
        law_fees_fit_in_price(s, r.price, r.referrer);
    }
    let c = if r.collateral_amount > 0 { seq![super::settle::deposit(s, r.token, r.buyer, r.collateral_amount)] } else {
        Seq::empty()
    };
    let p = if r.insurance_enabled && r.insurance_premium > 0 {
        seq![super::settle::deposit(s, r.token, r.buyer, r.insurance_premium)]
    } else {
        Seq::empty()
    };
    let mid = seq![super::settle::deposit(s, r.token, r.buyer, r.price)];
    lemma_total_concat(c, mid);
    lemma_total_concat(c + mid, p);
    lemma_total_one(mid[0]);
    if r.collateral_amount > 0 {
        lemma_total_one(c[0]);
    }
    if r.insurance_enabled && r.insurance_premium > 0 {
        lemma_total_one(p[0]);
    }
    let at = accept_transfers(s, id);
    assert(at =~= c + mid + p);
    assert(all_to(at, s.contract));
    let e = a.swaps[id as int];
    let back = if r.collateral_amount > 0 && e.collateral is Some {
        seq![super::settle::release(a, r.token, r.buyer, e.collateral.unwrap())]
    } else {
        Seq::empty()
    };
    if r.collateral_amount > 0 {
        lemma_total_one(back[0]);
    }
    let f = if fee > 0 { seq![super::settle::release(a, r.token, a.config.treasury, fee as i128)] } else { Seq::empty() };
    let rf = if referral > 0 {
        seq![super::settle::release(a, r.token, r.referrer.unwrap(), referral as i128)]
    } else {
        Seq::empty()
    };
    let sl = seq![super::settle::release(a, r.token, r.seller, (r.price - fee - referral) as i128)];
    if fee > 0 {
        lemma_total_one(f[0]);
    }
    if referral > 0 {
        lemma_total_one(rf[0]);
    }
    lemma_total_one(sl[0]);
    lemma_total_concat(f, rf);
    lemma_total_concat(f + rf, sl);
    lemma_total_concat(f + rf + sl, back);
    assert(reveal_transfers(a, id) =~= f + rf + sl + back);
    let rp = seq![super::settle::release(a, r.token, r.buyer, r.price)];
    lemma_total_one(rp[0]);
    lemma_total_concat(rp, back);
    assert(refund_transfers(a, id) =~= rp + back);
    assert(all_from(reveal_transfers(a, id), s.contract));
    assert(all_from(refund_transfers(a, id), s.contract));
}

/// One active swap per IP: an IP lock always belongs to an open swap of
/// that IP (pending, accepted or disputed), and while it is held no further
/// swap of the IP can be listed, whoever asks and at whatever price. Every
/// swap the listing entry points create takes the lock, and settling a
/// swap releases it.
pub proof fn law_one_active_swap_per_ip(m: &AtomicSwap, reg: RegistryState, ip_id: u64, seller: Addr, price: i128)
    requires
        m.wf(),
        m@.active_swaps.contains_key(ip_id),
    ensures
        listing_error(m@, reg, ip_id, seller, price) is Some,
        m@.has_swap(m@.active_swaps[ip_id]),
        m@.record(m@.active_swaps[ip_id]).ip_id == ip_id,
        m@.record(m@.active_swaps[ip_id]).status.is_open(),
{
}

/// Settling a swap (completing it, refunding it for an invalid key, or
/// cancelling it) releases its IP: the IP can be listed again.
pub proof fn law_settlement_releases_ip(s: SwapState, id: u64, now: u64, reg: RegistryState, seller: Addr, price: i128)
    requires
        s.has_swap(id),
    ensures
        listing_error(completed_state(s, id, now), reg, s.record(id).ip_id, seller, price) != Some(
            ContractError::SwapExists,
        ),
        listing_error(refunded_state(s, id, now), reg, s.record(id).ip_id, seller, price) != Some(
            ContractError::SwapExists,
        ),
        listing_error(cancelled_state(s, id, now), reg, s.record(id).ip_id, seller, price) != Some(
            ContractError::SwapExists,
        ),
{
}

/// The lifecycle runs one way: a pending swap cannot be revealed, an
/// accepted swap can no longer be accepted or cancelled as pending, and a
/// completed swap can be neither accepted, revealed nor cancelled again.
pub proof fn law_lifecycle_runs_forward(
    s: SwapState,
    reg: RegistryState,
    id: u64,
    now: u64,
    later: u64,
    secret: Bytes32,
    blinding: Bytes32,
)
    requires
        accept_error(s, id, now) is None,
    ensures
        ({
            let seller = s.record(id).seller;
            let a = accepted_state(s, id, now);
            let c = completed_state(a, id, later);
            &&& reveal_error(s, reg, id, seller, secret, blinding, now) == Some(ContractError::NotAccepted)
            &&& accept_error(a, id, later) == Some(ContractError::NotPending)
            &&& cancel_error(a, id, seller) == Some(ContractError::OnlyPending)
            &&& accept_error(c, id, later) == Some(ContractError::NotPending)
            &&& reveal_error(c, reg, id, seller, secret, blinding, later) == Some(ContractError::NotAccepted)
            &&& cancel_error(c, id, seller) == Some(ContractError::OnlyPending)
        }),
{
}

/// In every well-formed marketplace each swap's history ends with its
/// current status, no price is negative, and every reputation lies within
/// 0..=100.
pub proof fn law_history_and_reputation(m: &AtomicSwap, id: u64, who: Addr)
    requires
        m.wf(),
        m@.has_swap(id),
    ensures
        m@.swaps[id as int].history.len() > 0,
        m@.swaps[id as int].history.last().status == m@.record(id).status,
        m@.record(id).price >= 0,
        m@.reputation_of(who) <= MAX_REPUTATION,
{
    assert(m@.swaps[id as int].is_consistent());
}

/// The swap indexes are faithful: every swap listed under a seller, a buyer
/// or an IP exists and has that seller, buyer or IP.
pub proof fn law_swap_indexes_are_faithful(m: &AtomicSwap, who: Addr, ip_id: u64)
    requires
        m.wf(),
    ensures
        forall|k: int|
            0 <= k < listed(m@.seller_swaps, who.id).len() ==> m@.has_swap(
                #[trigger] listed(m@.seller_swaps, who.id)[k],
            ) && m@.record(listed(m@.seller_swaps, who.id)[k]).seller == who,
        forall|k: int|
            0 <= k < listed(m@.buyer_swaps, who.id).len() ==> m@.has_swap(
                #[trigger] listed(m@.buyer_swaps, who.id)[k],
            ) && m@.record(listed(m@.buyer_swaps, who.id)[k]).buyer == who,
        forall|k: int|
            0 <= k < listed(m@.ip_swaps, ip_id).len() ==> m@.has_swap(#[trigger] listed(m@.ip_swaps, ip_id)[k])
                && m@.record(listed(m@.ip_swaps, ip_id)[k]).ip_id == ip_id,
{
    let s = m@;
    assert forall|k: int| 0 <= k < listed(s.seller_swaps, who.id).len() implies s.has_swap(
        #[trigger] listed(s.seller_swaps, who.id)[k],
    ) && s.record(listed(s.seller_swaps, who.id)[k]).seller == who by {
        assert(s.sells(who.id, s.seller_swaps[who.id][k]));
    }
    assert forall|k: int| 0 <= k < listed(s.buyer_swaps, who.id).len() implies s.has_swap(
        #[trigger] listed(s.buyer_swaps, who.id)[k],
    ) && s.record(listed(s.buyer_swaps, who.id)[k]).buyer == who by {
        assert(s.buys(who.id, s.buyer_swaps[who.id][k]));
    }
    assert forall|k: int| 0 <= k < listed(s.ip_swaps, ip_id).len() implies s.has_swap(
        #[trigger] listed(s.ip_swaps, ip_id)[k],
    ) && s.record(listed(s.ip_swaps, ip_id)[k]).ip_id == ip_id by {
        assert(s.trades(ip_id, s.ip_swaps[ip_id][k]));
    }
}

/// Whether `ts` holds a payment of `amount` of `token` from `from` to `to`.
pub open spec fn pays(ts: Seq<Transfer>, token: Addr, from: Addr, to: Addr, amount: int) -> bool {
    exists|k: int|
        0 <= k < ts.len() && (#[trigger] ts[k]).token == token && ts[k].from == from && ts[k].to == to && ts[k].amount
            == amount
}

/// The fee at `bps` basis points of a non-negative amount lies between
/// nothing and the amount.
proof fn lemma_bps_in_range(amount: int, bps: int)
    requires
        amount >= 0,
        0 <= bps <= 10000,
    ensures
        0 <= amount * bps / 10000 <= amount,
{
    assert(0 <= amount * bps / 10000 <= amount) by (nonlinear_arith)
        requires amount >= 0, 0 <= bps <= 10000;
}

/// Completing a swap pays every party its share out of escrow: the
/// treasury gets the protocol fee (price × fee rate / 10 000, rounded down),
/// the swap's referrer, when it has one, gets the referral fee (price ×
/// referral rate / 10 000), and the seller gets the rest of the price. The
/// same holds of a batch completion, whose fee breakdown adds up to the
/// price.
pub proof fn law_completion_pays_each_party(s: SwapState, id: u64)
    requires
        s.inv(),
        s.has_swap(id),
    ensures
        ({
            let r = s.record(id);
            let fee = r.price * s.config.protocol_fee_bps / 10000;
            let referral = if r.referrer is Some { r.price * s.config.referral_fee_bps / 10000 } else { 0 };
            let single = reveal_transfers(s, id);
            let batch = batch_reveal_transfers(s, id);
            let b = fee_breakdown(s, id);
            &&& fee > 0 ==> pays(single, r.token, s.contract, s.config.treasury, fee)
            &&& fee > 0 ==> pays(batch, r.token, s.contract, s.config.treasury, fee)
            &&& referral > 0 ==> pays(single, r.token, s.contract, r.referrer.unwrap(), referral)
            &&& referral > 0 ==> pays(batch, r.token, s.contract, r.referrer.unwrap(), referral)
            &&& pays(single, r.token, s.contract, r.seller, r.price - fee - referral)
            &&& pays(batch, r.token, s.contract, r.seller, r.price - fee - referral)
            &&& b.protocol_fee == fee && b.referral_fee == referral
            &&& b.protocol_fee + b.referral_fee + b.seller_amount == r.price
        }),
{
    let e = s.swaps[id as int];
    let r = e.record;
    assert(e.is_consistent());
    let p = r.price as int;
    let fee = p * s.config.protocol_fee_bps / 10000;
    let referral = if r.referrer is Some { p * s.config.referral_fee_bps / 10000 } else { 0 };
    lemma_bps_in_range(p, s.config.protocol_fee_bps as int);
    lemma_bps_in_range(p, s.config.referral_fee_bps as int);
    assert(protocol_fee(s, r.price) == fee);
    assert(referral_fee(s, r.price, r.referrer) == referral);
    let f = transfer_if(fee > 0, release(s, r.token, s.config.treasury, fee as i128));
    let rf = transfer_if(referral > 0, release(s, r.token, r.referrer.unwrap(), referral as i128));
    let sl = seq![release(s, r.token, r.seller, (p - fee - referral) as i128)];
    let back = transfer_if(
        r.collateral_amount > 0 && e.collateral is Some,
        release(s, r.token, r.buyer, e.collateral.unwrap()),
    );
    let back2 = transfer_if(
        r.collateral_amount > 0 && e.collateral is Some,
        release(s, r.token, r.seller, e.collateral.unwrap()),
    );
    let single = reveal_transfers(s, id);
    let batch = batch_reveal_transfers(s, id);
    assert(single =~= f + rf + sl + back);
    assert(batch =~= sl + f + rf + back2);
    if fee > 0 {
        assert(single[0] == f[0]);
        assert(batch[1] == f[0]);
    }
    if referral > 0 {
        assert(single[f.len() as int] == rf[0]);
        assert(batch[1 + f.len() as int] == rf[0]);
    }
    assert(single[(f.len() + rf.len()) as int] == sl[0]);
    assert(batch[0] == sl[0]);
}

/// Either party may cancel a pending swap, and no one else: the seller's and
/// the buyer's cancellation pass, alone or in a batch, and leave the swap
/// Cancelled with its IP unlocked; anyone else is refused with
/// `OnlySellerBuyer`.
pub proof fn law_either_party_cancels_pending(s: SwapState, id: u64, who: Addr, now: u64)
    requires
        s.has_swap(id),
        s.record(id).status == SwapStatus::Pending,
    ensures
        ({
            let r = s.record(id);
            let c = cancelled_state(s, id, now);
            &&& (who == r.seller || who == r.buyer) ==> cancel_error(s, id, who) is None
            &&& (who == r.seller || who == r.buyer) ==> cancel_item_error(s, seq![id], who, 0) is None
            &&& (who != r.seller && who != r.buyer) ==> cancel_error(s, id, who) == Some(ContractError::OnlySellerBuyer)
            &&& c.record(id).status == SwapStatus::Cancelled
            &&& !c.active_swaps.contains_key(r.ip_id)
        }),
{
    assert(!super::batch::repeated(seq![id], 0));
}

/// An arbitrator's ruling pays the side it rules for: for the seller, the
/// seller receives the price less the protocol fee (price × fee rate /
/// 10 000) and the buyer receives nothing; for the buyer, the buyer gets
/// the price back and every payment goes to the buyer. The swap ends
/// Completed or Cancelled accordingly. The same holds of batch arbitration.
pub proof fn law_arbitration_pays_the_side_it_rules_for(s: SwapState, id: u64, now: u64)
    requires
        s.inv(),
        s.has_swap(id),
    ensures
        ({
            let r = s.record(id);
            let fee = r.price * s.config.protocol_fee_bps / 10000;
            let for_seller = arbitration_transfers(s, id, false);
            let for_buyer = arbitration_transfers(s, id, true);
            let batch_seller = batch_arbitrate_transfers(s, id, false);
            let batch_buyer = batch_arbitrate_transfers(s, id, true);
            &&& pays(for_seller, r.token, s.contract, r.seller, r.price - fee)
            &&& pays(batch_seller, r.token, s.contract, r.seller, r.price - fee)
            &&& (r.buyer != r.seller && r.buyer != s.config.treasury) ==> forall|k: int|
                0 <= k < for_seller.len() ==> (#[trigger] for_seller[k]).to != r.buyer
            &&& (r.buyer != r.seller && r.buyer != s.config.treasury) ==> forall|k: int|
                0 <= k < batch_seller.len() ==> (#[trigger] batch_seller[k]).to != r.buyer
            &&& pays(for_buyer, r.token, s.contract, r.buyer, r.price as int)
            &&& pays(batch_buyer, r.token, s.contract, r.buyer, r.price as int)
            &&& forall|k: int| 0 <= k < for_buyer.len() ==> (#[trigger] for_buyer[k]).to == r.buyer
            &&& forall|k: int| 0 <= k < batch_buyer.len() ==> (#[trigger] batch_buyer[k]).to == r.buyer
            &&& arbitrated_state(s, id, false, now).record(id).status == SwapStatus::Completed
            &&& arbitrated_state(s, id, true, now).record(id).status == SwapStatus::Cancelled
        }),
{
    let e = s.swaps[id as int];
    let r = e.record;
    assert(e.is_consistent());
    let p = r.price as int;
    let fee = p * s.config.protocol_fee_bps / 10000;
    lemma_bps_in_range(p, s.config.protocol_fee_bps as int);
    assert(protocol_fee(s, r.price) == fee);
    let held = r.collateral_amount > 0 && e.collateral is Some;
    let to_seller = transfer_if(held, release(s, r.token, r.seller, e.collateral.unwrap()));
    let to_buyer = transfer_if(held, release(s, r.token, r.buyer, e.collateral.unwrap()));
    let share = seq![release(s, r.token, r.seller, (p - fee) as i128)];
    let f = transfer_if(fee > 0, release(s, r.token, s.config.treasury, fee as i128));
    let price_back = seq![release(s, r.token, r.buyer, r.price)];
    let for_seller = arbitration_transfers(s, id, false);
    let batch_seller = batch_arbitrate_transfers(s, id, false);
    assert(for_seller =~= to_seller + share + f);
    assert(batch_seller =~= share + f + to_seller);
    assert(for_seller[to_seller.len() as int] == share[0]);
    assert(batch_seller[0] == share[0]);
    assert(arbitration_transfers(s, id, true) =~= price_back + to_buyer);
    assert(batch_arbitrate_transfers(s, id, true) =~= price_back + to_buyer);
    assert(arbitration_transfers(s, id, true)[0] == price_back[0]);
}

/// A bid is accepted only if it reaches the auction's minimum and beats the
/// highest bid so far. So in every well-formed marketplace an auction's
/// highest bid is nothing until someone bids and from then on at least the
/// minimum, and a won auction sells the IP for at least the minimum.
pub proof fn law_bids_reach_the_minimum(m: &AtomicSwap, id: u64, amount: i128, now: u64, winner: Addr)
    requires
        m.wf(),
        m@.has_auction(id),
    ensures
        ({
            let a = m@.auctions[id as int];
            &&& bid_error(m@, id, amount, now) is None ==> amount >= a.min_bid && amount > a.highest_bid
            &&& a.highest_bidder is None ==> a.highest_bid == 0
            &&& a.highest_bidder is Some ==> a.highest_bid >= a.min_bid
            &&& a.highest_bidder is Some ==> won_record(a, winner, now).price >= a.min_bid
        }),
{
    assert(m@.auctions[id as int].bids_ok());
}

/// A key opens a swapped IP exactly when SHA-256 of the secret followed by
/// the blinding factor is the IP's commitment hash.
pub proof fn law_key_is_secret_then_blinding(reg: RegistryState, ip_id: u64, secret: Bytes32, blinding: Bytes32)
    ensures
        key_opens(reg, ip_id, secret, blinding) <==> (reg.has_ip(ip_id) && reg.record(ip_id).commitment_hash@
            == sha256_spec(secret@ + blinding@)),
{
}

/// Accepting a swap charges the buyer: every payment goes from the buyer
/// into escrow, and one of them is the price.
pub proof fn law_acceptance_charges_the_buyer(s: SwapState, id: u64)
    requires
        s.has_swap(id),
    ensures
        ({
            let r = s.record(id);
            let t = accept_transfers(s, id);
            &&& pays(t, r.token, r.buyer, s.contract, r.price as int)
            &&& forall|k: int| 0 <= k < t.len() ==> (#[trigger] t[k]).from == r.buyer && t[k].to == s.contract
        }),
{
    let r = s.record(id);
    let c = transfer_if(r.collateral_amount > 0, deposit(s, r.token, r.buyer, r.collateral_amount));
    let mid = seq![deposit(s, r.token, r.buyer, r.price)];
    let p = transfer_if(r.insurance_enabled && r.insurance_premium > 0, deposit(s, r.token, r.buyer, r.insurance_premium));
    assert(accept_transfers(s, id) =~= c + mid + p);
    assert(accept_transfers(s, id)[c.len() as int] == mid[0]);
}

/// A refund returns the price to the buyer, and every payment of it goes
/// from escrow to the buyer (the price, then any held collateral).
pub proof fn law_refund_returns_the_price(s: SwapState, id: u64)
    requires
        s.has_swap(id),
    ensures
        ({
            let r = s.record(id);
            let t = refund_transfers(s, id);
            &&& pays(t, r.token, s.contract, r.buyer, r.price as int)
            &&& forall|k: int| 0 <= k < t.len() ==> (#[trigger] t[k]).to == r.buyer && t[k].from == s.contract
        }),
{
    let e = s.swaps[id as int];
    let r = e.record;
    let first = seq![release(s, r.token, r.buyer, r.price)];
    let back = transfer_if(
        r.collateral_amount > 0 && e.collateral is Some,
        release(s, r.token, r.buyer, e.collateral.unwrap()),
    );
    assert(refund_transfers(s, id) =~= first + back);
    assert(refund_transfers(s, id)[0] == first[0]);
}

/// A seller who settles directly (a valid key in `verify_and_complete_swap`)
/// receives the price less the protocol fee (price × fee rate / 10 000),
/// the treasury receives the fee, and the buyer receives nothing.
pub proof fn law_direct_settlement_pays_the_seller(s: SwapState, id: u64)
    requires
        s.inv(),
        s.has_swap(id),
    ensures
        ({
            let r = s.record(id);
            let fee = r.price * s.config.protocol_fee_bps / 10000;
            let t = seller_settlement(s, id);
            &&& pays(t, r.token, s.contract, r.seller, r.price - fee)
            &&& fee > 0 ==> pays(t, r.token, s.contract, s.config.treasury, fee)
            &&& (r.buyer != r.seller && r.buyer != s.config.treasury) ==> forall|k: int|
                0 <= k < t.len() ==> (#[trigger] t[k]).to != r.buyer
        }),
{
    let e = s.swaps[id as int];
    let r = e.record;
    assert(e.is_consistent());
    let p = r.price as int;
    let fee = p * s.config.protocol_fee_bps / 10000;
    lemma_bps_in_range(p, s.config.protocol_fee_bps as int);
    assert(protocol_fee(s, r.price) == fee);
    let share = seq![release(s, r.token, r.seller, (p - fee) as i128)];
    let f = transfer_if(fee > 0, release(s, r.token, s.config.treasury, fee as i128));
    let back = transfer_if(r.collateral_amount > 0 && e.collateral is Some, release(s, r.token, r.seller, e.collateral.unwrap()));
    let t = seller_settlement(s, id);
    assert(t =~= share + f + back);
    assert(t[0] == share[0]);
    if fee > 0 {
        assert(t[1] == f[0]);
    }
}

/// Resolving a dispute pays the side it favours: a refund sends the price
/// back to the buyer and nothing elsewhere; otherwise the seller receives
/// the price less the protocol fee, the treasury the fee, and the buyer
/// nothing.
pub proof fn law_dispute_resolution_pays_the_winner(s: SwapState, id: u64)
    requires
        s.inv(),
        s.has_swap(id),
    ensures
        ({
            let r = s.record(id);
            let fee = r.price * s.config.protocol_fee_bps / 10000;
            let refund = dispute_resolution_transfers(s, id, true);
            let payout = dispute_resolution_transfers(s, id, false);
            &&& pays(refund, r.token, s.contract, r.buyer, r.price as int)
            &&& forall|k: int| 0 <= k < refund.len() ==> (#[trigger] refund[k]).to == r.buyer
            &&& pays(payout, r.token, s.contract, r.seller, r.price - fee)
            &&& fee > 0 ==> pays(payout, r.token, s.contract, s.config.treasury, fee)
            &&& (r.buyer != r.seller && r.buyer != s.config.treasury) ==> forall|k: int|
                0 <= k < payout.len() ==> (#[trigger] payout[k]).to != r.buyer
        }),
{
    let e = s.swaps[id as int];
    let r = e.record;
    assert(e.is_consistent());
    let p = r.price as int;
    let fee = p * s.config.protocol_fee_bps / 10000;
    lemma_bps_in_range(p, s.config.protocol_fee_bps as int);
    assert(protocol_fee(s, r.price) == fee);
    let f = transfer_if(fee > 0, release(s, r.token, s.config.treasury, fee as i128));
    let share = seq![release(s, r.token, r.seller, (p - fee) as i128)];
    let payout = dispute_resolution_transfers(s, id, false);
    assert(payout =~= f + share);
    assert(payout[f.len() as int] == share[0]);
    if fee > 0 {
        assert(payout[0] == f[0]);
    }
    assert(dispute_resolution_transfers(s, id, true)[0] == release(s, r.token, r.buyer, r.price));
}

/// Rolling a completed swap back refunds the buyer 90 % of the price
/// (rounded down) and pays the rest to the treasury; no one else is paid.
pub proof fn law_rollback_refunds_ninety_percent(s: SwapState, id: u64)
    requires
        s.inv(),
        s.has_swap(id),
    ensures
        ({
            let r = s.record(id);
            let back = r.price * 90 / 100;
            let t = rollback_transfers(s, id);
            &&& pays(t, r.token, s.contract, r.buyer, back)
            &&& r.price - back > 0 ==> pays(t, r.token, s.contract, s.config.treasury, r.price - back)
            &&& forall|k: int| 0 <= k < t.len() ==> (#[trigger] t[k]).to == r.buyer || t[k].to == s.config.treasury
        }),
{
    let e = s.swaps[id as int];
    let r = e.record;
    assert(e.is_consistent());
    let p = r.price as int;
    let back = p * 90 / 100;
    assert(0 <= back <= p) by (nonlinear_arith)
        requires p >= 0, back == p * 90 / 100;
    let first = seq![release(s, r.token, r.buyer, back as i128)];
    let rest = transfer_if(p - back > 0, release(s, r.token, s.config.treasury, (p - back) as i128));
    let t = rollback_transfers(s, id);
    assert(t =~= first + rest);
    assert(t[0] == first[0]);
    if p - back > 0 {
        assert(t[1] == rest[0]);
    }
}

/// Refunds after a dispute timeout and insurance payouts go to the buyer:
/// a timed-out dispute returns the price, and an insurance claim pays the
/// price, or what the token's pool holds if less, in a single payment.
pub proof fn law_refunds_and_claims_pay_the_buyer(s: SwapState, id: u64)
    requires
        s.has_swap(id),
    ensures
        ({
            let r = s.record(id);
            let pool = s.pool_of(r.token);
            let t = price_refund(s, id);
            let c = insurance_payout(s, id);
            &&& t.len() == 1 && t[0].to == r.buyer && t[0].from == s.contract && t[0].amount == r.price
            &&& c.len() == 1 && c[0].to == r.buyer && c[0].from == s.contract
            &&& c[0].amount <= r.price && c[0].amount <= pool
            &&& (c[0].amount == r.price || c[0].amount == pool)
        }),
{
}

/// A bid moves escrow between bidders: the new bidder pays the bid into
/// escrow, and the bidder it outbids, if any, gets back exactly their bid;
/// nothing else is paid.
pub proof fn law_bid_repays_the_outbid_bidder(s: SwapState, id: u64, bidder: Addr, amount: i128)
    requires
        s.has_auction(id),
    ensures
        ({
            let a = s.auctions[id as int];
            let t = bid_transfers(s, id, bidder, amount);
            &&& pays(t, a.token, bidder, s.contract, amount as int)
            &&& a.highest_bidder is Some ==> pays(t, a.token, s.contract, a.highest_bidder.unwrap(), a.highest_bid as int)
            &&& t.len() == (if a.highest_bidder is Some { 2int } else { 1int })
        }),
{
    let a = s.auctions[id as int];
    let back = transfer_if(a.highest_bidder is Some, release(s, a.token, a.highest_bidder.unwrap(), a.highest_bid));
    let new_bid = seq![deposit(s, a.token, bidder, amount)];
    let t = bid_transfers(s, id, bidder, amount);
    assert(t =~= back + new_bid);
    assert(t[back.len() as int] == new_bid[0]);
    if a.highest_bidder is Some {
        assert(t[0] == back[0]);
    }
}

/// Payments into a swap come from its buyer: an instalment, a scheduled
/// payment, an escrow deposit or a conditional or partial acceptance is one
/// payment of the stated amount from the buyer into escrow, and a batch
/// acceptance charges only the buyer, the price among its payments.
pub proof fn law_payments_come_from_the_buyer(s: SwapState, id: u64, amount: i128)
    requires
        s.has_swap(id),
    ensures
        ({
            let r = s.record(id);
            let one = buyer_payment(s, id, amount);
            let batch = batch_accept_transfers(s, id);
            &&& one.len() == 1 && one[0].from == r.buyer && one[0].to == s.contract && one[0].amount == amount
            &&& one[0].token == r.token
            &&& pays(batch, r.token, r.buyer, s.contract, r.price as int)
            &&& forall|k: int| 0 <= k < batch.len() ==> (#[trigger] batch[k]).from == r.buyer && batch[k].to == s.contract
        }),
{
    let e = s.swaps[id as int];
    let r = e.record;
    let c = transfer_if(r.collateral_amount > 0 && e.collateral is None, deposit(s, r.token, r.buyer, r.collateral_amount));
    let mid = seq![deposit(s, r.token, r.buyer, r.price)];
    let p = transfer_if(r.insurance_enabled && r.insurance_premium > 0, deposit(s, r.token, r.buyer, r.insurance_premium));
    assert(batch_accept_transfers(s, id) =~= c + mid + p);
    assert(batch_accept_transfers(s, id)[c.len() as int] == mid[0]);
}

/// The steps of the lifecycle set the status they name: acceptance makes a
/// swap Accepted at the current time, completion makes it Completed and
/// raises both parties' reputation by five (to at most 100), an
/// invalid-key refund makes it Cancelled, and each of the last two
/// releases the IP.
pub proof fn law_lifecycle_steps_set_their_status(s: SwapState, id: u64, now: u64)
    requires
        s.inv(),
        s.has_swap(id),
    ensures
        ({
            let r = s.record(id);
            let a = accepted_state(s, id, now);
            let c = completed_state(s, id, now);
            let f = refunded_state(s, id, now);
            &&& a.record(id).status == SwapStatus::Accepted && a.record(id).accept_timestamp == now
            &&& c.record(id).status == SwapStatus::Completed
            &&& r.seller != r.buyer ==> c.reputation_of(r.seller) == (if s.reputation_of(r.seller) + 5 > 100 {
                100
            } else {
                s.reputation_of(r.seller) + 5
            })
            &&& r.seller != r.buyer ==> c.reputation_of(r.buyer) == (if s.reputation_of(r.buyer) + 5 > 100 {
                100
            } else {
                s.reputation_of(r.buyer) + 5
            })
            &&& f.record(id).status == SwapStatus::Cancelled
            &&& !c.active_swaps.contains_key(r.ip_id)
            &&& !f.active_swaps.contains_key(r.ip_id)
        }),
{
}

} // verus!
