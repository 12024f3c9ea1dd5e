//! The contract's state invariant and the laws that relate its operations.

use vstd::prelude::*;
use crate::behavior::{
    amount_step, bid_step, cancellable, cancellable_by, conflicting, find_from, initial_phase,
    is_sniper, lemma_find_from, refund, reveal_step, revealed_by, sealed_bid,
};
use crate::contract::{
    evaluation, extend_spec, gated, in_phase, initialize_spec, place_bid_spec,
    place_sealed_bid_spec, resolve_spec, settled, start_spec, ContractState,
};
use crate::conservation::{custody, lemma_total_push, record_custody};
use crate::types::{Address, AuctionError, AuctionPhase, AuctionSettings, AuctionState, BidData, Transfer};

verus! {

/// A record is well formed: a positive amount and duration, live bids and
/// deposits with positive amounts, and at most one bid per buyer.
pub open spec fn record_valid(d: AuctionState) -> bool {
    &&& d.settings.amount > 0
    &&& d.settings.duration > 0
    &&& forall|j: int| 0 <= j < d.bids.len() ==> (#[trigger] d.bids[j]).amount > 0
    &&& forall|i: int, j: int|
        0 <= i < j < d.bids.len() ==> (#[trigger] d.bids[i]).buyer != (#[trigger] d.bids[j]).buyer
    &&& forall|j: int| 0 <= j < d.deposits.len() ==> (#[trigger] d.deposits[j]).amount > 0
}

/// The contract's state invariant: every running auction has a well-formed
/// record under its own id and a phase, the committing phase belongs to
/// sealed-bid auctions only, and auctions run only once the administrator is
/// set.
pub open spec fn valid(h: ContractState) -> bool {
    &&& forall|id: u64| #[trigger]
        h.auctions.contains_key(id) ==> {
            &&& h.auctions[id].id == id
            &&& record_valid(h.auctions[id])
            &&& h.admin is Some
            &&& h.phases.contains_key(id)
            &&& h.phases[id] == AuctionPhase::Committing ==> sealed_bid(h.auctions[id].settings)
        }
    &&& forall|id: u64| #[trigger] h.phases.contains_key(id) ==> h.auctions.contains_key(id)
}

pub proof fn lemma_empty_valid(h: ContractState)
    requires
        h.auctions == Map::<u64, AuctionState>::empty(),
        h.phases == Map::<u64, AuctionPhase>::empty(),
    ensures
        valid(h),
{
}

pub proof fn lemma_initialize_valid(h: ContractState, admin: Address, anti: u64, rate: i128, ext: bool)
    requires
        valid(h),
        initialize_spec(h, admin, anti, rate, ext) is Ok,
    ensures
        valid(initialize_spec(h, admin, anti, rate, ext)->Ok_0),
{
}

pub proof fn lemma_start_valid(h: ContractState, settings: AuctionSettings, id: u64, now: u64)
    requires
        valid(h),
        start_spec(h, settings, id, now) is Ok,
    ensures
        valid(start_spec(h, settings, id, now)->Ok_0.0),
{
    let h2 = start_spec(h, settings, id, now)->Ok_0.0;
    assert forall|k: u64| #[trigger] h2.phases.contains_key(k) implies h2.auctions.contains_key(k) by {
        if k != id {
            assert(h.phases.contains_key(k));
        }
    }
}

pub proof fn lemma_resolve_valid(h: ContractState, id: u64, now: u64)
    requires
        valid(h),
        resolve_spec(h, id, now) is Ok,
    ensures
        valid(resolve_spec(h, id, now)->Ok_0.0),
{
}

pub proof fn lemma_sealed_bid_valid(h: ContractState, id: u64, buyer: Address)
    requires
        valid(h),
        place_sealed_bid_spec(h, id, buyer) is Ok,
    ensures
        valid(place_sealed_bid_spec(h, id, buyer)->Ok_0.0),
{
    let h2 = place_sealed_bid_spec(h, id, buyer)->Ok_0.0;
    let d = h.auctions[id];
    let d2 = h2.auctions[id];
    assert forall|j: int| 0 <= j < d2.deposits.len() implies (#[trigger] d2.deposits[j]).amount
        > 0 by {
        if j < d.deposits.len() {
            assert(d2.deposits[j] == d.deposits[j]);
        }
    }
    assert(record_valid(d2));
}

pub proof fn lemma_extend_valid(h: ContractState, id: u64, duration: u64)
    requires
        valid(h),
        extend_spec(h, id, duration) is Ok,
    ensures
        valid(extend_spec(h, id, duration)->Ok_0.0),
{
    let h2 = extend_spec(h, id, duration)->Ok_0.0;
    if h2 != h {
        let d2 = h2.auctions[id];
        assert(record_valid(d2));
    }
}

/// A bid step keeps a record well formed.
pub proof fn lemma_bid_step_valid(
    d: AuctionState,
    contract: Address,
    anti_snipe_time: u64,
    buyer: Address,
    amount: i128,
    revealed: bool,
    now: u64,
)
    requires
        record_valid(d),
        bid_step(d, contract, anti_snipe_time, buyer, amount, revealed, now) is Ok,
    ensures
        record_valid(bid_step(d, contract, anti_snipe_time, buyer, amount, revealed, now)->Ok_0.0),
        bid_step(d, contract, anti_snipe_time, buyer, amount, revealed, now)->Ok_0.0.id == d.id,
        bid_step(d, contract, anti_snipe_time, buyer, amount, revealed, now)->Ok_0.0.settings
            == (AuctionSettings {
            duration: bid_step(
                d,
                contract,
                anti_snipe_time,
                buyer,
                amount,
                revealed,
                now,
            )->Ok_0.0.settings.duration,
            ..d.settings
        }),
{
    let s = d.settings;
    let first = if sealed_bid(s) {
        reveal_step(d, contract, buyer, revealed)
    } else {
        Ok((d, Seq::<Transfer>::empty()))
    };
    let d1 = first->Ok_0.0;
    if sealed_bid(s) {
        lemma_find_from(d.deposits, revealed_by(s, buyer), 0);
        let k = find_from(d.deposits, revealed_by(s, buyer), 0)->Some_0;
        assert forall|j: int| 0 <= j < d1.deposits.len() implies (#[trigger] d1.deposits[j]).amount
            > 0 by {
            if j < k {
                assert(d1.deposits[j] == d.deposits[j]);
            } else {
                assert(d1.deposits[j] == d.deposits[j + 1]);
            }
        }
    }
    assert(record_valid(d1));
    let d2 = amount_step(d1, contract, anti_snipe_time, buyer, amount, now)->Ok_0.0;
    if amount == 0 {
        lemma_find_from(d1.bids, cancellable_by(buyer), 0);
        let k = find_from(d1.bids, cancellable_by(buyer), 0)->Some_0;
        assert(d2.bids == d1.bids.remove(k));
        assert forall|j: int| 0 <= j < d2.bids.len() implies (#[trigger] d2.bids[j]).amount > 0 by {
            if j < k {
                assert(d2.bids[j] == d1.bids[j]);
            } else {
                assert(d2.bids[j] == d1.bids[j + 1]);
            }
        }
        assert forall|i: int, j: int| 0 <= i < j < d2.bids.len() implies (#[trigger] d2.bids[i]).buyer
            != (#[trigger] d2.bids[j]).buyer by {
            let i1 = if i < k {
                i
            } else {
                i + 1
            };
            let j1 = if j < k {
                j
            } else {
                j + 1
            };
            assert(d2.bids[i] == d1.bids[i1]);
            assert(d2.bids[j] == d1.bids[j1]);
        }
    } else {
        let n = d1.bids.len() as int;
        assert forall|j: int| 0 <= j < d2.bids.len() implies (#[trigger] d2.bids[j]).amount > 0 by {
            if j < n {
                assert(d2.bids[j] == d1.bids[j]);
            }
        }
        assert forall|i: int, j: int| 0 <= i < j < d2.bids.len() implies (#[trigger] d2.bids[i]).buyer
            != (#[trigger] d2.bids[j]).buyer by {
            assert(d2.bids[i] == d1.bids[i]);
            if j < n {
                assert(d2.bids[j] == d1.bids[j]);
            } else {
                assert(!conflicting(d1.bids[i], buyer));
            }
        }
    }
}

pub proof fn lemma_place_bid_valid(
    h: ContractState,
    id: u64,
    buyer: Address,
    amount: i128,
    revealed: bool,
    now: u64,
)
    requires
        valid(h),
        place_bid_spec(h, id, buyer, amount, revealed, now) is Ok,
    ensures
        valid(place_bid_spec(h, id, buyer, amount, revealed, now)->Ok_0.0),
{
    let h1 = gated(h, id, now);
    let d = h1.auctions[id];
    assert(valid(h1));
    match evaluation(h1, d, now) {
        Ok(Some(ts)) => {},
        _ => {
            let a = h1.admin->Some_0;
            lemma_bid_step_valid(d, h1.address, a.anti_snipe_time, buyer, amount, revealed, now);
            let d2 = bid_step(d, h1.address, a.anti_snipe_time, buyer, amount, revealed, now)->Ok_0.0;
            let h2 = ContractState { auctions: h1.auctions.insert(id, d2), ..h1 };
            assert(valid(h2));
        },
    }
}

/// Starting an auction with valid settings under an unused id records exactly
/// those settings, the start time, and no bids or deposits. Durations within
/// the record lifetime's buffer of `u64::MAX` are refused and left out.
pub proof fn lemma_start_then_get(h: ContractState, settings: AuctionSettings, id: u64, now: u64)
    requires
        h.admin is Some,
        !h.auctions.contains_key(id),
        settings.amount > 0,
        settings.duration > 0,
        settings.duration + crate::behavior::EXPIRATION_BUFFER + crate::behavior::LEDGERS_PER_MINUTE
            - 1 <= u64::MAX,
    ensures
        start_spec(h, settings, id, now) is Ok,
        ({
            let h2 = start_spec(h, settings, id, now)->Ok_0.0;
            &&& h2.auctions.contains_key(id)
            &&& h2.auctions[id].settings == settings
            &&& h2.auctions[id].start_time == now
            &&& h2.auctions[id].id == id
            &&& h2.auctions[id].bids.len() == 0
            &&& h2.auctions[id].deposits.len() == 0
            &&& h2.phases[id] == initial_phase(settings)
        }),
{
}

/// A bid below the reserve price (and not a cancellation) is always refused,
/// unless the auction ends before the bid is looked at.
pub proof fn lemma_bid_below_reserve_fails(
    h: ContractState,
    id: u64,
    buyer: Address,
    amount: i128,
    revealed: bool,
    now: u64,
)
    requires
        h.auctions.contains_key(id),
        amount != 0,
        amount < h.auctions[id].settings.reserve_price,
        !(evaluation(gated(h, id, now), h.auctions[id], now) matches Ok(Some(_))),
    ensures
        place_bid_spec(h, id, buyer, amount, revealed, now) is Err,
{
}

/// On a running auction that does not end first, a bid at or above the
/// reserve from a buyer with no bid of their own is taken: the first transfer
/// moves exactly the amount into custody, and where the auction goes on its
/// record holds the new bid and its custody grew by exactly the amount. The
/// only refusal left is an integer overflow.
pub proof fn lemma_bid_at_reserve_accepted(h: ContractState, id: u64, buyer: Address, amount: i128, now: u64)
    requires
        h.auctions.contains_key(id),
        !sealed_bid(h.auctions[id].settings),
        in_phase(h, id, AuctionPhase::Running),
        h.admin is Some,
        evaluation(h, h.auctions[id], now) == Ok::<Option<Seq<Transfer>>, AuctionError>(None),
        amount > 0,
        amount >= h.auctions[id].settings.reserve_price,
        forall|j: int|
            0 <= j < h.auctions[id].bids.len() ==> !conflicting(
                #[trigger] h.auctions[id].bids[j],
                buyer,
            ),
    ensures
        ({
            let d = h.auctions[id];
            let a = h.admin->Some_0;
            match place_bid_spec(h, id, buyer, amount, false, now) {
                Ok((h2, ts)) => {
                    &&& ts.len() >= 1
                    &&& ts[0] == Transfer {
                        asset: d.settings.market,
                        from: buyer,
                        to: h.address,
                        amount,
                    }
                    &&& h2.auctions.contains_key(id) ==> {
                        &&& h2.auctions[id].bids == d.bids.push(
                            BidData { buyer, amount, sniper: is_sniper(d, a.anti_snipe_time, now) },
                        )
                        &&& record_custody(h2.auctions[id], d.settings.market) == record_custody(
                            d,
                            d.settings.market,
                        ) + amount
                    }
                },
                Err(e) => e == AuctionError::Overflow,
            }
        }),
{
    let d = h.auctions[id];
    let a = h.admin->Some_0;
    assert(gated(h, id, now) == h);
    let sniper = is_sniper(d, a.anti_snipe_time, now);
    lemma_total_push(d.bids, BidData { buyer, amount, sniper });
    match place_bid_spec(h, id, buyer, amount, false, now) {
        Ok((h2, ts)) => {
            let t1 = bid_step(d, h.address, a.anti_snipe_time, buyer, amount, false, now)->Ok_0.1;
            assert(t1 =~= seq![Transfer { asset: d.settings.market, from: buyer, to: h.address, amount }]);
        },
        Err(e) => {},
    }
}

/// A sniper bid is never the one that a cancellation removes.
pub proof fn lemma_sniper_bid_never_cancelled(bids: Seq<BidData>, k: int, buyer: Address)
    requires
        0 <= k < bids.len(),
        bids[k].sniper,
    ensures
        find_from(bids, cancellable_by(buyer), 0) != Some(k),
{
    lemma_find_from(bids, cancellable_by(buyer), 0);
}

/// A bid placed inside the anti-snipe window is marked as a sniper bid and
/// pushes the auction's end back by the anti-snipe time.
pub proof fn lemma_sniper_bid_extends(h: ContractState, id: u64, buyer: Address, amount: i128, now: u64)
    requires
        h.auctions.contains_key(id),
        !sealed_bid(h.auctions[id].settings),
        h.admin is Some,
        is_sniper(h.auctions[id], h.admin->Some_0.anti_snipe_time, now),
        evaluation(h, h.auctions[id], now) == Ok::<Option<Seq<Transfer>>, AuctionError>(None),
        place_bid_spec(h, id, buyer, amount, false, now) is Ok,
        amount != 0,
    ensures
        ({
            let h2 = place_bid_spec(h, id, buyer, amount, false, now)->Ok_0.0;
            let d = h.auctions[id];
            h2.auctions.contains_key(id) ==> {
                &&& h2.auctions[id].bids.last() == BidData { buyer, amount, sniper: true }
                &&& h2.auctions[id].settings.duration == d.settings.duration + h.admin->Some_0.anti_snipe_time
            }
        }),
{
    assert(gated(h, id, now) == h);
}

/// Once a bid is cancelled, the refund is its exact amount, to its buyer, and
/// the record no longer holds it; with no cancellable bid the cancellation is
/// refused. The only other refusal is an integer overflow.
pub proof fn lemma_cancel(h: ContractState, id: u64, buyer: Address, now: u64)
    requires
        h.auctions.contains_key(id),
        !sealed_bid(h.auctions[id].settings),
        in_phase(h, id, AuctionPhase::Running),
        h.admin is Some,
        evaluation(h, h.auctions[id], now) == Ok::<Option<Seq<Transfer>>, AuctionError>(None),
    ensures
        ({
            let d = h.auctions[id];
            match find_from(d.bids, cancellable_by(buyer), 0) {
                None => place_bid_spec(h, id, buyer, 0, false, now) == Err::<
                    (ContractState, Seq<Transfer>),
                    AuctionError,
                >(AuctionError::NoBidToCancel),
                Some(k) => match place_bid_spec(h, id, buyer, 0, false, now) {
                    Ok((h2, ts)) => {
                        &&& ts.len() >= 1
                        &&& ts[0] == refund(h.address, d.settings.market, d.bids[k])
                        &&& ts[0].to == buyer
                        &&& ts[0].amount == d.bids[k].amount
                        &&& h2.auctions.contains_key(id) ==> h2.auctions[id].bids == d.bids.remove(k)
                    },
                    Err(e) => e == AuctionError::Overflow,
                },
            }
        }),
{
    let d = h.auctions[id];
    let a = h.admin->Some_0;
    assert(gated(h, id, now) == h);
    lemma_find_from(d.bids, cancellable_by(buyer), 0);
    match place_bid_spec(h, id, buyer, 0, false, now) {
        Ok((h2, ts)) => {
            let (d2, t1) = bid_step(d, h.address, a.anti_snipe_time, buyer, 0, false, now)->Ok_0;
            let k = find_from(d.bids, cancellable_by(buyer), 0)->Some_0;
            assert(t1 =~= seq![refund(h.address, d.settings.market, d.bids[k])]);
        },
        Err(e) => {},
    }
}

/// A reveal whose amount and salt do not match the commitment is always
/// refused, unless the auction ends before the reveal is looked at.
pub proof fn lemma_wrong_reveal_fails(h: ContractState, id: u64, buyer: Address, amount: i128, now: u64)
    requires
        h.auctions.contains_key(id),
        sealed_bid(h.auctions[id].settings),
        !(evaluation(gated(h, id, now), h.auctions[id], now) matches Ok(Some(_))),
    ensures
        place_bid_spec(h, id, buyer, amount, false, now) is Err,
{
}

/// Once an auction is settled, resolving it again, or bidding on it, is
/// refused: nothing is paid twice, and no custody is left for it.
pub proof fn lemma_settled_stays_settled(
    h: ContractState,
    id: u64,
    now: u64,
    later: u64,
    buyer: Address,
    amount: i128,
    revealed: bool,
    asset: Address,
)
    requires
        resolve_spec(h, id, now) matches Ok((_, true, _)),
    ensures
        ({
            let h2 = resolve_spec(h, id, now)->Ok_0.0;
            &&& resolve_spec(h2, id, later) == Err::<(ContractState, bool, Seq<Transfer>), AuctionError>(
                AuctionError::AuctionNotFound,
            )
            &&& place_bid_spec(h2, id, buyer, amount, revealed, later) == Err::<
                (ContractState, Seq<Transfer>),
                AuctionError,
            >(AuctionError::AuctionNotFound)
            &&& custody(h2, id, asset) == 0
        }),
{
}

} // verus!
