//! Conservation of custodied value: every operation moves exactly as much
//! into or out of the contract's account as the auction's custody changes by,
//! so over an auction's whole life inflows and outflows are equal.

use vstd::prelude::*;
use crate::behavior::{
    admin_share, amount_step, bid_step, cancellable_by, find_from, lemma_find_from, refund,
    refunds, reveal_step, revealed_by, sealed_bid, settlement,
};
use crate::contract::{
    evaluation, extend_spec, gated, place_bid_spec, place_sealed_bid_spec, resolve_spec,
    settled, start_spec, ContractState,
};
use crate::types::{Address, AdminData, AuctionSettings, AuctionState, BidData, Transfer};

verus! {

/// Total of `asset` that the transfers move into `account`.
pub open spec fn inflow(ts: Seq<Transfer>, asset: Address, account: Address) -> int
    decreases ts.len(),
{
    if ts.len() == 0 {
        0
    } else {
        inflow(ts.drop_last(), asset, account) + if ts.last().asset == asset && ts.last().to
            == account {
            ts.last().amount as int
        } else {
            0
        }
    }
}

/// Total of `asset` that the transfers move out of `account`.
pub open spec fn outflow(ts: Seq<Transfer>, asset: Address, account: Address) -> int
    decreases ts.len(),
{
    if ts.len() == 0 {
        0
    } else {
        outflow(ts.drop_last(), asset, account) + if ts.last().asset == asset && ts.last().from
            == account {
            ts.last().amount as int
        } else {
            0
        }
    }
}

pub open spec fn net_inflow(ts: Seq<Transfer>, asset: Address, account: Address) -> int {
    inflow(ts, asset, account) - outflow(ts, asset, account)
}

/// The sum of the amounts of a list of bids or deposits.
pub open spec fn bid_total(bids: Seq<BidData>) -> int
    decreases bids.len(),
{
    if bids.len() == 0 {
        0
    } else {
        bid_total(bids.drop_last()) + bids.last().amount
    }
}

/// What the contract holds of `asset` for an auction record: its bids and
/// deposits in the market currency, and the item.
pub open spec fn record_custody(d: AuctionState, asset: Address) -> int {
    (if d.settings.market == asset {
        bid_total(d.bids) + bid_total(d.deposits)
    } else {
        0
    }) + (if d.settings.token == asset {
        d.settings.amount as int
    } else {
        0
    })
}

/// What the contract holds of `asset` for auction `id`: nothing once the
/// auction is gone.
pub open spec fn custody(h: ContractState, id: u64, asset: Address) -> int {
    if h.auctions.contains_key(id) {
        record_custody(h.auctions[id], asset)
    } else {
        0
    }
}

/// A step from `h` to `h2` with transfers `ts` moves into the contract's
/// account exactly what auction `id`'s custody of `asset` grows by.
pub open spec fn balanced(
    h: ContractState,
    h2: ContractState,
    ts: Seq<Transfer>,
    id: u64,
    asset: Address,
) -> bool {
    net_inflow(ts, asset, h.address) == custody(h2, id, asset) - custody(h, id, asset)
}

/// No participant of the auction is the contract's own account.
pub open spec fn arms_length(d: AuctionState, contract: Address) -> bool {
    &&& d.settings.seller != contract
    &&& forall|j: int| 0 <= j < d.bids.len() ==> (#[trigger] d.bids[j]).buyer != contract
    &&& forall|j: int| 0 <= j < d.deposits.len() ==> (#[trigger] d.deposits[j]).buyer != contract
}

/// The commission split of `amount` is exact: the seller's share is not
/// raised to its floor of 1, so the two shares add up to the amount.
pub open spec fn split_exact(amount: int, rate: int) -> bool {
    amount - admin_share(amount, rate) >= 1
}

/// Every bid of the record would split exactly at the administrator's rate.
pub open spec fn splits_exactly(d: AuctionState, admin: Option<AdminData>) -> bool {
    forall|j: int|
        0 <= j < d.bids.len() ==> match admin {
            Some(a) => split_exact((#[trigger] d.bids[j]).amount as int, a.commission_rate as int),
            None => true,
        }
}

pub proof fn lemma_flows_concat(a: Seq<Transfer>, b: Seq<Transfer>, asset: Address, account: Address)
    ensures
        inflow(a + b, asset, account) == inflow(a, asset, account) + inflow(b, asset, account),
        outflow(a + b, asset, account) == outflow(a, asset, account) + outflow(b, asset, account),
    decreases b.len(),
{
    if b.len() > 0 {
        lemma_flows_concat(a, b.drop_last(), asset, account);
        assert((a + b).drop_last() =~= a + b.drop_last());
    } else {
        assert(a + b =~= a);
    }
}

pub proof fn lemma_total_concat(a: Seq<BidData>, b: Seq<BidData>)
    ensures
        bid_total(a + b) == bid_total(a) + bid_total(b),
    decreases b.len(),
{
    if b.len() > 0 {
        lemma_total_concat(a, b.drop_last());
        assert((a + b).drop_last() =~= a + b.drop_last());
    } else {
        assert(a + b =~= a);
    }
}

pub proof fn lemma_total_remove(bids: Seq<BidData>, k: int)
    requires
        0 <= k < bids.len(),
    ensures
        bid_total(bids.remove(k)) == bid_total(bids) - bids[k].amount,
{
    let pre = bids.subrange(0, k);
    let post = bids.subrange(k + 1, bids.len() as int);
    assert(bids.remove(k) =~= pre + post);
    assert(bids =~= pre + seq![bids[k]] + post);
    lemma_total_concat(pre, post);
    lemma_total_concat(pre + seq![bids[k]], post);
    lemma_total_concat(pre, seq![bids[k]]);
    assert(seq![bids[k]].drop_last() =~= Seq::<BidData>::empty());
    assert(bid_total(Seq::<BidData>::empty()) == 0);
    assert(bid_total(seq![bids[k]]) == bids[k].amount);
}

pub proof fn lemma_total_push(bids: Seq<BidData>, b: BidData)
    ensures
        bid_total(bids.push(b)) == bid_total(bids) + b.amount,
{
    assert(bids.push(b).drop_last() =~= bids);
}

/// Refunds to buyers other than the contract move their total out.
pub proof fn lemma_refunds_flow(contract: Address, market: Address, bids: Seq<BidData>, asset: Address)
    requires
        forall|j: int| 0 <= j < bids.len() ==> (#[trigger] bids[j]).buyer != contract,
    ensures
        inflow(refunds(contract, market, bids), asset, contract) == 0,
        outflow(refunds(contract, market, bids), asset, contract) == if market == asset {
            bid_total(bids)
        } else {
            0
        },
    decreases bids.len(),
{
    if bids.len() > 0 {
        let rest = bids.drop_last();
        assert forall|j: int| 0 <= j < rest.len() implies (#[trigger] rest[j]).buyer
            != contract by {
            assert(rest[j] == bids[j]);
        }
        lemma_refunds_flow(contract, market, rest, asset);
        assert(refunds(contract, market, bids).drop_last() =~= refunds(contract, market, rest));
        assert(bids.last() == bids[bids.len() - 1]);
    } else {
        assert(refunds(contract, market, bids) =~= Seq::<Transfer>::empty());
    }
}

proof fn lemma_single_flow(t: Transfer, asset: Address, account: Address)
    ensures
        inflow(seq![t], asset, account) == if t.asset == asset && t.to == account {
            t.amount as int
        } else {
            0
        },
        outflow(seq![t], asset, account) == if t.asset == asset && t.from == account {
            t.amount as int
        } else {
            0
        },
{
    assert(seq![t].drop_last() =~= Seq::<Transfer>::empty());
    assert(inflow(Seq::<Transfer>::empty(), asset, account) == 0);
    assert(outflow(Seq::<Transfer>::empty(), asset, account) == 0);
    assert(seq![t].last() == t);
}

/// Settlement pays out the whole custody of the record: the item, the
/// winning bid split into its two shares, every other bid and every deposit.
pub proof fn lemma_settlement_balanced(
    d: AuctionState,
    admin: Option<AdminData>,
    contract: Address,
    winner: Option<usize>,
    asset: Address,
)
    requires
        settlement(d, admin, contract, winner) is Ok,
        winner matches Some(i) ==> i < d.bids.len(),
        arms_length(d, contract),
        admin matches Some(a) ==> a.admin != contract,
        splits_exactly(d, admin),
    ensures
        net_inflow(settlement(d, admin, contract, winner)->Ok_0, asset, contract) == -record_custody(
            d,
            asset,
        ),
{
    let s = d.settings;
    let ts = settlement(d, admin, contract, winner)->Ok_0;
    lemma_refunds_flow(contract, s.market, d.deposits, asset);
    match winner {
        Some(i) => {
            let a = admin->Some_0;
            let bid = d.bids[i as int];
            let others = d.bids.remove(i as int);
            assert forall|j: int| 0 <= j < others.len() implies (#[trigger] others[j]).buyer
                != contract by {
                if j < i {
                    assert(others[j] == d.bids[j]);
                } else {
                    assert(others[j] == d.bids[j + 1]);
                }
            }
            lemma_refunds_flow(contract, s.market, others, asset);
            lemma_total_remove(d.bids, i as int);
            assert(split_exact(bid.amount as int, a.commission_rate as int));
            let head = seq![
                Transfer { asset: s.token, from: contract, to: bid.buyer, amount: s.amount },
                Transfer {
                    asset: s.market,
                    from: contract,
                    to: a.admin,
                    amount: admin_share(bid.amount as int, a.commission_rate as int) as i128,
                },
                Transfer {
                    asset: s.market,
                    from: contract,
                    to: s.seller,
                    amount: crate::behavior::seller_share(
                        bid.amount as int,
                        a.commission_rate as int,
                    ) as i128,
                },
            ];
            assert(ts == head + refunds(contract, s.market, others) + refunds(
                contract,
                s.market,
                d.deposits,
            ));
            lemma_flows_concat(
                head + refunds(contract, s.market, others),
                refunds(contract, s.market, d.deposits),
                asset,
                contract,
            );
            lemma_flows_concat(head, refunds(contract, s.market, others), asset, contract);
            assert(head =~= seq![head[0]] + seq![head[1]] + seq![head[2]]);
            lemma_flows_concat(seq![head[0]] + seq![head[1]], seq![head[2]], asset, contract);
            lemma_flows_concat(seq![head[0]], seq![head[1]], asset, contract);
            lemma_single_flow(head[0], asset, contract);
            lemma_single_flow(head[1], asset, contract);
            lemma_single_flow(head[2], asset, contract);
        },
        None => {
            let head = seq![Transfer { asset: s.token, from: contract, to: s.seller, amount: s.amount }];
            lemma_refunds_flow(contract, s.market, d.bids, asset);
            lemma_flows_concat(
                head + refunds(contract, s.market, d.bids),
                refunds(contract, s.market, d.deposits),
                asset,
                contract,
            );
            lemma_flows_concat(head, refunds(contract, s.market, d.bids), asset, contract);
            lemma_single_flow(head[0], asset, contract);
        },
    }
}

/// The win condition's settlement, if any, pays out the record's custody.
pub proof fn lemma_evaluation_balanced(h: ContractState, d: AuctionState, now: u64, asset: Address)
    requires
        evaluation(h, d, now) matches Ok(Some(_)),
        arms_length(d, h.address),
        h.admin matches Some(a) ==> a.admin != h.address,
        splits_exactly(d, h.admin),
    ensures
        net_inflow(evaluation(h, d, now)->Ok_0->Some_0, asset, h.address) == -record_custody(
            d,
            asset,
        ),
{
    if d.bids.len() > 0 {
        crate::pricing::lemma_top_index_is_highest(d.bids);
    }
    let r = crate::behavior::strategy_resolution(crate::behavior::dispatcher_for(d.settings), d, now);
    match r {
        Ok(crate::pricing::Resolution::Settle(w)) => {
            lemma_settlement_balanced(d, h.admin, h.address, w, asset);
        },
        _ => {},
    }
}

/// Two flows add up across the concatenation of their transfers.
proof fn lemma_net_concat(a: Seq<Transfer>, b: Seq<Transfer>, asset: Address, account: Address)
    ensures
        net_inflow(a + b, asset, account) == net_inflow(a, asset, account) + net_inflow(
            b,
            asset,
            account,
        ),
{
    lemma_flows_concat(a, b, asset, account);
}

/// A bid step moves into the contract exactly what the record's custody grows
/// by, in the market currency only, and keeps the record's settings but for
/// its duration.
pub proof fn lemma_bid_step_balanced(
    d: AuctionState,
    contract: Address,
    anti_snipe_time: u64,
    buyer: Address,
    amount: i128,
    revealed: bool,
    now: u64,
    asset: Address,
)
    requires
        bid_step(d, contract, anti_snipe_time, buyer, amount, revealed, now) is Ok,
        buyer != contract,
    ensures
        ({
            let (d2, ts) = bid_step(d, contract, anti_snipe_time, buyer, amount, revealed, now)->Ok_0;
            &&& net_inflow(ts, asset, contract) == record_custody(d2, asset) - record_custody(
                d,
                asset,
            )
            &&& d2.settings == (AuctionSettings { duration: d2.settings.duration, ..d.settings })
        }),
{
    let s = d.settings;
    let first = if sealed_bid(s) {
        reveal_step(d, contract, buyer, revealed)
    } else {
        Ok((d, Seq::<Transfer>::empty()))
    };
    let (d1, t1) = first->Ok_0;
    if sealed_bid(s) {
        lemma_find_from(d.deposits, revealed_by(s, buyer), 0);
        let k = find_from(d.deposits, revealed_by(s, buyer), 0)->Some_0;
        lemma_total_remove(d.deposits, k);
        lemma_single_flow(refund(contract, s.market, d.deposits[k]), asset, contract);
        assert(net_inflow(t1, asset, contract) == record_custody(d1, asset) - record_custody(
            d,
            asset,
        ));
    } else {
        assert(inflow(t1, asset, contract) == 0);
        assert(outflow(t1, asset, contract) == 0);
    }
    let (d2, t2) = amount_step(d1, contract, anti_snipe_time, buyer, amount, now)->Ok_0;
    if amount == 0 {
        lemma_find_from(d1.bids, cancellable_by(buyer), 0);
        let k = find_from(d1.bids, cancellable_by(buyer), 0)->Some_0;
        lemma_total_remove(d1.bids, k);
        lemma_single_flow(refund(contract, s.market, d1.bids[k]), asset, contract);
    } else {
        let sniper = crate::behavior::is_sniper(d1, anti_snipe_time, now);
        lemma_total_push(d1.bids, BidData { buyer, amount, sniper });
        lemma_single_flow(
            Transfer { asset: s.market, from: buyer, to: contract, amount },
            asset,
            contract,
        );
    }
    lemma_net_concat(t1, t2, asset, contract);
}

/// Starting an auction takes exactly the item into custody.
pub proof fn lemma_start_balanced(
    h: ContractState,
    settings: AuctionSettings,
    id: u64,
    now: u64,
    asset: Address,
)
    requires
        start_spec(h, settings, id, now) is Ok,
        settings.seller != h.address,
    ensures
        balanced(h, start_spec(h, settings, id, now)->Ok_0.0, start_spec(h, settings, id, now)->Ok_0.1, id, asset),
{
    let t = Transfer { asset: settings.token, from: settings.seller, to: h.address, amount: settings.amount };
    lemma_single_flow(t, asset, h.address);
    assert(bid_total(Seq::<BidData>::empty()) == 0);
}

/// A sealed bid takes exactly the deposit into custody.
pub proof fn lemma_sealed_bid_balanced(h: ContractState, id: u64, buyer: Address, asset: Address)
    requires
        place_sealed_bid_spec(h, id, buyer) is Ok,
        buyer != h.address,
    ensures
        balanced(h, place_sealed_bid_spec(h, id, buyer)->Ok_0.0, place_sealed_bid_spec(h, id, buyer)->Ok_0.1, id, asset),
{
    let d = h.auctions[id];
    let dep = BidData { buyer, amount: d.settings.sealed_bid_deposit, sniper: false };
    lemma_total_push(d.deposits, dep);
    lemma_single_flow(
        Transfer { asset: d.settings.market, from: buyer, to: h.address, amount: d.settings.sealed_bid_deposit },
        asset,
        h.address,
    );
}

/// Resolving either changes nothing or pays out the whole custody.
pub proof fn lemma_resolve_balanced(h: ContractState, id: u64, now: u64, asset: Address)
    requires
        resolve_spec(h, id, now) is Ok,
        arms_length(h.auctions[id], h.address),
        h.admin matches Some(a) ==> a.admin != h.address,
        splits_exactly(h.auctions[id], h.admin),
    ensures
        balanced(h, resolve_spec(h, id, now)->Ok_0.0, resolve_spec(h, id, now)->Ok_0.2, id, asset),
{
    let d = h.auctions[id];
    match evaluation(h, d, now) {
        Ok(Some(ts)) => {
            lemma_evaluation_balanced(h, d, now, asset);
        },
        _ => {
            assert(inflow(Seq::<Transfer>::empty(), asset, h.address) == 0);
            assert(outflow(Seq::<Transfer>::empty(), asset, h.address) == 0);
        },
    }
}

/// Extending an auction moves nothing and changes no custody.
pub proof fn lemma_extend_balanced(h: ContractState, id: u64, duration: u64, asset: Address)
    requires
        extend_spec(h, id, duration) is Ok,
    ensures
        balanced(h, extend_spec(h, id, duration)->Ok_0.0, Seq::empty(), id, asset),
{
    assert(inflow(Seq::<Transfer>::empty(), asset, h.address) == 0);
    assert(outflow(Seq::<Transfer>::empty(), asset, h.address) == 0);
}

/// Facts that a bid step keeps: no participant is the contract, and every
/// bid splits exactly, where the new bid's amount does.
proof fn lemma_bid_step_keeps(
    d: AuctionState,
    contract: Address,
    admin: AdminData,
    buyer: Address,
    amount: i128,
    revealed: bool,
    now: u64,
)
    requires
        bid_step(d, contract, admin.anti_snipe_time, buyer, amount, revealed, now) is Ok,
        buyer != contract,
        arms_length(d, contract),
        splits_exactly(d, Some(admin)),
        amount != 0 ==> split_exact(amount as int, admin.commission_rate as int),
    ensures
        arms_length(bid_step(d, contract, admin.anti_snipe_time, buyer, amount, revealed, now)->Ok_0.0, contract),
        splits_exactly(bid_step(d, contract, admin.anti_snipe_time, buyer, amount, revealed, now)->Ok_0.0, Some(admin)),
{
    let s = d.settings;
    let anti = admin.anti_snipe_time;
    let first = if sealed_bid(s) {
        reveal_step(d, contract, buyer, revealed)
    } else {
        Ok((d, Seq::<Transfer>::empty()))
    };
    let d1 = first->Ok_0.0;
    if sealed_bid(s) {
        lemma_find_from(d.deposits, revealed_by(s, buyer), 0);
        let k = find_from(d.deposits, revealed_by(s, buyer), 0)->Some_0;
        assert forall|j: int| 0 <= j < d1.deposits.len() implies (#[trigger] d1.deposits[j]).buyer
            != contract by {
            if j < k {
                assert(d1.deposits[j] == d.deposits[j]);
            } else {
                assert(d1.deposits[j] == d.deposits[j + 1]);
            }
        }
    }
    assert(arms_length(d1, contract));
    let d2 = amount_step(d1, contract, anti, buyer, amount, now)->Ok_0.0;
    if amount == 0 {
        lemma_find_from(d1.bids, cancellable_by(buyer), 0);
        let k = find_from(d1.bids, cancellable_by(buyer), 0)->Some_0;
        assert forall|j: int| 0 <= j < d2.bids.len() implies (#[trigger] d2.bids[j]).buyer
            != contract && split_exact(d2.bids[j].amount as int, admin.commission_rate as int) by {
            if j < k {
                assert(d2.bids[j] == d1.bids[j]);
            } else {
                assert(d2.bids[j] == d1.bids[j + 1]);
            }
        }
    } else {
        assert forall|j: int| 0 <= j < d2.bids.len() implies (#[trigger] d2.bids[j]).buyer
            != contract && split_exact(d2.bids[j].amount as int, admin.commission_rate as int) by {
            if j < d1.bids.len() {
                assert(d2.bids[j] == d1.bids[j]);
            }
        }
    }
}

/// A bid, with whatever resolution it triggers before or after it, moves into
/// the contract exactly what auction `id`'s custody grows by (or, where the
/// auction settles, pays out all of it).
pub proof fn lemma_place_bid_balanced(
    h: ContractState,
    id: u64,
    buyer: Address,
    amount: i128,
    revealed: bool,
    now: u64,
    asset: Address,
)
    requires
        place_bid_spec(h, id, buyer, amount, revealed, now) is Ok,
        buyer != h.address,
        arms_length(h.auctions[id], h.address),
        h.admin matches Some(a) ==> a.admin != h.address && (amount != 0 ==> split_exact(
            amount as int,
            a.commission_rate as int,
        )),
        splits_exactly(h.auctions[id], h.admin),
    ensures
        balanced(
            h,
            place_bid_spec(h, id, buyer, amount, revealed, now)->Ok_0.0,
            place_bid_spec(h, id, buyer, amount, revealed, now)->Ok_0.1,
            id,
            asset,
        ),
{
    let h1 = gated(h, id, now);
    let d = h1.auctions[id];
    match evaluation(h1, d, now) {
        Ok(Some(ts)) => {
            lemma_evaluation_balanced(h1, d, now, asset);
        },
        _ => {
            let a = h1.admin->Some_0;
            let (d2, t1) = bid_step(d, h1.address, a.anti_snipe_time, buyer, amount, revealed, now)->Ok_0;
            lemma_bid_step_balanced(d, h1.address, a.anti_snipe_time, buyer, amount, revealed, now, asset);
            lemma_bid_step_keeps(d, h1.address, a, buyer, amount, revealed, now);
            let h2 = ContractState { auctions: h1.auctions.insert(id, d2), ..h1 };
            match evaluation(h2, d2, now) {
                Ok(Some(t2)) => {
                    lemma_evaluation_balanced(h2, d2, now, asset);
                    lemma_net_concat(t1, t2, asset, h.address);
                },
                _ => {},
            }
        },
    }
}

/// Total inflow of `asset` into `account` over a run of operations.
pub open spec fn total_inflow(run: Seq<Seq<Transfer>>, asset: Address, account: Address) -> int
    decreases run.len(),
{
    if run.len() == 0 {
        0
    } else {
        total_inflow(run.drop_last(), asset, account) + inflow(run.last(), asset, account)
    }
}

/// Total outflow of `asset` out of `account` over a run of operations.
pub open spec fn total_outflow(run: Seq<Seq<Transfer>>, asset: Address, account: Address) -> int
    decreases run.len(),
{
    if run.len() == 0 {
        0
    } else {
        total_outflow(run.drop_last(), asset, account) + outflow(run.last(), asset, account)
    }
}

/// Over a run of balanced steps, what flowed in net equals the change of
/// custody.
proof fn lemma_run_telescopes(states: Seq<ContractState>, run: Seq<Seq<Transfer>>, id: u64, asset: Address)
    requires
        states.len() == run.len() + 1,
        forall|k: int| 0 <= k < states.len() ==> (#[trigger] states[k]).address == states[0].address,
        forall|k: int| 0 <= k < run.len() ==> balanced(states[k], #[trigger] states[k + 1], run[k], id, asset),
    ensures
        total_inflow(run, asset, states[0].address) - total_outflow(run, asset, states[0].address)
            == custody(states.last(), id, asset) - custody(states[0], id, asset),
    decreases run.len(),
{
    if run.len() > 0 {
        let n = run.len() - 1;
        let prefix = states.subrange(0, n + 1);
        assert forall|k: int| 0 <= k < prefix.len() implies (#[trigger] prefix[k]).address
            == prefix[0].address by {
            assert(prefix[k] == states[k]);
        }
        assert forall|k: int| 0 <= k < run.drop_last().len() implies balanced(
            prefix[k],
            #[trigger] prefix[k + 1],
            run.drop_last()[k],
            id,
            asset,
        ) by {
            assert(prefix[k] == states[k]);
            assert(prefix[k + 1] == states[k + 1]);
            assert(balanced(states[k], states[k + 1], run[k], id, asset));
        }
        lemma_run_telescopes(prefix, run.drop_last(), id, asset);
        assert(balanced(states[n], states[n + 1], run[n], id, asset));
        assert(states[n].address == states[0].address);
    }
}

/// One operation on an auction, as a step of its life.
pub enum Operation {
    Start { settings: AuctionSettings, now: u64 },
    SealedBid { buyer: Address },
    Bid { buyer: Address, amount: i128, revealed: bool, now: u64 },
    Resolve { now: u64 },
    Extend { duration: u64 },
}

/// The new state and the transfers of an operation on auction `id`.
pub open spec fn apply(h: ContractState, id: u64, op: Operation) -> Result<
    (ContractState, Seq<Transfer>),
    crate::types::AuctionError,
> {
    match op {
        Operation::Start { settings, now } => start_spec(h, settings, id, now),
        Operation::SealedBid { buyer } => place_sealed_bid_spec(h, id, buyer),
        Operation::Bid { buyer, amount, revealed, now } => place_bid_spec(
            h,
            id,
            buyer,
            amount,
            revealed,
            now,
        ),
        Operation::Resolve { now } => match resolve_spec(h, id, now) {
            Ok((h2, _, ts)) => Ok((h2, ts)),
            Err(e) => Err(e),
        },
        Operation::Extend { duration } => match extend_spec(h, id, duration) {
            Ok((h2, _)) => Ok((h2, Seq::empty())),
            Err(e) => Err(e),
        },
    }
}

/// The operation's participant is not the contract's own account, and a bid
/// would split exactly at the administrator's rate.
pub open spec fn arms_length_operation(op: Operation, contract: Address, admin: Option<AdminData>) -> bool {
    match op {
        Operation::Start { settings, .. } => settings.seller != contract,
        Operation::SealedBid { buyer } => buyer != contract,
        Operation::Bid { buyer, amount, .. } => buyer != contract && (amount != 0 ==> match admin {
            Some(a) => split_exact(amount as int, a.commission_rate as int),
            None => true,
        }),
        _ => true,
    }
}

/// What keeps every step of a run balanced.
pub open spec fn custody_ready(h: ContractState, id: u64) -> bool {
    &&& h.admin matches Some(a) ==> a.admin != h.address
    &&& h.auctions.contains_key(id) ==> arms_length(h.auctions[id], h.address) && splits_exactly(
        h.auctions[id],
        h.admin,
    )
}

/// Every operation is balanced, keeps the contract's account and its
/// administrator, and keeps the run ready for the next step.
proof fn lemma_apply_step(h: ContractState, id: u64, op: Operation, asset: Address)
    requires
        custody_ready(h, id),
        apply(h, id, op) is Ok,
        arms_length_operation(op, h.address, h.admin),
    ensures
        balanced(h, apply(h, id, op)->Ok_0.0, apply(h, id, op)->Ok_0.1, id, asset),
        custody_ready(apply(h, id, op)->Ok_0.0, id),
        apply(h, id, op)->Ok_0.0.address == h.address,
        apply(h, id, op)->Ok_0.0.admin == h.admin,
{
    let h2 = apply(h, id, op)->Ok_0.0;
    match op {
        Operation::Start { settings, now } => {
            lemma_start_balanced(h, settings, id, now, asset);
        },
        Operation::SealedBid { buyer } => {
            lemma_sealed_bid_balanced(h, id, buyer, asset);
            let d = h.auctions[id];
            let d2 = h2.auctions[id];
            assert forall|j: int| 0 <= j < d2.deposits.len() implies (#[trigger] d2.deposits[j]).buyer
                != h.address by {
                if j < d.deposits.len() {
                    assert(d2.deposits[j] == d.deposits[j]);
                }
            }
        },
        Operation::Bid { buyer, amount, revealed, now } => {
            lemma_place_bid_balanced(h, id, buyer, amount, revealed, now, asset);
            let h1 = gated(h, id, now);
            let d = h1.auctions[id];
            match evaluation(h1, d, now) {
                Ok(Some(_)) => {},
                _ => {
                    let a = h1.admin->Some_0;
                    lemma_bid_step_keeps(d, h1.address, a, buyer, amount, revealed, now);
                },
            }
        },
        Operation::Resolve { now } => {
            lemma_resolve_balanced(h, id, now, asset);
        },
        Operation::Extend { duration } => {
            lemma_extend_balanced(h, id, duration, asset);
        },
    }
}

/// Along a run of operations on auction `id`, every state is ready for the
/// next step and keeps the first state's account and administrator.
proof fn lemma_run_ready(
    states: Seq<ContractState>,
    ops: Seq<Operation>,
    run: Seq<Seq<Transfer>>,
    id: u64,
    k: int,
)
    requires
        states.len() == ops.len() + 1,
        run.len() == ops.len(),
        0 <= k < states.len(),
        custody_ready(states[0], id),
        forall|j: int|
            0 <= j < ops.len() ==> apply(states[j], id, #[trigger] ops[j]) == Ok::<
                (ContractState, Seq<Transfer>),
                crate::types::AuctionError,
            >((states[j + 1], run[j])),
        forall|j: int|
            0 <= j < ops.len() ==> arms_length_operation(
                #[trigger] ops[j],
                states[0].address,
                states[0].admin,
            ),
    ensures
        custody_ready(states[k], id),
        states[k].address == states[0].address,
        states[k].admin == states[0].admin,
    decreases k,
{
    if k > 0 {
        lemma_run_ready(states, ops, run, id, k - 1);
        let op = ops[k - 1];
        assert(apply(states[k - 1], id, op) == Ok::<
            (ContractState, Seq<Transfer>),
            crate::types::AuctionError,
        >((states[k], run[k - 1])));
        lemma_apply_step(states[k - 1], id, op, states[0].address);
    }
}

/// Conservation over an auction's life: along any run of successful
/// operations on auction `id`, from before it starts to after it is settled,
/// every unit of an asset that flowed into the contract's account flowed out
/// again. Left out are runs where a participant is the contract's own account,
/// and winning bids whose seller share would be raised to its floor of 1.
pub proof fn lemma_conservation(
    states: Seq<ContractState>,
    ops: Seq<Operation>,
    run: Seq<Seq<Transfer>>,
    id: u64,
    asset: Address,
)
    requires
        states.len() == ops.len() + 1,
        run.len() == ops.len(),
        !states[0].auctions.contains_key(id),
        !states.last().auctions.contains_key(id),
        states[0].admin matches Some(a) ==> a.admin != states[0].address,
        forall|j: int|
            0 <= j < ops.len() ==> apply(states[j], id, #[trigger] ops[j]) == Ok::<
                (ContractState, Seq<Transfer>),
                crate::types::AuctionError,
            >((states[j + 1], run[j])),
        forall|j: int|
            0 <= j < ops.len() ==> arms_length_operation(
                #[trigger] ops[j],
                states[0].address,
                states[0].admin,
            ),
    ensures
        total_inflow(run, asset, states[0].address) == total_outflow(
            run,
            asset,
            states[0].address,
        ),
{
    assert forall|k: int| 0 <= k < states.len() implies (#[trigger] states[k]).address
        == states[0].address by {
        lemma_run_ready(states, ops, run, id, k);
    }
    assert forall|k: int| 0 <= k < run.len() implies balanced(
        states[k],
        #[trigger] states[k + 1],
        run[k],
        id,
        asset,
    ) by {
        lemma_run_ready(states, ops, run, id, k);
        assert(apply(states[k], id, ops[k]) == Ok::<
            (ContractState, Seq<Transfer>),
            crate::types::AuctionError,
        >((states[k + 1], run[k])));
        lemma_apply_step(states[k], id, ops[k], asset);
    }
    lemma_run_telescopes(states, run, id, asset);
}

/// Settlement releases the item exactly once: its first transfer hands the
/// whole item to the winner or back to the seller, and where the item and the
/// currency differ no other transfer moves the item.
pub proof fn lemma_item_released_once(
    d: AuctionState,
    admin: Option<AdminData>,
    contract: Address,
    winner: Option<usize>,
)
    requires
        settlement(d, admin, contract, winner) is Ok,
        winner matches Some(i) ==> i < d.bids.len(),
    ensures
        ({
            let ts = settlement(d, admin, contract, winner)->Ok_0;
            &&& ts.len() > 0
            &&& ts[0] == Transfer {
                asset: d.settings.token,
                from: contract,
                to: match winner {
                    Some(i) => d.bids[i as int].buyer,
                    None => d.settings.seller,
                },
                amount: d.settings.amount,
            }
            &&& d.settings.token != d.settings.market ==> forall|j: int|
                1 <= j < ts.len() ==> (#[trigger] ts[j]).asset != d.settings.token
        }),
{
}

} // verus!
