//! The two price strategies and the decision of when an auction ends.

use vstd::prelude::*;
use crate::types::{AuctionData, AuctionError, AuctionSettings, AuctionState, BidData};

verus! {

/// Division by a positive `d`, truncated toward zero as integer division is at
/// run time.
pub open spec fn tdiv(x: int, d: int) -> int {
    if x >= 0 {
        x / d
    } else {
        -((-x) / d)
    }
}

pub open spec fn fits_i128(x: int) -> bool {
    i128::MIN <= x <= i128::MAX
}

pub open spec fn max_int(a: int, b: int) -> int {
    if a >= b {
        a
    } else {
        b
    }
}

/// True once the auction's time has run out.
pub open spec fn expired(d: AuctionState, now: u64) -> bool {
    now >= d.start_time + d.settings.duration
}

/// Whole discount periods elapsed since the start; none before the start.
pub open spec fn elapsed_periods(d: AuctionState, now: u64) -> nat {
    if now >= d.start_time && d.settings.discount_frequency > 0 {
        ((now - d.start_time) / (d.settings.discount_frequency as int)) as nat
    } else {
        0
    }
}

/// `ask_price * (100 - discount_percent * periods)`: the linear price before
/// its division by 100.
pub open spec fn linear_product(s: AuctionSettings, periods: nat) -> int {
    s.ask_price * (100 - s.discount_percent * periods)
}

/// The price after `n` compounded discounts of `pct` percent, each step
/// truncated.
pub open spec fn compound_price(ask: int, pct: int, n: nat) -> int
    decreases n,
{
    if n == 0 {
        ask
    } else {
        tdiv((100 - pct) * compound_price(ask, pct, (n - 1) as nat), 100)
    }
}

/// Every intermediate product of the compounded discount fits in `i128`.
pub open spec fn compound_fits(ask: int, pct: int, n: nat) -> bool
    decreases n,
{
    if n == 0 {
        true
    } else {
        compound_fits(ask, pct, (n - 1) as nat) && fits_i128(
            (100 - pct) * compound_price(ask, pct, (n - 1) as nat),
        )
    }
}

/// The current descending price, floored at the reserve price; `None` where
/// an intermediate value does not fit in `i128`.
pub open spec fn descending_price(d: AuctionState, now: u64) -> Option<int> {
    let s = d.settings;
    let n = elapsed_periods(d, now);
    if s.compounded_discount {
        if compound_fits(s.ask_price as int, s.discount_percent as int, n) {
            Some(
                max_int(
                    compound_price(s.ask_price as int, s.discount_percent as int, n),
                    s.reserve_price as int,
                ),
            )
        } else {
            None
        }
    } else {
        if fits_i128(linear_product(s, n)) {
            Some(max_int(tdiv(linear_product(s, n), 100), s.reserve_price as int))
        } else {
            None
        }
    }
}

/// The index of the highest bid; of several equal highest bids, the last.
pub open spec fn top_index(bids: Seq<BidData>) -> int
    decreases bids.len(),
{
    if bids.len() <= 1 {
        0
    } else {
        let t = top_index(bids.drop_last());
        if bids.last().amount >= bids[t].amount {
            bids.len() - 1
        } else {
            t
        }
    }
}

/// `top_index` picks a bid that no other bid exceeds, and no later bid equals.
pub proof fn lemma_top_index_is_highest(bids: Seq<BidData>)
    requires
        bids.len() > 0,
    ensures
        0 <= top_index(bids) < bids.len(),
        forall|j: int| 0 <= j < bids.len() ==> #[trigger] bids[j].amount <= bids[top_index(bids)].amount,
        forall|j: int|
            top_index(bids) < j < bids.len() ==> #[trigger] bids[j].amount < bids[top_index(bids)].amount,
    decreases bids.len(),
{
    if bids.len() > 1 {
        let rest = bids.drop_last();
        lemma_top_index_is_highest(rest);
        let t = top_index(bids);
        assert forall|j: int| 0 <= j < bids.len() implies #[trigger] bids[j].amount
            <= bids[t].amount by {
            if j < rest.len() {
                assert(rest[j] == bids[j]);
            }
        }
        assert forall|j: int| t < j < bids.len() implies #[trigger] bids[j].amount
            < bids[t].amount by {
            if j < rest.len() {
                assert(rest[j] == bids[j]);
            }
        }
    }
}

/// What the win condition decides.
#[derive(Clone, Copy, Debug, PartialEq, Eq, Structural)]
pub enum Resolution {
    /// The auction goes on.
    Pending,
    /// The auction ends now, won by the bid at this index, or with no winner.
    Settle(Option<usize>),
}

/// Settlement with the highest bid.
pub open spec fn settle_top(d: AuctionState) -> Resolution {
    Resolution::Settle(Some(top_index(d.bids) as usize))
}

/// The ascending win condition: the highest bid meets the reserve and either
/// time is up or it meets an ask price set above the reserve. With no bids,
/// expiry alone ends the auction.
pub open spec fn ascending_resolution(d: AuctionState, now: u64) -> Resolution {
    let price = d.settings.reserve_price;
    if d.bids.len() == 0 {
        if expired(d, now) {
            Resolution::Settle(None)
        } else {
            Resolution::Pending
        }
    } else {
        let top = d.bids[top_index(d.bids)];
        if top.amount >= price && (expired(d, now) || (d.settings.ask_price > price
            && top.amount >= d.settings.ask_price)) {
            settle_top(d)
        } else {
            Resolution::Pending
        }
    }
}

/// The descending win condition: once time is up the auction ends with the
/// highest bid or none; before that, it ends as soon as the highest bid meets
/// the current price.
pub open spec fn descending_resolution(d: AuctionState, now: u64) -> Result<
    Resolution,
    AuctionError,
> {
    if expired(d, now) {
        if d.bids.len() == 0 {
            Ok(Resolution::Settle(None))
        } else {
            Ok(settle_top(d))
        }
    } else if d.bids.len() == 0 {
        Ok(Resolution::Pending)
    } else {
        match descending_price(d, now) {
            None => Err(AuctionError::Overflow),
            Some(p) => if d.bids[top_index(d.bids)].amount >= p {
                Ok(settle_top(d))
            } else {
                Ok(Resolution::Pending)
            },
        }
    }
}

/// Whether the auction's time has run out.
pub fn is_expired(data: &AuctionData, now: u64) -> (r: bool)
    ensures
        r == expired(data@, now),
{
    now >= data.start_time && now - data.start_time >= data.settings.duration
}

/// The index of the highest bid, the last of several equal ones.
pub fn highest_bid(bids: &Vec<BidData>) -> (r: usize)
    requires
        bids.len() > 0,
    ensures
        r == top_index(bids@),
        r < bids.len(),
{
    let mut best: usize = 0;
    let mut i: usize = 1;
    proof {
        assert(bids@.subrange(0, 1).len() == 1);
    }
    while i < bids.len()
        invariant
            1 <= i <= bids.len(),
            best < i,
            best == top_index(bids@.subrange(0, i as int)),
        decreases bids.len() - i,
    {
        proof {
            let s = bids@.subrange(0, i as int + 1);
            assert(s.drop_last() =~= bids@.subrange(0, i as int));
        }
        if bids[i].amount >= bids[best].amount {
            best = i;
        }
        i = i + 1;
    }
    proof {
        assert(bids@.subrange(0, bids.len() as int) =~= bids@);
    }
    best
}

/// The ascending strategy (English auction).
pub struct AscendingPriceAuction;

impl AscendingPriceAuction {
    /// The price is the reserve price, at all times.
    pub fn calculate_price(&self, data: &AuctionData) -> (r: i128)
        ensures
            r == data.settings.reserve_price,
    {
        data.settings.reserve_price
    }

    pub fn resolve(&self, data: &AuctionData, now: u64) -> (r: Resolution)
        ensures
            r == ascending_resolution(data@, now),
    {
        let expired = is_expired(data, now);
        if data.bids.len() == 0 {
            if expired {
                Resolution::Settle(None)
            } else {
                Resolution::Pending
            }
        } else {
            let t = highest_bid(&data.bids);
            let amount = data.bids[t].amount;
            let price = self.calculate_price(data);
            if amount >= price && (expired || (data.settings.ask_price > price && amount
                >= data.settings.ask_price)) {
                Resolution::Settle(Some(t))
            } else {
                Resolution::Pending
            }
        }
    }
}

/// Once a compounded price reaches zero it stays there, and every later
/// product fits.
proof fn lemma_compound_zero_stays(ask: int, pct: int, k: nat, n: nat)
    requires
        k <= n,
        compound_price(ask, pct, k) == 0,
        compound_fits(ask, pct, k),
    ensures
        compound_price(ask, pct, n) == 0,
        compound_fits(ask, pct, n),
    decreases n - k,
{
    if k < n {
        lemma_compound_zero_stays(ask, pct, k, (n - 1) as nat);
        assert((100 - pct) * compound_price(ask, pct, (n - 1) as nat) == 0);
    }
}

/// Truncated division by 100 through `checked_div`.
fn div_100(x: i128) -> (r: i128)
    ensures
        r == tdiv(x as int, 100),
{
    match x.checked_div(100) {
        Some(q) => q,
        None => {
            proof {
                assert(false);
            }
            0
        },
    }
}

/// The descending strategy (Dutch auction).
pub struct DescendingPriceAuction;

impl DescendingPriceAuction {
    /// The price decays from the ask price by `discount_percent` every
    /// `discount_frequency` seconds, linearly or compounded, and never falls
    /// below the reserve price.
    pub fn calculate_price(&self, data: &AuctionData, now: u64) -> (r: Result<i128, AuctionError>)
        ensures
            match descending_price(data@, now) {
                Some(p) => r == Ok::<i128, AuctionError>(p as i128),
                None => r == Err::<i128, AuctionError>(AuctionError::Overflow),
            },
    {
        let s = data.settings;
        let periods: u64 = if now >= data.start_time && s.discount_frequency > 0 {
            (now - data.start_time) / s.discount_frequency
        } else {
            0
        };
        assert(periods == elapsed_periods(data@, now));
        let raw: i128;
        if s.compounded_discount {
            let factor: i128 = 100 - s.discount_percent as i128;
            let mut price: i128 = s.ask_price;
            let mut i: u64 = 0;
            while i < periods && price != 0
                invariant
                    i <= periods,
                    periods == elapsed_periods(data@, now),
                    s == data.settings,
                    s.compounded_discount,
                    factor == 100 - s.discount_percent,
                    price == compound_price(s.ask_price as int, s.discount_percent as int, i as nat),
                    compound_fits(s.ask_price as int, s.discount_percent as int, i as nat),
                decreases periods - i,
            {
                match factor.checked_mul(price) {
                    Some(p) => {
                        price = div_100(p);
                    },
                    None => {
                        proof {
                            let ghost ask = s.ask_price as int;
                            let ghost pct = s.discount_percent as int;
                            assert(!fits_i128((100 - pct) * compound_price(ask, pct, i as nat)));
                            assert(((i + 1) as nat - 1) as nat == i as nat);
                            assert(!compound_fits(
                                s.ask_price as int,
                                s.discount_percent as int,
                                (i + 1) as nat,
                            ));
                            lemma_compound_fits_prefix(
                                s.ask_price as int,
                                s.discount_percent as int,
                                (i + 1) as nat,
                                periods as nat,
                            );
                        }
                        return Err(AuctionError::Overflow);
                    },
                }
                i = i + 1;
            }
            if i < periods {
                proof {
                    lemma_compound_zero_stays(
                        s.ask_price as int,
                        s.discount_percent as int,
                        i as nat,
                        periods as nat,
                    );
                }
            }
            raw = price;
        } else {
            let pct: u128 = s.discount_percent as u128;
            let n: u128 = periods as u128;
            assert(pct * n < 0x1_0000_0000_0000_0000_0000_0000) by (nonlinear_arith)
                requires
                    pct < 0x1_0000_0000,
                    n < 0x1_0000_0000_0000_0000,
            ;
            let k: u128 = pct * n;
            let factor: i128 = 100 - k as i128;
            match s.ask_price.checked_mul(factor) {
                Some(p) => {
                    raw = div_100(p);
                },
                None => {
                    return Err(AuctionError::Overflow);
                },
            }
        }
        if raw >= s.reserve_price {
            Ok(raw)
        } else {
            Ok(s.reserve_price)
        }
    }

    pub fn resolve(&self, data: &AuctionData, now: u64) -> (r: Result<Resolution, AuctionError>)
        ensures
            r == descending_resolution(data@, now),
    {
        if is_expired(data, now) {
            if data.bids.len() == 0 {
                Ok(Resolution::Settle(None))
            } else {
                Ok(Resolution::Settle(Some(highest_bid(&data.bids))))
            }
        } else if data.bids.len() == 0 {
            Ok(Resolution::Pending)
        } else {
            let t = highest_bid(&data.bids);
            let price = self.calculate_price(data, now)?;
            if data.bids[t].amount >= price {
                Ok(Resolution::Settle(Some(t)))
            } else {
                Ok(Resolution::Pending)
            }
        }
    }
}

/// A product that does not fit at some step keeps every longer run from
/// fitting.
proof fn lemma_compound_fits_prefix(ask: int, pct: int, k: nat, n: nat)
    requires
        k <= n,
        !compound_fits(ask, pct, k),
    ensures
        !compound_fits(ask, pct, n),
    decreases n - k,
{
    if k < n {
        lemma_compound_fits_prefix(ask, pct, k, (n - 1) as nat);
    }
}

} // verus!
