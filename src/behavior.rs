//! The behaviour shared by both strategies: start, bid admission and
//! cancellation, sealed-bid deposits and reveals, and settlement.

use vstd::prelude::*;
use crate::pricing::{
    ascending_resolution, descending_price, descending_resolution, max_int, tdiv, fits_i128,
    AscendingPriceAuction, DescendingPriceAuction, Resolution,
};
use crate::types::{
    Address, AdminData, AuctionData, AuctionError, AuctionPhase, AuctionSettings, AuctionState,
    BidData, Transfer,
};

verus! {

/// Ledgers per minute, at one ledger every six seconds.
pub const LEDGERS_PER_MINUTE: u64 = 10;

/// Ledgers per year: the longest lifetime a record is given.
pub const LEDGERS_PER_YEAR: u64 = 5256000;

/// Seconds a record outlives its auction, so that a late resolve still finds it.
pub const EXPIRATION_BUFFER: u64 = 7200;

/// Sealed-bid auctions: a deposit, a sealed phase, and no discount.
pub open spec fn sealed_bid(s: AuctionSettings) -> bool {
    s.sealed_bid_deposit > 0 && s.sealed_phase_time > 0 && s.discount_percent == 0
        && s.discount_frequency == 0
}

/// Descending auctions: a discount and a discount period.
pub open spec fn descending(s: AuctionSettings) -> bool {
    s.discount_percent > 0 && s.discount_frequency > 0
}

pub open spec fn dispatcher_for(s: AuctionSettings) -> Dispatcher {
    if descending(s) {
        Dispatcher::DescendingPriceAuction
    } else {
        Dispatcher::AscendingPriceAuction
    }
}

/// The phase a new auction starts in.
pub open spec fn initial_phase(s: AuctionSettings) -> AuctionPhase {
    if sealed_bid(s) {
        AuctionPhase::Committing
    } else {
        AuctionPhase::Running
    }
}

/// The lifetime in ledgers of a record whose auction lasts `duration`
/// seconds: the duration plus the buffer, rounded up to whole ledgers and
/// capped at a year. `None` where the sum does not fit in `u64`.
pub open spec fn expiration_ledgers_of(duration: u64) -> Option<u32> {
    let seconds = duration + EXPIRATION_BUFFER;
    if seconds + LEDGERS_PER_MINUTE - 1 > u64::MAX {
        None
    } else {
        let l = (seconds + LEDGERS_PER_MINUTE - 1) / (LEDGERS_PER_MINUTE as int);
        Some(
            if l < LEDGERS_PER_YEAR {
                l as u32
            } else {
                LEDGERS_PER_YEAR as u32
            },
        )
    }
}

/// Whether a bid of `buyer` may be cancelled: live, theirs, and not a sniper
/// bid.
pub open spec fn cancellable(b: BidData, buyer: Address) -> bool {
    b.amount > 0 && b.buyer == buyer && !b.sniper
}

/// Whether a bid stops `buyer` from placing another.
pub open spec fn conflicting(b: BidData, buyer: Address) -> bool {
    b.buyer == buyer && (b.amount > 0 || b.sniper)
}

/// Whether a deposit is the one that a reveal by `buyer` refunds.
pub open spec fn reveal_match(b: BidData, s: AuctionSettings, buyer: Address) -> bool {
    b.amount == s.sealed_bid_deposit && b.buyer == buyer
}

pub open spec fn cancellable_by(buyer: Address) -> spec_fn(BidData) -> bool {
    |b: BidData| cancellable(b, buyer)
}

pub open spec fn revealed_by(s: AuctionSettings, buyer: Address) -> spec_fn(BidData) -> bool {
    |b: BidData| reveal_match(b, s, buyer)
}

/// The first index at or after `i` whose bid satisfies `p`.
pub open spec fn find_from(bids: Seq<BidData>, p: spec_fn(BidData) -> bool, i: int) -> Option<int>
    decreases bids.len() - i,
{
    if i < 0 || i >= bids.len() {
        None
    } else if p(bids[i]) {
        Some(i)
    } else {
        find_from(bids, p, i + 1)
    }
}

/// The first bid that satisfies `p`: no earlier bid does.
pub proof fn lemma_find_from(bids: Seq<BidData>, p: spec_fn(BidData) -> bool, i: int)
    requires
        0 <= i,
    ensures
        match find_from(bids, p, i) {
            Some(k) => i <= k < bids.len() && p(bids[k]) && forall|j: int|
                i <= j < k ==> !p(#[trigger] bids[j]),
            None => forall|j: int| i <= j < bids.len() ==> !p(#[trigger] bids[j]),
        },
    decreases bids.len() - i,
{
    if i < bids.len() && !p(bids[i]) {
        lemma_find_from(bids, p, i + 1);
    }
}

/// A transfer from the contract handing a bid or a deposit back to its buyer.
pub open spec fn refund(contract: Address, market: Address, b: BidData) -> Transfer {
    Transfer { asset: market, from: contract, to: b.buyer, amount: b.amount }
}

pub open spec fn refunds(contract: Address, market: Address, bids: Seq<BidData>) -> Seq<Transfer> {
    bids.map_values(|b: BidData| refund(contract, market, b))
}

/// The commission kept by the administrator: the rate's share of `amount`,
/// rounded up, and at least 1.
pub open spec fn admin_share(amount: int, rate: int) -> int {
    max_int(tdiv(amount * rate + 99, 100), 1)
}

/// What the seller receives: the rest, and at least 1.
pub open spec fn seller_share(amount: int, rate: int) -> int {
    max_int(amount - admin_share(amount, rate), 1)
}

/// The commission split can be computed in `i128`.
pub open spec fn split_fits(amount: int, rate: int) -> bool {
    fits_i128(amount * rate) && fits_i128(amount * rate + 99) && fits_i128(
        amount - admin_share(amount, rate),
    )
}

/// The transfers that settle an auction: the item to the winner (or back to
/// the seller), the winning bid split between administrator and seller, and
/// every other bid and every deposit refunded.
pub open spec fn settlement_transfers(
    d: AuctionState,
    admin: AdminData,
    contract: Address,
    winner: Option<usize>,
) -> Seq<Transfer> {
    let s = d.settings;
    match winner {
        Some(i) => {
            let bid = d.bids[i as int];
            seq![
                Transfer { asset: s.token, from: contract, to: bid.buyer, amount: s.amount },
                Transfer {
                    asset: s.market,
                    from: contract,
                    to: admin.admin,
                    amount: admin_share(bid.amount as int, admin.commission_rate as int) as i128,
                },
                Transfer {
                    asset: s.market,
                    from: contract,
                    to: s.seller,
                    amount: seller_share(bid.amount as int, admin.commission_rate as int) as i128,
                },
            ] + refunds(contract, s.market, d.bids.remove(i as int)) + refunds(
                contract,
                s.market,
                d.deposits,
            )
        },
        None => seq![Transfer { asset: s.token, from: contract, to: s.seller, amount: s.amount }]
            + refunds(contract, s.market, d.bids) + refunds(contract, s.market, d.deposits),
    }
}

/// Settlement, refused where there is a winner and either no administrator or
/// a commission that does not fit in `i128`.
pub open spec fn settlement(
    d: AuctionState,
    admin: Option<AdminData>,
    contract: Address,
    winner: Option<usize>,
) -> Result<Seq<Transfer>, AuctionError> {
    match winner {
        Some(i) => match admin {
            None => Err(AuctionError::AdminNotSet),
            Some(a) => if split_fits(d.bids[i as int].amount as int, a.commission_rate as int) {
                Ok(settlement_transfers(d, a, contract, winner))
            } else {
                Err(AuctionError::Overflow)
            },
        },
        None => Ok(
            settlement_transfers(
                d,
                AdminData {
                    admin: contract,
                    anti_snipe_time: 0,
                    commission_rate: 0,
                    extendable_auctions: false,
                },
                contract,
                None,
            ),
        ),
    }
}

/// The win condition of a strategy.
pub open spec fn strategy_resolution(strategy: Dispatcher, d: AuctionState, now: u64) -> Result<
    Resolution,
    AuctionError,
> {
    match strategy {
        Dispatcher::AscendingPriceAuction => Ok(ascending_resolution(d, now)),
        Dispatcher::DescendingPriceAuction => descending_resolution(d, now),
    }
}

/// The price of a strategy.
pub open spec fn strategy_price(strategy: Dispatcher, d: AuctionState, now: u64) -> Option<int> {
    match strategy {
        Dispatcher::AscendingPriceAuction => Some(d.settings.reserve_price as int),
        Dispatcher::DescendingPriceAuction => descending_price(d, now),
    }
}

/// The result of placing a sealed bid: the deposit is taken from the buyer,
/// unless they already hold one.
pub open spec fn sealed_bid_step(d: AuctionState, contract: Address, buyer: Address) -> Result<
    (AuctionState, Seq<Transfer>),
    AuctionError,
> {
    let s = d.settings;
    if exists|j: int| 0 <= j < d.deposits.len() && #[trigger] d.deposits[j].buyer == buyer
        && d.deposits[j].amount > 0 {
        Err(AuctionError::NotAllowed)
    } else {
        let dep = BidData { buyer, amount: s.sealed_bid_deposit, sniper: false };
        Ok(
            (
                AuctionState { deposits: d.deposits.push(dep), ..d },
                seq![
                    Transfer {
                        asset: s.market,
                        from: buyer,
                        to: contract,
                        amount: s.sealed_bid_deposit,
                    },
                ],
            ),
        )
    }
}

/// The reveal of a sealed bid: refused unless the commitment matched, and
/// then refunds and removes the buyer's deposit.
pub open spec fn reveal_step(d: AuctionState, contract: Address, buyer: Address, revealed: bool) -> Result<
    (AuctionState, Seq<Transfer>),
    AuctionError,
> {
    if !revealed {
        Err(AuctionError::RevealMismatch)
    } else {
        match find_from(d.deposits, revealed_by(d.settings, buyer), 0) {
            None => Err(AuctionError::InvalidBid),
            Some(k) => Ok(
                (
                    AuctionState { deposits: d.deposits.remove(k), ..d },
                    seq![refund(contract, d.settings.market, d.deposits[k])],
                ),
            ),
        }
    }
}

/// Whether a bid placed at `now` falls in the anti-snipe window.
pub open spec fn is_sniper(d: AuctionState, anti_snipe_time: u64, now: u64) -> bool {
    now + anti_snipe_time >= d.start_time + d.settings.duration
}

/// The amount-driven part of a bid: zero cancels the buyer's cancellable bid,
/// an amount at or above the reserve places a new one, anything else is
/// refused.
pub open spec fn amount_step(
    d: AuctionState,
    contract: Address,
    anti_snipe_time: u64,
    buyer: Address,
    amount: i128,
    now: u64,
) -> Result<(AuctionState, Seq<Transfer>), AuctionError> {
    let s = d.settings;
    if amount == 0 {
        match find_from(d.bids, cancellable_by(buyer), 0) {
            None => Err(AuctionError::NoBidToCancel),
            Some(k) => Ok(
                (
                    AuctionState { bids: d.bids.remove(k), ..d },
                    seq![refund(contract, s.market, d.bids[k])],
                ),
            ),
        }
    } else if amount > 0 && amount >= s.reserve_price {
        if exists|j: int| 0 <= j < d.bids.len() && conflicting(#[trigger] d.bids[j], buyer) {
            Err(AuctionError::NotAllowed)
        } else {
            let sniper = is_sniper(d, anti_snipe_time, now);
            let duration = if sniper {
                s.duration + anti_snipe_time
            } else {
                s.duration as int
            };
            if duration > u64::MAX {
                Err(AuctionError::Overflow)
            } else {
                Ok(
                    (
                        AuctionState {
                            settings: AuctionSettings { duration: duration as u64, ..s },
                            bids: d.bids.push(BidData { buyer, amount, sniper }),
                            ..d
                        },
                        seq![Transfer { asset: s.market, from: buyer, to: contract, amount }],
                    ),
                )
            }
        }
    } else {
        Err(AuctionError::InvalidBid)
    }
}

/// A bid on an auction record: in a sealed-bid auction the reveal comes
/// first, then the amount-driven step.
pub open spec fn bid_step(
    d: AuctionState,
    contract: Address,
    anti_snipe_time: u64,
    buyer: Address,
    amount: i128,
    revealed: bool,
    now: u64,
) -> Result<(AuctionState, Seq<Transfer>), AuctionError> {
    let first = if sealed_bid(d.settings) {
        reveal_step(d, contract, buyer, revealed)
    } else {
        Ok((d, Seq::<Transfer>::empty()))
    };
    match first {
        Err(e) => Err(e),
        Ok((d1, t1)) => match amount_step(d1, contract, anti_snipe_time, buyer, amount, now) {
            Err(e) => Err(e),
            Ok((d2, t2)) => Ok((d2, t1 + t2)),
        },
    }
}

/// Appends the refunds of `bids[lo..hi]`.
fn push_refunds(
    out: &mut Vec<Transfer>,
    contract: Address,
    market: Address,
    bids: &Vec<BidData>,
    lo: usize,
    hi: usize,
)
    requires
        lo <= hi <= bids.len(),
    ensures
        final(out)@ == old(out)@ + refunds(contract, market, bids@.subrange(lo as int, hi as int)),
{
    let mut i: usize = lo;
    while i < hi
        invariant
            lo <= i <= hi <= bids.len(),
            out@ == old(out)@ + refunds(contract, market, bids@.subrange(lo as int, i as int)),
        decreases hi - i,
    {
        let b = bids[i];
        out.push(Transfer { asset: market, from: contract, to: b.buyer, amount: b.amount });
        proof {
            assert(bids@.subrange(lo as int, i + 1) =~= bids@.subrange(lo as int, i as int).push(
                b,
            ));
            assert(refunds(contract, market, bids@.subrange(lo as int, i + 1)) =~= refunds(
                contract,
                market,
                bids@.subrange(lo as int, i as int),
            ).push(refund(contract, market, b)));
        }
        i = i + 1;
    }
}

/// Splits a winning amount into the administrator's and the seller's shares.
pub fn commission_split(amount: i128, rate: i128) -> (r: Result<(i128, i128), AuctionError>)
    ensures
        split_fits(amount as int, rate as int) ==> r == Ok::<(i128, i128), AuctionError>(
            (
                admin_share(amount as int, rate as int) as i128,
                seller_share(amount as int, rate as int) as i128,
            ),
        ),
        !split_fits(amount as int, rate as int) ==> r == Err::<(i128, i128), AuctionError>(
            AuctionError::Overflow,
        ),
        r is Ok ==> fits_i128(admin_share(amount as int, rate as int)) && fits_i128(
            seller_share(amount as int, rate as int),
        ),
{
    let product = match amount.checked_mul(rate) {
        Some(p) => p,
        None => {
            return Err(AuctionError::Overflow);
        },
    };
    let rounded = match product.checked_add(99) {
        Some(p) => p,
        None => {
            return Err(AuctionError::Overflow);
        },
    };
    let quotient = match rounded.checked_div(100) {
        Some(q) => q,
        None => {
            return Err(AuctionError::Overflow);
        },
    };
    let admin = if quotient >= 1 {
        quotient
    } else {
        1
    };
    assert(admin == admin_share(amount as int, rate as int));
    let seller = match amount.checked_sub(admin) {
        Some(rest) => if rest >= 1 {
            rest
        } else {
            1
        },
        None => {
            return Err(AuctionError::Overflow);
        },
    };
    Ok((admin, seller))
}

/// The lifetime in ledgers of a record whose auction lasts `duration` seconds.
pub fn expiration_ledgers(duration: u64) -> (r: Option<u32>)
    ensures
        r == expiration_ledgers_of(duration),
{
    let seconds = match duration.checked_add(EXPIRATION_BUFFER) {
        Some(s) => s,
        None => {
            return None;
        },
    };
    let padded = match seconds.checked_add(LEDGERS_PER_MINUTE - 1) {
        Some(s) => s,
        None => {
            return None;
        },
    };
    let ledgers = padded / LEDGERS_PER_MINUTE;
    if ledgers < LEDGERS_PER_YEAR {
        Some(ledgers as u32)
    } else {
        Some(LEDGERS_PER_YEAR as u32)
    }
}

/// The first cancellable bid of `buyer`.
fn find_cancellable(bids: &Vec<BidData>, buyer: Address) -> (r: Option<usize>)
    ensures
        r matches Some(k) ==> k < bids.len() && find_from(bids@, cancellable_by(buyer), 0) == Some(
            k as int,
        ),
        r is None ==> find_from(bids@, cancellable_by(buyer), 0) is None,
{
    proof {
        lemma_find_from(bids@, cancellable_by(buyer), 0);
    }
    let mut i: usize = 0;
    while i < bids.len()
        invariant
            i <= bids.len(),
            find_from(bids@, cancellable_by(buyer), 0) == find_from(
                bids@,
                cancellable_by(buyer),
                i as int,
            ),
        decreases bids.len() - i,
    {
        let b = bids[i];
        if b.amount > 0 && b.buyer == buyer && !b.sniper {
            return Some(i);
        }
        i = i + 1;
    }
    None
}

/// The first deposit of `buyer` that a reveal refunds.
fn find_deposit(deposits: &Vec<BidData>, s: AuctionSettings, buyer: Address) -> (r: Option<usize>)
    ensures
        r matches Some(k) ==> k < deposits.len() && find_from(deposits@, revealed_by(s, buyer), 0) == Some(
            k as int,
        ),
        r is None ==> find_from(deposits@, revealed_by(s, buyer), 0) is None,
{
    proof {
        lemma_find_from(deposits@, revealed_by(s, buyer), 0);
    }
    let mut i: usize = 0;
    while i < deposits.len()
        invariant
            i <= deposits.len(),
            find_from(deposits@, revealed_by(s, buyer), 0) == find_from(
                deposits@,
                revealed_by(s, buyer),
                i as int,
            ),
        decreases deposits.len() - i,
    {
        let b = deposits[i];
        if b.amount == s.sealed_bid_deposit && b.buyer == buyer {
            return Some(i);
        }
        i = i + 1;
    }
    None
}

/// Whether `buyer` holds a live or a sniper bid.
fn has_conflict(bids: &Vec<BidData>, buyer: Address) -> (r: bool)
    ensures
        r == exists|j: int| 0 <= j < bids@.len() && conflicting(#[trigger] bids@[j], buyer),
{
    let mut i: usize = 0;
    while i < bids.len()
        invariant
            i <= bids.len(),
            forall|j: int| 0 <= j < i ==> !conflicting(#[trigger] bids@[j], buyer),
        decreases bids.len() - i,
    {
        let b = bids[i];
        if b.buyer == buyer && (b.amount > 0 || b.sniper) {
            assert(conflicting(bids@[i as int], buyer));
            return true;
        }
        i = i + 1;
    }
    false
}

/// Whether `buyer` already holds a deposit.
fn has_deposit(deposits: &Vec<BidData>, buyer: Address) -> (r: bool)
    ensures
        r == exists|j: int|
            0 <= j < deposits@.len() && #[trigger] deposits@[j].buyer == buyer
                && deposits@[j].amount > 0,
{
    let mut i: usize = 0;
    while i < deposits.len()
        invariant
            i <= deposits.len(),
            forall|j: int|
                0 <= j < i ==> !(#[trigger] deposits@[j].buyer == buyer && deposits@[j].amount
                    > 0),
        decreases deposits.len() - i,
    {
        if deposits[i].buyer == buyer && deposits[i].amount > 0 {
            return true;
        }
        i = i + 1;
    }
    false
}

/// A new auction record: started now, with no bids and no deposits.
pub open spec fn started_record(settings: AuctionSettings, id: u64, now: u64) -> AuctionState {
    AuctionState {
        settings,
        start_time: now,
        bids: Seq::empty(),
        deposits: Seq::empty(),
        id,
    }
}

/// Starting an auction: refused unless amount and duration are positive and
/// the record's lifetime can be computed; the item moves into custody.
pub open spec fn start_step(settings: AuctionSettings, id: u64, now: u64, contract: Address) -> Result<
    (AuctionState, Seq<Transfer>),
    AuctionError,
> {
    if !(settings.amount > 0 && settings.duration > 0) {
        Err(AuctionError::InvalidSettings)
    } else if expiration_ledgers_of(settings.duration) is None {
        Err(AuctionError::Overflow)
    } else {
        Ok(
            (
                started_record(settings, id, now),
                seq![
                    Transfer {
                        asset: settings.token,
                        from: settings.seller,
                        to: contract,
                        amount: settings.amount,
                    },
                ],
            ),
        )
    }
}

/// Selects the strategy of an auction and routes its operations to it.
#[derive(Clone, Copy, Debug, PartialEq, Eq, Structural)]
pub enum Dispatcher {
    AscendingPriceAuction,
    DescendingPriceAuction,
}

impl Dispatcher {
    /// Descending where the settings give a discount and a period, else
    /// ascending. Sealed-bid auctions have neither, so they ascend.
    pub fn for_settings(s: &AuctionSettings) -> (r: Dispatcher)
        ensures
            r == dispatcher_for(*s),
    {
        if s.discount_percent > 0 && s.discount_frequency > 0 {
            Dispatcher::DescendingPriceAuction
        } else {
            Dispatcher::AscendingPriceAuction
        }
    }

    pub fn is_sealed_bid_auction(&self, data: &AuctionData) -> (r: bool)
        ensures
            r == sealed_bid(data.settings),
    {
        data.settings.sealed_bid_deposit > 0 && data.settings.sealed_phase_time > 0
            && data.settings.discount_percent == 0 && data.settings.discount_frequency == 0
    }

    pub fn calculate_price(&self, data: &AuctionData, now: u64) -> (r: Result<
        i128,
        AuctionError,
    >)
        ensures
            match strategy_price(*self, data@, now) {
                Some(p) => r == Ok::<i128, AuctionError>(p as i128),
                None => r == Err::<i128, AuctionError>(AuctionError::Overflow),
            },
    {
        match self {
            Dispatcher::AscendingPriceAuction => Ok(AscendingPriceAuction.calculate_price(data)),
            Dispatcher::DescendingPriceAuction => DescendingPriceAuction.calculate_price(
                data,
                now,
            ),
        }
    }

    /// Whether the auction ends now, and with which bid.
    pub fn resolve(&self, data: &AuctionData, now: u64) -> (r: Result<Resolution, AuctionError>)
        ensures
            r == strategy_resolution(*self, data@, now),
            r matches Ok(Resolution::Settle(Some(i))) ==> i < data.bids.len(),
    {
        match self {
            Dispatcher::AscendingPriceAuction => {
                let r = AscendingPriceAuction.resolve(data, now);
                proof {
                    if data.bids.len() > 0 {
                        crate::pricing::lemma_top_index_is_highest(data.bids@);
                    }
                }
                Ok(r)
            },
            Dispatcher::DescendingPriceAuction => {
                let r = DescendingPriceAuction.resolve(data, now);
                proof {
                    if data.bids.len() > 0 {
                        crate::pricing::lemma_top_index_is_highest(data.bids@);
                    }
                }
                r
            },
        }
    }

    /// The transfers that settle the auction with `winner`, or with no winner.
    pub fn finalize(
        &self,
        data: &AuctionData,
        admin: Option<AdminData>,
        contract: Address,
        winner: Option<usize>,
    ) -> (r: Result<Vec<Transfer>, AuctionError>)
        requires
            winner matches Some(i) ==> i < data.bids.len(),
        ensures
            match settlement(data@, admin, contract, winner) {
                Ok(ts) => r matches Ok(v) && v@ == ts,
                Err(e) => r == Err::<Vec<Transfer>, AuctionError>(e),
            },
    {
        let s = data.settings;
        let mut out: Vec<Transfer> = Vec::new();
        match winner {
            Some(i) => {
                let a = match admin {
                    Some(a) => a,
                    None => {
                        return Err(AuctionError::AdminNotSet);
                    },
                };
                let bid = data.bids[i];
                let (admin_amount, seller_amount) = commission_split(
                    bid.amount,
                    a.commission_rate,
                )?;
                out.push(Transfer { asset: s.token, from: contract, to: bid.buyer, amount: s.amount });
                out.push(
                    Transfer { asset: s.market, from: contract, to: a.admin, amount: admin_amount },
                );
                out.push(
                    Transfer { asset: s.market, from: contract, to: s.seller, amount: seller_amount },
                );
                push_refunds(&mut out, contract, s.market, &data.bids, 0, i);
                push_refunds(&mut out, contract, s.market, &data.bids, i + 1, data.bids.len());
                push_refunds(&mut out, contract, s.market, &data.deposits, 0, data.deposits.len());
                proof {
                    let b = data.bids@;
                    assert(b.remove(i as int) =~= b.subrange(0, i as int) + b.subrange(
                        i + 1,
                        b.len() as int,
                    ));
                    assert(refunds(contract, s.market, b.remove(i as int)) =~= refunds(
                        contract,
                        s.market,
                        b.subrange(0, i as int),
                    ) + refunds(contract, s.market, b.subrange(i + 1, b.len() as int)));
                    assert(data.deposits@.subrange(0, data.deposits.len() as int)
                        =~= data.deposits@);
                    assert(out@ =~= settlement_transfers(data@, a, contract, winner));
                }
            },
            None => {
                out.push(Transfer { asset: s.token, from: contract, to: s.seller, amount: s.amount });
                push_refunds(&mut out, contract, s.market, &data.bids, 0, data.bids.len());
                push_refunds(&mut out, contract, s.market, &data.deposits, 0, data.deposits.len());
                proof {
                    assert(data.bids@.subrange(0, data.bids.len() as int) =~= data.bids@);
                    assert(data.deposits@.subrange(0, data.deposits.len() as int)
                        =~= data.deposits@);
                    assert(out@ =~= settlement_transfers(
                        data@,
                        AdminData {
                            admin: contract,
                            anti_snipe_time: 0,
                            commission_rate: 0,
                            extendable_auctions: false,
                        },
                        contract,
                        None,
                    ));
                }
            },
        }
        Ok(out)
    }

    /// Checks the settings and builds the new record and the transfer that
    /// takes the item into custody.
    pub fn start(&self, settings: AuctionSettings, id: u64, now: u64, contract: Address) -> (r:
        Result<(AuctionData, Vec<Transfer>), AuctionError>)
        ensures
            match start_step(settings, id, now, contract) {
                Ok((d, ts)) => r matches Ok((data, v)) && data@ == d && v@ == ts,
                Err(e) => r matches Err(e2) && e2 == e,
            },
    {
        if !(settings.amount > 0 && settings.duration > 0) {
            return Err(AuctionError::InvalidSettings);
        }
        if expiration_ledgers(settings.duration).is_none() {
            return Err(AuctionError::Overflow);
        }
        let data = AuctionData::new(settings, now, Vec::new(), Vec::new(), id);
        let mut out: Vec<Transfer> = Vec::new();
        out.push(
            Transfer {
                asset: settings.token,
                from: settings.seller,
                to: contract,
                amount: settings.amount,
            },
        );
        proof {
            assert(data@.bids =~= Seq::<BidData>::empty());
            assert(data@.deposits =~= Seq::<BidData>::empty());
        }
        Ok((data, out))
    }

    /// Takes the sealed-bid deposit from `buyer`, who must not hold one yet.
    pub fn place_sealed_bid(&self, data: &mut AuctionData, contract: Address, buyer: Address) -> (r:
        Result<Vec<Transfer>, AuctionError>)
        ensures
            match sealed_bid_step(old(data)@, contract, buyer) {
                Ok((d, ts)) => r matches Ok(v) && v@ == ts && final(data)@ == d,
                Err(e) => r == Err::<Vec<Transfer>, AuctionError>(e) && final(data)@ == old(
                    data,
                )@,
            },
    {
        if has_deposit(&data.deposits, buyer) {
            return Err(AuctionError::NotAllowed);
        }
        let deposit = data.settings.sealed_bid_deposit;
        data.deposits.push(BidData { buyer, amount: deposit, sniper: false });
        let mut out: Vec<Transfer> = Vec::new();
        out.push(Transfer { asset: data.settings.market, from: buyer, to: contract, amount: deposit });
        Ok(out)
    }

    /// Reveals a sealed bid where the auction is sealed, then cancels,
    /// places, or refuses according to `amount`.
    pub fn place_bid(
        &self,
        data: &mut AuctionData,
        contract: Address,
        anti_snipe_time: u64,
        buyer: Address,
        amount: i128,
        revealed: bool,
        now: u64,
    ) -> (r: Result<Vec<Transfer>, AuctionError>)
        ensures
            match bid_step(old(data)@, contract, anti_snipe_time, buyer, amount, revealed, now) {
                Ok((d, ts)) => r matches Ok(v) && v@ == ts && final(data)@ == d,
                Err(e) => r == Err::<Vec<Transfer>, AuctionError>(e) && final(data)@ == old(
                    data,
                )@,
            },
    {
        let ghost d0 = data@;
        let market = data.settings.market;
        let mut deposit_index: Option<usize> = None;
        if self.is_sealed_bid_auction(data) {
            if !revealed {
                return Err(AuctionError::RevealMismatch);
            }
            match find_deposit(&data.deposits, data.settings, buyer) {
                None => {
                    return Err(AuctionError::InvalidBid);
                },
                Some(k) => {
                    deposit_index = Some(k);
                },
            }
        }
        let ghost t1 = match deposit_index {
            Some(k) => seq![refund(contract, market, d0.deposits[k as int])],
            None => Seq::<Transfer>::empty(),
        };
        if amount == 0 {
            let k = match find_cancellable(&data.bids, buyer) {
                None => {
                    return Err(AuctionError::NoBidToCancel);
                },
                Some(k) => k,
            };
            let mut out: Vec<Transfer> = Vec::new();
            if let Some(j) = deposit_index {
                let dep = data.deposits.remove(j);
                out.push(Transfer { asset: market, from: contract, to: dep.buyer, amount: dep.amount });
            }
            let b = data.bids.remove(k);
            out.push(Transfer { asset: market, from: contract, to: b.buyer, amount: b.amount });
            proof {
                assert(out@ =~= t1 + seq![refund(contract, market, d0.bids[k as int])]);
            }
            Ok(out)
        } else if amount > 0 && amount >= data.settings.reserve_price {
            if has_conflict(&data.bids, buyer) {
                return Err(AuctionError::NotAllowed);
            }
            let sniper = now as u128 + anti_snipe_time as u128 >= data.start_time as u128
                + data.settings.duration as u128;
            let duration = if sniper {
                match data.settings.duration.checked_add(anti_snipe_time) {
                    Some(d) => d,
                    None => {
                        return Err(AuctionError::Overflow);
                    },
                }
            } else {
                data.settings.duration
            };
            let mut out: Vec<Transfer> = Vec::new();
            if let Some(j) = deposit_index {
                let dep = data.deposits.remove(j);
                out.push(Transfer { asset: market, from: contract, to: dep.buyer, amount: dep.amount });
            }
            data.settings.duration = duration;
            data.bids.push(BidData { buyer, amount, sniper });
            out.push(Transfer { asset: market, from: buyer, to: contract, amount });
            proof {
                assert(out@ =~= t1 + seq![Transfer { asset: market, from: buyer, to: contract, amount }]);
            }
            Ok(out)
        } else {
            Err(AuctionError::InvalidBid)
        }
    }
}

} // verus!
