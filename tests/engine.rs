use std::collections::HashMap;

use litemint_auction::behavior::{commission_split, expiration_ledgers, Dispatcher};
use litemint_auction::compensation::Compensation;
use litemint_auction::contract::AuctionContract;
use litemint_auction::pricing::{highest_bid, DescendingPriceAuction, AscendingPriceAuction, Resolution};
use litemint_auction::sealed::sealed_bid_preimage;
use litemint_auction::types::{
    Address, AuctionData, AuctionError, AuctionPhase, AuctionRegion, AuctionSettings, BidData,
    Transfer,
};

const CONTRACT: Address = Address { id: 100 };
const ADMIN: Address = Address { id: 101 };
const SELLER: Address = Address { id: 102 };
const TOKEN: Address = Address { id: 110 };
const MARKET: Address = Address { id: 111 };
const A: Address = Address { id: 120 };
const B: Address = Address { id: 121 };

fn base_settings() -> AuctionSettings {
    AuctionSettings {
        seller: SELLER,
        token: TOKEN,
        amount: 1,
        duration: 180,
        market: MARKET,
        reserve_price: 100,
        ask_price: 900,
        discount_percent: 0,
        discount_frequency: 0,
        compounded_discount: false,
        sealed_phase_time: 0,
        sealed_bid_deposit: 0,
    }
}

fn contract(anti_snipe_time: u64, rate: i128) -> AuctionContract {
    let mut c = AuctionContract::new(CONTRACT);
    c.initialize(ADMIN, anti_snipe_time, rate, true).unwrap();
    c
}

/// Net flow of `asset` into the contract over all transfers.
fn net_into_contract(all: &[Transfer], asset: Address) -> i128 {
    let mut net = 0;
    for t in all {
        if t.asset == asset && t.to == CONTRACT {
            net += t.amount;
        }
        if t.asset == asset && t.from == CONTRACT {
            net -= t.amount;
        }
    }
    net
}

fn record(s: AuctionSettings, bids: Vec<BidData>) -> AuctionData {
    AuctionData::new(s, 0, bids, vec![], 1)
}

fn live(buyer: Address, amount: i128) -> BidData {
    BidData { buyer, amount, sniper: false }
}

#[test]
fn start_then_get_auction_matches_settings() {
    let mut c = contract(0, 10);
    let s = base_settings();
    let (ts, ledgers) = c.start(s, 42, 1000).unwrap();
    assert_eq!(ts, vec![Transfer { asset: TOKEN, from: SELLER, to: CONTRACT, amount: 1 }]);
    assert_eq!(ledgers, 738);
    let d = c.get_auction(42).unwrap();
    assert_eq!(d.settings, s);
    assert_eq!(d.start_time, 1000);
    assert_eq!(d.id, 42);
    assert!(d.bids.is_empty());
    assert!(d.deposits.is_empty());
    assert_eq!(c.phase(42), Some(AuctionPhase::Running));
    assert_eq!(c.get_auction(43), None);
}

#[test]
fn start_errors() {
    let mut fresh = AuctionContract::new(CONTRACT);
    assert_eq!(fresh.start(base_settings(), 1, 0), Err(AuctionError::AdminNotSet));

    let mut c = contract(0, 10);
    c.start(base_settings(), 1, 0).unwrap();
    assert_eq!(c.start(base_settings(), 1, 0), Err(AuctionError::AuctionExists));
    let zero_amount = AuctionSettings { amount: 0, ..base_settings() };
    assert_eq!(c.start(zero_amount, 2, 0), Err(AuctionError::InvalidSettings));
    let zero_duration = AuctionSettings { duration: 0, ..base_settings() };
    assert_eq!(c.start(zero_duration, 2, 0), Err(AuctionError::InvalidSettings));
    let endless = AuctionSettings { duration: u64::MAX, ..base_settings() };
    assert_eq!(c.start(endless, 2, 0), Err(AuctionError::Overflow));
    assert!(c.get_auction(2).is_none());
}

#[test]
fn initialize_clamps_and_runs_once() {
    let mut c = AuctionContract::new(CONTRACT);
    assert_eq!(c.admin_data(), None);
    c.initialize(ADMIN, 300, 150, false).unwrap();
    let a = c.admin_data().unwrap();
    assert_eq!(a.anti_snipe_time, 60);
    assert_eq!(a.commission_rate, 100);
    assert!(!a.extendable_auctions);
    assert_eq!(c.initialize(ADMIN, 1, 1, true), Err(AuctionError::AdminAlreadySet));

    let mut d = AuctionContract::new(CONTRACT);
    d.initialize(ADMIN, 30, -5, true).unwrap();
    assert_eq!(d.admin_data().unwrap().commission_rate, 0);
    assert_eq!(d.admin_data().unwrap().anti_snipe_time, 30);
}

#[test]
fn ascending_two_bidders_buy_now() {
    let mut c = contract(0, 10);
    let mut all: Vec<Transfer> = Vec::new();
    let (ts, _) = c.start(base_settings(), 5, 0).unwrap();
    all.extend(ts);
    all.extend(c.place_bid(5, A, 101, false, 10).unwrap());
    let ts = c.place_bid(5, B, 900, false, 11).unwrap();
    all.extend(ts.clone());
    assert!(c.get_auction(5).is_none());
    assert_eq!(
        ts,
        vec![
            Transfer { asset: MARKET, from: B, to: CONTRACT, amount: 900 },
            Transfer { asset: TOKEN, from: CONTRACT, to: B, amount: 1 },
            Transfer { asset: MARKET, from: CONTRACT, to: ADMIN, amount: 90 },
            Transfer { asset: MARKET, from: CONTRACT, to: SELLER, amount: 810 },
            Transfer { asset: MARKET, from: CONTRACT, to: A, amount: 101 },
        ]
    );
    assert_eq!(810, 900 * (100 - 10) / 100);
    assert_eq!(net_into_contract(&all, MARKET), 0);
    assert_eq!(net_into_contract(&all, TOKEN), 0);
}

#[test]
fn descending_price_linear_and_compound() {
    let s = AuctionSettings { discount_percent: 10, discount_frequency: 20, ..base_settings() };
    let linear = record(s, vec![]);
    let strategy = DescendingPriceAuction;
    assert_eq!(strategy.calculate_price(&linear, 0), Ok(900));
    assert_eq!(strategy.calculate_price(&linear, 19), Ok(900));
    assert_eq!(strategy.calculate_price(&linear, 60), Ok(630));
    assert_eq!(strategy.calculate_price(&linear, 179), Ok(180));
    // 900 * 10 / 100 = 90, floored at the reserve.
    assert_eq!(strategy.calculate_price(&linear, 180), Ok(100));
    // Past the full discount the raw price is negative.
    assert_eq!(strategy.calculate_price(&linear, 400), Ok(100));

    let compound = record(AuctionSettings { compounded_discount: true, ..s }, vec![]);
    // 900 -> 810 -> 729 -> 656 (656.1 truncated).
    assert_eq!(strategy.calculate_price(&compound, 60), Ok(656));
    assert_eq!(strategy.calculate_price(&compound, 20 * 30), Ok(100));
    assert_eq!(strategy.calculate_price(&compound, u64::MAX), Ok(100));

    assert_eq!(AscendingPriceAuction.calculate_price(&linear), 100);
    let d = Dispatcher::for_settings(&s);
    assert_eq!(d, Dispatcher::DescendingPriceAuction);
    assert_eq!(d.calculate_price(&linear, 60), Ok(630));
    assert_eq!(Dispatcher::for_settings(&base_settings()), Dispatcher::AscendingPriceAuction);
}

#[test]
fn descending_price_overflow() {
    let s = AuctionSettings {
        ask_price: i128::MAX / 2,
        discount_percent: 10,
        discount_frequency: 20,
        ..base_settings()
    };
    assert_eq!(DescendingPriceAuction.calculate_price(&record(s, vec![]), 0), Err(AuctionError::Overflow));
    let c = AuctionSettings { compounded_discount: true, ..s };
    assert_eq!(DescendingPriceAuction.calculate_price(&record(c, vec![]), 20), Err(AuctionError::Overflow));
}

#[test]
fn descending_resolution() {
    let s = AuctionSettings { discount_percent: 10, discount_frequency: 20, ..base_settings() };
    let d = record(s, vec![live(A, 300), live(B, 650)]);
    // 630 at three periods: the bid of 650 wins.
    assert_eq!(DescendingPriceAuction.resolve(&d, 59), Ok(Resolution::Pending));
    assert_eq!(DescendingPriceAuction.resolve(&d, 60), Ok(Resolution::Settle(Some(1))));
    // Once expired, the highest bid wins whatever the price.
    let low = record(s, vec![live(A, 120)]);
    assert_eq!(DescendingPriceAuction.resolve(&low, 179), Ok(Resolution::Pending));
    assert_eq!(DescendingPriceAuction.resolve(&low, 180), Ok(Resolution::Settle(Some(0))));
    let empty = record(s, vec![]);
    assert_eq!(DescendingPriceAuction.resolve(&empty, 180), Ok(Resolution::Settle(None)));
}

#[test]
fn ascending_resolution() {
    let s = base_settings();
    let d = record(s, vec![live(A, 150), live(B, 200)]);
    assert_eq!(AscendingPriceAuction.resolve(&d, 179), Resolution::Pending);
    assert_eq!(AscendingPriceAuction.resolve(&d, 180), Resolution::Settle(Some(1)));
    assert_eq!(AscendingPriceAuction.resolve(&record(s, vec![]), 179), Resolution::Pending);
    assert_eq!(AscendingPriceAuction.resolve(&record(s, vec![]), 180), Resolution::Settle(None));
    let buy_now = record(s, vec![live(A, 900)]);
    assert_eq!(AscendingPriceAuction.resolve(&buy_now, 0), Resolution::Settle(Some(0)));
    // No buy-now where the ask price is not above the reserve.
    let no_ask = record(AuctionSettings { ask_price: 100, ..s }, vec![live(A, 900)]);
    assert_eq!(AscendingPriceAuction.resolve(&no_ask, 0), Resolution::Pending);
}

#[test]
fn highest_bid_takes_last_of_equals() {
    let bids = vec![live(A, 5), live(B, 9), live(Address { id: 7 }, 9), live(Address { id: 8 }, 3)];
    assert_eq!(highest_bid(&bids), 2);
    assert_eq!(highest_bid(&vec![live(A, 1)]), 0);
}

#[test]
fn bid_below_reserve_fails_and_at_reserve_adds_custody() {
    let mut c = contract(0, 10);
    c.start(base_settings(), 1, 0).unwrap();
    assert_eq!(c.place_bid(1, A, 99, false, 0), Err(AuctionError::InvalidBid));
    assert_eq!(c.place_bid(1, A, -5, false, 0), Err(AuctionError::InvalidBid));
    let ts = c.place_bid(1, A, 100, false, 0).unwrap();
    assert_eq!(ts, vec![Transfer { asset: MARKET, from: A, to: CONTRACT, amount: 100 }]);
    assert_eq!(net_into_contract(&ts, MARKET), 100);
    assert_eq!(c.get_auction(1).unwrap().bids, vec![live(A, 100)]);
    // One live bid per buyer.
    assert_eq!(c.place_bid(1, A, 200, false, 0), Err(AuctionError::NotAllowed));
}

#[test]
fn cancel_refunds_exact_amount() {
    let mut c = contract(0, 10);
    c.start(base_settings(), 1, 0).unwrap();
    assert_eq!(c.place_bid(1, A, 0, false, 0), Err(AuctionError::NoBidToCancel));
    c.place_bid(1, A, 123, false, 0).unwrap();
    c.place_bid(1, B, 150, false, 0).unwrap();
    let ts = c.place_bid(1, A, 0, false, 1).unwrap();
    assert_eq!(ts, vec![Transfer { asset: MARKET, from: CONTRACT, to: A, amount: 123 }]);
    assert_eq!(c.get_auction(1).unwrap().bids, vec![live(B, 150)]);
}

#[test]
fn sniper_bid_extends_and_stays() {
    let mut c = contract(60, 10);
    c.start(base_settings(), 1, 0).unwrap();
    c.place_bid(1, A, 100, false, 119).unwrap();
    assert!(!c.get_auction(1).unwrap().bids[0].sniper);
    c.place_bid(1, B, 150, false, 120).unwrap();
    let d = c.get_auction(1).unwrap();
    assert!(d.bids[1].sniper);
    assert_eq!(d.settings.duration, 240);
    assert_eq!(c.place_bid(1, B, 0, false, 121), Err(AuctionError::NoBidToCancel));
    assert_eq!(c.place_bid(1, B, 300, false, 121), Err(AuctionError::NotAllowed));
    // The non-sniper bid can still be cancelled.
    assert!(c.place_bid(1, A, 0, false, 121).is_ok());
}

fn sealed_settings() -> AuctionSettings {
    AuctionSettings { sealed_phase_time: 10, sealed_bid_deposit: 25, ..base_settings() }
}

#[test]
fn sealed_bid_commit_and_reveal() {
    let mut c = contract(0, 10);
    c.start(sealed_settings(), 3, 0).unwrap();
    assert_eq!(c.phase(3), Some(AuctionPhase::Committing));
    assert_eq!(c.place_bid(3, A, 300, true, 9), Err(AuctionError::InvalidPhase));
    let ts = c.place_sealed_bid(3, A).unwrap();
    assert_eq!(ts, vec![Transfer { asset: MARKET, from: A, to: CONTRACT, amount: 25 }]);
    assert_eq!(c.place_sealed_bid(3, A), Err(AuctionError::NotAllowed));

    // A wrong salt or amount: refused, deposit untouched.
    assert_eq!(c.place_bid(3, A, 300, false, 10), Err(AuctionError::RevealMismatch));
    assert_eq!(c.get_auction(3).unwrap().deposits, vec![live(A, 25)]);
    assert_eq!(c.phase(3), Some(AuctionPhase::Committing));
    // No deposit to reveal.
    assert_eq!(c.place_bid(3, B, 300, true, 10), Err(AuctionError::InvalidBid));

    let ts = c.place_bid(3, A, 300, true, 10).unwrap();
    assert_eq!(
        ts,
        vec![
            Transfer { asset: MARKET, from: CONTRACT, to: A, amount: 25 },
            Transfer { asset: MARKET, from: A, to: CONTRACT, amount: 300 },
        ]
    );
    let d = c.get_auction(3).unwrap();
    assert!(d.deposits.is_empty());
    assert_eq!(d.bids, vec![live(A, 300)]);
    assert_eq!(c.phase(3), Some(AuctionPhase::Running));
    assert_eq!(c.place_sealed_bid(3, B), Err(AuctionError::InvalidPhase));
}

#[test]
fn sealed_bid_on_open_auction_is_refused() {
    let mut c = contract(0, 10);
    c.start(base_settings(), 1, 0).unwrap();
    assert_eq!(c.place_sealed_bid(1, A), Err(AuctionError::InvalidPhase));
    assert_eq!(c.place_sealed_bid(2, A), Err(AuctionError::AuctionNotFound));
}

#[test]
fn sealed_bid_preimage_layout() {
    let salt = [7u8; 32];
    for amount in [0i128, 100, -1, i128::MIN, i128::MAX] {
        let mut expected = amount.to_be_bytes().to_vec();
        expected.extend_from_slice(&salt);
        expected.extend_from_slice(&0x0102030405060708u64.to_be_bytes());
        assert_eq!(sealed_bid_preimage(amount, &salt, 0x0102030405060708), expected);
    }
}

#[test]
fn resolve_after_settlement_fails() {
    let mut c = contract(0, 10);
    c.start(base_settings(), 1, 0).unwrap();
    c.place_bid(1, A, 150, false, 0).unwrap();
    let (done, ts) = c.resolve(1, 180).unwrap();
    assert!(done);
    assert_eq!(ts.len(), 3);
    assert_eq!(c.resolve(1, 180), Err(AuctionError::AuctionNotFound));
    assert_eq!(c.resolve(1, 500), Err(AuctionError::AuctionNotFound));
    assert_eq!(c.place_bid(1, B, 500, false, 500), Err(AuctionError::AuctionNotFound));
    assert_eq!(c.phase(1), None);
}

#[test]
fn expiry_without_bids_returns_item() {
    let mut c = contract(0, 10);
    c.start(base_settings(), 1, 0).unwrap();
    assert_eq!(c.resolve(1, 179), Ok((false, vec![])));
    let (done, ts) = c.resolve(1, 180).unwrap();
    assert!(done);
    assert_eq!(ts, vec![Transfer { asset: TOKEN, from: CONTRACT, to: SELLER, amount: 1 }]);
}

#[test]
fn settlement_refunds_unrevealed_deposits() {
    let mut c = contract(0, 10);
    let mut all: Vec<Transfer> = Vec::new();
    all.extend(c.start(sealed_settings(), 3, 0).unwrap().0);
    all.extend(c.place_sealed_bid(3, A).unwrap());
    all.extend(c.place_sealed_bid(3, B).unwrap());
    all.extend(c.place_bid(3, A, 300, true, 10).unwrap());
    let (done, ts) = c.resolve(3, 180).unwrap();
    assert!(done);
    all.extend(ts.clone());
    assert_eq!(ts[0], Transfer { asset: TOKEN, from: CONTRACT, to: A, amount: 1 });
    assert!(ts.contains(&Transfer { asset: MARKET, from: CONTRACT, to: B, amount: 25 }));
    assert_eq!(net_into_contract(&all, MARKET), 0);
    assert_eq!(net_into_contract(&all, TOKEN), 0);
}

#[test]
fn conservation_over_a_lifetime() {
    let mut c = contract(30, 7);
    let s = AuctionSettings { discount_percent: 5, discount_frequency: 10, compounded_discount: true, ..base_settings() };
    let mut all: Vec<Transfer> = Vec::new();
    let mut balances: HashMap<u64, i128> = HashMap::new();
    all.extend(c.start(s, 9, 0).unwrap().0);
    all.extend(c.place_bid(9, A, 200, false, 5).unwrap());
    all.extend(c.place_bid(9, B, 300, false, 6).unwrap());
    all.extend(c.place_bid(9, A, 0, false, 7).unwrap());
    all.extend(c.place_bid(9, A, 400, false, 8).unwrap());
    assert!(c.get_auction(9).is_some());
    all.extend(c.place_bid(9, B, 0, false, 200).unwrap());
    assert!(c.get_auction(9).is_none());
    for t in &all {
        if t.asset == MARKET {
            *balances.entry(t.from.id).or_insert(0) -= t.amount;
            *balances.entry(t.to.id).or_insert(0) += t.amount;
        }
    }
    assert_eq!(net_into_contract(&all, MARKET), 0);
    assert_eq!(net_into_contract(&all, TOKEN), 0);
    assert_eq!(balances[&CONTRACT.id], 0);
    assert_eq!(balances[&A.id], -400);
    assert_eq!(balances[&B.id], 0);
    // 400 * 7% = 28 rounded up.
    assert_eq!(balances[&ADMIN.id], 28);
    assert_eq!(balances[&SELLER.id], 372);
    let item_moves = all.iter().filter(|t| t.asset == TOKEN && t.from == CONTRACT).count();
    assert_eq!(item_moves, 1);
}

#[test]
fn extend_needs_permission() {
    let mut c = AuctionContract::new(CONTRACT);
    assert_eq!(c.extend(1, 10), Err(AuctionError::AdminNotSet));
    c.initialize(ADMIN, 0, 10, false).unwrap();
    c.start(base_settings(), 1, 0).unwrap();
    assert_eq!(c.extend(1, 10), Ok(false));
    assert_eq!(c.get_auction(1).unwrap().settings.duration, 180);

    let mut e = contract(0, 10);
    assert_eq!(e.extend(1, 10), Err(AuctionError::AuctionNotFound));
    e.start(base_settings(), 1, 0).unwrap();
    assert_eq!(e.extend(1, u64::MAX), Err(AuctionError::Overflow));
    assert_eq!(e.extend(1, 20), Ok(true));
    assert_eq!(e.get_auction(1).unwrap().settings.duration, 200);
}

#[test]
fn commission_split_values() {
    assert_eq!(commission_split(900, 10), Ok((90, 810)));
    assert_eq!(commission_split(1000, 7), Ok((70, 930)));
    assert_eq!(commission_split(101, 7), Ok((8, 93)));
    // Both shares are at least 1.
    assert_eq!(commission_split(1, 10), Ok((1, 1)));
    assert_eq!(commission_split(500, 0), Ok((1, 499)));
    assert_eq!(commission_split(500, 100), Ok((500, 1)));
    assert_eq!(commission_split(i128::MAX, 10), Err(AuctionError::Overflow));
}

#[test]
fn expiration_ledger_counts() {
    assert_eq!(expiration_ledgers(180), Some(738));
    assert_eq!(expiration_ledgers(1), Some(721));
    assert_eq!(expiration_ledgers(100_000_000), Some(5_256_000));
    assert_eq!(expiration_ledgers(u64::MAX - 7209), Some(5_256_000));
    assert_eq!(expiration_ledgers(u64::MAX - 7208), None);
}

#[test]
fn compensation_from_integer() {
    assert_eq!(Compensation::from_u64(1), Some(Compensation::Percentage));
    assert_eq!(Compensation::from_u64(2), Some(Compensation::Subscription));
    assert_eq!(Compensation::from_u64(0), Some(Compensation::Fixed));
    assert_eq!(Compensation::from_u64(99), Some(Compensation::Fixed));
}

#[test]
fn version_and_regions() {
    assert_eq!(AuctionContract::version(), vec![0, 1, 3]);
    assert_eq!(AuctionRegion::Dispatcher(4).auction_id(), 4);
    assert_eq!(AuctionRegion::Resolve(5).auction_id(), 5);
    let d = record(AuctionSettings { sealed_phase_time: 1, sealed_bid_deposit: 1, ..base_settings() }, vec![]);
    assert!(Dispatcher::AscendingPriceAuction.is_sealed_bid_auction(&d));
    assert!(!Dispatcher::AscendingPriceAuction.is_sealed_bid_auction(&record(base_settings(), vec![])));
}

#[test]
fn duplicate_keeps_every_field() {
    let d = AuctionData::new(base_settings(), 3, vec![live(A, 5)], vec![live(B, 6)], 9);
    assert_eq!(d.duplicate(), d);
}
