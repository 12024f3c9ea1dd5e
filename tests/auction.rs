use std::collections::HashMap;

use litemint_auction::contract::AuctionContract;
use litemint_auction::sealed::sealed_bid_preimage;
use litemint_auction::types::{Address, AuctionData, AuctionError, AuctionSettings, Transfer};

const CONTRACT: Address = Address { id: 1 };
const TOKEN_ADMIN: Address = Address { id: 2 };
const SELLER: Address = Address { id: 3 };
const TOKEN: Address = Address { id: 10 };
const MARKET: Address = Address { id: 11 };
const BIDDERS: [Address; 2] = [Address { id: 20 }, Address { id: 21 }];

/// Balances per (asset, account), moved by the transfers that the contract
/// hands back, as the host would.
struct Ledger {
    balances: HashMap<(u64, u64), i128>,
}

impl Ledger {
    fn new() -> Self {
        Ledger { balances: HashMap::new() }
    }

    fn mint(&mut self, asset: Address, to: Address, amount: i128) {
        *self.balances.entry((asset.id, to.id)).or_insert(0) += amount;
    }

    fn balance(&self, asset: Address, of: Address) -> i128 {
        *self.balances.get(&(asset.id, of.id)).unwrap_or(&0)
    }

    fn apply(&mut self, transfers: &[Transfer]) {
        for t in transfers {
            let from = self.balances.entry((t.asset.id, t.from.id)).or_insert(0);
            assert!(*from >= t.amount, "insufficient balance");
            *from -= t.amount;
            *self.balances.entry((t.asset.id, t.to.id)).or_insert(0) += t.amount;
        }
    }
}

fn settings(duration: u64, discount_percent: u32, discount_frequency: u64) -> AuctionSettings {
    AuctionSettings {
        seller: SELLER,
        token: TOKEN,
        amount: 1,
        duration,
        market: MARKET,
        reserve_price: 100,
        ask_price: 900,
        discount_percent,
        discount_frequency,
        compounded_discount: false,
        sealed_phase_time: 0,
        sealed_bid_deposit: 0,
    }
}

fn bid(c: &mut AuctionContract, ledger: &mut Ledger, id: u64, buyer: Address, amount: i128, now: u64) {
    let ts = c.place_bid(id, buyer, amount, false, now).unwrap();
    ledger.apply(&ts);
}

fn start(c: &mut AuctionContract, ledger: &mut Ledger, s: AuctionSettings, id: u64, now: u64) {
    let (ts, _) = c.start(s, id, now).unwrap();
    ledger.apply(&ts);
}

#[test]
fn test_ascending_descending_auctions() {
    let initial_balance = 1000;
    let commission_rate = 10;
    let token_supply: i128 = 5;
    let mut ledger = Ledger::new();
    let mut c = AuctionContract::new(CONTRACT);

    ledger.mint(TOKEN, SELLER, token_supply);
    for bidder in BIDDERS.iter() {
        ledger.mint(MARKET, *bidder, initial_balance);
    }

    c.initialize(TOKEN_ADMIN, 300, commission_rate, true).unwrap();

    // A descending price auction.
    let mut auction_settings = settings(180, 10, 20);
    let mut auction_id = 7001;
    start(&mut c, &mut ledger, auction_settings, auction_id, 0);

    let test_auction = c.get_auction(auction_id).unwrap();
    assert_eq!(
        test_auction,
        AuctionData::new(auction_settings, 0, vec![], vec![], auction_id)
    );

    // No bid to cancel.
    assert!(c.place_bid(auction_id, BIDDERS[0], 0, false, 0).is_err());
    // Below the reserve.
    assert!(c
        .place_bid(auction_id, BIDDERS[0], auction_settings.reserve_price - 1, false, 0)
        .is_err());

    bid(&mut c, &mut ledger, auction_id, BIDDERS[0], auction_settings.reserve_price, 0);
    bid(&mut c, &mut ledger, auction_id, BIDDERS[0], 0, 0);
    bid(&mut c, &mut ledger, auction_id, BIDDERS[0], auction_settings.reserve_price + 1, 0);
    bid(&mut c, &mut ledger, auction_id, BIDDERS[1], auction_settings.reserve_price + 2, 0);

    let check_running = |c: &AuctionContract, ledger: &Ledger| {
        let test_auction = c.get_auction(auction_id).unwrap();
        assert_eq!(test_auction.bids.len(), 2);
        assert_eq!(
            ledger.balance(MARKET, BIDDERS[0]),
            initial_balance - auction_settings.reserve_price - 1
        );
        assert_eq!(
            ledger.balance(MARKET, BIDDERS[1]),
            initial_balance - auction_settings.reserve_price - 2
        );
        assert_eq!(
            ledger.balance(MARKET, CONTRACT),
            (auction_settings.reserve_price + 1) * 2 + 1
        );
        assert_eq!(ledger.balance(TOKEN, CONTRACT), auction_settings.amount);
    };
    check_running(&c, &ledger);

    // Still running: nobody met the ask price.
    let (done, ts) = c.resolve(auction_id, 0).unwrap();
    assert!(!done);
    assert!(ts.is_empty());
    check_running(&c, &ledger);

    bid(&mut c, &mut ledger, auction_id, BIDDERS[0], 0, 0);
    bid(&mut c, &mut ledger, auction_id, BIDDERS[1], 0, 0);
    bid(&mut c, &mut ledger, auction_id, BIDDERS[0], auction_settings.ask_price - 1, 0);
    bid(&mut c, &mut ledger, auction_id, BIDDERS[1], auction_settings.ask_price, 0);

    // Resolved at once.
    assert!(c.get_auction(auction_id).is_none());
    assert!(c.resolve(auction_id, 0).is_err());

    assert_eq!(
        ledger.balance(MARKET, BIDDERS[1]),
        initial_balance - auction_settings.ask_price
    );
    assert_eq!(ledger.balance(TOKEN, BIDDERS[1]), auction_settings.amount);
    assert_eq!(ledger.balance(MARKET, BIDDERS[0]), initial_balance);
    assert_eq!(ledger.balance(MARKET, CONTRACT), 0);
    assert_eq!(ledger.balance(TOKEN, CONTRACT), 0);
    assert_eq!(
        ledger.balance(MARKET, TOKEN_ADMIN),
        auction_settings.ask_price * commission_rate / 100
    );
    assert_eq!(
        ledger.balance(MARKET, SELLER),
        auction_settings.ask_price * (100 - commission_rate) / 100
    );
    assert_eq!(ledger.balance(TOKEN, SELLER), token_supply - 1);

    // An ascending price auction, won at the ask price.
    auction_settings.discount_percent = 0;
    auction_settings.discount_frequency = 0;
    auction_id = 7002;
    start(&mut c, &mut ledger, auction_settings, auction_id, 0);
    bid(&mut c, &mut ledger, auction_id, BIDDERS[0], auction_settings.ask_price, 0);
    assert!(c.get_auction(auction_id).is_none());
    assert!(c.resolve(auction_id, 0).is_err());

    assert_eq!(
        ledger.balance(MARKET, BIDDERS[0]),
        initial_balance - auction_settings.ask_price
    );
    assert_eq!(ledger.balance(TOKEN, BIDDERS[0]), auction_settings.amount);
    assert_eq!(ledger.balance(MARKET, CONTRACT), 0);
    assert_eq!(ledger.balance(TOKEN, CONTRACT), 0);
    assert_eq!(
        ledger.balance(MARKET, TOKEN_ADMIN),
        (auction_settings.ask_price * commission_rate / 100) * 2
    );
    assert_eq!(
        ledger.balance(MARKET, SELLER),
        (auction_settings.ask_price * (100 - commission_rate) / 100) * 2
    );
    assert_eq!(ledger.balance(TOKEN, SELLER), token_supply - 2);

    // Another ascending auction, extended.
    auction_id = 7003;
    start(&mut c, &mut ledger, auction_settings, auction_id, 0);
    bid(&mut c, &mut ledger, auction_id, BIDDERS[0], auction_settings.reserve_price, 0);
    let (done, _) = c.resolve(auction_id, 0).unwrap();
    assert!(!done);
    assert_eq!(c.extend(auction_id, auction_settings.duration), Ok(true));
    assert_eq!(
        c.get_auction(auction_id).unwrap().settings.duration,
        auction_settings.duration * 2
    );
}

fn sealed_settings(duration: u64) -> AuctionSettings {
    AuctionSettings {
        sealed_phase_time: 1,
        sealed_bid_deposit: 10,
        ..settings(duration, 0, 0)
    }
}

/// The commitment that the caller keeps for a sealed bid; comparing
/// preimages stands in for comparing their hashes.
fn commitment(amount: i128, salt: &[u8; 32], id: u64) -> Vec<u8> {
    let mut data = amount.to_be_bytes().to_vec();
    data.extend_from_slice(salt);
    data.extend_from_slice(&id.to_be_bytes());
    data
}

#[test]
fn test_sealed_bid_auctions() {
    let duration = 50;
    let initial_balance = 1000;
    let mut ledger = Ledger::new();
    let mut c = AuctionContract::new(CONTRACT);
    ledger.mint(TOKEN, SELLER, 5);
    for bidder in BIDDERS.iter() {
        ledger.mint(MARKET, *bidder, initial_balance);
    }
    c.initialize(TOKEN_ADMIN, duration, 10, true).unwrap();

    let auction_settings = sealed_settings(duration);
    let auction_id = 8001;
    start(&mut c, &mut ledger, auction_settings, auction_id, 0);

    // Still committing, and nothing to reveal.
    assert!(c
        .place_bid(auction_id, BIDDERS[0], auction_settings.reserve_price, false, 0)
        .is_err());

    let test_auction = c.get_auction(auction_id).unwrap();
    let salt = [0u8; 32];
    let committed = commitment(auction_settings.reserve_price, &salt, test_auction.id);

    let ts = c.place_sealed_bid(auction_id, BIDDERS[0]).unwrap();
    ledger.apply(&ts);

    let test_auction = c.get_auction(auction_id).unwrap();
    assert_eq!(test_auction.deposits.len(), 1);
    assert_eq!(test_auction.deposits[0].amount, auction_settings.sealed_bid_deposit);
    assert_eq!(test_auction.deposits[0].buyer, BIDDERS[0]);
    assert_eq!(
        ledger.balance(MARKET, BIDDERS[0]),
        initial_balance - auction_settings.sealed_bid_deposit
    );
    assert_eq!(ledger.balance(MARKET, CONTRACT), auction_settings.sealed_bid_deposit);

    // Reveal once the sealed phase is over.
    let revealed =
        sealed_bid_preimage(auction_settings.reserve_price, &salt, auction_id) == committed;
    assert!(revealed);
    let ts = c
        .place_bid(auction_id, BIDDERS[0], auction_settings.reserve_price, revealed, 1)
        .unwrap();
    ledger.apply(&ts);

    let test_auction = c.get_auction(auction_id).unwrap();
    assert_eq!(test_auction.deposits.len(), 0);
    assert_eq!(test_auction.bids.len(), 1);
    assert_eq!(test_auction.bids[0].amount, auction_settings.reserve_price);
    assert_eq!(test_auction.bids[0].buyer, BIDDERS[0]);
    assert_eq!(
        ledger.balance(MARKET, BIDDERS[0]),
        initial_balance - auction_settings.reserve_price
    );
    assert_eq!(ledger.balance(MARKET, CONTRACT), auction_settings.reserve_price);
}

#[test]
fn test_anti_sniping() {
    let duration = 50;
    let mut ledger = Ledger::new();
    let mut c = AuctionContract::new(CONTRACT);
    ledger.mint(TOKEN, SELLER, 5);
    for bidder in BIDDERS.iter() {
        ledger.mint(MARKET, *bidder, 1000);
    }
    c.initialize(TOKEN_ADMIN, duration, 10, true).unwrap();

    let auction_settings = settings(duration, 10, 20);
    let auction_id = 9001;
    start(&mut c, &mut ledger, auction_settings, auction_id, 0);
    bid(&mut c, &mut ledger, auction_id, BIDDERS[0], auction_settings.reserve_price, 0);

    let test_auction = c.get_auction(auction_id).unwrap();
    assert_eq!(test_auction.bids.len(), 1);
    assert!(test_auction.bids[0].sniper);
    assert_eq!(test_auction.settings.duration, duration + duration);
    assert_eq!(
        c.place_bid(auction_id, BIDDERS[0], 0, false, 0),
        Err(AuctionError::NoBidToCancel)
    );
}
