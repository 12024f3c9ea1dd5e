use vstd::prelude::*;

verus! {

/// An account or asset identifier on the ledger.
#[derive(Clone, Copy, Debug, PartialEq, Eq, Structural, Hash)]
pub struct Address {
    pub id: u64,
}

/// Immutable parameters of one auction.
#[derive(Clone, Copy, Debug, PartialEq, Eq, Structural)]
pub struct AuctionSettings {
    pub seller: Address,
    /// The asset being sold.
    pub token: Address,
    /// How much of `token` is sold.
    pub amount: i128,
    /// Seconds from the start time until the auction expires.
    pub duration: u64,
    /// The currency that bids are paid in.
    pub market: Address,
    pub reserve_price: i128,
    pub ask_price: i128,
    pub discount_percent: u32,
    pub discount_frequency: u64,
    pub compounded_discount: bool,
    pub sealed_phase_time: u64,
    pub sealed_bid_deposit: i128,
}

/// A live bid, or a sealed-bid deposit.
#[derive(Clone, Copy, Debug, PartialEq, Eq, Structural)]
pub struct BidData {
    pub buyer: Address,
    pub amount: i128,
    pub sniper: bool,
}

/// Process-wide administration settings.
#[derive(Clone, Copy, Debug, PartialEq, Eq, Structural)]
pub struct AdminData {
    pub admin: Address,
    pub anti_snipe_time: u64,
    pub commission_rate: i128,
    pub extendable_auctions: bool,
}

/// The mathematical value of an auction record.
pub struct AuctionState {
    pub settings: AuctionSettings,
    pub start_time: u64,
    pub bids: Seq<BidData>,
    pub deposits: Seq<BidData>,
    pub id: u64,
}

/// One auction record.
#[derive(Clone, Debug, PartialEq, Eq)]
pub struct AuctionData {
    pub settings: AuctionSettings,
    pub start_time: u64,
    pub bids: Vec<BidData>,
    pub deposits: Vec<BidData>,
    pub id: u64,
}

impl View for AuctionData {
    type V = AuctionState;

    open spec fn view(&self) -> AuctionState {
        AuctionState {
            settings: self.settings,
            start_time: self.start_time,
            bids: self.bids@,
            deposits: self.deposits@,
            id: self.id,
        }
    }
}

impl AuctionData {
    pub fn new(
        settings: AuctionSettings,
        start_time: u64,
        bids: Vec<BidData>,
        deposits: Vec<BidData>,
        id: u64,
    ) -> (r: Self)
        ensures
            r@ == (AuctionState { settings, start_time, bids: bids@, deposits: deposits@, id }),
    {
        AuctionData { settings, start_time, bids, deposits, id }
    }

    /// A copy of this record, equal to it in every field.
    pub fn duplicate(&self) -> (r: Self)
        ensures
            r@ == self@,
    {
        AuctionData {
            settings: self.settings,
            start_time: self.start_time,
            bids: copy_bids(&self.bids),
            deposits: copy_bids(&self.deposits),
            id: self.id,
        }
    }
}

/// An element-wise copy of a list of bids.
pub fn copy_bids(v: &Vec<BidData>) -> (r: Vec<BidData>)
    ensures
        r@ == v@,
{
    let mut r: Vec<BidData> = Vec::new();
    let mut i: usize = 0;
    while i < v.len()
        invariant
            i <= v.len(),
            r@ == v@.subrange(0, i as int),
        decreases v.len() - i,
    {
        r.push(v[i]);
        i = i + 1;
    }
    assert(r@ =~= v@);
    r
}

/// The phase of the sealed-bid gate.
#[derive(Clone, Copy, Debug, PartialEq, Eq, Structural)]
pub enum AuctionPhase {
    Committing,
    Running,
}

/// A key under which per-auction state is kept.
#[derive(Clone, Copy, Debug, PartialEq, Eq, Structural, Hash)]
pub enum AuctionRegion {
    Dispatcher(u64),
    Resolve(u64),
}

impl AuctionRegion {
    /// The auction that the region belongs to.
    pub fn auction_id(&self) -> (r: u64)
        ensures
            r == match *self {
                AuctionRegion::Dispatcher(id) => id,
                AuctionRegion::Resolve(id) => id,
            },
    {
        match *self {
            AuctionRegion::Dispatcher(id) => id,
            AuctionRegion::Resolve(id) => id,
        }
    }
}

/// A movement of `amount` of `asset` from `from` to `to`, to be carried out by
/// the host.
#[derive(Clone, Copy, Debug, PartialEq, Eq, Structural)]
pub struct Transfer {
    pub asset: Address,
    pub from: Address,
    pub to: Address,
    pub amount: i128,
}

/// Why an operation was refused. A refused operation changes nothing.
#[derive(Clone, Copy, Debug, PartialEq, Eq, Structural)]
pub enum AuctionError {
    /// The administration settings have not been initialized.
    AdminNotSet,
    /// The administration settings were already initialized.
    AdminAlreadySet,
    /// An auction with this id is already running.
    AuctionExists,
    /// The amount or the duration of the settings is not positive.
    InvalidSettings,
    /// No auction with this id exists.
    AuctionNotFound,
    /// The sealed-bid gate is not in the phase that the operation needs.
    InvalidPhase,
    /// The buyer already holds a deposit or a bid.
    NotAllowed,
    /// The amount is below the reserve price, or no deposit matches a reveal.
    InvalidBid,
    /// The buyer has no cancellable bid.
    NoBidToCancel,
    /// The revealed amount and salt do not match the commitment.
    RevealMismatch,
    /// An intermediate value does not fit its integer type.
    Overflow,
}

} // verus!
