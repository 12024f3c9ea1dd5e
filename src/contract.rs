//! The auction contract's state and its public operations. Each operation is
//! all-or-nothing: on an error nothing changes and no transfer is due.

use std::collections::HashMap;
use vstd::prelude::*;
use crate::behavior::{
    bid_step, dispatcher_for, expiration_ledgers, expiration_ledgers_of, initial_phase,
    sealed_bid, sealed_bid_step, settlement, start_step, strategy_resolution, Dispatcher,
};
use crate::lifecycle::{
    lemma_empty_valid, lemma_extend_valid, lemma_initialize_valid, lemma_place_bid_valid,
    lemma_resolve_valid, lemma_sealed_bid_valid, lemma_start_valid, valid,
};
use crate::pricing::Resolution;
use crate::types::{
    Address, AdminData, AuctionData, AuctionError, AuctionPhase, AuctionSettings, AuctionState,
    Transfer,
};

verus! {

broadcast use vstd::std_specs::hash::group_hash_axioms;

/// The longest anti-snipe window, in seconds.
pub const MAX_ANTI_SNIPE_TIME: u64 = 60;

/// The mathematical value of the contract's state.
pub struct ContractState {
    pub admin: Option<AdminData>,
    /// The account that holds funds and items in custody.
    pub address: Address,
    pub auctions: Map<u64, AuctionState>,
    pub phases: Map<u64, AuctionPhase>,
}

/// The administration record that `initialize` stores: the anti-snipe window
/// capped at a minute, the commission rate clamped to `[0, 100]`.
pub open spec fn admin_record(admin: Address, anti_snipe_time: u64, commission_rate: i128, extendable_auctions: bool) -> AdminData {
    AdminData {
        admin,
        anti_snipe_time: if anti_snipe_time < MAX_ANTI_SNIPE_TIME {
            anti_snipe_time
        } else {
            MAX_ANTI_SNIPE_TIME
        },
        commission_rate: if commission_rate < 0 {
            0
        } else if commission_rate > 100 {
            100
        } else {
            commission_rate
        },
        extendable_auctions,
    }
}

pub open spec fn initialize_spec(
    h: ContractState,
    admin: Address,
    anti_snipe_time: u64,
    commission_rate: i128,
    extendable_auctions: bool,
) -> Result<ContractState, AuctionError> {
    if h.admin is Some {
        Err(AuctionError::AdminAlreadySet)
    } else {
        Ok(
            ContractState {
                admin: Some(
                    admin_record(admin, anti_snipe_time, commission_rate, extendable_auctions),
                ),
                ..h
            },
        )
    }
}

pub open spec fn start_spec(h: ContractState, settings: AuctionSettings, id: u64, now: u64) -> Result<
    (ContractState, Seq<Transfer>),
    AuctionError,
> {
    if h.admin is None {
        Err(AuctionError::AdminNotSet)
    } else if h.auctions.contains_key(id) {
        Err(AuctionError::AuctionExists)
    } else {
        match start_step(settings, id, now, h.address) {
            Err(e) => Err(e),
            Ok((d, ts)) => Ok(
                (
                    ContractState {
                        auctions: h.auctions.insert(id, d),
                        phases: h.phases.insert(id, initial_phase(settings)),
                        ..h
                    },
                    ts,
                ),
            ),
        }
    }
}

/// The win condition of the record's own strategy, and the settlement that
/// follows it: `None` while the auction goes on.
pub open spec fn evaluation(h: ContractState, d: AuctionState, now: u64) -> Result<
    Option<Seq<Transfer>>,
    AuctionError,
> {
    match strategy_resolution(dispatcher_for(d.settings), d, now) {
        Err(e) => Err(e),
        Ok(Resolution::Pending) => Ok(None),
        Ok(Resolution::Settle(w)) => match settlement(d, h.admin, h.address, w) {
            Err(e) => Err(e),
            Ok(ts) => Ok(Some(ts)),
        },
    }
}

/// The state once auction `id` is settled: its record and its phase are gone.
pub open spec fn settled(h: ContractState, id: u64) -> ContractState {
    ContractState { auctions: h.auctions.remove(id), phases: h.phases.remove(id), ..h }
}

pub open spec fn resolve_spec(h: ContractState, id: u64, now: u64) -> Result<
    (ContractState, bool, Seq<Transfer>),
    AuctionError,
> {
    if !h.auctions.contains_key(id) {
        Err(AuctionError::AuctionNotFound)
    } else {
        match evaluation(h, h.auctions[id], now) {
            Err(e) => Err(e),
            Ok(None) => Ok((h, false, Seq::empty())),
            Ok(Some(ts)) => Ok((settled(h, id), true, ts)),
        }
    }
}

pub open spec fn in_phase(h: ContractState, id: u64, phase: AuctionPhase) -> bool {
    h.phases.contains_key(id) && h.phases[id] == phase
}

pub open spec fn place_sealed_bid_spec(h: ContractState, id: u64, buyer: Address) -> Result<
    (ContractState, Seq<Transfer>),
    AuctionError,
> {
    if !h.auctions.contains_key(id) {
        Err(AuctionError::AuctionNotFound)
    } else if !in_phase(h, id, AuctionPhase::Committing) {
        Err(AuctionError::InvalidPhase)
    } else {
        match sealed_bid_step(h.auctions[id], h.address, buyer) {
            Err(e) => Err(e),
            Ok((d, ts)) => Ok((ContractState { auctions: h.auctions.insert(id, d), ..h }, ts)),
        }
    }
}

/// Whether the sealed phase of auction `id` is over at `now`.
pub open spec fn sealed_phase_over(d: AuctionState, now: u64) -> bool {
    sealed_bid(d.settings) && now >= d.start_time + d.settings.sealed_phase_time
}

/// The state once the sealed-bid gate has moved on: a sealed auction whose
/// sealed phase is over is running.
pub open spec fn gated(h: ContractState, id: u64, now: u64) -> ContractState {
    if sealed_phase_over(h.auctions[id], now) {
        ContractState { phases: h.phases.insert(id, AuctionPhase::Running), ..h }
    } else {
        h
    }
}

/// A bid: the sealed-bid gate moves on where its phase is over, the auction
/// must be running, and the win condition is checked before the bid step and
/// again after it.
pub open spec fn place_bid_spec(
    h: ContractState,
    id: u64,
    buyer: Address,
    amount: i128,
    revealed: bool,
    now: u64,
) -> Result<(ContractState, Seq<Transfer>), AuctionError> {
    if !h.auctions.contains_key(id) {
        Err(AuctionError::AuctionNotFound)
    } else {
        let h1 = gated(h, id, now);
        let d = h1.auctions[id];
        if !in_phase(h1, id, AuctionPhase::Running) {
            Err(AuctionError::InvalidPhase)
        } else {
            match evaluation(h1, d, now) {
                Err(e) => Err(e),
                Ok(Some(ts)) => Ok((settled(h1, id), ts)),
                Ok(None) => match h1.admin {
                    None => Err(AuctionError::AdminNotSet),
                    Some(a) => match bid_step(
                        d,
                        h1.address,
                        a.anti_snipe_time,
                        buyer,
                        amount,
                        revealed,
                        now,
                    ) {
                        Err(e) => Err(e),
                        Ok((d2, t1)) => {
                            let h2 = ContractState { auctions: h1.auctions.insert(id, d2), ..h1 };
                            match evaluation(h2, d2, now) {
                                Err(e) => Err(e),
                                Ok(None) => Ok((h2, t1)),
                                Ok(Some(t2)) => Ok((settled(h2, id), t1 + t2)),
                            }
                        },
                    },
                },
            }
        }
    }
}

pub open spec fn extend_spec(h: ContractState, id: u64, duration: u64) -> Result<
    (ContractState, bool),
    AuctionError,
> {
    match h.admin {
        None => Err(AuctionError::AdminNotSet),
        Some(a) => if !a.extendable_auctions {
            Ok((h, false))
        } else if !h.auctions.contains_key(id) {
            Err(AuctionError::AuctionNotFound)
        } else {
            let d = h.auctions[id];
            if d.settings.duration + duration > u64::MAX {
                Err(AuctionError::Overflow)
            } else {
                let s = AuctionSettings {
                    duration: (d.settings.duration + duration) as u64,
                    ..d.settings
                };
                Ok(
                    (
                        ContractState {
                            auctions: h.auctions.insert(id, AuctionState { settings: s, ..d }),
                            ..h
                        },
                        true,
                    ),
                )
            }
        },
    }
}

/// The auction contract: administration settings, the records of the
/// running auctions, and the sealed-bid phase of each.
pub struct AuctionContract {
    admin: Option<AdminData>,
    address: Address,
    auctions: HashMap<u64, AuctionData>,
    phases: HashMap<u64, AuctionPhase>,
}

impl View for AuctionContract {
    type V = ContractState;

    closed spec fn view(&self) -> ContractState {
        ContractState {
            admin: self.admin,
            address: self.address,
            auctions: Map::new(
                |k: u64| self.auctions@.contains_key(k),
                |k: u64| self.auctions@[k]@,
            ),
            phases: self.phases@,
        }
    }
}

impl AuctionContract {
    /// A contract with no administrator and no auctions, holding custody at
    /// `address`.
    pub fn new(address: Address) -> (r: Self)
        ensures
            r@.admin is None,
            r@.address == address,
            r@.auctions == Map::<u64, AuctionState>::empty(),
            r@.phases == Map::<u64, AuctionPhase>::empty(),
            valid(r@),
    {
        let r = AuctionContract {
            admin: None,
            address,
            auctions: HashMap::new(),
            phases: HashMap::new(),
        };
        assert(r@.auctions =~= Map::<u64, AuctionState>::empty());
        proof {
            lemma_empty_valid(r@);
        }
        r
    }

    /// A contract rebuilt from administration settings kept between calls,
    /// with no auctions yet.
    pub fn with_admin(address: Address, admin: Option<AdminData>) -> (r: Self)
        ensures
            r@.admin == admin,
            r@.address == address,
            r@.auctions == Map::<u64, AuctionState>::empty(),
            r@.phases == Map::<u64, AuctionPhase>::empty(),
    {
        let r = AuctionContract { admin, address, auctions: HashMap::new(), phases: HashMap::new() };
        assert(r@.auctions =~= Map::<u64, AuctionState>::empty());
        r
    }

    /// Puts back an auction record and its phase that were kept between
    /// calls, under the record's id.
    pub fn restore(&mut self, data: AuctionData, phase: AuctionPhase)
        ensures
            final(self)@ == (ContractState {
                auctions: old(self)@.auctions.insert(data.id, data@),
                phases: old(self)@.phases.insert(data.id, phase),
                ..old(self)@
            }),
    {
        let ghost old_view = self@;
        let ghost d = data@;
        let id = data.id;
        self.auctions.insert(id, data);
        self.phases.insert(id, phase);
        assert(self@.auctions =~= old_view.auctions.insert(id, d));
    }

    pub fn address(&self) -> (r: Address)
        ensures
            r == self@.address,
    {
        self.address
    }

    pub fn admin_data(&self) -> (r: Option<AdminData>)
        ensures
            r == self@.admin,
    {
        self.admin
    }

    /// The sealed-bid phase of auction `id`.
    pub fn phase(&self, id: u64) -> (r: Option<AuctionPhase>)
        ensures
            r == (if self@.phases.contains_key(id) {
                Some(self@.phases[id])
            } else {
                None::<AuctionPhase>
            }),
    {
        match self.phases.get(&id) {
            Some(p) => Some(*p),
            None => None,
        }
    }

    /// Sets the administration settings, once.
    pub fn initialize(
        &mut self,
        admin: Address,
        anti_snipe_time: u64,
        commission_rate: i128,
        extendable_auctions: bool,
    ) -> (r: Result<(), AuctionError>)
        ensures
            match initialize_spec(
                old(self)@,
                admin,
                anti_snipe_time,
                commission_rate,
                extendable_auctions,
            ) {
                Ok(h) => r is Ok && final(self)@ == h,
                Err(e) => r == Err::<(), AuctionError>(e) && final(self)@ == old(self)@,
            },
            valid(old(self)@) ==> valid(final(self)@),
    {
        if self.admin.is_some() {
            return Err(AuctionError::AdminAlreadySet);
        }
        let anti = if anti_snipe_time < MAX_ANTI_SNIPE_TIME {
            anti_snipe_time
        } else {
            MAX_ANTI_SNIPE_TIME
        };
        let rate = if commission_rate < 0 {
            0
        } else if commission_rate > 100 {
            100
        } else {
            commission_rate
        };
        self.admin = Some(
            AdminData { admin, anti_snipe_time: anti, commission_rate: rate, extendable_auctions },
        );
        proof {
            if valid(old(self)@) {
                lemma_initialize_valid(
                    old(self)@,
                    admin,
                    anti_snipe_time,
                    commission_rate,
                    extendable_auctions,
                );
            }
        }
        Ok(())
    }

    /// A copy of the record of auction `id`, if it is running.
    pub fn get_auction(&self, id: u64) -> (r: Option<AuctionData>)
        ensures
            r matches Some(d) ==> self@.auctions.contains_key(id) && d@ == self@.auctions[id],
            r is None ==> !self@.auctions.contains_key(id),
    {
        match self.auctions.get(&id) {
            Some(d) => Some(d.duplicate()),
            None => None,
        }
    }
    /// Starts auction `id` at `now`. Returns the transfer that takes the item
    /// into custody and the lifetime, in ledgers, that the record is kept.
    pub fn start(&mut self, settings: AuctionSettings, id: u64, now: u64) -> (r: Result<
        (Vec<Transfer>, u32),
        AuctionError,
    >)
        ensures
            match start_spec(old(self)@, settings, id, now) {
                Ok((h, ts)) => r matches Ok((v, ledgers)) && final(self)@ == h && v@ == ts
                    && expiration_ledgers_of(settings.duration) == Some(ledgers),
                Err(e) => r matches Err(e2) && e2 == e && final(self)@ == old(self)@,
            },
            valid(old(self)@) ==> valid(final(self)@),
    {
        if self.admin.is_none() {
            return Err(AuctionError::AdminNotSet);
        }
        if self.auctions.contains_key(&id) {
            return Err(AuctionError::AuctionExists);
        }
        let dispatcher = Dispatcher::for_settings(&settings);
        let (data, transfers) = dispatcher.start(settings, id, now, self.address)?;
        let ledgers = match expiration_ledgers(settings.duration) {
            Some(l) => l,
            None => {
                return Err(AuctionError::Overflow);
            },
        };
        let phase = if dispatcher.is_sealed_bid_auction(&data) {
            AuctionPhase::Committing
        } else {
            AuctionPhase::Running
        };
        let ghost old_view = self@;
        let ghost d = data@;
        self.auctions.insert(id, data);
        self.phases.insert(id, phase);
        assert(self@.auctions =~= old_view.auctions.insert(id, d));
        proof {
            if valid(old_view) {
                lemma_start_valid(old_view, settings, id, now);
            }
        }
        Ok((transfers, ledgers))
    }

    /// The win condition of the record's strategy, and the transfers that
    /// settle it, if it is met.
    fn evaluate(&self, data: &AuctionData, now: u64) -> (r: Result<
        Option<Vec<Transfer>>,
        AuctionError,
    >)
        ensures
            match evaluation(self@, data@, now) {
                Ok(None) => r matches Ok(None),
                Ok(Some(ts)) => r matches Ok(Some(v)) && v@ == ts,
                Err(e) => r matches Err(e2) && e2 == e,
            },
    {
        let dispatcher = Dispatcher::for_settings(&data.settings);
        match dispatcher.resolve(data, now)? {
            Resolution::Pending => Ok(None),
            Resolution::Settle(winner) => {
                let ts = dispatcher.finalize(data, self.admin, self.address, winner)?;
                Ok(Some(ts))
            },
        }
    }

    /// Drops the record and the phase of a settled auction.
    fn remove_auction(&mut self, id: u64)
        ensures
            final(self)@ == settled(old(self)@, id),
    {
        let ghost old_view = self@;
        self.auctions.remove(&id);
        self.phases.remove(&id);
        assert(self@.auctions =~= old_view.auctions.remove(id));
    }

    /// Ends auction `id` if its strategy's win condition holds at `now`.
    /// Returns whether it was settled, and the transfers that settle it.
    pub fn resolve(&mut self, id: u64, now: u64) -> (r: Result<(bool, Vec<Transfer>), AuctionError>)
        ensures
            match resolve_spec(old(self)@, id, now) {
                Ok((h, done, ts)) => r matches Ok((d2, v)) && d2 == done && v@ == ts
                    && final(self)@ == h,
                Err(e) => r matches Err(e2) && e2 == e && final(self)@ == old(self)@,
            },
            valid(old(self)@) ==> valid(final(self)@),
    {
        let ghost h0 = self@;
        let outcome = match self.auctions.get(&id) {
            None => {
                return Err(AuctionError::AuctionNotFound);
            },
            Some(data) => self.evaluate(data, now)?,
        };
        match outcome {
            None => Ok((false, Vec::new())),
            Some(ts) => {
                self.remove_auction(id);
                proof {
                    if valid(h0) {
                        lemma_resolve_valid(h0, id, now);
                    }
                }
                Ok((true, ts))
            },
        }
    }

    /// Commits `buyer` to a sealed bid on auction `id` by taking their
    /// deposit. The commitment itself is kept by the caller.
    pub fn place_sealed_bid(&mut self, id: u64, buyer: Address) -> (r: Result<
        Vec<Transfer>,
        AuctionError,
    >)
        ensures
            match place_sealed_bid_spec(old(self)@, id, buyer) {
                Ok((h, ts)) => r matches Ok(v) && v@ == ts && final(self)@ == h,
                Err(e) => r matches Err(e2) && e2 == e && final(self)@ == old(self)@,
            },
            valid(old(self)@) ==> valid(final(self)@),
    {
        let mut data = match self.auctions.get(&id) {
            None => {
                return Err(AuctionError::AuctionNotFound);
            },
            Some(d) => d.duplicate(),
        };
        match self.phases.get(&id) {
            Some(AuctionPhase::Committing) => {},
            _ => {
                return Err(AuctionError::InvalidPhase);
            },
        }
        let dispatcher = Dispatcher::for_settings(&data.settings);
        let ts = dispatcher.place_sealed_bid(&mut data, self.address, buyer)?;
        let ghost old_view = self@;
        let ghost d = data@;
        self.auctions.insert(id, data);
        assert(self@.auctions =~= old_view.auctions.insert(id, d));
        proof {
            if valid(old_view) {
                lemma_sealed_bid_valid(old_view, id, buyer);
            }
        }
        Ok(ts)
    }

    /// Places, cancels (`amount == 0`) or reveals a bid of `buyer` on auction
    /// `id` at `now`. `revealed` says whether the buyer's amount and salt
    /// matched their commitment; it is read for sealed-bid auctions only.
    pub fn place_bid(
        &mut self,
        id: u64,
        buyer: Address,
        amount: i128,
        revealed: bool,
        now: u64,
    ) -> (r: Result<Vec<Transfer>, AuctionError>)
        ensures
            match place_bid_spec(old(self)@, id, buyer, amount, revealed, now) {
                Ok((h, ts)) => r matches Ok(v) && v@ == ts && final(self)@ == h,
                Err(e) => r matches Err(e2) && e2 == e && final(self)@ == old(self)@,
            },
            valid(old(self)@) ==> valid(final(self)@),
    {
        let ghost h0 = self@;
        let mut data = match self.auctions.get(&id) {
            None => {
                return Err(AuctionError::AuctionNotFound);
            },
            Some(d) => d.duplicate(),
        };
        let dispatcher = Dispatcher::for_settings(&data.settings);
        let gate_open = dispatcher.is_sealed_bid_auction(&data) && now as u128 >= data.start_time
            as u128 + data.settings.sealed_phase_time as u128;
        let running = gate_open || match self.phases.get(&id) {
            Some(AuctionPhase::Running) => true,
            _ => false,
        };
        if !running {
            return Err(AuctionError::InvalidPhase);
        }
        let ghost h1 = gated(h0, id, now);
        assert(h1.admin == h0.admin && h1.address == h0.address && h1.auctions == h0.auctions);
        match self.evaluate(&data, now)? {
            Some(ts) => {
                self.remove_auction(id);
                assert(self@.phases =~= h1.phases.remove(id));
                proof {
                    if valid(h0) {
                        lemma_place_bid_valid(h0, id, buyer, amount, revealed, now);
                    }
                }
                return Ok(ts);
            },
            None => {},
        }
        let anti_snipe_time = match self.admin {
            None => {
                return Err(AuctionError::AdminNotSet);
            },
            Some(a) => a.anti_snipe_time,
        };
        let mut transfers = dispatcher.place_bid(
            &mut data,
            self.address,
            anti_snipe_time,
            buyer,
            amount,
            revealed,
            now,
        )?;
        let ghost d2 = data@;
        let ghost h2 = ContractState { auctions: h1.auctions.insert(id, d2), ..h1 };
        let outcome = self.evaluate(&data, now)?;
        self.auctions.insert(id, data);
        if gate_open {
            self.phases.insert(id, AuctionPhase::Running);
        }
        assert(self@.auctions =~= h2.auctions);
        assert(self@.phases =~= h2.phases);
        match outcome {
            None => {},
            Some(mut more) => {
                self.remove_auction(id);
                transfers.append(&mut more);
            },
        }
        proof {
            if valid(h0) {
                lemma_place_bid_valid(h0, id, buyer, amount, revealed, now);
            }
        }
        Ok(transfers)
    }

    /// Lengthens auction `id` by `duration` seconds, where the administrator
    /// allows it; returns whether it did.
    pub fn extend(&mut self, id: u64, duration: u64) -> (r: Result<bool, AuctionError>)
        ensures
            match extend_spec(old(self)@, id, duration) {
                Ok((h, done)) => r == Ok::<bool, AuctionError>(done) && final(self)@ == h,
                Err(e) => r == Err::<bool, AuctionError>(e) && final(self)@ == old(self)@,
            },
            valid(old(self)@) ==> valid(final(self)@),
    {
        let allowed = match self.admin {
            None => {
                return Err(AuctionError::AdminNotSet);
            },
            Some(a) => a.extendable_auctions,
        };
        if !allowed {
            return Ok(false);
        }
        let mut data = match self.auctions.get(&id) {
            None => {
                return Err(AuctionError::AuctionNotFound);
            },
            Some(d) => d.duplicate(),
        };
        data.settings.duration = match data.settings.duration.checked_add(duration) {
            Some(d) => d,
            None => {
                return Err(AuctionError::Overflow);
            },
        };
        let ghost old_view = self@;
        let ghost d = data@;
        self.auctions.insert(id, data);
        assert(self@.auctions =~= old_view.auctions.insert(id, d));
        proof {
            if valid(old_view) {
                lemma_extend_valid(old_view, id, duration);
            }
        }
        Ok(true)
    }

    /// The contract's version: major, minor, patch.
    pub fn version() -> (r: Vec<u32>)
        ensures
            r@ == seq![0u32, 1u32, 3u32],
    {
        let mut v: Vec<u32> = Vec::new();
        v.push(0);
        v.push(1);
        v.push(3);
        assert(v@ =~= seq![0u32, 1u32, 3u32]);
        v
    }
}

} // verus!
