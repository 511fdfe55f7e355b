//! The pallet's storage: what the runtime keeps for it between calls, with
//! the getters and setters that the pallet's logic goes through.
use std::collections::HashMap;
use vstd::prelude::*;
use crate::types::{AccountId, Auction, AuctionId, Balance, Event, ItemId};

verus! {

broadcast use vstd::std_specs::hash::group_hash_axioms;

/// The key under which the bid of `who` in auction `auction` is stored.
pub open spec fn bid_key(auction: AuctionId, who: AccountId) -> u128 {
    (auction as int * 0x1_0000_0000_0000_0000 + who as int) as u128
}

/// Two bids are stored under the same key only if they are the same bid.
pub proof fn lemma_bid_key_injective(a1: AuctionId, w1: AccountId, a2: AuctionId, w2: AccountId)
    ensures
        bid_key(a1, w1) == bid_key(a2, w2) <==> (a1 == a2 && w1 == w2),
{
}

fn make_bid_key(auction: AuctionId, who: AccountId) -> (k: u128)
    ensures
        k == bid_key(auction, who),
{
    (auction as u128) * 0x1_0000_0000_0000_0000u128 + (who as u128)
}

/// The abstract state of the pallet's storage.
pub struct ModuleView {
    /// The identifier the next created auction gets.
    pub next_auction_id: AuctionId,
    /// The amount each account has locked over all auctions.
    pub account_locks: Map<AccountId, Balance>,
    pub auctions: Map<AuctionId, Auction>,
    /// The amount each account has locked in each auction: its latest bid.
    pub auction_bids: Map<(AuctionId, AccountId), Balance>,
    /// The accounts that have bid in each auction, in the order of their first bid.
    pub participants: Map<AuctionId, Seq<AccountId>>,
    /// Auctions waiting for the off-chain worker to start them.
    pub pending: Seq<AuctionId>,
    /// Auctions started and not yet stopped.
    pub active: Seq<AuctionId>,
    /// The auction each item takes part in.
    pub auction_items: Map<ItemId, AuctionId>,
    /// Stopped auctions, their locks released, whose settlement waits for the
    /// winner's payment: each keeps its item until then.
    pub unsettled: Seq<AuctionId>,
    /// Events deposited so far.
    pub events: Seq<Event>,
}

impl ModuleView {
    /// The bid of `who` in auction `a`, 0 where there is none.
    pub open spec fn bid_of(self, a: AuctionId, who: AccountId) -> Balance {
        if self.auction_bids.contains_key((a, who)) {
            self.auction_bids[(a, who)]
        } else {
            0
        }
    }

    /// The amount locked by `who` over all auctions, 0 where none is recorded.
    pub open spec fn lock_of(self, who: AccountId) -> Balance {
        if self.account_locks.contains_key(who) {
            self.account_locks[who]
        } else {
            0
        }
    }

    /// The participants of auction `a`, empty where none is recorded.
    pub open spec fn participants_of(self, a: AuctionId) -> Seq<AccountId> {
        if self.participants.contains_key(a) {
            self.participants[a]
        } else {
            Seq::empty()
        }
    }
}

/// The storage of the auction pallet.
pub struct Module {
    next_auction_id: AuctionId,
    account_locks: HashMap<AccountId, Balance>,
    auctions: HashMap<AuctionId, Auction>,
    auction_bids: HashMap<u128, Balance>,
    auction_participants: HashMap<AuctionId, Vec<AccountId>>,
    pending_auctions: Vec<AuctionId>,
    active_auctions: Vec<AuctionId>,
    auction_items: HashMap<ItemId, AuctionId>,
    unsettled_auctions: Vec<AuctionId>,
    events: Vec<Event>,
}

impl View for Module {
    type V = ModuleView;

    closed spec fn view(&self) -> ModuleView {
        ModuleView {
            next_auction_id: self.next_auction_id,
            account_locks: self.account_locks@,
            auctions: self.auctions@,
            auction_bids: Map::new(
                |k: (AuctionId, AccountId)| self.auction_bids@.contains_key(bid_key(k.0, k.1)),
                |k: (AuctionId, AccountId)| self.auction_bids@[bid_key(k.0, k.1)],
            ),
            participants: self.auction_participants@.map_values(|v: Vec<AccountId>| v@),
            pending: self.pending_auctions@,
            active: self.active_auctions@,
            auction_items: self.auction_items@,
            unsettled: self.unsettled_auctions@,
            events: self.events@,
        }
    }
}

impl Module {
    /// Storage as the genesis block leaves it: no auction, nothing locked.
    pub open spec fn new_view() -> ModuleView {
        ModuleView {
            next_auction_id: 0,
            account_locks: Map::empty(),
            auctions: Map::empty(),
            auction_bids: Map::empty(),
            participants: Map::empty(),
            pending: Seq::empty(),
            active: Seq::empty(),
            auction_items: Map::empty(),
            unsettled: Seq::empty(),
            events: Seq::empty(),
        }
    }

    /// Storage as the genesis block leaves it: no auction, nothing locked.
    pub fn new() -> (m: Module)
        ensures
            m@ == Self::new_view(),
    {
        let m = Module {
            next_auction_id: 0,
            account_locks: HashMap::new(),
            auctions: HashMap::new(),
            auction_bids: HashMap::new(),
            auction_participants: HashMap::new(),
            pending_auctions: Vec::new(),
            active_auctions: Vec::new(),
            auction_items: HashMap::new(),
            unsettled_auctions: Vec::new(),
            events: Vec::new(),
        };
        assert(m@.auction_bids =~= Map::<(AuctionId, AccountId), Balance>::empty());
        assert(m@.participants =~= Map::<AuctionId, Seq<AccountId>>::empty());
        m
    }

    /// The identifier the next created auction gets.
    pub fn next_auction_id(&self) -> (r: AuctionId)
        ensures
            r == self@.next_auction_id,
    {
        self.next_auction_id
    }

    pub(crate) fn put_next_auction_id(&mut self, id: AuctionId)
        ensures
            final(self)@ == (ModuleView { next_auction_id: id, ..old(self)@ }),
    {
        self.next_auction_id = id;
    }

    /// The auction stored under `id`, if any.
    pub fn auctions(&self, id: AuctionId) -> (r: Option<Auction>)
        ensures
            r == (if self@.auctions.contains_key(id) {
                Some(self@.auctions[id])
            } else {
                None
            }),
    {
        match self.auctions.get(&id) {
            Some(a) => Some(*a),
            None => None,
        }
    }

    pub(crate) fn put_auction(&mut self, id: AuctionId, a: Auction)
        ensures
            final(self)@ == (ModuleView { auctions: old(self)@.auctions.insert(id, a), ..old(self)@ }),
    {
        self.auctions.insert(id, a);
    }

    /// The amount `who` has locked over all auctions, 0 where none is recorded.
    pub fn account_locks(&self, who: AccountId) -> (r: Balance)
        ensures
            r == self@.lock_of(who),
    {
        match self.account_locks.get(&who) {
            Some(v) => *v,
            None => 0,
        }
    }

    /// Whether an amount locked by `who` is recorded.
    pub fn account_lock_exists(&self, who: AccountId) -> (r: bool)
        ensures
            r == self@.account_locks.contains_key(who),
    {
        self.account_locks.contains_key(&who)
    }

    pub(crate) fn put_account_lock(&mut self, who: AccountId, amount: Balance)
        ensures
            final(self)@ == (ModuleView {
                account_locks: old(self)@.account_locks.insert(who, amount),
                ..old(self)@
            }),
    {
        self.account_locks.insert(who, amount);
    }

    pub(crate) fn remove_account_lock(&mut self, who: AccountId)
        ensures
            final(self)@ == (ModuleView {
                account_locks: old(self)@.account_locks.remove(who),
                ..old(self)@
            }),
    {
        self.account_locks.remove(&who);
    }

    /// The bid of `who` in auction `auction`, 0 where there is none.
    pub fn auction_bids(&self, auction: AuctionId, who: AccountId) -> (r: Balance)
        ensures
            r == self@.bid_of(auction, who),
    {
        let k = make_bid_key(auction, who);
        match self.auction_bids.get(&k) {
            Some(v) => *v,
            None => 0,
        }
    }

    /// Whether `who` has a bid recorded in auction `auction`.
    pub fn auction_bid_exists(&self, auction: AuctionId, who: AccountId) -> (r: bool)
        ensures
            r == self@.auction_bids.contains_key((auction, who)),
    {
        let k = make_bid_key(auction, who);
        self.auction_bids.contains_key(&k)
    }

    pub(crate) fn put_auction_bid(&mut self, auction: AuctionId, who: AccountId, amount: Balance)
        ensures
            final(self)@ == (ModuleView {
                auction_bids: old(self)@.auction_bids.insert((auction, who), amount),
                ..old(self)@
            }),
    {
        let k = make_bid_key(auction, who);
        self.auction_bids.insert(k, amount);
        proof {
            assert forall|p: (AuctionId, AccountId)| #![trigger bid_key(p.0, p.1)]
                bid_key(p.0, p.1) == k ==> p == (auction, who) by {
                lemma_bid_key_injective(p.0, p.1, auction, who);
            }
            assert(self@.auction_bids =~= old(self)@.auction_bids.insert((auction, who), amount));
        }
    }

    /// The accounts that have bid in auction `auction`, if any list is recorded.
    pub fn auction_participants(&self, auction: AuctionId) -> (r: Option<Vec<AccountId>>)
        ensures
            match r {
                Some(v) => self@.participants.contains_key(auction) && v@ == self@.participants[auction],
                None => !self@.participants.contains_key(auction),
            },
    {
        match self.auction_participants.get(&auction) {
            Some(v) => {
                let c = v.clone();
                assert(c@ =~= v@);
                Some(c)
            },
            None => None,
        }
    }

    pub(crate) fn put_auction_participants(&mut self, auction: AuctionId, v: Vec<AccountId>)
        ensures
            final(self)@ == (ModuleView {
                participants: old(self)@.participants.insert(auction, v@),
                ..old(self)@
            }),
    {
        let ghost vv = v@;
        self.auction_participants.insert(auction, v);
        assert(self@.participants =~= old(self)@.participants.insert(auction, vv));
    }

    /// Auctions waiting to be started.
    pub fn pending_auctions(&self) -> (r: Vec<AuctionId>)
        ensures
            r@ == self@.pending,
    {
        let r = self.pending_auctions.clone();
        assert(r@ =~= self.pending_auctions@);
        r
    }

    /// Auctions started and not yet stopped.
    pub fn active_auctions(&self) -> (r: Vec<AuctionId>)
        ensures
            r@ == self@.active,
    {
        let r = self.active_auctions.clone();
        assert(r@ =~= self.active_auctions@);
        r
    }

    pub(crate) fn put_pending_auctions(&mut self, v: Vec<AuctionId>)
        ensures
            final(self)@ == (ModuleView { pending: v@, ..old(self)@ }),
    {
        self.pending_auctions = v;
    }

    pub(crate) fn put_active_auctions(&mut self, v: Vec<AuctionId>)
        ensures
            final(self)@ == (ModuleView { active: v@, ..old(self)@ }),
    {
        self.active_auctions = v;
    }

    /// The auction that item `item` takes part in, if any.
    pub fn auction_items(&self, item: ItemId) -> (r: Option<AuctionId>)
        ensures
            r == (if self@.auction_items.contains_key(item) {
                Some(self@.auction_items[item])
            } else {
                None
            }),
    {
        match self.auction_items.get(&item) {
            Some(a) => Some(*a),
            None => None,
        }
    }

    pub(crate) fn put_auction_item(&mut self, item: ItemId, auction: AuctionId)
        ensures
            final(self)@ == (ModuleView { auction_items: old(self)@.auction_items.insert(item, auction), ..old(self)@ }),
    {
        self.auction_items.insert(item, auction);
    }

    pub(crate) fn remove_auction_item(&mut self, item: ItemId)
        ensures
            final(self)@ == (ModuleView { auction_items: old(self)@.auction_items.remove(item), ..old(self)@ }),
    {
        self.auction_items.remove(&item);
    }

    /// Auctions stopped whose settlement waits for the winner's payment.
    pub fn unsettled_auctions(&self) -> (r: Vec<AuctionId>)
        ensures
            r@ == self@.unsettled,
    {
        let r = self.unsettled_auctions.clone();
        assert(r@ =~= self.unsettled_auctions@);
        r
    }

    pub(crate) fn put_unsettled_auctions(&mut self, v: Vec<AuctionId>)
        ensures
            final(self)@ == (ModuleView { unsettled: v@, ..old(self)@ }),
    {
        self.unsettled_auctions = v;
    }

    /// The events deposited so far.
    pub fn events(&self) -> (r: Vec<Event>)
        ensures
            r@ == self@.events,
    {
        let r = self.events.clone();
        assert(r@ =~= self.events@);
        r
    }

    pub(crate) fn deposit_event(&mut self, e: Event)
        ensures
            final(self)@ == (ModuleView { events: old(self)@.events.push(e), ..old(self)@ }),
    {
        self.events.push(e);
    }
}

} // verus!
