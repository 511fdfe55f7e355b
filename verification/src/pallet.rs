//! The rules of the auction pallet: what each call checks, what it changes in
//! storage, and what it asks the runtime to do.
use vstd::prelude::*;
use crate::id_set::{add_all, remove_all, set_add_all, without_all, lemma_set_add_all, lemma_without_all};
use crate::storage::{Module, ModuleView};
use crate::traits::{ItemTransfer, Trait};
use crate::types::{AccountId, Auction, AuctionId, AuctionStatus, AuthorityId, Balance, Error, Event, ItemId, LockOp, Moment, Payout};

verus! {

/// The two lists of auction identifiers that the pallet keeps as sets.
pub enum StoreVecs {
    PendingVec,
    ActiveVec,
}

/// The bids of auction `a` are led by its latest bidder: without a latest
/// bidder there is no bid, and otherwise the latest bidder has a bid that no
/// other bid exceeds.
pub open spec fn bids_led_by_latest(v: ModuleView, a: AuctionId) -> bool {
    match v.auctions[a].latest_participate {
        None => forall|w: AccountId| !(#[trigger] v.auction_bids.contains_key((a, w))),
        Some(latest) => {
            &&& v.auction_bids.contains_key((a, latest.0))
            &&& forall|w: AccountId| #[trigger] v.auction_bids.contains_key((a, w))
                ==> v.auction_bids[(a, w)] <= v.auction_bids[(a, latest.0)]
        },
    }
}

/// Auction `a` holds its item: it is not stopped, or it is stopped and its
/// item waits to be handed to the winner.
pub open spec fn holds_item(v: ModuleView, a: AuctionId) -> bool {
    v.auctions[a].status != AuctionStatus::Stopped || v.unsettled.contains(a)
}

/// The invariant of the pallet's storage.
pub open spec fn wf(v: ModuleView) -> bool {
    // every auction is stored under its own identifier, below the next one
    &&& forall|id: AuctionId| #[trigger] v.auctions.contains_key(id)
        ==> v.auctions[id].id == id && id < v.next_auction_id
    // every bid belongs to a stored auction
    &&& forall|a: AuctionId, w: AccountId| #[trigger] v.auction_bids.contains_key((a, w))
        ==> v.auctions.contains_key(a)
    &&& forall|a: AuctionId| #[trigger] v.auctions.contains_key(a) ==> bids_led_by_latest(v, a)
    // the pending and the active auctions are sets
    &&& v.pending.no_duplicates()
    &&& v.active.no_duplicates()
    // nobody joins the participants of an auction twice
    &&& forall|a: AuctionId| #[trigger] v.participants.contains_key(a) ==> v.participants[a].no_duplicates()
    // whoever has a bid in an auction is one of its participants
    &&& forall|a: AuctionId, w: AccountId| #[trigger] v.auction_bids.contains_key((a, w))
        ==> v.participants_of(a).contains(w)
    // nobody bids in an auction before it starts
    &&& forall|a: AuctionId| #[trigger] v.auctions.contains_key(a) && v.auctions[a].status == AuctionStatus::PendingStart
        ==> v.auctions[a].latest_participate is None
    // every entry of the item map names a stored auction that holds the item
    &&& forall|i: ItemId| #[trigger] v.auction_items.contains_key(i)
        ==> v.auctions.contains_key(v.auction_items[i]) && v.auctions[v.auction_items[i]].item == Some(i)
    // an auction that holds its item is the one the item is mapped to: an
    // item is in at most one auction at a time
    &&& forall|a: AuctionId| #[trigger] v.auctions.contains_key(a) && holds_item(v, a)
        && v.auctions[a].item is Some ==> v.auction_items.contains_key(v.auctions[a].item->0)
        && v.auction_items[v.auctions[a].item->0] == a
    // the unsettled auctions are a set of stopped auctions
    &&& v.unsettled.no_duplicates()
    &&& forall|k: int| 0 <= k < v.unsettled.len() ==> v.auctions.contains_key(#[trigger] v.unsettled[k])
        && v.auctions[v.unsettled[k]].status == AuctionStatus::Stopped
}

/// The auction `id`, provided that it exists, is in status `status` (where one
/// is asked for) and is owned by `owner` (where one is asked for).
pub open spec fn check_auction(
    v: ModuleView,
    id: AuctionId,
    status: Option<AuctionStatus>,
    owner: Option<AccountId>,
) -> Result<Auction, Error> {
    if !v.auctions.contains_key(id) {
        Err(Error::AuctionNotExist)
    } else if status is Some && v.auctions[id].status != status->0 {
        Err(Error::WrongStatus(status->0))
    } else if owner is Some && v.auctions[id].owner != owner->0 {
        Err(Error::NotOwner)
    } else {
        Ok(v.auctions[id])
    }
}

/// `v` after auction `id` (if stored) is set to status `to`, with the event
/// that reports the change from `from`.
pub open spec fn changed_status(v: ModuleView, id: AuctionId, from: AuctionStatus, to: AuctionStatus) -> ModuleView {
    ModuleView {
        auctions: if v.auctions.contains_key(id) {
            v.auctions.insert(id, Auction { status: to, ..v.auctions[id] })
        } else {
            v.auctions
        },
        events: v.events.push(Event::AuctionUpdated(id, from, to)),
        ..v
    }
}

/// A new auction, pending start, with no item, no moments and no bid.
pub open spec fn new_auction(
    id: AuctionId,
    owner: AccountId,
    begin_price: Balance,
    minimum_step: Balance,
    upper_bound_price: Option<Balance>,
) -> Auction {
    Auction {
        id,
        item: None,
        owner,
        start_at: None,
        stop_at: None,
        wait_period: None,
        begin_price,
        upper_bound_price,
        minimum_step,
        latest_participate: None,
        status: AuctionStatus::PendingStart,
    }
}

/// Creating an auction: it gets the next identifier, unless that is the
/// largest one.
pub open spec fn create_outcome(
    v: ModuleView,
    owner: AccountId,
    begin_price: Balance,
    minimum_step: Balance,
    upper_bound_price: Option<Balance>,
) -> (ModuleView, Result<AuctionId, Error>) {
    let id = v.next_auction_id;
    if id == u32::MAX {
        (v, Err(Error::AuctionCountOverflow))
    } else {
        (
            ModuleView {
                next_auction_id: (id + 1) as u32,
                auctions: v.auctions.insert(id, new_auction(id, owner, begin_price, minimum_step, upper_bound_price)),
                ..v
            },
            Ok(id),
        )
    }
}

/// Item `item` is taken by another auction that holds it.
pub open spec fn item_taken(v: ModuleView, item: ItemId, id: AuctionId) -> bool {
    &&& v.auction_items.contains_key(item)
    &&& v.auction_items[item] != id
    &&& v.auctions.contains_key(v.auction_items[item])
    &&& holds_item(v, v.auction_items[item])
}

/// Adding an item to a pending auction of `sender`, given whether `sender`
/// owns the item: an item taken by another auction is refused; otherwise it
/// replaces the auction's item, in the auction and in the item map.
pub open spec fn add_item_outcome(
    v: ModuleView,
    sender: AccountId,
    id: AuctionId,
    item: ItemId,
    is_item_owner: bool,
) -> (ModuleView, Result<(), Error>) {
    if !is_item_owner {
        (v, Err(Error::NotItemOwner))
    } else {
        match check_auction(v, id, Some(AuctionStatus::PendingStart), Some(sender)) {
            Err(e) => (v, Err(e)),
            Ok(a) => if item_taken(v, item, id) {
                (v, Err(Error::ItemInAuction))
            } else {
                (
                    ModuleView {
                        auctions: v.auctions.insert(id, Auction { item: Some(item), ..a }),
                        auction_items: without_item(v.auction_items, a.item, id).insert(item, id),
                        ..v
                    },
                    Ok(()),
                )
            },
        }
    }
}

/// `old` where `new` is `None`, `new` otherwise.
pub open spec fn overridden<T>(old: Option<T>, new: Option<T>) -> Option<T> {
    if new is Some {
        new
    } else {
        old
    }
}

/// Setting the moments of a pending auction of `owner`: the given moments
/// replace the stored ones, and the auction joins the pending set.
pub open spec fn setup_moments_outcome(
    v: ModuleView,
    owner: AccountId,
    id: AuctionId,
    start_at: Option<Moment>,
    stop_at: Option<Moment>,
    wait_period: Option<Moment>,
) -> (ModuleView, Result<(), Error>) {
    match check_auction(v, id, Some(AuctionStatus::PendingStart), Some(owner)) {
        Err(e) => (v, Err(e)),
        Ok(a) => (
            ModuleView {
                auctions: v.auctions.insert(
                    id,
                    Auction {
                        start_at: overridden(a.start_at, start_at),
                        stop_at: overridden(a.stop_at, stop_at),
                        wait_period: overridden(a.wait_period, wait_period),
                        ..a
                    },
                ),
                pending: set_add_all(v.pending, seq![id]),
                ..v
            },
            Ok(()),
        ),
    }
}

/// Moving an auction of `owner` from status `from` to status `to`.
pub open spec fn status_move_outcome(
    v: ModuleView,
    owner: AccountId,
    id: AuctionId,
    from: AuctionStatus,
    to: AuctionStatus,
) -> (ModuleView, Result<(), Error>) {
    match check_auction(v, id, Some(from), Some(owner)) {
        Err(e) => (v, Err(e)),
        Ok(a) => (changed_status(v, id, a.status, to), Ok(())),
    }
}

/// The latest bidder of `a`, if any.
pub open spec fn latest_bidder(a: Auction) -> Option<AccountId> {
    match a.latest_participate {
        Some(latest) => Some(latest.0),
        None => None,
    }
}

/// A bid in the active auction `id` can be compared with the latest bid plus
/// the minimum step without leaving the range of `Balance`.
pub open spec fn bid_step_fits(v: ModuleView, id: AuctionId) -> bool {
    v.auctions.contains_key(id) && v.auctions[id].status == AuctionStatus::Active && latest_bidder(v.auctions[id]) is Some
        ==> v.bid_of(id, latest_bidder(v.auctions[id])->0) + v.auctions[id].minimum_step <= u64::MAX
}

/// Locking `amount` more for `who` in auction `a`: the total lock of `who`
/// grows first, then the lock in the auction; an overflow in either stops
/// there.
pub open spec fn lock_outcome(v: ModuleView, a: AuctionId, who: AccountId, amount: Balance) -> (ModuleView, Result<LockOp, Error>) {
    if amount + v.lock_of(who) > u64::MAX {
        (v, Err(Error::BalanceAddOverflow))
    } else {
        let g = (amount + v.lock_of(who)) as u64;
        let v1 = ModuleView { account_locks: v.account_locks.insert(who, g), ..v };
        if amount + v.bid_of(a, who) > u64::MAX {
            (v1, Err(Error::BalanceAddOverflow))
        } else {
            (
                ModuleView { auction_bids: v1.auction_bids.insert((a, who), (amount + v.bid_of(a, who)) as u64), ..v1 },
                Ok(LockOp::Extend { who, amount: g }),
            )
        }
    }
}

/// `who` becomes the latest bidder of auction `id` (if stored) at `now`, joins
/// its participants, and the bid of `price` is reported.
pub open spec fn recorded_bid(v: ModuleView, id: AuctionId, who: AccountId, price: Balance, now: Moment) -> ModuleView {
    let ps = v.participants_of(id);
    ModuleView {
        auctions: if v.auctions.contains_key(id) {
            v.auctions.insert(id, Auction { latest_participate: Some((who, now)), ..v.auctions[id] })
        } else {
            v.auctions
        },
        participants: v.participants.insert(id, if ps.contains(who) { ps } else { ps.push(who) }),
        events: v.events.push(Event::BidderUpdated(id, who, price, 0)),
        ..v
    }
}

/// Whether `who` may bid `price` in auction `id`, holding `free_balance`;
/// where it may, the total amount `who` then locks over all auctions.
pub open spec fn bid_check(v: ModuleView, who: AccountId, id: AuctionId, price: Balance, free_balance: Balance) -> Result<Balance, Error> {
    match check_auction(v, id, Some(AuctionStatus::Active), None) {
        Err(e) => Err(e),
        Ok(a) => {
            let delta = price - v.bid_of(id, who);
            if latest_bidder(a) is Some && price <= v.bid_of(id, latest_bidder(a)->0) + a.minimum_step {
                Err(Error::BidTooLow)
            } else if latest_bidder(a) is None && price < a.begin_price {
                Err(Error::BelowBeginPrice)
            } else if delta >= free_balance {
                Err(Error::InsufficientBalance)
            } else if delta + v.lock_of(who) > u64::MAX {
                Err(Error::BalanceAddOverflow)
            } else {
                Ok((delta + v.lock_of(who)) as u64)
            }
        },
    }
}

/// Bidding: where the bid is accepted, the lock of `who` in the auction
/// becomes `price`, its total lock grows by the difference, and `who`
/// becomes the latest bidder; the currency is asked to extend its lock.
pub open spec fn participate_outcome(
    v: ModuleView,
    who: AccountId,
    id: AuctionId,
    price: Balance,
    free_balance: Balance,
    now: Moment,
) -> (ModuleView, Result<LockOp, Error>) {
    match bid_check(v, who, id, price, free_balance) {
        Err(e) => (v, Err(e)),
        Ok(g) => (
            recorded_bid(
                ModuleView {
                    account_locks: v.account_locks.insert(who, g),
                    auction_bids: v.auction_bids.insert((id, who), price),
                    ..v
                },
                id,
                who,
                price,
                now,
            ),
            Ok(LockOp::Extend { who, amount: g }),
        ),
    }
}

/// The fee the pallet takes from a winning bid of `price`.
pub open spec fn auction_fee(price: Balance) -> Balance {
    if price / 20 < 1 {
        price / 20
    } else {
        1
    }
}

/// Releasing the lock of `who` in auction `a`: where `who` has a bid there,
/// its total lock shrinks by the bid, and is released where nothing is left.
pub open spec fn unlock_outcome(v: ModuleView, a: AuctionId, who: AccountId) -> (ModuleView, Result<Option<LockOp>, Error>) {
    if !v.auction_bids.contains_key((a, who)) {
        (v, Ok(None))
    } else if !v.account_locks.contains_key(who) {
        (v, Err(Error::GlobalLockMissing))
    } else if v.account_locks[who] < v.auction_bids[(a, who)] {
        (v, Err(Error::GlobalLockTooSmall))
    } else {
        let g = (v.account_locks[who] - v.auction_bids[(a, who)]) as u64;
        if g == 0 {
            (ModuleView { account_locks: v.account_locks.remove(who), ..v }, Ok(Some(LockOp::Remove { who })))
        } else {
            (ModuleView { account_locks: v.account_locks.insert(who, g), ..v }, Ok(Some(LockOp::Reset { who, amount: g })))
        }
    }
}

/// Releasing, in order, the locks of each of `ps` in auction `a`, up to the
/// first failure: the state reached, the lock changes for the currency, and
/// the failure if any.
pub open spec fn unlock_all_outcome(v: ModuleView, a: AuctionId, ps: Seq<AccountId>) -> (ModuleView, Seq<LockOp>, Result<(), Error>)
    decreases ps.len(),
{
    if ps.len() == 0 {
        (v, Seq::empty(), Ok(()))
    } else {
        let first = unlock_outcome(v, a, ps[0]);
        match first.1 {
            Err(e) => (first.0, Seq::empty(), Err(e)),
            Ok(op) => {
                let rest = unlock_all_outcome(first.0, a, ps.drop_first());
                (
                    rest.0,
                    match op {
                        Some(o) => seq![o] + rest.1,
                        None => rest.1,
                    },
                    rest.2,
                )
            },
        }
    }
}

/// What settling auction `a` pays, where it has an item and a bidder: the
/// latest bid, less the fee, goes to the owner.
pub open spec fn payout_of(v: ModuleView, a: Auction) -> Option<Payout> {
    match (a.item, a.latest_participate) {
        (Some(item), Some(latest)) => {
            let bid = v.bid_of(a.id, latest.0);
            Some(Payout {
                auction_id: a.id,
                owner: a.owner,
                winner: latest.0,
                item,
                value: (bid - auction_fee(bid)) as u64,
                fee: auction_fee(bid),
            })
        },
        _ => None,
    }
}

/// Whether the lock of `who` in auction `a` can be released: where `who` has
/// a bid there, a total lock must be recorded that covers it.
pub open spec fn unlock_precheck(v: ModuleView, a: AuctionId, who: AccountId) -> Result<(), Error> {
    if !v.auction_bids.contains_key((a, who)) {
        Ok(())
    } else if !v.account_locks.contains_key(who) {
        Err(Error::GlobalLockMissing)
    } else if v.account_locks[who] < v.auction_bids[(a, who)] {
        Err(Error::GlobalLockTooSmall)
    } else {
        Ok(())
    }
}

/// Whether the locks of all of `ps` in auction `a` can be released: the
/// first of them whose lock cannot, if any, gives the error.
pub open spec fn unlock_check(v: ModuleView, a: AuctionId, ps: Seq<AccountId>) -> Result<(), Error>
    decreases ps.len(),
{
    if ps.len() == 0 {
        Ok(())
    } else {
        match unlock_precheck(v, a, ps[0]) {
            Err(e) => Err(e),
            Ok(_) => unlock_check(v, a, ps.drop_first()),
        }
    }
}

/// Whether auction `a` can be settled, and if so what its winner pays: all
/// locks in it are checked before anything changes.
pub open spec fn settle_check(v: ModuleView, a: Auction) -> Result<Option<Payout>, Error> {
    match unlock_check(v, a.id, v.participants_of(a.id)) {
        Err(e) => Err(e),
        Ok(_) => Ok(payout_of(v, a)),
    }
}

/// `v` after releasing the locks of all participants of auction `id`, with
/// the lock changes for the currency.
pub open spec fn released(v: ModuleView, id: AuctionId) -> (ModuleView, Seq<LockOp>) {
    let u = unlock_all_outcome(v, id, v.participants_of(id));
    (u.0, u.1)
}

/// The item of auction `id`, if it is stored and has one.
pub open spec fn item_of(v: ModuleView, id: AuctionId) -> Option<ItemId> {
    if v.auctions.contains_key(id) {
        v.auctions[id].item
    } else {
        None
    }
}

/// `m` without the entry of `item` where that entry is auction `id`.
pub open spec fn without_item(m: Map<ItemId, AuctionId>, item: Option<ItemId>, id: AuctionId) -> Map<ItemId, AuctionId> {
    match item {
        Some(i) => if m.contains_key(i) && m[i] == id {
            m.remove(i)
        } else {
            m
        },
        None => m,
    }
}

/// Auction `id` stopped, coming from status `from`, its item free again.
pub open spec fn stop_marked(v: ModuleView, id: AuctionId, from: AuctionStatus) -> ModuleView {
    let c = changed_status(v, id, from, AuctionStatus::Stopped);
    ModuleView { auction_items: without_item(c.auction_items, item_of(v, id), id), ..c }
}

/// Auction `id` stopped, coming from status `from`, its item free again, and
/// out of the active set.
pub open spec fn stopped(v: ModuleView, id: AuctionId, from: AuctionStatus) -> ModuleView {
    let c = stop_marked(v, id, from);
    ModuleView { active: without_all(c.active, seq![id]), ..c }
}

/// Auction `id` stopped, coming from status `from`, and waiting among the
/// unsettled auctions for the winner's payment; it keeps its item.
pub open spec fn parked(v: ModuleView, id: AuctionId, from: AuctionStatus) -> ModuleView {
    let c = changed_status(v, id, from, AuctionStatus::Stopped);
    ModuleView { unsettled: set_add_all(c.unsettled, seq![id]), ..c }
}

/// Settling auction `a` of `v`, once every lock in it is checked: the locks
/// are released and the auction stops; where the winner has to pay (`p`), it
/// waits for the payment among the unsettled auctions, otherwise its item is
/// free again. The state reached, with the lock changes for the currency.
pub open spec fn settled(v: ModuleView, a: Auction, p: Option<Payout>) -> (ModuleView, Seq<LockOp>) {
    let r = released(v, a.id);
    (
        if p is Some {
            parked(r.0, a.id, a.status)
        } else {
            stop_marked(r.0, a.id, a.status)
        },
        r.1,
    )
}

/// The owner stopping auction `id`. A pending auction stops at once. A
/// started one is settled: where a lock cannot be released, nothing changes;
/// otherwise all its locks are released, it stops and leaves the active set,
/// and the payout that its winner owes, if any, is returned.
pub open spec fn stop_outcome(v: ModuleView, owner: AccountId, id: AuctionId) -> (ModuleView, Result<(Seq<LockOp>, Option<Payout>), Error>) {
    match check_auction(v, id, None, Some(owner)) {
        Err(e) => (v, Err(e)),
        Ok(a) => if a.status == AuctionStatus::Stopped {
            (v, Err(Error::CannotStop))
        } else if a.status == AuctionStatus::PendingStart {
            (stopped(v, id, a.status), Ok((Seq::empty(), None)))
        } else {
            match settle_check(v, a) {
                Err(e) => (v, Err(e)),
                Ok(q) => {
                    let s = settled(v, a, q);
                    (ModuleView { active: without_all(s.0.active, seq![id]), ..s.0 }, Ok((s.1, q)))
                },
            }
        },
    }
}

/// The unsettled auction `id` settled for good: it leaves the unsettled
/// auctions and its item is free.
pub open spec fn closed(v: ModuleView, id: AuctionId) -> ModuleView {
    ModuleView {
        unsettled: without_all(v.unsettled, seq![id]),
        auction_items: without_item(v.auction_items, item_of(v, id), id),
        ..v
    }
}

/// The checks before the settlement of auction `p.auction_id` is completed
/// with payout `p`, given the outcome of the winner's payment: the payment
/// went through, the auction waits for its settlement, and `p` is what it
/// pays. Where they pass, the auction to settle.
pub open spec fn complete_settlement_check(v: ModuleView, p: Payout, payment: Result<(), &'static str>) -> Result<Auction, Error> {
    match payment {
        Err(m) => Err(Error::PaymentFailed(m)),
        Ok(_) => if !v.unsettled.contains(p.auction_id) || !v.auctions.contains_key(p.auction_id)
            || payout_of(v, v.auctions[p.auction_id]) != Some(p) {
            Err(Error::NoSettlementPending)
        } else {
            Ok(v.auctions[p.auction_id])
        },
    }
}

/// Completing the settlement of auction `a`, once the winner has paid, given
/// what the item module answered to the transfer of the item: where it
/// refused, nothing changes; otherwise the settlement is closed.
pub open spec fn complete_settlement_outcome(v: ModuleView, a: Auction, item_transfer: Result<(), &'static str>) -> (ModuleView, Result<(), Error>) {
    match item_transfer {
        Err(m) => (v, Err(Error::ItemTransferFailed(m))),
        Ok(_) => (closed(v, a.id), Ok(())),
    }
}

/// The owner giving up the pending settlement of auction `id`: the item
/// stays with the owner and is free again.
pub open spec fn cancel_outcome(v: ModuleView, owner: AccountId, id: AuctionId) -> (ModuleView, Result<(), Error>) {
    match check_auction(v, id, None, Some(owner)) {
        Err(e) => (v, Err(e)),
        Ok(_) => if !v.unsettled.contains(id) {
            (v, Err(Error::NoSettlementPending))
        } else {
            (closed(v, id), Ok(()))
        },
    }
}

/// Everything but the total locks is the same in `v` and `w`.
pub open spec fn same_but_locks(v: ModuleView, w: ModuleView) -> bool {
    w == ModuleView { account_locks: w.account_locks, ..v }
}

/// Releasing locks changes nothing but the total locks.
pub proof fn lemma_unlock_all_only_locks(v: ModuleView, a: AuctionId, ps: Seq<AccountId>)
    ensures
        same_but_locks(v, unlock_all_outcome(v, a, ps).0),
    decreases ps.len(),
{
    if ps.len() > 0 {
        let first = unlock_outcome(v, a, ps[0]);
        if first.1 is Ok {
            lemma_unlock_all_only_locks(first.0, a, ps.drop_first());
        }
    }
}

/// The invariant does not depend on the total locks.
pub proof fn lemma_same_but_locks_wf(v: ModuleView, w: ModuleView)
    requires
        wf(v),
        same_but_locks(v, w),
    ensures
        wf(w),
{
    assert forall|a: AuctionId| #[trigger] w.auctions.contains_key(a) implies bids_led_by_latest(w, a) by {
        assert(bids_led_by_latest(v, a));
    }
}

/// Moving an auction to a status other than pending start keeps the
/// invariant, where it does not bring a stopped auction back.
pub proof fn lemma_changed_status_wf(v: ModuleView, id: AuctionId, from: AuctionStatus, to: AuctionStatus)
    requires
        wf(v),
        to != AuctionStatus::PendingStart,
        to != AuctionStatus::Stopped ==> v.auctions.contains_key(id) ==> v.auctions[id].status != AuctionStatus::Stopped,
    ensures
        wf(changed_status(v, id, from, to)),
{
    let w = changed_status(v, id, from, to);
    assert forall|a: AuctionId| #[trigger] w.auctions.contains_key(a) implies bids_led_by_latest(w, a) by {
        assert(bids_led_by_latest(v, a));
    }
    assert forall|k: int| 0 <= k < w.unsettled.len() implies w.auctions.contains_key(#[trigger] w.unsettled[k])
        && w.auctions[w.unsettled[k]].status == AuctionStatus::Stopped by {
        assert(v.auctions.contains_key(v.unsettled[k]));
    }
    assert forall|i: ItemId| #[trigger] w.auction_items.contains_key(i)
        implies w.auctions.contains_key(w.auction_items[i]) && w.auctions[w.auction_items[i]].item == Some(i) by {
        assert(v.auctions.contains_key(v.auction_items[i]));
    }
    assert forall|a: AuctionId| #[trigger] w.auctions.contains_key(a) && holds_item(w, a)
        && w.auctions[a].item is Some implies w.auction_items.contains_key(w.auctions[a].item->0)
        && w.auction_items[w.auctions[a].item->0] == a by {
        assert(v.auctions.contains_key(a));
        if a == id && to == AuctionStatus::Stopped {
            let k = choose|k: int| 0 <= k < v.unsettled.len() && v.unsettled[k] == a;
            assert(v.auctions.contains_key(v.unsettled[k]));
        }
        assert(holds_item(v, a));
    }
}

/// Where auction `id` is not stopped, it does not wait for a settlement.
pub proof fn lemma_live_not_unsettled(v: ModuleView, id: AuctionId)
    requires
        wf(v),
        v.auctions.contains_key(id) ==> v.auctions[id].status != AuctionStatus::Stopped,
    ensures
        !v.unsettled.contains(id),
{
    if v.unsettled.contains(id) {
        let k = choose|k: int| 0 <= k < v.unsettled.len() && v.unsettled[k] == id;
        assert(v.auctions.contains_key(v.unsettled[k]));
    }
}

/// Stopping an auction that is not stopped, and freeing its item, keeps the
/// invariant.
pub proof fn lemma_stop_marked_wf(v: ModuleView, id: AuctionId, from: AuctionStatus)
    requires
        wf(v),
        v.auctions.contains_key(id) ==> v.auctions[id].status != AuctionStatus::Stopped,
    ensures
        wf(stop_marked(v, id, from)),
{
    lemma_live_not_unsettled(v, id);
    let c = changed_status(v, id, from, AuctionStatus::Stopped);
    lemma_changed_status_wf(v, id, from, AuctionStatus::Stopped);
    let w = stop_marked(v, id, from);
    assert forall|a: AuctionId| #[trigger] w.auctions.contains_key(a) implies bids_led_by_latest(w, a) by {
        assert(bids_led_by_latest(c, a));
    }
    assert forall|i: ItemId| #[trigger] w.auction_items.contains_key(i)
        implies w.auctions.contains_key(w.auction_items[i]) && w.auctions[w.auction_items[i]].item == Some(i) by {
        assert(c.auction_items.contains_key(i));
    }
    assert forall|a: AuctionId| #[trigger] w.auctions.contains_key(a) && holds_item(w, a)
        && w.auctions[a].item is Some implies w.auction_items.contains_key(w.auctions[a].item->0)
        && w.auction_items[w.auctions[a].item->0] == a by {
        assert(a != id);
        assert(c.auctions.contains_key(a));
        assert(holds_item(c, a));
    }
    assert forall|k: int| 0 <= k < w.unsettled.len() implies w.auctions.contains_key(#[trigger] w.unsettled[k])
        && w.auctions[w.unsettled[k]].status == AuctionStatus::Stopped by {
        assert(c.auctions.contains_key(c.unsettled[k]));
    }
}

/// Stopping an auction that is not stopped, freeing its item and taking it
/// out of the active set keeps the invariant.
pub proof fn lemma_stopped_wf(v: ModuleView, id: AuctionId, from: AuctionStatus)
    requires
        wf(v),
        v.auctions.contains_key(id) ==> v.auctions[id].status != AuctionStatus::Stopped,
    ensures
        wf(stopped(v, id, from)),
        wf(stop_marked(v, id, from)),
{
    let c = stop_marked(v, id, from);
    lemma_stop_marked_wf(v, id, from);
    lemma_without_all(c.active, seq![id]);
    let w = stopped(v, id, from);
    assert forall|a: AuctionId| #[trigger] w.auctions.contains_key(a) implies bids_led_by_latest(w, a) by {
        assert(bids_led_by_latest(c, a));
    }
    assert forall|a: AuctionId| #[trigger] w.auctions.contains_key(a) && holds_item(w, a)
        && w.auctions[a].item is Some implies w.auction_items.contains_key(w.auctions[a].item->0)
        && w.auction_items[w.auctions[a].item->0] == a by {
        assert(holds_item(c, a));
    }
}

/// Stopping a stored auction that is not stopped and letting it wait for its
/// settlement keeps the invariant.
pub proof fn lemma_parked_wf(v: ModuleView, id: AuctionId, from: AuctionStatus)
    requires
        wf(v),
        v.auctions.contains_key(id),
        v.auctions[id].status != AuctionStatus::Stopped,
    ensures
        wf(parked(v, id, from)),
{
    lemma_live_not_unsettled(v, id);
    let c = changed_status(v, id, from, AuctionStatus::Stopped);
    lemma_changed_status_wf(v, id, from, AuctionStatus::Stopped);
    lemma_set_add_all(c.unsettled, seq![id]);
    assert(seq![id].contains(id)) by { assert(seq![id][0] == id); }
    let w = parked(v, id, from);
    assert forall|a: AuctionId| #[trigger] w.auctions.contains_key(a) implies bids_led_by_latest(w, a) by {
        assert(bids_led_by_latest(c, a));
    }
    assert forall|a: AuctionId| #[trigger] w.auctions.contains_key(a) && holds_item(w, a)
        && w.auctions[a].item is Some implies w.auction_items.contains_key(w.auctions[a].item->0)
        && w.auction_items[w.auctions[a].item->0] == a by {
        if a == id {
            assert(v.auctions.contains_key(a) && holds_item(v, a));
        } else {
            if w.unsettled.contains(a) {
                assert(c.unsettled.contains(a) || seq![id].contains(a));
                if seq![id].contains(a) {
                    assert(seq![id][0] == id);
                }
            }
            assert(holds_item(c, a));
        }
    }
    assert forall|k: int| 0 <= k < w.unsettled.len() implies w.auctions.contains_key(#[trigger] w.unsettled[k])
        && w.auctions[w.unsettled[k]].status == AuctionStatus::Stopped by {
        assert(w.unsettled.contains(w.unsettled[k]));
        if w.unsettled[k] != id {
            assert(c.unsettled.contains(w.unsettled[k]) || seq![id].contains(w.unsettled[k]));
            if seq![id].contains(w.unsettled[k]) {
                assert(seq![id][0] == id);
            }
            let j = choose|j: int| 0 <= j < c.unsettled.len() && c.unsettled[j] == w.unsettled[k];
            assert(c.auctions.contains_key(c.unsettled[j]));
        }
    }
}

/// Closing the settlement of an unsettled auction keeps the invariant.
pub proof fn lemma_closed_wf(v: ModuleView, id: AuctionId)
    requires
        wf(v),
        v.unsettled.contains(id),
    ensures
        wf(closed(v, id)),
{
    let w = closed(v, id);
    let k0 = choose|k: int| 0 <= k < v.unsettled.len() && v.unsettled[k] == id;
    assert(v.auctions.contains_key(v.unsettled[k0]));
    lemma_without_all(v.unsettled, seq![id]);
    assert(seq![id].contains(id)) by { assert(seq![id][0] == id); }
    assert forall|a: AuctionId| #[trigger] w.auctions.contains_key(a) implies bids_led_by_latest(w, a) by {
        assert(bids_led_by_latest(v, a));
    }
    assert forall|i: ItemId| #[trigger] w.auction_items.contains_key(i)
        implies w.auctions.contains_key(w.auction_items[i]) && w.auctions[w.auction_items[i]].item == Some(i) by {
        assert(v.auction_items.contains_key(i));
    }
    assert forall|a: AuctionId| #[trigger] w.auctions.contains_key(a) && holds_item(w, a)
        && w.auctions[a].item is Some implies w.auction_items.contains_key(w.auctions[a].item->0)
        && w.auction_items[w.auctions[a].item->0] == a by {
        if a == id {
            assert(!seq![id].contains(id) ==> false);
        }
        assert(a != id);
        if w.unsettled.contains(a) {
            assert(v.unsettled.contains(a));
        }
        assert(holds_item(v, a));
    }
    assert forall|k: int| 0 <= k < w.unsettled.len() implies w.auctions.contains_key(#[trigger] w.unsettled[k])
        && w.auctions[w.unsettled[k]].status == AuctionStatus::Stopped by {
        assert(w.unsettled.contains(w.unsettled[k]));
        let j = choose|j: int| 0 <= j < v.unsettled.len() && v.unsettled[j] == w.unsettled[k];
        assert(v.auctions.contains_key(v.unsettled[j]));
    }
}

/// Where every lock in the way can be released, releasing them in turn does not fail.
pub proof fn lemma_release_ok(v: ModuleView, a: AuctionId, ps: Seq<AccountId>)
    requires
        ps.no_duplicates(),
        unlock_check(v, a, ps) is Ok,
    ensures
        unlock_all_outcome(v, a, ps).2 is Ok,
    decreases ps.len(),
{
    if ps.len() > 0 {
        let p0 = ps[0];
        let v1 = unlock_outcome(v, a, p0).0;
        let rest = ps.drop_first();
        assert(rest.no_duplicates());
        lemma_unlock_check_frame(v, v1, a, rest, p0);
        lemma_release_ok(v1, a, rest);
    }
}

/// Where every lock in auction `id` can be released, releasing them succeeds,
/// changes nothing but the total locks, and keeps the invariant.
pub proof fn lemma_released_wf(v: ModuleView, id: AuctionId)
    requires
        wf(v),
        unlock_check(v, id, v.participants_of(id)) is Ok,
    ensures
        unlock_all_outcome(v, id, v.participants_of(id)).2 is Ok,
        same_but_locks(v, released(v, id).0),
        wf(released(v, id).0),
{
    if v.participants.contains_key(id) {
        assert(v.participants[id].no_duplicates());
    }
    lemma_release_ok(v, id, v.participants_of(id));
    lemma_unlock_all_only_locks(v, id, v.participants_of(id));
    lemma_same_but_locks_wf(v, released(v, id).0);
}

/// Settling a stored auction that is not stopped, once every lock in it is
/// checked, keeps the invariant.
pub proof fn lemma_settled_wf(v: ModuleView, a: Auction, q: Option<Payout>)
    requires
        wf(v),
        v.auctions.contains_key(a.id),
        v.auctions[a.id].status != AuctionStatus::Stopped,
        unlock_check(v, a.id, v.participants_of(a.id)) is Ok,
    ensures
        wf(settled(v, a, q).0),
        settled(v, a, q).0.auctions.contains_key(a.id),
        settled(v, a, q).0.auctions[a.id].status == AuctionStatus::Stopped,
        settled(v, a, q).0.active == v.active,
{
    lemma_released_wf(v, a.id);
    let r = released(v, a.id).0;
    if q is Some {
        lemma_parked_wf(r, a.id, a.status);
    } else {
        lemma_stop_marked_wf(r, a.id, a.status);
    }
}

/// The off-chain worker's stop of one auction keeps the invariant.
pub proof fn lemma_passive_stop_one_wf(v: ModuleView, id: AuctionId)
    requires
        wf(v),
    ensures
        wf(passive_stop_one(v, id).0),
{
    if v.auctions.contains_key(id) {
        let a = v.auctions[id];
        if a.status == AuctionStatus::Stopped {
            lemma_changed_status_wf(v, id, a.status, AuctionStatus::Stopped);
        } else if a.status == AuctionStatus::PendingStart {
            lemma_stop_marked_wf(v, id, a.status);
        } else {
            match settle_check(v, a) {
                Err(_) => lemma_stop_marked_wf(v, id, a.status),
                Ok(q) => {
                    assert(a.id == id);
                    lemma_settled_wf(v, a, q);
                },
            }
        }
    }
}

/// The checks of `ps` do not change where only the lock of someone not in `ps` changed.
proof fn lemma_unlock_check_frame(v: ModuleView, w: ModuleView, a: AuctionId, ps: Seq<AccountId>, changed: AccountId)
    requires
        !ps.contains(changed),
        w.auction_bids == v.auction_bids,
        forall|x: AccountId| x != changed ==> (#[trigger] w.account_locks.contains_key(x)) == v.account_locks.contains_key(x)
            && (w.account_locks.contains_key(x) ==> w.account_locks[x] == v.account_locks[x]),
    ensures
        unlock_check(w, a, ps) == unlock_check(v, a, ps),
    decreases ps.len(),
{
    if ps.len() > 0 {
        assert(ps[0] != changed) by {
            assert(ps.contains(ps[0]));
        }
        assert(w.account_locks.contains_key(ps[0]) == v.account_locks.contains_key(ps[0]));
        assert(!ps.drop_first().contains(changed)) by {
            if ps.drop_first().contains(changed) {
                let k = choose|k: int| 0 <= k < ps.drop_first().len() && ps.drop_first()[k] == changed;
                assert(ps[k + 1] == changed);
            }
        }
        lemma_unlock_check_frame(v, w, a, ps.drop_first(), changed);
    }
}

/// Auction `id` is stored and its status is `status` (or, where `not_equal`
/// holds, is not `status`).
pub open spec fn has_status(v: ModuleView, id: AuctionId, status: AuctionStatus, not_equal: bool) -> bool {
    &&& v.auctions.contains_key(id)
    &&& if not_equal {
        v.auctions[id].status != status
    } else {
        v.auctions[id].status == status
    }
}

/// Every one of `ids` is a stored auction whose status is `status` (or,
/// where `not_equal` holds, is not `status`).
pub open spec fn all_with_status(v: ModuleView, ids: Seq<AuctionId>, status: AuctionStatus, not_equal: bool) -> bool {
    forall|i: int| 0 <= i < ids.len() ==> #[trigger] has_status(v, ids[i], status, not_equal)
}

/// Each of `ids`, in order, moved from pending start to active.
pub open spec fn start_all(v: ModuleView, ids: Seq<AuctionId>) -> ModuleView
    decreases ids.len(),
{
    if ids.len() == 0 {
        v
    } else {
        changed_status(start_all(v, ids.drop_last()), ids.last(), AuctionStatus::PendingStart, AuctionStatus::Active)
    }
}

/// The off-chain worker starting `ids`, all pending start, under a local
/// authority key (`key_found`) that signed them (`signature_valid`): they
/// become active, leave the pending set and join the active set.
pub open spec fn start_passive_outcome(
    v: ModuleView,
    ids: Seq<AuctionId>,
    key_found: bool,
    signature_valid: bool,
) -> (ModuleView, Result<(), Error>) {
    if !all_with_status(v, ids, AuctionStatus::PendingStart, false) {
        (v, Err(Error::NotAllPendingStart))
    } else if !key_found {
        (v, Err(Error::NoAuthorityKey))
    } else if !signature_valid {
        (v, Err(Error::InvalidSignature))
    } else {
        let s = start_all(v, ids);
        (ModuleView { pending: without_all(s.pending, ids), active: set_add_all(s.active, ids), ..s }, Ok(()))
    }
}

/// What settling one auction asks of the runtime: the lock changes, in
/// order, and the payment of the winner, if any.
pub struct SettlementView {
    pub lock_ops: Seq<LockOp>,
    pub payout: Option<Payout>,
}

/// The off-chain worker stopping auction `id`. One that has started and
/// not yet stopped is settled: where a lock cannot be released, nothing is
/// released; otherwise all its locks are released, and where the winner has
/// to pay, the auction waits for the payment among the unsettled auctions.
/// The auction stops in every case.
pub open spec fn passive_stop_one(v: ModuleView, id: AuctionId) -> (ModuleView, Option<SettlementView>) {
    if !v.auctions.contains_key(id) {
        (v, None)
    } else {
        let a = v.auctions[id];
        if a.status == AuctionStatus::Stopped {
            (changed_status(v, id, a.status, AuctionStatus::Stopped), None)
        } else if a.status == AuctionStatus::PendingStart {
            (stop_marked(v, id, a.status), None)
        } else {
            match settle_check(v, a) {
                Err(_) => (stop_marked(v, id, a.status), None),
                Ok(q) => {
                    let s = settled(v, a, q);
                    (s.0, Some(SettlementView { lock_ops: s.1, payout: q }))
                },
            }
        }
    }
}

/// Each of `ids`, in order, stopped by the off-chain worker, with the
/// settlements made on the way.
pub open spec fn passive_stop_all(v: ModuleView, ids: Seq<AuctionId>) -> (ModuleView, Seq<SettlementView>)
    decreases ids.len(),
{
    if ids.len() == 0 {
        (v, Seq::empty())
    } else {
        let prev = passive_stop_all(v, ids.drop_last());
        let one = passive_stop_one(prev.0, ids.last());
        (
            one.0,
            match one.1 {
                Some(st) => prev.1.push(st),
                None => prev.1,
            },
        )
    }
}

/// The off-chain worker stopping `ids`, none of them stopped, under a local
/// authority key (`key_found`) that signed them (`signature_valid`).
pub open spec fn stop_passive_outcome(
    v: ModuleView,
    ids: Seq<AuctionId>,
    key_found: bool,
    signature_valid: bool,
) -> (ModuleView, Result<Seq<SettlementView>, Error>) {
    if !all_with_status(v, ids, AuctionStatus::Stopped, true) {
        (v, Err(Error::NotAllUnstopped))
    } else if !key_found {
        (v, Err(Error::NoAuthorityKey))
    } else if !signature_valid {
        (v, Err(Error::InvalidSignature))
    } else {
        let s = passive_stop_all(v, ids);
        (ModuleView { active: without_all(s.0.active, ids), ..s.0 }, Ok(s.1))
    }
}

/// Whether `v` holds `x`.
fn contains_account(v: &Vec<AccountId>, x: AccountId) -> (r: bool)
    ensures
        r == v@.contains(x),
{
    let mut i: usize = 0;
    while i < v.len()
        invariant
            0 <= i <= v.len(),
            forall|j: int| 0 <= j < i ==> v@[j] != x,
        decreases v.len() - i,
    {
        if v[i] == x {
            assert(v@[i as int] == x);
            return true;
        }
        i = i + 1;
    }
    false
}

/// What settling one auction asks of the runtime: the lock changes for the
/// currency to apply, in order, and the payment of the winner, if any.
pub struct Settlement {
    pub lock_ops: Vec<LockOp>,
    pub payout: Option<Payout>,
}

impl View for Settlement {
    type V = SettlementView;

    open spec fn view(&self) -> SettlementView {
        SettlementView { lock_ops: self.lock_ops@, payout: self.payout }
    }
}

impl Module {
    fn get_next_auction_id(&self) -> (r: Result<AuctionId, Error>)
        ensures
            r == (if self@.next_auction_id == u32::MAX {
                Err::<AuctionId, Error>(Error::AuctionCountOverflow)
            } else {
                Ok(self@.next_auction_id)
            }),
    {
        let id = self.next_auction_id();
        if id == u32::MAX {
            return Err(Error::AuctionCountOverflow);
        }
        Ok(id)
    }

    /// The auction `id`, provided that it exists, has status `status` where
    /// one is given, and is owned by `owner` where one is given.
    pub fn ensure_auction_with_status(
        &self,
        id: AuctionId,
        status: Option<AuctionStatus>,
        owner: Option<AccountId>,
    ) -> (r: Result<Auction, Error>)
        ensures
            r == check_auction(self@, id, status, owner),
    {
        let auction = match self.auctions(id) {
            Some(a) => a,
            None => return Err(Error::AuctionNotExist),
        };
        if let Some(s) = status {
            if auction.status != s {
                return Err(Error::WrongStatus(s));
            }
        }
        if let Some(account) = owner {
            if auction.owner != account {
                return Err(Error::NotOwner);
            }
        }
        Ok(auction)
    }

    /// Adds each of `ids` that the chosen set does not hold yet.
    fn add_all_to_set(&mut self, vec_type: StoreVecs, ids: &Vec<AuctionId>)
        ensures
            final(self)@ == (match vec_type {
                StoreVecs::PendingVec => ModuleView { pending: set_add_all(old(self)@.pending, ids@), ..old(self)@ },
                StoreVecs::ActiveVec => ModuleView { active: set_add_all(old(self)@.active, ids@), ..old(self)@ },
            }),
    {
        match vec_type {
            StoreVecs::PendingVec => {
                let stored = self.pending_auctions();
                let r = add_all(stored, ids);
                self.put_pending_auctions(r);
            },
            StoreVecs::ActiveVec => {
                let stored = self.active_auctions();
                let r = add_all(stored, ids);
                self.put_active_auctions(r);
            },
        }
    }

    /// Removes every one of `ids` from the chosen set.
    fn remove_all_from_set(&mut self, vec_type: StoreVecs, ids: &Vec<AuctionId>)
        ensures
            final(self)@ == (match vec_type {
                StoreVecs::PendingVec => ModuleView { pending: without_all(old(self)@.pending, ids@), ..old(self)@ },
                StoreVecs::ActiveVec => ModuleView { active: without_all(old(self)@.active, ids@), ..old(self)@ },
            }),
    {
        match vec_type {
            StoreVecs::PendingVec => {
                let stored = self.pending_auctions();
                let r = remove_all(&stored, ids);
                self.put_pending_auctions(r);
            },
            StoreVecs::ActiveVec => {
                let stored = self.active_auctions();
                let r = remove_all(&stored, ids);
                self.put_active_auctions(r);
            },
        }
    }

    fn insert_auction(&mut self, id: AuctionId, auction: Auction)
        requires
            id < u32::MAX,
        ensures
            final(self)@ == (ModuleView {
                auctions: old(self)@.auctions.insert(id, auction),
                next_auction_id: (id + 1) as u32,
                ..old(self)@
            }),
    {
        self.put_auction(id, auction);
        self.put_next_auction_id(id + 1);
    }

    /// Sets auction `id` (if stored) to status `new_status` and reports the
    /// change from `old_status`.
    fn change_auction_status(&mut self, id: AuctionId, old_status: AuctionStatus, new_status: AuctionStatus)
        ensures
            final(self)@ == changed_status(old(self)@, id, old_status, new_status),
    {
        if let Some(a) = self.auctions(id) {
            self.put_auction(id, Auction { status: new_status, ..a });
        }
        self.deposit_event(Event::AuctionUpdated(id, old_status, new_status));
    }

    /// Creates an auction owned by `owner`, pending start, and returns its
    /// identifier.
    pub fn create_auction(
        &mut self,
        owner: AccountId,
        begin_price: Balance,
        minimum_step: Balance,
        upper_bound_price: Option<Balance>,
    ) -> (r: Result<AuctionId, Error>)
        requires
            wf(old(self)@),
        ensures
            wf(final(self)@),
            (final(self)@, r) == create_outcome(old(self)@, owner, begin_price, minimum_step, upper_bound_price),
    {
        let auction_id = self.get_next_auction_id()?;
        let new_auction = Auction {
            id: auction_id,
            item: None,
            owner: owner,
            begin_price: begin_price,
            minimum_step: minimum_step,
            status: AuctionStatus::PendingStart,
            upper_bound_price: upper_bound_price,
            start_at: None,
            stop_at: None,
            wait_period: None,
            latest_participate: None,
        };
        self.insert_auction(auction_id, new_auction);
        proof {
            let v = self@;
            let o = old(self)@;
            assert forall|a: AuctionId| #[trigger] v.auctions.contains_key(a) implies bids_led_by_latest(v, a) by {
                if a != auction_id {
                    assert(o.auctions.contains_key(a));
                    assert(bids_led_by_latest(o, a));
                } else {
                    assert forall|w: AccountId| !(#[trigger] v.auction_bids.contains_key((a, w))) by {
                        if v.auction_bids.contains_key((a, w)) {
                            assert(o.auctions.contains_key(a));
                        }
                    }
                }
            }
        }
        Ok(auction_id)
    }

    /// Adds item `item` to the pending auction `id` of `sender`, given
    /// whether `sender` owns the item.
    pub fn do_add_item(&mut self, sender: AccountId, id: AuctionId, item: ItemId, is_item_owner: bool) -> (r: Result<(), Error>)
        requires
            wf(old(self)@),
        ensures
            wf(final(self)@),
            (final(self)@, r) == add_item_outcome(old(self)@, sender, id, item, is_item_owner),
    {
        if !is_item_owner {
            return Err(Error::NotItemOwner);
        }
        let auction = self.ensure_auction_with_status(id, Some(AuctionStatus::PendingStart), Some(sender))?;
        if let Some(holder) = self.auction_items(item) {
            if holder != id {
                if let Some(h) = self.auctions(holder) {
                    if h.status != AuctionStatus::Stopped || crate::id_set::contains_id(&self.unsettled_auctions(), holder) {
                        return Err(Error::ItemInAuction);
                    }
                }
            }
        }
        let ghost o = self@;
        self.release_item(id);
        self.put_auction(id, Auction { item: Some(item), ..auction });
        self.put_auction_item(item, id);
        proof {
            let v = self@;
            assert(!item_taken(o, item, id));
            assert forall|a: AuctionId| #[trigger] v.auctions.contains_key(a) implies bids_led_by_latest(v, a) by {
                assert(bids_led_by_latest(o, a));
            }
            assert forall|i: ItemId| #[trigger] v.auction_items.contains_key(i)
                implies v.auctions.contains_key(v.auction_items[i]) && v.auctions[v.auction_items[i]].item == Some(i) by {
                if i != item {
                    assert(o.auction_items.contains_key(i));
                    assert(o.auctions.contains_key(o.auction_items[i]));
                }
            }
            assert forall|a: AuctionId| #[trigger] v.auctions.contains_key(a) && holds_item(v, a)
                && v.auctions[a].item is Some implies v.auction_items.contains_key(v.auctions[a].item->0)
                && v.auction_items[v.auctions[a].item->0] == a by {
                if a != id {
                    assert(o.auctions.contains_key(a));
                    assert(holds_item(o, a));
                    assert(o.auction_items.contains_key(o.auctions[a].item->0));
                }
            }
            assert forall|k: int| 0 <= k < v.unsettled.len() implies v.auctions.contains_key(#[trigger] v.unsettled[k])
                && v.auctions[v.unsettled[k]].status == AuctionStatus::Stopped by {
                assert(o.auctions.contains_key(o.unsettled[k]));
            }
        }
        Ok(())
    }

    /// Adds item `item` to the pending auction `id` of `sender`; the item
    /// module decides whether `sender` owns the item.
    pub fn add_item<T: Trait>(&mut self, sender: AccountId, id: AuctionId, item: ItemId) -> (r: Result<(), Error>)
        requires
            wf(old(self)@),
        ensures
            wf(final(self)@),
            exists|is_owner: bool| call_ensures(T::AuctionTransfer::is_item_owner, (&sender, item), is_owner)
                && (final(self)@, r) == add_item_outcome(old(self)@, sender, id, item, is_owner),
    {
        let is_owner = T::AuctionTransfer::is_item_owner(&sender, item);
        self.do_add_item(sender, id, item, is_owner)
    }

    /// Sets the moments of the pending auction `id` of `owner` (those given
    /// replace the stored ones) and adds it to the pending auctions.
    pub fn setup_moments(
        &mut self,
        owner: AccountId,
        id: AuctionId,
        start_at: Option<Moment>,
        stop_at: Option<Moment>,
        wait_period: Option<Moment>,
    ) -> (r: Result<(), Error>)
        requires
            wf(old(self)@),
        ensures
            wf(final(self)@),
            (final(self)@, r) == setup_moments_outcome(old(self)@, owner, id, start_at, stop_at, wait_period),
    {
        let mut auction = self.ensure_auction_with_status(id, Some(AuctionStatus::PendingStart), Some(owner))?;
        if start_at.is_some() {
            auction.start_at = start_at;
        }
        if stop_at.is_some() {
            auction.stop_at = stop_at;
        }
        if wait_period.is_some() {
            auction.wait_period = wait_period;
        }
        self.put_auction(id, auction);
        let ids = vec![id];
        self.add_all_to_set(StoreVecs::PendingVec, &ids);
        proof {
            let v = self@;
            let o = old(self)@;
            assert(ids@ =~= seq![id]);
            lemma_set_add_all(o.pending, seq![id]);
            assert forall|a: AuctionId| #[trigger] v.auctions.contains_key(a) implies bids_led_by_latest(v, a) by {
                assert(bids_led_by_latest(o, a));
            }
        }
        Ok(())
    }

    /// The owner pauses the active auction `id`.
    pub fn pause_auction(&mut self, owner: AccountId, id: AuctionId) -> (r: Result<(), Error>)
        requires
            wf(old(self)@),
        ensures
            wf(final(self)@),
            (final(self)@, r) == status_move_outcome(old(self)@, owner, id, AuctionStatus::Active, AuctionStatus::Paused),
    {
        let auction = self.ensure_auction_with_status(id, Some(AuctionStatus::Active), Some(owner))?;
        self.change_auction_status(id, auction.status, AuctionStatus::Paused);
        proof {
            let v = self@;
            let o = old(self)@;
            assert forall|a: AuctionId| #[trigger] v.auctions.contains_key(a) implies bids_led_by_latest(v, a) by {
                assert(bids_led_by_latest(o, a));
            }
        }
        Ok(())
    }

    /// The owner resumes the paused auction `id`.
    pub fn resume_auction(&mut self, owner: AccountId, id: AuctionId) -> (r: Result<(), Error>)
        requires
            wf(old(self)@),
        ensures
            wf(final(self)@),
            (final(self)@, r) == status_move_outcome(old(self)@, owner, id, AuctionStatus::Paused, AuctionStatus::Active),
    {
        let auction = self.ensure_auction_with_status(id, Some(AuctionStatus::Paused), Some(owner))?;
        self.change_auction_status(id, auction.status, AuctionStatus::Active);
        proof {
            let v = self@;
            let o = old(self)@;
            assert forall|a: AuctionId| #[trigger] v.auctions.contains_key(a) implies bids_led_by_latest(v, a) by {
                assert(bids_led_by_latest(o, a));
            }
        }
        Ok(())
    }

    /// Locks `balance` more for `account` in auction `auction`, and returns the
    /// lock the currency is to extend to.
    fn do_lock_balance(&mut self, auction: AuctionId, account: AccountId, balance: Balance) -> (r: Result<LockOp, Error>)
        ensures
            (final(self)@, r) == lock_outcome(old(self)@, auction, account, balance),
    {
        let mut global_lock = balance;
        if self.account_lock_exists(account) {
            match global_lock.checked_add(self.account_locks(account)) {
                Some(g) => global_lock = g,
                None => return Err(Error::BalanceAddOverflow),
            }
        }
        self.put_account_lock(account, global_lock);
        let mut auction_lock = balance;
        if self.auction_bid_exists(auction, account) {
            match auction_lock.checked_add(self.auction_bids(auction, account)) {
                Some(l) => auction_lock = l,
                None => return Err(Error::BalanceAddOverflow),
            }
        }
        self.put_auction_bid(auction, account, auction_lock);
        Ok(LockOp::Extend { who: account, amount: global_lock })
    }

    /// Records `account` as the latest bidder of auction `auction_id` and as
    /// one of its participants, and reports the bid.
    fn do_participate_auction(&mut self, auction_id: AuctionId, account: AccountId, price: Balance, now: Moment)
        ensures
            final(self)@ == recorded_bid(old(self)@, auction_id, account, price, now),
    {
        if let Some(auc) = self.auctions(auction_id) {
            self.put_auction(auction_id, Auction { latest_participate: Some((account, now)), ..auc });
        }
        let mut participants = match self.auction_participants(auction_id) {
            Some(p) => p,
            None => Vec::new(),
        };
        if !contains_account(&participants, account) {
            participants.push(account);
        }
        self.put_auction_participants(auction_id, participants);
        self.deposit_event(Event::BidderUpdated(auction_id, account, price, 0));
    }

    /// `participant`, holding `free_balance`, bids `price` in the active
    /// auction `auction_id` at time `now`: a first bid must reach the begin
    /// price, a later one must exceed the latest bid by more than the minimum
    /// step. On success the currency is to apply the returned lock.
    pub fn participate_auction(
        &mut self,
        participant: AccountId,
        auction_id: AuctionId,
        price: Balance,
        free_balance: Balance,
        now: Moment,
    ) -> (r: Result<LockOp, Error>)
        requires
            wf(old(self)@),
            bid_step_fits(old(self)@, auction_id),
        ensures
            wf(final(self)@),
            (final(self)@, r) == participate_outcome(old(self)@, participant, auction_id, price, free_balance, now),
    {
        let ghost o = self@;
        let auction = self.ensure_auction_with_status(auction_id, Some(AuctionStatus::Active), None)?;
        proof {
            assert(bids_led_by_latest(o, auction_id));
        }
        match auction.latest_participate {
            Some((account, _moment)) => {
                let bid_price = self.auction_bids(auction.id, account);
                if !(price > bid_price + auction.minimum_step) {
                    return Err(Error::BidTooLow);
                }
            },
            None => {
                if price < auction.begin_price {
                    return Err(Error::BelowBeginPrice);
                }
            },
        }
        let mut delta_price = price;
        if self.auction_bid_exists(auction.id, participant) {
            let prev_bid = self.auction_bids(auction.id, participant);
            delta_price = price - prev_bid;
        }
        if !(delta_price < free_balance) {
            return Err(Error::InsufficientBalance);
        }
        let op = self.do_lock_balance(auction_id, participant, delta_price)?;
        self.do_participate_auction(auction_id, participant, price, now);
        proof {
            let v = self@;
            assert forall|a: AuctionId| #[trigger] v.auctions.contains_key(a) implies bids_led_by_latest(v, a) by {
                if a != auction_id {
                    assert(bids_led_by_latest(o, a));
                    assert forall|w: AccountId| #[trigger] v.auction_bids.contains_key((a, w))
                        implies o.auction_bids.contains_key((a, w)) && v.auction_bids[(a, w)] == o.auction_bids[(a, w)] by {
                    }
                } else {
                    assert forall|w: AccountId| #[trigger] v.auction_bids.contains_key((a, w))
                        implies v.auction_bids[(a, w)] <= v.auction_bids[(a, participant)] by {
                        if w != participant {
                            assert(o.auction_bids.contains_key((a, w)));
                        }
                    }
                }
            }
            assert forall|a: AuctionId, w: AccountId| #[trigger] v.auction_bids.contains_key((a, w))
                implies v.auctions.contains_key(a) by {
                if a != auction_id || w != participant {
                    assert(o.auction_bids.contains_key((a, w)));
                }
            }
            assert forall|id: AuctionId| #[trigger] v.auctions.contains_key(id)
                implies v.auctions[id].id == id && id < v.next_auction_id by {
                assert(o.auctions.contains_key(id));
            }
            let ps = o.participants_of(auction_id);
            assert(v.participants_of(auction_id) == (if ps.contains(participant) { ps } else { ps.push(participant) }));
            assert forall|a: AuctionId, w: AccountId| #[trigger] v.auction_bids.contains_key((a, w))
                implies v.participants_of(a).contains(w) by {
                if a == auction_id {
                    if w == participant {
                        if !ps.contains(participant) {
                            assert(ps.push(participant)[ps.len() as int] == participant);
                        }
                    } else {
                        assert(o.auction_bids.contains_key((a, w)));
                        assert(ps.contains(w));
                        let k = choose|k: int| 0 <= k < ps.len() && ps[k] == w;
                        if !ps.contains(participant) {
                            assert(ps.push(participant)[k] == w);
                        }
                    }
                } else {
                    assert(o.auction_bids.contains_key((a, w)));
                }
            }
        }
        Ok(op)
    }

    /// Releases the lock of `account` in auction `auction`, and returns the
    /// change the currency is to make, if any.
    fn do_unlock_balance(&mut self, auction: AuctionId, account: AccountId) -> (r: Result<Option<LockOp>, Error>)
        ensures
            (final(self)@, r) == unlock_outcome(old(self)@, auction, account),
    {
        if self.auction_bid_exists(auction, account) {
            let auction_lock = self.auction_bids(auction, account);
            if !self.account_lock_exists(account) {
                return Err(Error::GlobalLockMissing);
            }
            let global_lock = self.account_locks(account);
            if !(global_lock >= auction_lock) {
                return Err(Error::GlobalLockTooSmall);
            }
            let global_lock = global_lock - auction_lock;
            if global_lock == 0 {
                self.remove_account_lock(account);
                Ok(Some(LockOp::Remove { who: account }))
            } else {
                self.put_account_lock(account, global_lock);
                Ok(Some(LockOp::Reset { who: account, amount: global_lock }))
            }
        } else {
            Ok(None)
        }
    }

    /// Releases the locks of all participants of auction `auction_id`, in the
    /// order in which they joined, up to the first failure.
    fn unlock_participants(&mut self, auction_id: AuctionId) -> (r: (Vec<LockOp>, Result<(), Error>))
        ensures
            (final(self)@, r.0@, r.1) == unlock_all_outcome(old(self)@, auction_id, old(self)@.participants_of(auction_id)),
    {
        let ghost o = self@;
        let mut ops: Vec<LockOp> = Vec::new();
        if let Some(participants) = self.auction_participants(auction_id) {
            let mut i: usize = 0;
            assert(participants@.skip(0) =~= participants@);
            assert(ops@ + unlock_all_outcome(self@, auction_id, participants@).1 =~= unlock_all_outcome(self@, auction_id, participants@).1);
            while i < participants.len()
                invariant
                    0 <= i <= participants.len(),
                    o == old(self)@,
                    participants@ == o.participants_of(auction_id),
                    ({
                        let now = unlock_all_outcome(self@, auction_id, participants@.skip(i as int));
                        unlock_all_outcome(o, auction_id, participants@) == (now.0, ops@ + now.1, now.2)
                    }),
                decreases participants.len() - i,
            {
                let ghost before = self@;
                let ghost ops_before = ops@;
                let ghost rest = participants@.skip(i as int);
                assert(rest[0] == participants@[i as int]);
                assert(rest.drop_first() =~= participants@.skip(i + 1));
                match self.do_unlock_balance(auction_id, participants[i]) {
                    Err(e) => {
                        assert(unlock_all_outcome(before, auction_id, rest) == (self@, Seq::<LockOp>::empty(), Err::<(), Error>(e)));
                        assert(ops@ + Seq::<LockOp>::empty() =~= ops@);
                        assert(unlock_all_outcome(o, auction_id, participants@).0 == self@);
                        assert(unlock_all_outcome(o, auction_id, participants@).1 == ops@);
                        assert(unlock_all_outcome(o, auction_id, participants@).2 == Err::<(), Error>(e));
                        return (ops, Err(e));
                    },
                    Ok(None) => {},
                    Ok(Some(op)) => {
                        ops.push(op);
                        proof {
                            let tail = unlock_all_outcome(self@, auction_id, participants@.skip(i + 1)).1;
                            assert(ops_before + (seq![op] + tail) =~= ops@ + tail);
                        }
                    },
                }
                i = i + 1;
            }
            assert(participants@.skip(i as int) =~= Seq::<AccountId>::empty());
        } else {
            assert(o.participants_of(auction_id) =~= Seq::<AccountId>::empty());
        }
        assert(ops@ + Seq::<LockOp>::empty() =~= ops@);
        (ops, Ok(()))
    }

    /// The fee the pallet takes from a winning bid of `price`, and what is
    /// left for the owner.
    pub fn calc_auction_fee(price: Balance) -> (r: (Balance, Balance))
        ensures
            r.1 == auction_fee(price),
            r.0 == price - auction_fee(price),
    {
        let d = price / 20;
        let fee = if d < 1 { d } else { 1 };
        (price - fee, fee)
    }

    /// Whether the lock of `account` in auction `auction` can be released.
    fn unlock_allowed(&self, auction: AuctionId, account: AccountId) -> (r: Result<(), Error>)
        ensures
            r == unlock_precheck(self@, auction, account),
    {
        if self.auction_bid_exists(auction, account) {
            if !self.account_lock_exists(account) {
                return Err(Error::GlobalLockMissing);
            }
            if !(self.account_locks(account) >= self.auction_bids(auction, account)) {
                return Err(Error::GlobalLockTooSmall);
            }
        }
        Ok(())
    }

    /// Whether the locks of all participants of auction `auction_id` can be
    /// released; nothing changes.
    fn release_allowed(&self, auction_id: AuctionId) -> (r: Result<(), Error>)
        ensures
            r == unlock_check(self@, auction_id, self@.participants_of(auction_id)),
    {
        match self.auction_participants(auction_id) {
            None => Ok(()),
            Some(participants) => {
                let mut i: usize = 0;
                assert(participants@.skip(0) =~= participants@);
                while i < participants.len()
                    invariant
                        0 <= i <= participants.len(),
                        participants@ == self@.participants_of(auction_id),
                        unlock_check(self@, auction_id, participants@)
                            == unlock_check(self@, auction_id, participants@.skip(i as int)),
                    decreases participants.len() - i,
                {
                    let ghost rest = participants@.skip(i as int);
                    assert(rest[0] == participants@[i as int]);
                    assert(rest.drop_first() =~= participants@.skip(i + 1));
                    if let Err(e) = self.unlock_allowed(auction_id, participants[i]) {
                        return Err(e);
                    }
                    i = i + 1;
                }
                assert(participants@.skip(i as int).len() == 0);
                Ok(())
            },
        }
    }

    /// Releases the locks of all participants of auction `auction_id`, which
    /// the caller has checked can be released.
    fn release_locks(&mut self, auction_id: AuctionId) -> (r: Vec<LockOp>)
        requires
            wf(old(self)@),
            unlock_check(old(self)@, auction_id, old(self)@.participants_of(auction_id)) is Ok,
        ensures
            (final(self)@, r@) == released(old(self)@, auction_id),
            wf(final(self)@),
    {
        proof { lemma_released_wf(self@, auction_id); }
        let (ops, _) = self.unlock_participants(auction_id);
        ops
    }

    /// Whether auction `auction` can be settled, and what its winner pays;
    /// nothing changes.
    fn settle_check(&self, auction: &Auction) -> (r: Result<Option<Payout>, Error>)
        ensures
            r == settle_check(self@, *auction),
    {
        self.release_allowed(auction.id)?;
        let payout = self.compute_payout(auction);
        Ok(payout)
    }

    /// Frees the item of auction `id` in the item map, where it is mapped to `id`.
    fn release_item(&mut self, id: AuctionId)
        ensures
            final(self)@ == (ModuleView {
                auction_items: without_item(old(self)@.auction_items, item_of(old(self)@, id), id),
                ..old(self)@
            }),
    {
        if let Some(a) = self.auctions(id) {
            if let Some(item) = a.item {
                if let Some(holder) = self.auction_items(item) {
                    if holder == id {
                        self.remove_auction_item(item);
                    }
                }
            }
        }
    }

    /// Stops auction `id` (coming from status `from`) and frees its item.
    fn mark_stopped(&mut self, id: AuctionId, from: AuctionStatus)
        ensures
            final(self)@ == stop_marked(old(self)@, id, from),
    {
        let ghost o = self@;
        self.change_auction_status(id, from, AuctionStatus::Stopped);
        self.release_item(id);
        assert(item_of(changed_status(o, id, from, AuctionStatus::Stopped), id) == item_of(o, id));
    }

    /// Stops auction `id` (coming from status `from`), frees its item and
    /// takes it out of the active auctions.
    fn finish_stop(&mut self, id: AuctionId, from: AuctionStatus)
        ensures
            final(self)@ == stopped(old(self)@, id, from),
    {
        self.mark_stopped(id, from);
        let ids = vec![id];
        self.remove_all_from_set(StoreVecs::ActiveVec, &ids);
        assert(ids@ =~= seq![id]);
    }

    /// Stops auction `id` (coming from status `from`) and lets it wait among
    /// the unsettled auctions for the winner's payment.
    fn park(&mut self, id: AuctionId, from: AuctionStatus)
        ensures
            final(self)@ == parked(old(self)@, id, from),
    {
        self.change_auction_status(id, from, AuctionStatus::Stopped);
        let ids = vec![id];
        let waiting = add_all(self.unsettled_auctions(), &ids);
        self.put_unsettled_auctions(waiting);
        assert(ids@ =~= seq![id]);
    }

    /// Settles the started auction `auction`, checking every lock in it
    /// before anything changes: where one cannot be released, nothing
    /// changes; otherwise all its locks are released (the returned changes
    /// are for the currency to apply) and it stops, waiting among the
    /// unsettled auctions where its winner has to pay the returned payout.
    fn do_settle_auction(&mut self, auction: &Auction) -> (r: Result<(Vec<LockOp>, Option<Payout>), Error>)
        requires
            wf(old(self)@),
            old(self)@.auctions.contains_key(auction.id),
            old(self)@.auctions[auction.id] == *auction,
            auction.status != AuctionStatus::Stopped,
        ensures
            wf(final(self)@),
            match settle_check(old(self)@, *auction) {
                Err(e) => final(self)@ == old(self)@ && r == Err::<(Vec<LockOp>, Option<Payout>), Error>(e),
                Ok(q) => r matches Ok((ops, p)) && p == q
                    && (final(self)@, ops@) == settled(old(self)@, *auction, q),
            },
    {
        let ghost o = self@;
        let payout = self.settle_check(auction)?;
        proof { lemma_settled_wf(o, *auction, payout); }
        let ops = self.release_locks(auction.id);
        match payout {
            Some(_) => self.park(auction.id, auction.status),
            None => self.mark_stopped(auction.id, auction.status),
        }
        Ok((ops, payout))
    }

    /// The owner stops auction `id`. A pending auction stops at once. A
    /// started one is settled: every lock in it is checked first, and where
    /// one cannot be released nothing changes; otherwise all its locks are
    /// released (the returned changes are for the currency to apply), it
    /// stops and leaves the active auctions, and the payout its winner owes,
    /// if any, is returned: the auction then waits among the unsettled
    /// auctions for `complete_settlement`.
    pub fn stop_auction(&mut self, owner: AccountId, id: AuctionId) -> (r: Result<(Vec<LockOp>, Option<Payout>), Error>)
        requires
            wf(old(self)@),
        ensures
            wf(final(self)@),
            final(self)@ == stop_outcome(old(self)@, owner, id).0,
            match r {
                Ok((ops, p)) => stop_outcome(old(self)@, owner, id).1 == Ok::<(Seq<LockOp>, Option<Payout>), Error>((ops@, p)),
                Err(e) => stop_outcome(old(self)@, owner, id).1 == Err::<(Seq<LockOp>, Option<Payout>), Error>(e),
            },
    {
        let ghost o = self@;
        let auction = self.ensure_auction_with_status(id, None, Some(owner))?;
        if auction.status == AuctionStatus::Stopped {
            return Err(Error::CannotStop);
        }
        proof { assert(o.auctions[id].id == id); }
        if auction.status == AuctionStatus::PendingStart {
            self.finish_stop(id, auction.status);
            proof { lemma_stopped_wf(o, id, auction.status); }
            return Ok((Vec::new(), None));
        }
        let (ops, payout) = self.do_settle_auction(&auction)?;
        let ghost mid = self@;
        let ids = vec![id];
        self.remove_all_from_set(StoreVecs::ActiveVec, &ids);
        proof {
            assert(ids@ =~= seq![id]);
            lemma_without_all(mid.active, seq![id]);
            let v = self@;
            assert forall|a: AuctionId| #[trigger] v.auctions.contains_key(a) implies bids_led_by_latest(v, a) by {
                assert(bids_led_by_latest(mid, a));
            }
            assert forall|a: AuctionId| #[trigger] v.auctions.contains_key(a) && holds_item(v, a)
                && v.auctions[a].item is Some implies v.auction_items.contains_key(v.auctions[a].item->0)
                && v.auction_items[v.auctions[a].item->0] == a by {
                assert(holds_item(mid, a));
            }
        }
        Ok((ops, payout))
    }

    /// What the winner of auction `auction` pays, if it has an item and a
    /// bidder; nothing changes.
    fn compute_payout(&self, auction: &Auction) -> (r: Option<Payout>)
        ensures
            r == payout_of(self@, *auction),
    {
        match auction.item {
            Some(item_id) => match auction.latest_participate {
                Some((winner, _)) => {
                    let winner_bid = self.auction_bids(auction.id, winner);
                    let (value, fee) = Self::calc_auction_fee(winner_bid);
                    Some(Payout { auction_id: auction.id, owner: auction.owner, winner, item: item_id, value, fee })
                },
                None => None,
            },
            None => None,
        }
    }

    /// The payout that the unsettled auction `id` waits for, if it waits for one.
    pub fn pending_payout(&self, id: AuctionId) -> (r: Option<Payout>)
        ensures
            r == (if self@.unsettled.contains(id) && self@.auctions.contains_key(id) {
                payout_of(self@, self@.auctions[id])
            } else {
                None
            }),
    {
        if !crate::id_set::contains_id(&self.unsettled_auctions(), id) {
            return None;
        }
        match self.auctions(id) {
            Some(auction) => self.compute_payout(&auction),
            None => None,
        }
    }

    /// Hands the item of `payout` to the winner, through the item module.
    fn transfer_payout_item<T: Trait>(payout: &Payout) -> (r: Result<(), &'static str>)
        ensures
            call_ensures(T::AuctionTransfer::transfer_item, (&payout.owner, &payout.winner, payout.item), r),
    {
        let owner = payout.owner;
        let winner = payout.winner;
        let res = T::AuctionTransfer::transfer_item(&owner, &winner, payout.item);
        match res {
            Ok(u) => Ok(u),
            Err(m) => Err(m),
        }
    }

    /// Closes the settlement of the unsettled auction `id`: it leaves the
    /// unsettled auctions and its item is free.
    fn close_settlement(&mut self, id: AuctionId)
        requires
            wf(old(self)@),
            old(self)@.unsettled.contains(id),
        ensures
            final(self)@ == closed(old(self)@, id),
            wf(final(self)@),
    {
        proof { lemma_closed_wf(self@, id); }
        let ids = vec![id];
        let rest = remove_all(&self.unsettled_auctions(), &ids);
        self.put_unsettled_auctions(rest);
        assert(ids@ =~= seq![id]);
        self.release_item(id);
    }

    /// Completes the settlement of the auction of `payout`, given the outcome
    /// of the winner's payment (`payment`): once paid, and once the auction
    /// waits for its settlement and owes `payout`, the item goes to the
    /// winner; if the item module hands it over, the settlement is closed.
    /// Any refusal changes nothing.
    pub fn complete_settlement<T: Trait>(&mut self, payout: &Payout, payment: Result<(), &'static str>) -> (r: Result<(), Error>)
        requires
            wf(old(self)@),
        ensures
            wf(final(self)@),
            match complete_settlement_check(old(self)@, *payout, payment) {
                Err(e) => final(self)@ == old(self)@ && r == Err::<(), Error>(e),
                Ok(a) => exists|t: Result<(), &'static str>| call_ensures(
                    T::AuctionTransfer::transfer_item,
                    (&payout.owner, &payout.winner, payout.item),
                    t,
                ) && (final(self)@, r) == complete_settlement_outcome(old(self)@, a, t),
            },
    {
        let ghost o = self@;
        if let Err(m) = payment {
            return Err(Error::PaymentFailed(m));
        }
        match self.pending_payout(payout.auction_id) {
            Some(due) => if due != *payout {
                return Err(Error::NoSettlementPending);
            },
            None => return Err(Error::NoSettlementPending),
        }
        let ghost a = o.auctions[payout.auction_id];
        let t = Self::transfer_payout_item::<T>(payout);
        if let Err(m) = t {
            assert(complete_settlement_outcome(o, a, t) == (o, Err::<(), Error>(Error::ItemTransferFailed(m))));
            return Err(Error::ItemTransferFailed(m));
        }
        self.close_settlement(payout.auction_id);
        proof {
            assert(a.id == payout.auction_id);
            assert(complete_settlement_outcome(o, a, t) == (self@, Ok::<(), Error>(())));
        }
        Ok(())
    }

    /// The owner gives up the pending settlement of auction `id`: the item
    /// stays with the owner and is free again.
    pub fn cancel_settlement(&mut self, owner: AccountId, id: AuctionId) -> (r: Result<(), Error>)
        requires
            wf(old(self)@),
        ensures
            wf(final(self)@),
            (final(self)@, r) == cancel_outcome(old(self)@, owner, id),
    {
        self.ensure_auction_with_status(id, None, Some(owner))?;
        if !crate::id_set::contains_id(&self.unsettled_auctions(), id) {
            return Err(Error::NoSettlementPending);
        }
        self.close_settlement(id);
        Ok(())
    }

    /// Whether every one of `auction_ids` is a stored auction whose status is
    /// `status` (or, where `not_equal` holds, is not `status`).
    pub fn is_auctions_with_status(&self, auction_ids: &Vec<AuctionId>, status: AuctionStatus, not_equal: bool) -> (r: bool)
        ensures
            r == all_with_status(self@, auction_ids@, status, not_equal),
    {
        let mut i: usize = 0;
        while i < auction_ids.len()
            invariant
                0 <= i <= auction_ids.len(),
                forall|j: int| 0 <= j < i ==> #[trigger] has_status(self@, auction_ids@[j], status, not_equal),
            decreases auction_ids.len() - i,
        {
            let ok = match self.auctions(auction_ids[i]) {
                Some(auction) => if not_equal {
                    auction.status != status
                } else {
                    auction.status == status
                },
                None => false,
            };
            assert(ok == has_status(self@, auction_ids@[i as int], status, not_equal));
            if !ok {
                return false;
            }
            i = i + 1;
        }
        true
    }

    /// The off-chain worker starts `auction_ids`, all pending start, given
    /// the own authority identifier, if a local key was found (`authority`),
    /// and whether the call's signature is that authority's signature of the
    /// identifiers' encoding (`signature_valid`).
    pub fn start_auctions_passive(&mut self, auction_ids: &Vec<AuctionId>, authority: Option<AuthorityId>, signature_valid: bool) -> (r: Result<(), Error>)
        requires
            wf(old(self)@),
        ensures
            wf(final(self)@),
            (final(self)@, r) == start_passive_outcome(old(self)@, auction_ids@, authority is Some, signature_valid),
    {
        if !self.is_auctions_with_status(auction_ids, AuctionStatus::PendingStart, false) {
            return Err(Error::NotAllPendingStart);
        }
        if authority.is_none() {
            return Err(Error::NoAuthorityKey);
        }
        if !signature_valid {
            return Err(Error::InvalidSignature);
        }
        let ghost o = self@;
        let mut i: usize = 0;
        proof {
            assert forall|j: int| 0 <= j < auction_ids.len() implies #[trigger] has_status(self@, auction_ids@[j], AuctionStatus::Stopped, true) by {
                assert(has_status(o, auction_ids@[j], AuctionStatus::PendingStart, false));
            }
        }
        while i < auction_ids.len()
            invariant
                0 <= i <= auction_ids.len(),
                self@ == start_all(o, auction_ids@.take(i as int)),
                wf(self@),
                forall|j: int| 0 <= j < auction_ids.len() ==> #[trigger] has_status(self@, auction_ids@[j], AuctionStatus::Stopped, true),
            decreases auction_ids.len() - i,
        {
            let id = auction_ids[i];
            let ghost before = self@;
            self.change_auction_status(id, AuctionStatus::PendingStart, AuctionStatus::Active);
            proof {
                assert(has_status(before, auction_ids@[i as int], AuctionStatus::Stopped, true));
                lemma_changed_status_wf(before, id, AuctionStatus::PendingStart, AuctionStatus::Active);
                assert forall|j: int| 0 <= j < auction_ids.len() implies #[trigger] has_status(self@, auction_ids@[j], AuctionStatus::Stopped, true) by {
                    assert(has_status(before, auction_ids@[j], AuctionStatus::Stopped, true));
                }
                assert(auction_ids@.take(i + 1).drop_last() =~= auction_ids@.take(i as int));
            }
            i = i + 1;
        }
        assert(auction_ids@.take(i as int) =~= auction_ids@);
        let ghost started = self@;
        self.remove_all_from_set(StoreVecs::PendingVec, auction_ids);
        self.add_all_to_set(StoreVecs::ActiveVec, auction_ids);
        proof {
            lemma_without_all(started.pending, auction_ids@);
            lemma_set_add_all(started.active, auction_ids@);
            let v = self@;
            assert forall|a: AuctionId| #[trigger] v.auctions.contains_key(a) implies bids_led_by_latest(v, a) by {
                assert(bids_led_by_latest(started, a));
            }
        }
        Ok(())
    }

    /// The off-chain worker stops `auction_ids`, none of them stopped, given
    /// the own authority identifier, if a local key was found (`authority`),
    /// and whether the call's signature is that authority's signature of the
    /// identifiers' encoding (`signature_valid`). Each auction that had
    /// started is settled: every lock in it is checked first, and where one
    /// cannot be released nothing is released; otherwise all its locks are
    /// released, and where the winner has to pay, the auction waits among the
    /// unsettled auctions for `complete_settlement`. The returned settlements
    /// are for the runtime to carry out, in order.
    pub fn stop_auctions_passive(&mut self, auction_ids: &Vec<AuctionId>, authority: Option<AuthorityId>, signature_valid: bool) -> (r: Result<Vec<Settlement>, Error>)
        requires
            wf(old(self)@),
        ensures
            wf(final(self)@),
            final(self)@ == stop_passive_outcome(old(self)@, auction_ids@, authority is Some, signature_valid).0,
            match r {
                Ok(s) => stop_passive_outcome(old(self)@, auction_ids@, authority is Some, signature_valid).1
                    == Ok::<Seq<SettlementView>, Error>(s@.map_values(|x: Settlement| x@)),
                Err(e) => stop_passive_outcome(old(self)@, auction_ids@, authority is Some, signature_valid).1
                    == Err::<Seq<SettlementView>, Error>(e),
            },
    {
        if !self.is_auctions_with_status(auction_ids, AuctionStatus::Stopped, true) {
            return Err(Error::NotAllUnstopped);
        }
        if authority.is_none() {
            return Err(Error::NoAuthorityKey);
        }
        if !signature_valid {
            return Err(Error::InvalidSignature);
        }
        let ghost o = self@;
        let mut out: Vec<Settlement> = Vec::new();
        let mut i: usize = 0;
        while i < auction_ids.len()
            invariant
                0 <= i <= auction_ids.len(),
                self@ == passive_stop_all(o, auction_ids@.take(i as int)).0,
                out@.map_values(|x: Settlement| x@) == passive_stop_all(o, auction_ids@.take(i as int)).1,
                wf(self@),
            decreases auction_ids.len() - i,
        {
            let id = auction_ids[i];
            let ghost before = self@;
            let ghost out_before = out@.map_values(|x: Settlement| x@);
            proof {
                assert(auction_ids@.take(i + 1).drop_last() =~= auction_ids@.take(i as int));
                assert(auction_ids@.take(i + 1).last() == id);
            }
            if let Some(auction) = self.auctions(id) {
                proof { lemma_passive_stop_one_wf(before, id); }
                if auction.status == AuctionStatus::Stopped {
                    self.change_auction_status(id, auction.status, AuctionStatus::Stopped);
                } else if auction.status == AuctionStatus::PendingStart {
                    self.mark_stopped(id, auction.status);
                } else {
                    proof { assert(before.auctions[id].id == id); }
                    match self.do_settle_auction(&auction) {
                        Err(_) => self.mark_stopped(id, auction.status),
                        Ok((ops, payout)) => {
                            let st = Settlement { lock_ops: ops, payout };
                            out.push(st);
                            assert(out@.map_values(|x: Settlement| x@) =~= out_before.push(st@));
                        },
                    }
                }
            }
            i = i + 1;
        }
        assert(auction_ids@.take(i as int) =~= auction_ids@);
        let ghost stopped_all = self@;
        self.remove_all_from_set(StoreVecs::ActiveVec, auction_ids);
        proof {
            lemma_without_all(stopped_all.active, auction_ids@);
            let v = self@;
            assert forall|a: AuctionId| #[trigger] v.auctions.contains_key(a) implies bids_led_by_latest(v, a) by {
                assert(bids_led_by_latest(stopped_all, a));
            }
        }
        Ok(out)
    }
}

} // verus!
