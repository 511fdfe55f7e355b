//! Properties of the pallet as a whole, proved over the outcomes that the
//! calls' contracts state.
use vstd::prelude::*;
use crate::id_set::{lemma_set_add_all, lemma_without_all};
use crate::pallet::{
    add_item_outcome, auction_fee, bid_check, bids_led_by_latest, changed_status, check_auction, complete_settlement_check,
    complete_settlement_outcome, cancel_outcome, create_outcome, holds_item, item_taken,
    latest_bidder, lock_outcome, new_auction, participate_outcome, passive_stop_all,
    payout_of, recorded_bid, released, setup_moments_outcome, start_all, start_passive_outcome,
    status_move_outcome, stop_marked, stop_outcome, stop_passive_outcome, unlock_all_outcome, unlock_check,
    unlock_outcome, wf, lemma_passive_stop_one_wf, lemma_released_wf, lemma_unlock_all_only_locks,
};
use crate::offchain::{first_local_authority, ready_to_start, ready_to_stop, starting, stopping};
use crate::storage::ModuleView;
use crate::types::{AccountId, Auction, AuctionId, AuctionStatus, AuthorityId, Balance, Error, ItemId, LockOp, Moment, Payout};

verus! {

/// Status `to` can follow status `from` in the life of an auction: pending
/// start, then active and paused in turn, and stopped at any point, for ever.
pub open spec fn status_reachable(from: AuctionStatus, to: AuctionStatus) -> bool {
    ||| from == to
    ||| from != AuctionStatus::Stopped && to == AuctionStatus::Stopped
    ||| from == AuctionStatus::PendingStart && (to == AuctionStatus::Active || to == AuctionStatus::Paused)
    ||| (from == AuctionStatus::Active || from == AuctionStatus::Paused)
        && (to == AuctionStatus::Active || to == AuctionStatus::Paused)
}

/// From `v` to `w`, no auction disappears and every auction's status moves
/// along its life cycle.
pub open spec fn lifecycle_respected(v: ModuleView, w: ModuleView) -> bool {
    forall|id: AuctionId| #[trigger] v.auctions.contains_key(id) ==> w.auctions.contains_key(id)
        && status_reachable(v.auctions[id].status, w.auctions[id].status)
}

/// The life cycle is respected over any run of calls that each respect it.
pub proof fn law_lifecycle_composes(u: ModuleView, v: ModuleView, w: ModuleView)
    requires
        lifecycle_respected(u, v),
        lifecycle_respected(v, w),
    ensures
        lifecycle_respected(u, w),
{
}

/// A stopped auction stays stopped.
pub proof fn law_stopped_is_final(v: ModuleView, w: ModuleView, id: AuctionId)
    requires
        lifecycle_respected(v, w),
        v.auctions.contains_key(id),
        v.auctions[id].status == AuctionStatus::Stopped,
    ensures
        w.auctions.contains_key(id),
        w.auctions[id].status == AuctionStatus::Stopped,
{
}

/// An auction that has left pending start never comes back to it.
pub proof fn law_no_return_to_pending(v: ModuleView, w: ModuleView, id: AuctionId)
    requires
        lifecycle_respected(v, w),
        v.auctions.contains_key(id),
        v.auctions[id].status != AuctionStatus::PendingStart,
    ensures
        w.auctions[id].status != AuctionStatus::PendingStart,
{
}

/// A status change along the life cycle respects it.
proof fn lemma_changed_status_lifecycle(v: ModuleView, id: AuctionId, from: AuctionStatus, to: AuctionStatus)
    requires
        v.auctions.contains_key(id) ==> status_reachable(v.auctions[id].status, to),
    ensures
        lifecycle_respected(v, changed_status(v, id, from, to)),
{
}

/// Creating an auction respects the life cycle, and the new auction, under
/// an identifier that no auction had, is pending start.
pub proof fn law_create_lifecycle(
    v: ModuleView,
    owner: AccountId,
    begin_price: Balance,
    minimum_step: Balance,
    upper_bound_price: Option<Balance>,
)
    requires
        wf(v),
    ensures
        lifecycle_respected(v, create_outcome(v, owner, begin_price, minimum_step, upper_bound_price).0),
        create_outcome(v, owner, begin_price, minimum_step, upper_bound_price).1 matches Ok(id) ==> {
            let w = create_outcome(v, owner, begin_price, minimum_step, upper_bound_price).0;
            &&& !v.auctions.contains_key(id)
            &&& w.auctions[id] == new_auction(id, owner, begin_price, minimum_step, upper_bound_price)
            &&& w.auctions[id].status == AuctionStatus::PendingStart
            &&& w.next_auction_id == id + 1
        },
{
}

/// Adding an item respects the life cycle.
pub proof fn law_add_item_lifecycle(v: ModuleView, sender: AccountId, id: AuctionId, item: ItemId, is_item_owner: bool)
    ensures
        lifecycle_respected(v, add_item_outcome(v, sender, id, item, is_item_owner).0),
{
}

/// Setting the moments of an auction respects the life cycle.
pub proof fn law_setup_moments_lifecycle(
    v: ModuleView,
    owner: AccountId,
    id: AuctionId,
    start_at: Option<Moment>,
    stop_at: Option<Moment>,
    wait_period: Option<Moment>,
)
    ensures
        lifecycle_respected(v, setup_moments_outcome(v, owner, id, start_at, stop_at, wait_period).0),
{
}

/// Pausing (from active to paused) and resuming (from paused to active)
/// respect the life cycle.
pub proof fn law_pause_resume_lifecycle(v: ModuleView, owner: AccountId, id: AuctionId, from: AuctionStatus, to: AuctionStatus)
    requires
        status_reachable(from, to),
    ensures
        lifecycle_respected(v, status_move_outcome(v, owner, id, from, to).0),
{
    match check_auction(v, id, Some(from), Some(owner)) {
        Err(_) => {},
        Ok(a) => lemma_changed_status_lifecycle(v, id, a.status, to),
    }
}

/// Bidding respects the life cycle.
pub proof fn law_participate_lifecycle(
    v: ModuleView,
    who: AccountId,
    id: AuctionId,
    price: Balance,
    free_balance: Balance,
    now: Moment,
)
    ensures
        lifecycle_respected(v, participate_outcome(v, who, id, price, free_balance, now).0),
{
}

/// The owner's stop respects the life cycle.
pub proof fn law_stop_lifecycle(v: ModuleView, owner: AccountId, id: AuctionId)
    ensures
        lifecycle_respected(v, stop_outcome(v, owner, id).0),
{
    lemma_unlock_all_only_locks(v, v.auctions[id].id, v.participants_of(v.auctions[id].id));
}

/// Completing a settlement, and giving it up, change no auction.
pub proof fn law_complete_lifecycle(
    v: ModuleView,
    owner: AccountId,
    p: Payout,
    payment: Result<(), &'static str>,
    item_transfer: Result<(), &'static str>,
)
    ensures
        complete_settlement_check(v, p, payment) matches Ok(a)
            ==> complete_settlement_outcome(v, a, item_transfer).0.auctions == v.auctions,
        cancel_outcome(v, owner, p.auction_id).0.auctions == v.auctions,
{
}

/// Starting pending auctions respects the life cycle and makes exactly them active.
proof fn lemma_start_all_lifecycle(v: ModuleView, ids: Seq<AuctionId>)
    requires
        forall|i: int| 0 <= i < ids.len() ==> #[trigger] v.auctions.contains_key(ids[i])
            && v.auctions[ids[i]].status == AuctionStatus::PendingStart,
    ensures
        lifecycle_respected(v, start_all(v, ids)),
        start_all(v, ids).auctions.dom() == v.auctions.dom(),
        forall|id: AuctionId| #[trigger] v.auctions.contains_key(id) ==> (start_all(v, ids).auctions[id].status
            == if ids.contains(id) { AuctionStatus::Active } else { v.auctions[id].status }),
    decreases ids.len(),
{
    if ids.len() > 0 {
        let prev = ids.drop_last();
        assert forall|i: int| 0 <= i < prev.len() implies #[trigger] v.auctions.contains_key(prev[i])
            && v.auctions[prev[i]].status == AuctionStatus::PendingStart by {
            assert(prev[i] == ids[i]);
            assert(v.auctions.contains_key(ids[i]));
        }
        lemma_start_all_lifecycle(v, prev);
        let p = start_all(v, prev);
        let last = ids.last();
        assert(v.auctions.contains_key(ids[ids.len() - 1]));
        assert forall|id: AuctionId| #[trigger] v.auctions.contains_key(id) implies (start_all(v, ids).auctions[id].status
            == if ids.contains(id) { AuctionStatus::Active } else { v.auctions[id].status }) by {
            assert(ids.contains(id) <==> (prev.contains(id) || id == last)) by {
                if ids.contains(id) {
                    let k = choose|k: int| 0 <= k < ids.len() && ids[k] == id;
                    if k < ids.len() - 1 {
                        assert(prev[k] == id);
                    }
                }
                if prev.contains(id) {
                    let k = choose|k: int| 0 <= k < prev.len() && prev[k] == id;
                    assert(ids[k] == id);
                }
                if id == last {
                    assert(ids[ids.len() - 1] == id);
                }
            }
        }
        assert(start_all(v, ids).auctions.dom() =~= v.auctions.dom());
    }
}

/// The off-chain worker's start respects the life cycle, and where it is
/// accepted every given auction is active, out of the pending set and in the
/// active set.
pub proof fn law_start_passive(v: ModuleView, ids: Seq<AuctionId>, key_found: bool, signature_valid: bool)
    ensures
        lifecycle_respected(v, start_passive_outcome(v, ids, key_found, signature_valid).0),
        start_passive_outcome(v, ids, key_found, signature_valid).1 is Ok ==> forall|i: int| 0 <= i < ids.len() ==> {
            let w = start_passive_outcome(v, ids, key_found, signature_valid).0;
            &&& w.auctions[#[trigger] ids[i]].status == AuctionStatus::Active
            &&& !w.pending.contains(ids[i])
            &&& w.active.contains(ids[i])
        },
{
    let r = start_passive_outcome(v, ids, key_found, signature_valid);
    if r.1 is Ok {
        assert forall|i: int| 0 <= i < ids.len() implies #[trigger] v.auctions.contains_key(ids[i])
            && v.auctions[ids[i]].status == AuctionStatus::PendingStart by {
            assert(crate::pallet::has_status(v, ids[i], AuctionStatus::PendingStart, false));
        }
        lemma_start_all_lifecycle(v, ids);
        let s = start_all(v, ids);
        lemma_without_all(s.pending, ids);
        lemma_set_add_all(s.active, ids);
        assert forall|i: int| 0 <= i < ids.len() implies {
            let w = r.0;
            &&& w.auctions[#[trigger] ids[i]].status == AuctionStatus::Active
            &&& !w.pending.contains(ids[i])
            &&& w.active.contains(ids[i])
        } by {
            assert(ids.contains(ids[i]));
            assert(v.auctions.contains_key(ids[i]));
        }
    }
}


/// The off-chain worker's stop of each of `ids` in turn respects the life
/// cycle and stops each of them.
proof fn lemma_passive_stop_all(v: ModuleView, ids: Seq<AuctionId>)
    requires
        wf(v),
    ensures
        wf(passive_stop_all(v, ids).0),
        lifecycle_respected(v, passive_stop_all(v, ids).0),
        passive_stop_all(v, ids).0.auctions.dom() == v.auctions.dom(),
        forall|id: AuctionId| #[trigger] v.auctions.contains_key(id) && ids.contains(id)
            ==> passive_stop_all(v, ids).0.auctions[id].status == AuctionStatus::Stopped,
    decreases ids.len(),
{
    if ids.len() > 0 {
        let prev = ids.drop_last();
        lemma_passive_stop_all(v, prev);
        let p = passive_stop_all(v, prev).0;
        let last = ids.last();
        lemma_passive_stop_one_wf(p, last);
        lemma_unlock_all_only_locks(p, last, p.participants_of(last));
        let w = passive_stop_all(v, ids).0;
        assert(w.auctions.dom() =~= v.auctions.dom());
        assert forall|id: AuctionId| #[trigger] v.auctions.contains_key(id) && ids.contains(id)
            implies w.auctions[id].status == AuctionStatus::Stopped by {
            if id != last {
                let k = choose|k: int| 0 <= k < ids.len() && ids[k] == id;
                assert(prev[k] == id);
            }
        }
    }
}

/// The off-chain worker's stop respects the life cycle, and where it is
/// accepted every given auction is stopped and out of the active set.
pub proof fn law_stop_passive(v: ModuleView, ids: Seq<AuctionId>, key_found: bool, signature_valid: bool)
    requires
        wf(v),
    ensures
        lifecycle_respected(v, stop_passive_outcome(v, ids, key_found, signature_valid).0),
        stop_passive_outcome(v, ids, key_found, signature_valid).1 is Ok ==> forall|i: int| 0 <= i < ids.len() ==> {
            let w = stop_passive_outcome(v, ids, key_found, signature_valid).0;
            &&& w.auctions[#[trigger] ids[i]].status == AuctionStatus::Stopped
            &&& !w.active.contains(ids[i])
        },
{
    let r = stop_passive_outcome(v, ids, key_found, signature_valid);
    if r.1 is Ok {
        lemma_passive_stop_all(v, ids);
        let s = passive_stop_all(v, ids).0;
        lemma_without_all(s.active, ids);
        assert forall|i: int| 0 <= i < ids.len() implies {
            let w = r.0;
            &&& w.auctions[#[trigger] ids[i]].status == AuctionStatus::Stopped
            &&& !w.active.contains(ids[i])
        } by {
            assert(crate::pallet::has_status(v, ids[i], AuctionStatus::Stopped, true));
            assert(ids.contains(ids[i]));
        }
    }
}

/// The owner's stop, where it is accepted, ends with the auction stopped and
/// out of the active set; a started auction has all its locks released
/// first, and waits among the unsettled auctions exactly where its winner
/// has to pay.
pub proof fn law_owner_stop(v: ModuleView, owner: AccountId, id: AuctionId)
    requires
        wf(v),
        stop_outcome(v, owner, id).1 is Ok,
    ensures
        stop_outcome(v, owner, id).0.auctions[id].status == AuctionStatus::Stopped,
        !stop_outcome(v, owner, id).0.active.contains(id),
        v.auctions[id].status != AuctionStatus::PendingStart ==> {
            &&& stop_outcome(v, owner, id).0.account_locks == released(v, id).0.account_locks
            &&& stop_outcome(v, owner, id).0.unsettled.contains(id) <==> stop_outcome(v, owner, id).1->Ok_0.1 is Some
        },
{
    let a = v.auctions[id];
    assert(a.id == id);
    assert(seq![id].contains(id)) by { assert(seq![id][0] == id); }
    if a.status == AuctionStatus::PendingStart {
        lemma_without_all(stop_marked(v, id, a.status).active, seq![id]);
    } else {
        crate::pallet::lemma_live_not_unsettled(v, id);
        let r = released(v, id);
        lemma_unlock_all_only_locks(v, id, v.participants_of(id));
        let q = stop_outcome(v, owner, id).1->Ok_0.1;
        let s = crate::pallet::settled(v, a, q).0;
        lemma_without_all(s.active, seq![id]);
        if q is Some {
            lemma_set_add_all(r.0.unsettled, seq![id]);
        }
    }
}

/// A settlement that fails changes nothing: neither the owner's stop, whose
/// checks come before any change, nor the completion of a settlement,
/// whether its checks, the payment or the item transfer failed.
pub proof fn law_failed_settlement_changes_nothing(
    v: ModuleView,
    owner: AccountId,
    id: AuctionId,
    p: Payout,
    payment: Result<(), &'static str>,
    item_transfer: Result<(), &'static str>,
)
    ensures
        stop_outcome(v, owner, id).1 is Err ==> stop_outcome(v, owner, id).0 == v,
        complete_settlement_check(v, p, payment) is Ok ==> {
            let a = complete_settlement_check(v, p, payment)->Ok_0;
            complete_settlement_outcome(v, a, item_transfer).1 is Err ==> complete_settlement_outcome(v, a, item_transfer).0 == v
        },
{
}

/// An accepted bid becomes the leading bid: the bidder's lock in the auction
/// is the price, no bid there exceeds it, it exceeds the previous leading bid
/// by more than the minimum step, and no other bid changes.
pub proof fn law_bid_leads(v: ModuleView, who: AccountId, id: AuctionId, price: Balance, free_balance: Balance, now: Moment)
    requires
        wf(v),
        bid_check(v, who, id, price, free_balance) is Ok,
    ensures
        ({
            let w = participate_outcome(v, who, id, price, free_balance, now).0;
            &&& w.bid_of(id, who) == price
            &&& latest_bidder(w.auctions[id]) == Some(who)
            &&& forall|x: AccountId| #[trigger] w.bid_of(id, x) <= price
            &&& forall|a: AuctionId, x: AccountId| (a, x) != (id, who) ==> #[trigger] w.bid_of(a, x) == v.bid_of(a, x)
        }),
        latest_bidder(v.auctions[id]) matches Some(l) ==> price > v.bid_of(id, l) + v.auctions[id].minimum_step,
        latest_bidder(v.auctions[id]) is None ==> price >= v.auctions[id].begin_price,
{
    let w = participate_outcome(v, who, id, price, free_balance, now).0;
    assert(bids_led_by_latest(v, id));
    assert forall|x: AccountId| #[trigger] w.bid_of(id, x) <= price by {
        if x != who && v.auction_bids.contains_key((id, x)) {
            assert(w.bid_of(id, x) == v.bid_of(id, x));
        }
    }
}

/// An accepted bid locks exactly the difference between the price and the
/// bidder's previous bid in the auction, on top of what the bidder had locked,
/// and asks the currency to extend the bidder's lock to that total; nobody
/// else's lock changes.
pub proof fn law_bid_lock_accounting(v: ModuleView, who: AccountId, id: AuctionId, price: Balance, free_balance: Balance, now: Moment)
    requires
        wf(v),
        bid_check(v, who, id, price, free_balance) is Ok,
    ensures
        ({
            let r = participate_outcome(v, who, id, price, free_balance, now);
            &&& r.0.lock_of(who) == v.lock_of(who) + price - v.bid_of(id, who)
            &&& r.1 == Ok::<LockOp, Error>(LockOp::Extend { who, amount: r.0.lock_of(who) })
            &&& forall|x: AccountId| x != who ==> #[trigger] r.0.lock_of(x) == v.lock_of(x)
        }),
{
}

/// A refused bid changes nothing.
pub proof fn law_refused_bid_changes_nothing(v: ModuleView, who: AccountId, id: AuctionId, price: Balance, free_balance: Balance, now: Moment)
    requires
        bid_check(v, who, id, price, free_balance) is Err,
    ensures
        participate_outcome(v, who, id, price, free_balance, now).0 == v,
        participate_outcome(v, who, id, price, free_balance, now).1 is Err,
{
}

/// Releasing the locks of distinct accounts lowers each of their total
/// locks by their bid, and no other.
proof fn lemma_unlock_all_locks(v: ModuleView, a: AuctionId, ps: Seq<AccountId>)
    requires
        ps.no_duplicates(),
        unlock_all_outcome(v, a, ps).2 is Ok,
    ensures
        forall|p: AccountId| #[trigger] ps.contains(p) ==> unlock_all_outcome(v, a, ps).0.lock_of(p) == v.lock_of(p) - v.bid_of(a, p),
        forall|x: AccountId| !ps.contains(x) ==> #[trigger] unlock_all_outcome(v, a, ps).0.lock_of(x) == v.lock_of(x),
        unlock_all_outcome(v, a, ps).0.auction_bids == v.auction_bids,
    decreases ps.len(),
{
    if ps.len() > 0 {
        let p0 = ps[0];
        let first = unlock_outcome(v, a, p0);
        let v1 = first.0;
        let rest = ps.drop_first();
        assert(rest.no_duplicates());
        assert(first.1 is Ok);
        lemma_unlock_all_locks(v1, a, rest);
        let w = unlock_all_outcome(v, a, ps).0;
        assert(w == unlock_all_outcome(v1, a, rest).0);
        assert(v1.lock_of(p0) == v.lock_of(p0) - v.bid_of(a, p0));
        assert(!rest.contains(p0)) by {
            if rest.contains(p0) {
                let k = choose|k: int| 0 <= k < rest.len() && rest[k] == p0;
                assert(ps[k + 1] == ps[0]);
            }
        }
        let w1 = unlock_all_outcome(v1, a, rest).0;
        assert(v1.auction_bids == v.auction_bids);
        assert(w.lock_of(p0) == v.lock_of(p0) - v.bid_of(a, p0)) by {
            assert(w1.lock_of(p0) == v1.lock_of(p0));
        }
        assert forall|p: AccountId| #[trigger] ps.contains(p) implies w.lock_of(p) == v.lock_of(p) - v.bid_of(a, p) by {
            if p != p0 {
                let k = choose|k: int| 0 <= k < ps.len() && ps[k] == p;
                assert(rest[k - 1] == p);
                assert(rest.contains(p));
                assert(v1.lock_of(p) == v.lock_of(p));
                assert(v1.bid_of(a, p) == v.bid_of(a, p));
                assert(w1.lock_of(p) == v1.lock_of(p) - v1.bid_of(a, p));
            }
        }
        assert forall|x: AccountId| !ps.contains(x) implies #[trigger] w.lock_of(x) == v.lock_of(x) by {
            assert(x != p0) by {
                if x == p0 {
                    assert(ps[0] == x);
                }
            }
            assert(!rest.contains(x)) by {
                if rest.contains(x) {
                    let k = choose|k: int| 0 <= k < rest.len() && rest[k] == x;
                    assert(ps[k + 1] == x);
                }
            }
            assert(v1.lock_of(x) == v.lock_of(x));
        }
    }
}

/// Settling an auction releases, for each of its participants, exactly the
/// amount locked in it, and touches no other lock and no bid.
pub proof fn law_settle_releases_locks(v: ModuleView, id: AuctionId)
    requires
        wf(v),
        unlock_check(v, id, v.participants_of(id)) is Ok,
    ensures
        forall|p: AccountId| #[trigger] v.participants_of(id).contains(p)
            ==> released(v, id).0.lock_of(p) == v.lock_of(p) - v.bid_of(id, p),
        forall|x: AccountId| !v.participants_of(id).contains(x)
            ==> #[trigger] released(v, id).0.lock_of(x) == v.lock_of(x),
        released(v, id).0.auction_bids == v.auction_bids,
{
    if v.participants.contains_key(id) {
        assert(v.participants[id].no_duplicates());
    }
    lemma_released_wf(v, id);
    lemma_unlock_all_locks(v, id, v.participants_of(id));
}

/// The fee is 0 below a price of 20 and 1 from there on, and the fee and
/// what the owner receives make up the price.
pub proof fn law_fee_split(price: Balance)
    ensures
        auction_fee(price) <= 1,
        auction_fee(price) <= price,
        auction_fee(price) == 0 <==> price < 20,
        (price - auction_fee(price)) + auction_fee(price) == price,
{
}

/// Settlement pays the latest bidder's bid, less the fee, to the owner, and
/// hands the auctioned item to the latest bidder.
pub proof fn law_payout_pays_owner(v: ModuleView, a: Auction)
    ensures
        payout_of(v, a) matches Some(p) ==> {
            &&& latest_bidder(a) == Some(p.winner)
            &&& a.item == Some(p.item)
            &&& p.owner == a.owner
            &&& p.fee == auction_fee(v.bid_of(a.id, p.winner))
            &&& p.value + p.fee == v.bid_of(a.id, p.winner)
        },
        payout_of(v, a) is None <==> (a.item is None || latest_bidder(a) is None),
{
}

/// The latest bidder of an auction holds its highest bid; without a latest
/// bidder there is no bid.
pub proof fn law_winner_holds_highest_bid(v: ModuleView, id: AuctionId)
    requires
        wf(v),
        v.auctions.contains_key(id),
    ensures
        latest_bidder(v.auctions[id]) matches Some(l) ==> forall|x: AccountId| #[trigger] v.bid_of(id, x) <= v.bid_of(id, l),
        latest_bidder(v.auctions[id]) is None ==> forall|x: AccountId| #[trigger] v.bid_of(id, x) == 0,
{
    assert(bids_led_by_latest(v, id));
}

/// Only the owner controls an auction: anyone else is refused adding an item,
/// setting moments, pausing, resuming or stopping it, and nothing changes.
pub proof fn law_only_owner_controls(
    v: ModuleView,
    sender: AccountId,
    id: AuctionId,
    item: ItemId,
    is_item_owner: bool,
    start_at: Option<Moment>,
    stop_at: Option<Moment>,
    wait_period: Option<Moment>,
    from: AuctionStatus,
    to: AuctionStatus,
)
    requires
        v.auctions.contains_key(id),
        v.auctions[id].owner != sender,
    ensures
        add_item_outcome(v, sender, id, item, is_item_owner).0 == v,
        add_item_outcome(v, sender, id, item, is_item_owner).1 is Err,
        setup_moments_outcome(v, sender, id, start_at, stop_at, wait_period).0 == v,
        setup_moments_outcome(v, sender, id, start_at, stop_at, wait_period).1 is Err,
        status_move_outcome(v, sender, id, from, to).0 == v,
        status_move_outcome(v, sender, id, from, to).1 is Err,
        stop_outcome(v, sender, id).0 == v,
        stop_outcome(v, sender, id).1 == Err::<(Seq<LockOp>, Option<Payout>), Error>(Error::NotOwner),
        cancel_outcome(v, sender, id).0 == v,
        cancel_outcome(v, sender, id).1 == Err::<(), Error>(Error::NotOwner),
{
}

/// Adding an item again replaces the item added before, where no other
/// auction holds the new one.
pub proof fn law_add_item_replaces(v: ModuleView, sender: AccountId, id: AuctionId, first: ItemId, second: ItemId)
    requires
        add_item_outcome(v, sender, id, first, true).1 is Ok,
        !item_taken(v, second, id),
    ensures
        ({
            let v1 = add_item_outcome(v, sender, id, first, true).0;
            &&& add_item_outcome(v1, sender, id, second, true).1 is Ok
            &&& add_item_outcome(v1, sender, id, second, true).0.auctions[id].item == Some(second)
        }),
{
}


/// An item takes part in at most one auction at a time: two auctions that
/// hold the same item (each of them not stopped, or stopped and waiting to
/// hand it to its winner) are the same auction.
pub proof fn law_one_auction_per_item(v: ModuleView, a: AuctionId, b: AuctionId)
    requires
        wf(v),
        v.auctions.contains_key(a),
        v.auctions.contains_key(b),
        holds_item(v, a),
        holds_item(v, b),
        v.auctions[a].item is Some,
        v.auctions[a].item == v.auctions[b].item,
    ensures
        a == b,
{
}

/// An item that another auction holds is refused, and nothing
/// changes; an accepted item is mapped to its auction.
pub proof fn law_item_in_one_auction(v: ModuleView, sender: AccountId, id: AuctionId, item: ItemId, is_item_owner: bool)
    ensures
        item_taken(v, item, id) ==> add_item_outcome(v, sender, id, item, is_item_owner).0 == v
            && add_item_outcome(v, sender, id, item, is_item_owner).1 is Err,
        add_item_outcome(v, sender, id, item, is_item_owner).1 is Ok
            ==> add_item_outcome(v, sender, id, item, is_item_owner).0.auction_items[item] == id,
{
}

/// A lock followed by its release restores the total lock: where `who` had no
/// bid in auction `a` and any recorded total lock is above zero, locking
/// `amount` above zero and then releasing the lock of `who` in `a` leaves the
/// total locks as they were.
pub proof fn law_lock_then_release(v: ModuleView, a: AuctionId, who: AccountId, amount: Balance)
    requires
        !v.auction_bids.contains_key((a, who)),
        amount > 0,
        v.account_locks.contains_key(who) ==> v.account_locks[who] > 0,
        lock_outcome(v, a, who, amount).1 is Ok,
    ensures
        unlock_outcome(lock_outcome(v, a, who, amount).0, a, who).1 is Ok,
        unlock_outcome(lock_outcome(v, a, who, amount).0, a, who).0.account_locks == v.account_locks,
{
    let w = unlock_outcome(lock_outcome(v, a, who, amount).0, a, who).0;
    if v.account_locks.contains_key(who) {
        assert(w.account_locks =~= v.account_locks);
    } else {
        assert(w.account_locks =~= v.account_locks);
    }
}

/// After a lock step, the total lock of the account still covers each of its
/// bids, where it did before.
pub proof fn law_lock_covers_bids(v: ModuleView, a: AuctionId, who: AccountId, amount: Balance)
    requires
        forall|b: AuctionId| #[trigger] v.auction_bids.contains_key((b, who))
            ==> v.account_locks.contains_key(who) && v.account_locks[who] >= v.auction_bids[(b, who)],
        lock_outcome(v, a, who, amount).1 is Ok,
    ensures
        ({
            let w = lock_outcome(v, a, who, amount).0;
            forall|b: AuctionId| #[trigger] w.auction_bids.contains_key((b, who))
                ==> w.account_locks.contains_key(who) && w.account_locks[who] >= w.auction_bids[(b, who)]
        }),
{
    let w = lock_outcome(v, a, who, amount).0;
    assert forall|b: AuctionId| #[trigger] w.auction_bids.contains_key((b, who))
        implies w.account_locks.contains_key(who) && w.account_locks[who] >= w.auction_bids[(b, who)] by {
        if b != a {
            assert(v.auction_bids.contains_key((b, who)));
        } else if v.auction_bids.contains_key((a, who)) {
            assert(v.account_locks[who] >= v.auction_bids[(a, who)]);
        }
    }
}

/// Recording a bid adds the bidder to the participants only where it is not
/// one of them yet, so the participants stay free of duplicates.
pub proof fn law_participants_stay_distinct(v: ModuleView, id: AuctionId, who: AccountId, price: Balance, now: Moment)
    requires
        v.participants_of(id).no_duplicates(),
    ensures
        ({
            let ps = v.participants_of(id);
            let qs = recorded_bid(v, id, who, price, now).participants_of(id);
            &&& qs == if ps.contains(who) { ps } else { ps.push(who) }
            &&& qs.no_duplicates()
            &&& qs.contains(who)
        }),
{
    let ps = v.participants_of(id);
    if !ps.contains(who) {
        let qs = ps.push(who);
        assert(qs[ps.len() as int] == who);
        assert forall|i: int, j: int| 0 <= i < qs.len() && 0 <= j < qs.len() && i != j implies qs[i] != qs[j] by {
            if i == ps.len() {
                assert(qs[j] == ps[j]);
                assert(ps.contains(ps[j]));
            } else if j == ps.len() {
                assert(qs[i] == ps[i]);
                assert(ps.contains(ps[i]));
            }
        }
    }
}

/// What the off-chain worker selects is accepted on chain: the auctions it
/// picks to start are all pending start, those it picks to stop are none of
/// them stopped, so that, sent with a valid signature of a local authority,
/// both calls go through; and neither list names an auction twice.
pub proof fn law_worker_selection_accepted(v: ModuleView, now: Moment)
    requires
        wf(v),
    ensures
        start_passive_outcome(v, v.pending.filter(crate::offchain::starting(v, now)), true, true).1 is Ok,
        stop_passive_outcome(v, v.active.filter(crate::offchain::stopping(v, now)), true, true).1 is Ok,
        v.pending.filter(crate::offchain::starting(v, now)).no_duplicates(),
        v.active.filter(crate::offchain::stopping(v, now)).no_duplicates(),
{
    let sp = crate::offchain::starting(v, now);
    let st = crate::offchain::stopping(v, now);
    let s1 = v.pending.filter(sp);
    let s2 = v.active.filter(st);
    assert forall|i: int| 0 <= i < s1.len() implies #[trigger] crate::pallet::has_status(v, s1[i], AuctionStatus::PendingStart, false) by {
        v.pending.lemma_filter_pred(sp, i);
    }
    assert forall|i: int| 0 <= i < s2.len() implies #[trigger] crate::pallet::has_status(v, s2[i], AuctionStatus::Stopped, true) by {
        v.active.lemma_filter_pred(st, i);
    }
    lemma_filter_no_duplicates(v.pending, sp);
    lemma_filter_no_duplicates(v.active, st);
}

/// Filtering a sequence without duplicates gives one without duplicates.
proof fn lemma_filter_no_duplicates(s: Seq<AuctionId>, p: spec_fn(AuctionId) -> bool)
    requires
        s.no_duplicates(),
    ensures
        s.filter(p).no_duplicates(),
    decreases s.len(),
{
    reveal_with_fuel(Seq::filter, 1);
    if s.len() > 0 {
        lemma_filter_no_duplicates(s.drop_last(), p);
        let prev = s.drop_last().filter(p);
        if p(s.last()) {
            assert(!prev.contains(s.last())) by {
                if prev.contains(s.last()) {
                    s.drop_last().lemma_filter_contains_rev(p, s.last());
                    let k = choose|k: int| 0 <= k < s.drop_last().len() && s.drop_last()[k] == s.last();
                    assert(s[k] == s[s.len() - 1]);
                }
            }
            let r = s.filter(p);
            assert forall|i: int, j: int| 0 <= i < r.len() && 0 <= j < r.len() && i != j implies r[i] != r[j] by {
                if i < prev.len() && j < prev.len() {
                    assert(r[i] == prev[i] && r[j] == prev[j]);
                } else if i == prev.len() {
                    assert(r[j] == prev[j]);
                    assert(prev.contains(prev[j]));
                } else {
                    assert(r[i] == prev[i]);
                    assert(prev.contains(prev[i]));
                }
            }
        }
    }
}


/// The off-chain worker picks an auction to start exactly where it is in the
/// pending set, stored, still pending start, and has a start moment that lies
/// before `now`.
pub proof fn law_start_selection(v: ModuleView, now: Moment, id: AuctionId)
    ensures
        v.pending.filter(starting(v, now)).contains(id) <==> {
            &&& v.pending.contains(id)
            &&& v.auctions.contains_key(id)
            &&& v.auctions[id].status == AuctionStatus::PendingStart
            &&& v.auctions[id].start_at is Some
            &&& v.auctions[id].start_at->0 < now
        },
{
    let p = starting(v, now);
    if v.pending.filter(p).contains(id) {
        v.pending.lemma_filter_contains_rev(p, id);
        let k = choose|k: int| 0 <= k < v.pending.filter(p).len() && v.pending.filter(p)[k] == id;
        v.pending.lemma_filter_pred(p, k);
    }
    if v.pending.contains(id) && p(id) {
        let k = choose|k: int| 0 <= k < v.pending.len() && v.pending[k] == id;
        v.pending.lemma_filter_contains(p, k);
    }
}

/// The off-chain worker picks an auction to stop exactly where it is in the
/// active set, stored and not stopped, and one of three conditions holds:
/// its stop moment lies before `now`; the latest bidder's bid in that same
/// auction reaches its upper bound price; or, since the latest bid, at least
/// its wait period has passed.
pub proof fn law_stop_selection(v: ModuleView, now: Moment, id: AuctionId)
    ensures
        v.active.filter(stopping(v, now)).contains(id) <==> {
            &&& v.active.contains(id)
            &&& v.auctions.contains_key(id)
            &&& v.auctions[id].status != AuctionStatus::Stopped
            &&& {
                ||| v.auctions[id].stop_at is Some && v.auctions[id].stop_at->0 < now
                ||| match (v.auctions[id].upper_bound_price, v.auctions[id].latest_participate) {
                    (Some(upper), Some((bidder, _))) => v.auction_bids.contains_key((id, bidder))
                        && v.auction_bids[(id, bidder)] >= upper || upper == 0,
                    _ => false,
                }
                ||| match (v.auctions[id].wait_period, v.auctions[id].latest_participate) {
                    (Some(wait), Some((_, bid_at))) => now - bid_at >= wait,
                    _ => false,
                }
            }
        },
{
    let p = stopping(v, now);
    if v.active.filter(p).contains(id) {
        v.active.lemma_filter_contains_rev(p, id);
        let k = choose|k: int| 0 <= k < v.active.filter(p).len() && v.active.filter(p)[k] == id;
        v.active.lemma_filter_pred(p, k);
    }
    if v.active.contains(id) && p(id) {
        let k = choose|k: int| 0 <= k < v.active.len() && v.active[k] == id;
        v.active.lemma_filter_contains(p, k);
    }
}

/// Whether the off-chain worker picks an auction to start or to stop depends
/// on that auction and its own bids alone: not on other auctions, their bids,
/// or any account's total lock.
pub proof fn law_selection_is_per_auction(v: ModuleView, w: ModuleView, now: Moment, id: AuctionId)
    requires
        v.auctions.contains_key(id) == w.auctions.contains_key(id),
        v.auctions.contains_key(id) ==> v.auctions[id] == w.auctions[id],
        forall|x: AccountId| #[trigger] v.auction_bids.contains_key((id, x)) == w.auction_bids.contains_key((id, x)),
        forall|x: AccountId| #[trigger] v.auction_bids.contains_key((id, x)) ==> v.auction_bids[(id, x)] == w.auction_bids[(id, x)],
    ensures
        ready_to_start(v, id, now) == ready_to_start(w, id, now),
        ready_to_stop(v, id, now) == ready_to_stop(w, id, now),
{
    if v.auctions.contains_key(id) {
        if let Some(latest) = v.auctions[id].latest_participate {
            assert(v.bid_of(id, latest.0) == w.bid_of(id, latest.0));
        }
    }
}

/// Setting the moments of an auction, where accepted, stores each moment
/// given as exactly that moment and keeps each one not given; nothing else
/// of the auction, and no other auction, changes, and the auction joins the
/// pending set.
pub proof fn law_setup_moments_replaces_given(
    v: ModuleView,
    owner: AccountId,
    id: AuctionId,
    start_at: Option<Moment>,
    stop_at: Option<Moment>,
    wait_period: Option<Moment>,
)
    requires
        setup_moments_outcome(v, owner, id, start_at, stop_at, wait_period).1 is Ok,
    ensures
        ({
            let w = setup_moments_outcome(v, owner, id, start_at, stop_at, wait_period).0;
            let a = v.auctions[id];
            let b = w.auctions[id];
            &&& w.auctions.contains_key(id)
            &&& start_at matches Some(x) ==> b.start_at == Some(x)
            &&& start_at is None ==> b.start_at == a.start_at
            &&& stop_at matches Some(x) ==> b.stop_at == Some(x)
            &&& stop_at is None ==> b.stop_at == a.stop_at
            &&& wait_period matches Some(x) ==> b.wait_period == Some(x)
            &&& wait_period is None ==> b.wait_period == a.wait_period
            &&& b.id == a.id && b.item == a.item && b.owner == a.owner && b.status == a.status
            &&& b.begin_price == a.begin_price && b.upper_bound_price == a.upper_bound_price
            &&& b.minimum_step == a.minimum_step && b.latest_participate == a.latest_participate
            &&& forall|j: AuctionId| j != id ==> (#[trigger] w.auctions.contains_key(j) <==> v.auctions.contains_key(j))
                && (v.auctions.contains_key(j) ==> w.auctions[j] == v.auctions[j])
            &&& w.active == v.active
            &&& w.pending.contains(id)
            &&& w.auction_bids == v.auction_bids && w.account_locks == v.account_locks
        }),
{
    let w = setup_moments_outcome(v, owner, id, start_at, stop_at, wait_period).0;
    lemma_set_add_all(v.pending, seq![id]);
    assert(seq![id].contains(id)) by { assert(seq![id][0] == id); }
    assert(w.pending.contains(id));
}

/// An accepted bid at time `now` makes the bidder the latest bidder at
/// exactly `now`, with the price as its bid there; nothing else of the
/// auction changes.
pub proof fn law_bid_recorded_at_now(v: ModuleView, who: AccountId, id: AuctionId, price: Balance, free_balance: Balance, now: Moment)
    requires
        participate_outcome(v, who, id, price, free_balance, now).1 is Ok,
    ensures
        ({
            let w = participate_outcome(v, who, id, price, free_balance, now).0;
            let a = v.auctions[id];
            let b = w.auctions[id];
            &&& w.auctions.contains_key(id)
            &&& b.latest_participate == Some((who, now))
            &&& w.auction_bids.contains_key((id, who)) && w.auction_bids[(id, who)] == price
            &&& b.id == a.id && b.item == a.item && b.owner == a.owner && b.status == a.status
            &&& b.start_at == a.start_at && b.stop_at == a.stop_at && b.wait_period == a.wait_period
            &&& b.begin_price == a.begin_price && b.upper_bound_price == a.upper_bound_price
            &&& b.minimum_step == a.minimum_step
            &&& w.active == v.active && w.pending == v.pending
        }),
{
}

/// Pausing or resuming an auction, where accepted, changes its status to
/// `to` and reports the change, and nothing else: the auction stays in the
/// active and pending sets it was in, and no bid, lock or other auction
/// changes. Where refused, nothing changes.
pub proof fn law_pause_resume_change_status_only(v: ModuleView, owner: AccountId, id: AuctionId, from: AuctionStatus, to: AuctionStatus)
    ensures
        ({
            let r = status_move_outcome(v, owner, id, from, to);
            &&& r.1 is Ok ==> {
                &&& r.0.auctions == v.auctions.insert(id, Auction { status: to, ..v.auctions[id] })
                &&& r.0.events == v.events.push(crate::types::Event::AuctionUpdated(id, from, to))
                &&& r.0.active == v.active && r.0.pending == v.pending
                &&& r.0.auction_bids == v.auction_bids && r.0.account_locks == v.account_locks
                &&& r.0.participants == v.participants && r.0.auction_items == v.auction_items
                &&& r.0.unsettled == v.unsettled && r.0.next_auction_id == v.next_auction_id
            }
            &&& r.1 is Err ==> r.0 == v
        }),
{
}

/// A created auction is stored under the identifier returned, the next one
/// that was free, as given by its owner and prices, with no item, no start
/// moment, no stop moment, no wait period and no bid, pending start; it is in
/// neither the pending nor the active set, and nothing else changes.
pub proof fn law_create_fresh_auction(
    v: ModuleView,
    owner: AccountId,
    begin_price: Balance,
    minimum_step: Balance,
    upper_bound_price: Option<Balance>,
)
    ensures
        create_outcome(v, owner, begin_price, minimum_step, upper_bound_price).1 matches Ok(id) ==> {
            let w = create_outcome(v, owner, begin_price, minimum_step, upper_bound_price).0;
            let a = w.auctions[id];
            &&& id == v.next_auction_id
            &&& w.auctions.contains_key(id)
            &&& a.id == id && a.owner == owner
            &&& a.begin_price == begin_price && a.minimum_step == minimum_step
            &&& a.upper_bound_price == upper_bound_price
            &&& a.item is None && a.latest_participate is None
            &&& a.start_at is None && a.stop_at is None && a.wait_period is None
            &&& a.status == AuctionStatus::PendingStart
            &&& forall|j: AuctionId| j != id ==> (#[trigger] w.auctions.contains_key(j) <==> v.auctions.contains_key(j))
                && (v.auctions.contains_key(j) ==> w.auctions[j] == v.auctions[j])
            &&& w.active == v.active && w.pending == v.pending
            &&& w.auction_bids == v.auction_bids && w.account_locks == v.account_locks
        },
        create_outcome(v, owner, begin_price, minimum_step, upper_bound_price).1 is Err
            ==> v.next_auction_id == u32::MAX && create_outcome(v, owner, begin_price, minimum_step, upper_bound_price).0 == v,
{
}

/// Adding an item, where accepted, makes it the auction's item and maps it
/// to the auction; nothing else of the auction, and no other auction, changes.
pub proof fn law_add_item_sets_item(v: ModuleView, sender: AccountId, id: AuctionId, item: ItemId, is_item_owner: bool)
    requires
        add_item_outcome(v, sender, id, item, is_item_owner).1 is Ok,
    ensures
        ({
            let w = add_item_outcome(v, sender, id, item, is_item_owner).0;
            let a = v.auctions[id];
            let b = w.auctions[id];
            &&& is_item_owner && a.owner == sender && a.status == AuctionStatus::PendingStart
            &&& w.auctions.contains_key(id)
            &&& b.item == Some(item)
            &&& w.auction_items.contains_key(item) && w.auction_items[item] == id
            &&& b.id == a.id && b.owner == a.owner && b.status == a.status
            &&& b.start_at == a.start_at && b.stop_at == a.stop_at && b.wait_period == a.wait_period
            &&& b.begin_price == a.begin_price && b.upper_bound_price == a.upper_bound_price
            &&& b.minimum_step == a.minimum_step && b.latest_participate == a.latest_participate
            &&& forall|j: AuctionId| j != id ==> (#[trigger] w.auctions.contains_key(j) <==> v.auctions.contains_key(j))
                && (v.auctions.contains_key(j) ==> w.auctions[j] == v.auctions[j])
            &&& w.active == v.active && w.pending == v.pending
        }),
{
}

/// The own authority identifier is one of the authorities whose key is held
/// locally, and no authority listed before it has a local key; there is none
/// only where no authority has a local key.
pub proof fn law_first_local_authority(authorities: Seq<AuthorityId>, local_keys: Seq<AuthorityId>)
    ensures
        first_local_authority(authorities, local_keys) matches Some(k) ==> exists|i: int| 0 <= i < authorities.len()
            && authorities[i] == k && local_keys.contains(k)
            && forall|j: int| 0 <= j < i ==> !local_keys.contains(#[trigger] authorities[j]),
        first_local_authority(authorities, local_keys) is None ==> forall|j: int| 0 <= j < authorities.len()
            ==> !local_keys.contains(#[trigger] authorities[j]),
    decreases authorities.len(),
{
    if authorities.len() > 0 && !local_keys.contains(authorities[0]) {
        let rest = authorities.drop_first();
        law_first_local_authority(rest, local_keys);
        if let Some(k) = first_local_authority(rest, local_keys) {
            let i = choose|i: int| 0 <= i < rest.len() && rest[i] == k && local_keys.contains(k)
                && forall|j: int| 0 <= j < i ==> !local_keys.contains(#[trigger] rest[j]);
            assert(authorities[i + 1] == k);
            assert forall|j: int| 0 <= j < i + 1 implies !local_keys.contains(#[trigger] authorities[j]) by {
                if j > 0 {
                    assert(authorities[j] == rest[j - 1]);
                }
            }
        } else {
            assert forall|j: int| 0 <= j < authorities.len() implies !local_keys.contains(#[trigger] authorities[j]) by {
                if j > 0 {
                    assert(authorities[j] == rest[j - 1]);
                }
            }
        }
    }
}

} // verus!
