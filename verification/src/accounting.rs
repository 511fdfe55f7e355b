//! The bookkeeping of locks: every account's total lock is the sum of its
//! bids in the auctions that are not stopped, and every call keeps it so.
use vstd::prelude::*;
use crate::pallet::{
    add_item_outcome, bids_led_by_latest, cancel_outcome, check_auction, complete_settlement_check,
    complete_settlement_outcome, create_outcome, has_status, participate_outcome, passive_stop_all,
    passive_stop_one, released, settle_check, settled, setup_moments_outcome, start_all, start_passive_outcome,
    status_move_outcome, stop_marked, stop_outcome, stop_passive_outcome, stopped, unlock_check, unlock_precheck, wf,
    lemma_passive_stop_one_wf, lemma_released_wf,
};
use crate::laws::law_settle_releases_locks;
use crate::storage::{Module, ModuleView};
use crate::types::{AccountId, Auction, AuctionId, AuctionStatus, Balance, ItemId, Moment, Payout};

verus! {

/// The part of the total lock of `who` that auction `a` accounts for: the bid
/// of `who` there, as long as the auction is not stopped.
pub open spec fn lock_share(v: ModuleView, a: AuctionId, who: AccountId) -> int {
    if live(v, a) {
        v.bid_of(a, who) as int
    } else {
        0
    }
}

/// The shares of `who` in the auctions whose identifiers are below `n`.
pub open spec fn shares_below(v: ModuleView, who: AccountId, n: nat) -> int
    decreases n,
{
    if n == 0 {
        0
    } else {
        shares_below(v, who, (n - 1) as nat) + lock_share(v, (n - 1) as AuctionId, who)
    }
}

/// Every account's total lock is the sum of its bids in the auctions that
/// are not stopped.
pub open spec fn locks_balanced(v: ModuleView) -> bool {
    forall|who: AccountId| #[trigger] v.lock_of(who) == shares_below(v, who, v.next_auction_id as nat)
}

/// Every recorded bid is above zero.
pub open spec fn bids_positive(v: ModuleView) -> bool {
    forall|a: AuctionId, w: AccountId| #[trigger] v.auction_bids.contains_key((a, w)) ==> v.auction_bids[(a, w)] > 0
}

/// Auction `a` is stored and not stopped.
pub open spec fn live(v: ModuleView, a: AuctionId) -> bool {
    v.auctions.contains_key(a) && v.auctions[a].status != AuctionStatus::Stopped
}

/// `v` and `w` hold the same bids, and the same auctions are stored and not stopped.
pub open spec fn same_shares(v: ModuleView, w: ModuleView) -> bool {
    &&& w.auction_bids == v.auction_bids
    &&& forall|a: AuctionId| #[trigger] live(v, a) == live(w, a)
}

/// Equal shares below `n` add up to equal sums.
proof fn lemma_shares_frame(v: ModuleView, w: ModuleView, who: AccountId, n: nat)
    requires
        n <= u32::MAX + 1,
        forall|a: AuctionId| (a as nat) < n ==> #[trigger] lock_share(v, a, who) == lock_share(w, a, who),
    ensures
        shares_below(v, who, n) == shares_below(w, who, n),
    decreases n,
{
    if n > 0 {
        lemma_shares_frame(v, w, who, (n - 1) as nat);
        assert(lock_share(v, (n - 1) as AuctionId, who) == lock_share(w, (n - 1) as AuctionId, who));
    }
}

/// Where only the share in auction `a0` changes, the sum changes by as much.
proof fn lemma_shares_change(v: ModuleView, w: ModuleView, who: AccountId, n: nat, a0: AuctionId)
    requires
        n <= u32::MAX + 1,
        (a0 as nat) < n,
        forall|a: AuctionId| (a as nat) < n && a != a0 ==> #[trigger] lock_share(v, a, who) == lock_share(w, a, who),
    ensures
        shares_below(w, who, n) == shares_below(v, who, n) - lock_share(v, a0, who) + lock_share(w, a0, who),
    decreases n,
{
    let last = (n - 1) as AuctionId;
    if last == a0 {
        lemma_shares_frame(v, w, who, (n - 1) as nat);
    } else {
        lemma_shares_change(v, w, who, (n - 1) as nat, a0);
        assert(lock_share(v, last, who) == lock_share(w, last, who));
    }
}

/// One share is at most the sum of the shares.
proof fn lemma_share_within_total(v: ModuleView, who: AccountId, n: nat, a0: AuctionId)
    requires
        n <= u32::MAX + 1,
        (a0 as nat) < n,
    ensures
        lock_share(v, a0, who) <= shares_below(v, who, n),
    decreases n,
{
    lemma_shares_nonnegative(v, who, (n - 1) as nat);
    if (n - 1) as AuctionId != a0 {
        lemma_share_within_total(v, who, (n - 1) as nat, a0);
    }
}

/// The sum of the shares is never negative.
proof fn lemma_shares_nonnegative(v: ModuleView, who: AccountId, n: nat)
    ensures
        shares_below(v, who, n) >= 0,
    decreases n,
{
    if n > 0 {
        lemma_shares_nonnegative(v, who, (n - 1) as nat);
    }
}

/// Where every share, the total locks and the next identifier stay, the locks
/// stay balanced.
proof fn lemma_balanced_frame_shares(v: ModuleView, w: ModuleView)
    requires
        locks_balanced(v),
        forall|a: AuctionId, who: AccountId| #[trigger] lock_share(w, a, who) == lock_share(v, a, who),
        w.account_locks == v.account_locks,
        w.next_auction_id == v.next_auction_id,
    ensures
        locks_balanced(w),
{
    assert forall|who: AccountId| #[trigger] w.lock_of(who) == shares_below(w, who, w.next_auction_id as nat) by {
        assert forall|a: AuctionId| (a as nat) < v.next_auction_id as nat
            implies #[trigger] lock_share(v, a, who) == lock_share(w, a, who) by {
            assert(lock_share(w, a, who) == lock_share(v, a, who));
        }
        lemma_shares_frame(v, w, who, v.next_auction_id as nat);
        assert(v.lock_of(who) == shares_below(v, who, v.next_auction_id as nat));
    }
}

/// Where the bids, the auctions that hold them, the total locks and the next
/// identifier stay, the locks stay balanced.
proof fn lemma_balanced_frame(v: ModuleView, w: ModuleView)
    requires
        locks_balanced(v),
        same_shares(v, w),
        w.account_locks == v.account_locks,
        w.next_auction_id == v.next_auction_id,
    ensures
        locks_balanced(w),
{
    assert forall|a: AuctionId, who: AccountId| #[trigger] lock_share(w, a, who) == lock_share(v, a, who) by {
        assert(live(v, a) == live(w, a));
    }
    lemma_balanced_frame_shares(v, w);
}

/// At genesis nothing is locked, and the locks are balanced.
pub proof fn law_genesis_balanced()
    ensures
        locks_balanced(Module::new_view()),
        bids_positive(Module::new_view()),
        wf(Module::new_view()),
{
}

/// Creating an auction keeps the locks balanced.
pub proof fn law_create_keeps_locks_balanced(
    v: ModuleView,
    owner: AccountId,
    begin_price: Balance,
    minimum_step: Balance,
    upper_bound_price: Option<Balance>,
)
    requires
        wf(v),
        locks_balanced(v),
    ensures
        locks_balanced(create_outcome(v, owner, begin_price, minimum_step, upper_bound_price).0),
{
    let r = create_outcome(v, owner, begin_price, minimum_step, upper_bound_price);
    if r.1 is Ok {
        let w = r.0;
        let n = v.next_auction_id;
        assert forall|who: AccountId| #[trigger] w.lock_of(who) == shares_below(w, who, w.next_auction_id as nat) by {
            assert forall|a: AuctionId| (a as nat) < n as nat implies #[trigger] lock_share(v, a, who) == lock_share(w, a, who) by {
                assert(a != n);
            }
            lemma_shares_frame(v, w, who, n as nat);
            assert(!v.auction_bids.contains_key((n, who)));
            assert(lock_share(w, n, who) == 0);
            assert(shares_below(w, who, (n + 1) as nat) == shares_below(w, who, n as nat) + lock_share(w, n, who));
            assert(v.lock_of(who) == shares_below(v, who, n as nat));
        }
    }
}

/// Adding an item keeps the locks balanced.
pub proof fn law_add_item_keeps_locks_balanced(v: ModuleView, sender: AccountId, id: AuctionId, item: ItemId, is_item_owner: bool)
    requires
        locks_balanced(v),
    ensures
        locks_balanced(add_item_outcome(v, sender, id, item, is_item_owner).0),
{
    lemma_balanced_frame(v, add_item_outcome(v, sender, id, item, is_item_owner).0);
}

/// Setting moments keeps the locks balanced.
pub proof fn law_setup_moments_keeps_locks_balanced(
    v: ModuleView,
    owner: AccountId,
    id: AuctionId,
    start_at: Option<Moment>,
    stop_at: Option<Moment>,
    wait_period: Option<Moment>,
)
    requires
        locks_balanced(v),
    ensures
        locks_balanced(setup_moments_outcome(v, owner, id, start_at, stop_at, wait_period).0),
{
    lemma_balanced_frame(v, setup_moments_outcome(v, owner, id, start_at, stop_at, wait_period).0);
}

/// Pausing and resuming keep the locks balanced.
pub proof fn law_pause_resume_keep_locks_balanced(v: ModuleView, owner: AccountId, id: AuctionId, from: AuctionStatus, to: AuctionStatus)
    requires
        locks_balanced(v),
        from != AuctionStatus::Stopped,
        to != AuctionStatus::Stopped,
    ensures
        locks_balanced(status_move_outcome(v, owner, id, from, to).0),
{
    lemma_balanced_frame(v, status_move_outcome(v, owner, id, from, to).0);
}

/// An accepted bid keeps the locks balanced, and a bid above zero keeps the
/// bids above zero.
pub proof fn law_bid_keeps_locks_balanced(v: ModuleView, who: AccountId, id: AuctionId, price: Balance, free_balance: Balance, now: Moment)
    requires
        wf(v),
        locks_balanced(v),
    ensures
        locks_balanced(participate_outcome(v, who, id, price, free_balance, now).0),
        bids_positive(v) && price > 0 ==> bids_positive(participate_outcome(v, who, id, price, free_balance, now).0),
{
    let r = participate_outcome(v, who, id, price, free_balance, now);
    if r.1 is Ok {
        let w = r.0;
        let n = v.next_auction_id as nat;
        assert(v.auctions.contains_key(id));
        assert forall|x: AccountId| #[trigger] w.lock_of(x) == shares_below(w, x, w.next_auction_id as nat) by {
            assert(v.lock_of(x) == shares_below(v, x, n));
            if x == who {
                assert forall|a: AuctionId| (a as nat) < n && a != id implies #[trigger] lock_share(v, a, x) == lock_share(w, a, x) by {
                }
                lemma_shares_change(v, w, x, n, id);
            } else {
                assert forall|a: AuctionId| (a as nat) < n implies #[trigger] lock_share(v, a, x) == lock_share(w, a, x) by {
                }
                lemma_shares_frame(v, w, x, n);
            }
        }
    }
}

/// The off-chain worker's start keeps the locks balanced.
pub proof fn law_start_keeps_locks_balanced(v: ModuleView, ids: Seq<AuctionId>, key_found: bool, signature_valid: bool)
    requires
        locks_balanced(v),
    ensures
        locks_balanced(start_passive_outcome(v, ids, key_found, signature_valid).0),
{
    let r = start_passive_outcome(v, ids, key_found, signature_valid);
    if r.1 is Ok {
        assert forall|i: int| 0 <= i < ids.len() implies #[trigger] v.auctions.contains_key(ids[i])
            && v.auctions[ids[i]].status != AuctionStatus::Stopped by {
            assert(has_status(v, ids[i], AuctionStatus::PendingStart, false));
        }
        lemma_start_all_shares(v, ids);
        lemma_balanced_frame(v, r.0);
    }
}

/// Starting auctions that are not stopped changes no share.
proof fn lemma_start_all_shares(v: ModuleView, ids: Seq<AuctionId>)
    requires
        forall|i: int| 0 <= i < ids.len() ==> #[trigger] v.auctions.contains_key(ids[i])
            && v.auctions[ids[i]].status != AuctionStatus::Stopped,
    ensures
        same_shares(v, start_all(v, ids)),
        start_all(v, ids).account_locks == v.account_locks,
        start_all(v, ids).next_auction_id == v.next_auction_id,
    decreases ids.len(),
{
    if ids.len() > 0 {
        let prev = ids.drop_last();
        assert forall|i: int| 0 <= i < prev.len() implies #[trigger] v.auctions.contains_key(prev[i])
            && v.auctions[prev[i]].status != AuctionStatus::Stopped by {
            assert(prev[i] == ids[i]);
            assert(v.auctions.contains_key(ids[i]));
        }
        lemma_start_all_shares(v, prev);
        let p = start_all(v, prev);
        let last = ids.last();
        assert(v.auctions.contains_key(ids[ids.len() - 1]));
        let w = start_all(v, ids);
        assert forall|a: AuctionId| #[trigger] live(v, a) == live(w, a) by {
            assert(live(v, a) == live(p, a));
        }
    }
}


/// Where each of `ps` that has a bid in auction `a` has a total lock that
/// covers it, every lock in the way can be released.
proof fn lemma_unlock_check_ok(v: ModuleView, a: AuctionId, ps: Seq<AccountId>)
    requires
        forall|p: AccountId| #[trigger] ps.contains(p) && v.auction_bids.contains_key((a, p))
            ==> v.account_locks.contains_key(p) && v.account_locks[p] >= v.auction_bids[(a, p)],
    ensures
        unlock_check(v, a, ps) is Ok,
    decreases ps.len(),
{
    if ps.len() > 0 {
        assert(ps.contains(ps[0]));
        assert(unlock_precheck(v, a, ps[0]) is Ok);
        let rest = ps.drop_first();
        assert forall|p: AccountId| #[trigger] rest.contains(p) && v.auction_bids.contains_key((a, p))
            implies v.account_locks.contains_key(p) && v.account_locks[p] >= v.auction_bids[(a, p)] by {
            let k = choose|k: int| 0 <= k < rest.len() && rest[k] == p;
            assert(ps[k + 1] == p);
            assert(ps.contains(p));
        }
        lemma_unlock_check_ok(v, a, rest);
    }
}

/// In balanced locks with bids above zero, every lock in an auction that is
/// not stopped can be released.
proof fn lemma_balanced_release_allowed(v: ModuleView, id: AuctionId)
    requires
        wf(v),
        locks_balanced(v),
        bids_positive(v),
        live(v, id),
    ensures
        unlock_check(v, id, v.participants_of(id)) is Ok,
        v.auctions.contains_key(id),
        id < v.next_auction_id,
{
    let n = v.next_auction_id as nat;
    let ps = v.participants_of(id);
    assert forall|p: AccountId| #[trigger] ps.contains(p) && v.auction_bids.contains_key((id, p))
        implies v.account_locks.contains_key(p) && v.account_locks[p] >= v.auction_bids[(id, p)] by {
        lemma_share_within_total(v, p, n, id);
        assert(lock_share(v, id, p) == v.bid_of(id, p));
        assert(v.lock_of(p) == shares_below(v, p, n));
        assert(v.auction_bids[(id, p)] > 0);
    }
    lemma_unlock_check_ok(v, id, ps);
}

/// Releasing the locks of an auction that was not stopped, where it is
/// stopped afterwards and nothing else changes the shares, keeps the locks
/// balanced.
proof fn lemma_release_balanced(v: ModuleView, id: AuctionId, w: ModuleView)
    requires
        wf(v),
        locks_balanced(v),
        bids_positive(v),
        live(v, id),
        w.account_locks == released(v, id).0.account_locks,
        w.auction_bids == v.auction_bids,
        w.next_auction_id == v.next_auction_id,
        !live(w, id),
        forall|b: AuctionId| b != id ==> #[trigger] live(w, b) == live(v, b),
    ensures
        unlock_check(v, id, v.participants_of(id)) is Ok,
        locks_balanced(w),
{
    lemma_balanced_release_allowed(v, id);
    law_settle_releases_locks(v, id);
    let ps = v.participants_of(id);
    let r = released(v, id).0;
    let n = v.next_auction_id as nat;
    assert forall|x: AccountId| #[trigger] w.lock_of(x) == shares_below(w, x, w.next_auction_id as nat) by {
        assert forall|b: AuctionId| (b as nat) < n && b != id implies #[trigger] lock_share(v, b, x) == lock_share(w, b, x) by {
            assert(live(w, b) == live(v, b));
        }
        lemma_shares_change(v, w, x, n, id);
        assert(lock_share(w, id, x) == 0);
        assert(lock_share(v, id, x) == v.bid_of(id, x));
        assert(v.lock_of(x) == shares_below(v, x, n));
        assert(w.lock_of(x) == r.lock_of(x));
        if !ps.contains(x) {
            assert(!v.auction_bids.contains_key((id, x)));
            assert(r.lock_of(x) == v.lock_of(x));
        } else {
            assert(r.lock_of(x) == v.lock_of(x) - v.bid_of(id, x));
        }
    }
}

/// Marking a stored auction stopped, where it has no bid, keeps the locks
/// balanced.
proof fn lemma_stop_without_bids_balanced(v: ModuleView, id: AuctionId, from: AuctionStatus)
    requires
        wf(v),
        locks_balanced(v),
        forall|x: AccountId| !(#[trigger] v.auction_bids.contains_key((id, x))),
    ensures
        locks_balanced(stop_marked(v, id, from)),
        locks_balanced(stopped(v, id, from)),
{
    let c = stop_marked(v, id, from);
    let w = stopped(v, id, from);
    assert forall|a: AuctionId, who: AccountId| #[trigger] lock_share(c, a, who) == lock_share(v, a, who) by {
        if a != id {
            assert(live(c, a) == live(v, a));
        }
    }
    lemma_balanced_frame_shares(v, c);
    assert forall|a: AuctionId, who: AccountId| #[trigger] lock_share(w, a, who) == lock_share(c, a, who) by {
        assert(live(c, a) == live(w, a));
    }
    lemma_balanced_frame_shares(c, w);
}

/// Settling a started auction keeps the locks balanced where the bids are
/// above zero: every lock in it can be released, and the released amounts
/// are exactly its shares.
proof fn lemma_settled_balanced(v: ModuleView, a: Auction, q: Option<Payout>)
    requires
        wf(v),
        locks_balanced(v),
        bids_positive(v),
        v.auctions.contains_key(a.id),
        v.auctions[a.id].status != AuctionStatus::Stopped,
    ensures
        unlock_check(v, a.id, v.participants_of(a.id)) is Ok,
        locks_balanced(settled(v, a, q).0),
        settled(v, a, q).0.auction_bids == v.auction_bids,
{
    lemma_balanced_release_allowed(v, a.id);
    lemma_released_wf(v, a.id);
    let r = released(v, a.id).0;
    let w = settled(v, a, q).0;
    assert forall|b: AuctionId| b != a.id implies #[trigger] live(w, b) == live(v, b) by {
        assert(live(r, b) == live(v, b));
    }
    lemma_release_balanced(v, a.id, w);
}

/// The owner's stop keeps the locks balanced where the bids are above zero:
/// a started auction's locks can always be released, so the stop is refused
/// only by the checks on the auction.
pub proof fn law_owner_stop_keeps_locks_balanced(v: ModuleView, owner: AccountId, id: AuctionId)
    requires
        wf(v),
        locks_balanced(v),
        bids_positive(v),
    ensures
        ({
            let r = stop_outcome(v, owner, id);
            &&& r.1 is Err ==> r.0 == v && (check_auction(v, id, None, Some(owner)) is Err
                || v.auctions[id].status == AuctionStatus::Stopped)
            &&& locks_balanced(r.0)
            &&& bids_positive(r.0)
        }),
{
    match check_auction(v, id, None, Some(owner)) {
        Err(_) => {},
        Ok(a) => {
            if a.status == AuctionStatus::Stopped {
            } else if a.status == AuctionStatus::PendingStart {
                assert(bids_led_by_latest(v, id));
                lemma_stop_without_bids_balanced(v, id, a.status);
            } else {
                assert(a.id == id);
                lemma_balanced_release_allowed(v, id);
                let q = settle_check(v, a)->Ok_0;
                lemma_settled_balanced(v, a, q);
                let s = settled(v, a, q).0;
                lemma_balanced_frame(s, stop_outcome(v, owner, id).0);
            }
        },
    }
}

/// Completing a settlement, and giving it up, keep the locks balanced: the
/// locks were released when the auction stopped.
pub proof fn law_complete_settlement_keeps_locks_balanced(
    v: ModuleView,
    owner: AccountId,
    p: Payout,
    payment: Result<(), &'static str>,
    item_transfer: Result<(), &'static str>,
)
    requires
        locks_balanced(v),
    ensures
        complete_settlement_check(v, p, payment) matches Ok(a)
            ==> locks_balanced(complete_settlement_outcome(v, a, item_transfer).0),
        locks_balanced(cancel_outcome(v, owner, p.auction_id).0),
{
    if complete_settlement_check(v, p, payment) is Ok {
        let a = complete_settlement_check(v, p, payment)->Ok_0;
        lemma_balanced_frame(v, complete_settlement_outcome(v, a, item_transfer).0);
    }
    lemma_balanced_frame(v, cancel_outcome(v, owner, p.auction_id).0);
}

/// The off-chain worker's stop of one auction keeps the locks balanced where
/// the bids are above zero, and changes no bid.
proof fn lemma_passive_stop_one_balanced(v: ModuleView, id: AuctionId)
    requires
        wf(v),
        locks_balanced(v),
        bids_positive(v),
    ensures
        locks_balanced(passive_stop_one(v, id).0),
        passive_stop_one(v, id).0.auction_bids == v.auction_bids,
{
    let w = passive_stop_one(v, id).0;
    if v.auctions.contains_key(id) {
        let a = v.auctions[id];
        if a.status == AuctionStatus::Stopped {
            lemma_balanced_frame(v, w);
        } else if a.status == AuctionStatus::PendingStart {
            assert(bids_led_by_latest(v, id));
            lemma_stop_without_bids_balanced(v, id, a.status);
        } else {
            assert(a.id == id);
            lemma_balanced_release_allowed(v, id);
            lemma_settled_balanced(v, a, settle_check(v, a)->Ok_0);
        }
    }
}

/// The off-chain worker's stop of each of `ids` in turn keeps the invariant
/// and the locks balanced, and changes no bid.
proof fn lemma_passive_stop_all_balanced(v: ModuleView, ids: Seq<AuctionId>)
    requires
        wf(v),
        locks_balanced(v),
        bids_positive(v),
    ensures
        wf(passive_stop_all(v, ids).0),
        locks_balanced(passive_stop_all(v, ids).0),
        passive_stop_all(v, ids).0.auction_bids == v.auction_bids,
    decreases ids.len(),
{
    if ids.len() > 0 {
        let prev = ids.drop_last();
        lemma_passive_stop_all_balanced(v, prev);
        let p = passive_stop_all(v, prev).0;
        lemma_passive_stop_one_wf(p, ids.last());
        lemma_passive_stop_one_balanced(p, ids.last());
    }
}

/// The off-chain worker's stop keeps the locks balanced where the bids are
/// above zero.
pub proof fn law_passive_stop_keeps_locks_balanced(v: ModuleView, ids: Seq<AuctionId>, key_found: bool, signature_valid: bool)
    requires
        wf(v),
        locks_balanced(v),
        bids_positive(v),
    ensures
        locks_balanced(stop_passive_outcome(v, ids, key_found, signature_valid).0),
        bids_positive(stop_passive_outcome(v, ids, key_found, signature_valid).0),
{
    let r = stop_passive_outcome(v, ids, key_found, signature_valid);
    if r.1 is Ok {
        lemma_passive_stop_all_balanced(v, ids);
        let s = passive_stop_all(v, ids).0;
        assert forall|b: AuctionId| #[trigger] live(s, b) == live(r.0, b) by {}
        lemma_balanced_frame(s, r.0);
    }
}

} // verus!
