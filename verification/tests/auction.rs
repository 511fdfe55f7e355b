use auction::mock::{new_test_ext, next_block, SomeItemModule, Test};
use auction::id_set::{add_all, remove_all};
use auction::offchain::{signing_payload, InvalidTransaction, UnsignedCall};
use auction::pallet::Settlement;
use auction::storage::Module;
use auction::traits::{ItemTransfer, Trait};
use auction::types::{AccountId, AuctionStatus, AuthorityId, Error, Event, ItemId, LockOp, Payout};

const KEY: AuthorityId = [7u8; 32];

/// An item module that refuses everything.
struct NoItems;

impl ItemTransfer<AccountId, ItemId> for NoItems {
    fn is_item_owner(_who: &AccountId, _item_id: ItemId) -> bool {
        false
    }
    fn transfer_item(_source: &AccountId, _dest: &AccountId, _item_id: ItemId) -> Result<(), &'static str> {
        Err("item is locked")
    }
}

struct Strict;

impl Trait for Strict {
    type AuctionTransfer = NoItems;
}

/// Auction 0 of owner 1, with item 7, started by the off-chain worker.
fn active_auction(step: u64, upper: Option<u64>) -> Module {
    let mut m = Module::new();
    assert_eq!(m.create_auction(1, 0, step, upper), Ok(0));
    assert_eq!(m.add_item::<Test>(1, 0, 7), Ok(()));
    assert_eq!(m.setup_moments(1, 0, Some(10), Some(100), None), Ok(()));
    assert_eq!(m.start_auctions_passive(&vec![0], Some(KEY), true), Ok(()));
    m
}

#[test]
fn it_works_for_create_auction() {
    let mut ext = new_test_ext();
    assert!(ext.auctions.create_auction(1, 100, 1, None).is_ok());
    assert_eq!(ext.auctions.next_auction_id(), 1);
}

#[test]
fn it_works_for_tmp() {
    let mut ext = new_test_ext();
    next_block(&mut ext.system);
}

#[test]
fn next_block_counts_blocks() {
    let mut ext = new_test_ext();
    assert_eq!(ext.system.block_number(), 0);
    next_block(&mut ext.system);
    next_block(&mut ext.system);
    assert_eq!(ext.system.block_number(), 2);
}

#[test]
fn create_auction_gives_fresh_pending_auctions() {
    let mut m = Module::new();
    assert_eq!(m.create_auction(1, 100, 5, Some(900)), Ok(0));
    assert_eq!(m.create_auction(2, 50, 1, None), Ok(1));
    assert_eq!(m.next_auction_id(), 2);
    let a = m.auctions(0).unwrap();
    assert_eq!(a.id, 0);
    assert_eq!(a.owner, 1);
    assert_eq!(a.begin_price, 100);
    assert_eq!(a.minimum_step, 5);
    assert_eq!(a.upper_bound_price, Some(900));
    assert_eq!(a.item, None);
    assert_eq!(a.latest_participate, None);
    assert_eq!(a.status, AuctionStatus::PendingStart);
    assert_eq!(m.auctions(1).unwrap().owner, 2);
    assert_eq!(m.auctions(2), None);
}

#[test]
fn add_item_needs_item_owner_and_auction_owner() {
    let mut m = Module::new();
    m.create_auction(1, 100, 1, None).unwrap();
    assert_eq!(m.add_item::<Strict>(1, 0, 7), Err(Error::NotItemOwner));
    assert_eq!(m.add_item::<Test>(2, 0, 7), Err(Error::NotOwner));
    assert_eq!(m.add_item::<Test>(1, 5, 7), Err(Error::AuctionNotExist));
    assert_eq!(m.auctions(0).unwrap().item, None);
    assert_eq!(m.do_add_item(1, 0, 7, false), Err(Error::NotItemOwner));
    assert_eq!(m.do_add_item(1, 0, 7, true), Ok(()));
    assert_eq!(m.auctions(0).unwrap().item, Some(7));
}

#[test]
fn add_item_again_replaces_the_item() {
    let mut m = Module::new();
    m.create_auction(1, 100, 1, None).unwrap();
    assert_eq!(m.add_item::<Test>(1, 0, 7), Ok(()));
    assert_eq!(m.add_item::<Test>(1, 0, 8), Ok(()));
    assert_eq!(m.auctions(0).unwrap().item, Some(8));
}

#[test]
fn add_item_only_while_pending() {
    let mut m = active_auction(1, None);
    assert_eq!(
        m.add_item::<Test>(1, 0, 9),
        Err(Error::WrongStatus(AuctionStatus::PendingStart))
    );
    assert_eq!(m.auctions(0).unwrap().item, Some(7));
}

#[test]
fn setup_moments_keeps_stored_moments_and_pending_set() {
    let mut m = Module::new();
    m.create_auction(1, 100, 1, None).unwrap();
    assert_eq!(m.setup_moments(1, 0, Some(10), None, Some(3)), Ok(()));
    assert_eq!(m.setup_moments(1, 0, None, Some(50), None), Ok(()));
    let a = m.auctions(0).unwrap();
    assert_eq!(a.start_at, Some(10));
    assert_eq!(a.stop_at, Some(50));
    assert_eq!(a.wait_period, Some(3));
    assert_eq!(m.pending_auctions(), vec![0]);
    assert_eq!(m.setup_moments(2, 0, None, None, None), Err(Error::NotOwner));
}

#[test]
fn start_passive_moves_auctions_to_active() {
    let mut m = Module::new();
    for _ in 0..3 {
        m.create_auction(1, 100, 1, None).unwrap();
    }
    m.setup_moments(1, 0, Some(10), None, None).unwrap();
    m.setup_moments(1, 1, Some(10), None, None).unwrap();
    m.setup_moments(1, 2, Some(10), None, None).unwrap();
    assert_eq!(m.pending_auctions(), vec![0, 1, 2]);
    assert_eq!(m.start_auctions_passive(&vec![2, 0], Some(KEY), true), Ok(()));
    assert_eq!(m.pending_auctions(), vec![1]);
    assert_eq!(m.active_auctions(), vec![2, 0]);
    assert_eq!(m.auctions(0).unwrap().status, AuctionStatus::Active);
    assert_eq!(m.auctions(1).unwrap().status, AuctionStatus::PendingStart);
    assert_eq!(m.auctions(2).unwrap().status, AuctionStatus::Active);
    let events = m.events();
    assert_eq!(
        events,
        vec![
            Event::AuctionUpdated(2, AuctionStatus::PendingStart, AuctionStatus::Active),
            Event::AuctionUpdated(0, AuctionStatus::PendingStart, AuctionStatus::Active),
        ]
    );
}

#[test]
fn start_passive_refusals() {
    let mut m = Module::new();
    m.create_auction(1, 100, 1, None).unwrap();
    assert_eq!(m.start_auctions_passive(&vec![0, 4], Some(KEY), true), Err(Error::NotAllPendingStart));
    assert_eq!(m.start_auctions_passive(&vec![0], None, true), Err(Error::NoAuthorityKey));
    assert_eq!(m.start_auctions_passive(&vec![0], Some(KEY), false), Err(Error::InvalidSignature));
    assert_eq!(m.auctions(0).unwrap().status, AuctionStatus::PendingStart);
    assert_eq!(m.start_auctions_passive(&vec![0], Some(KEY), true), Ok(()));
    assert_eq!(m.start_auctions_passive(&vec![0], Some(KEY), true), Err(Error::NotAllPendingStart));
}

#[test]
fn pause_and_resume() {
    let mut m = active_auction(1, None);
    assert_eq!(m.resume_auction(1, 0), Err(Error::WrongStatus(AuctionStatus::Paused)));
    assert_eq!(m.pause_auction(2, 0), Err(Error::NotOwner));
    assert_eq!(m.pause_auction(1, 0), Ok(()));
    assert_eq!(m.auctions(0).unwrap().status, AuctionStatus::Paused);
    assert_eq!(m.pause_auction(1, 0), Err(Error::WrongStatus(AuctionStatus::Active)));
    assert_eq!(m.participate_auction(2, 0, 50, 1000, 11), Err(Error::WrongStatus(AuctionStatus::Active)));
    assert_eq!(m.resume_auction(1, 0), Ok(()));
    assert_eq!(m.auctions(0).unwrap().status, AuctionStatus::Active);
    assert_eq!(m.pause_auction(1, 9), Err(Error::AuctionNotExist));
}

#[test]
fn bids_lock_the_difference() {
    let mut m = active_auction(1, None);
    assert_eq!(m.participate_auction(2, 0, 50, 1000, 11), Ok(LockOp::Extend { who: 2, amount: 50 }));
    assert_eq!(m.participate_auction(3, 0, 60, 1000, 12), Ok(LockOp::Extend { who: 3, amount: 60 }));
    assert_eq!(m.participate_auction(2, 0, 70, 1000, 13), Ok(LockOp::Extend { who: 2, amount: 70 }));
    assert_eq!(m.auction_bids(0, 2), 70);
    assert_eq!(m.auction_bids(0, 3), 60);
    assert_eq!(m.account_locks(2), 70);
    assert_eq!(m.account_locks(3), 60);
    assert_eq!(m.auctions(0).unwrap().latest_participate, Some((2, 13)));
    assert_eq!(m.auction_participants(0), Some(vec![2, 3]));
    assert_eq!(m.events().last(), Some(&Event::BidderUpdated(0, 2, 70, 0)));
}

#[test]
fn total_lock_spans_auctions() {
    let mut m = active_auction(1, None);
    m.create_auction(4, 0, 1, None).unwrap();
    m.setup_moments(4, 1, Some(1), None, None).unwrap();
    m.start_auctions_passive(&vec![1], Some(KEY), true).unwrap();
    assert_eq!(m.participate_auction(2, 0, 50, 1000, 11), Ok(LockOp::Extend { who: 2, amount: 50 }));
    assert_eq!(m.participate_auction(2, 1, 30, 1000, 11), Ok(LockOp::Extend { who: 2, amount: 80 }));
    assert_eq!(m.account_locks(2), 80);
    assert_eq!(m.auction_bids(0, 2), 50);
    assert_eq!(m.auction_bids(1, 2), 30);
}

#[test]
fn bid_refusals_change_nothing() {
    let mut m = active_auction(10, None);
    assert_eq!(m.participate_auction(2, 0, 50, 1000, 11), Ok(LockOp::Extend { who: 2, amount: 50 }));
    let before = (m.account_locks(3), m.auction_bids(0, 3), m.events().len());
    assert_eq!(m.participate_auction(3, 0, 60, 1000, 12), Err(Error::BidTooLow));
    assert_eq!(m.participate_auction(3, 0, 61, 61, 12), Err(Error::InsufficientBalance));
    assert_eq!(m.participate_auction(3, 5, 61, 1000, 12), Err(Error::AuctionNotExist));
    assert_eq!((m.account_locks(3), m.auction_bids(0, 3), m.events().len()), before);
    assert_eq!(m.auctions(0).unwrap().latest_participate, Some((2, 11)));
    assert_eq!(m.participate_auction(3, 0, 61, 62, 12), Ok(LockOp::Extend { who: 3, amount: 61 }));
}

#[test]
fn first_bid_must_reach_begin_price() {
    let mut m = Module::new();
    m.create_auction(1, 100, 10, None).unwrap();
    m.setup_moments(1, 0, Some(1), None, None).unwrap();
    m.start_auctions_passive(&vec![0], Some(KEY), true).unwrap();
    assert_eq!(m.participate_auction(2, 0, 99, 1000, 11), Err(Error::BelowBeginPrice));
    assert!(!m.auction_bid_exists(0, 2));
    assert_eq!(m.auctions(0).unwrap().latest_participate, None);
    assert_eq!(Error::BelowBeginPrice.message(), "Bid price less than begin price.");
    assert_eq!(m.participate_auction(2, 0, 100, 1000, 11), Ok(LockOp::Extend { who: 2, amount: 100 }));
    // later bids go by the minimum step
    assert_eq!(m.participate_auction(3, 0, 110, 1000, 12), Err(Error::BidTooLow));
    assert_eq!(m.participate_auction(3, 0, 111, 1000, 12), Ok(LockOp::Extend { who: 3, amount: 111 }));
}

#[test]
fn total_lock_overflow_is_refused() {
    let mut m = active_auction(1, None);
    m.create_auction(4, 0, 1, None).unwrap();
    m.setup_moments(4, 1, Some(1), None, None).unwrap();
    m.start_auctions_passive(&vec![1], Some(KEY), true).unwrap();
    let big = u64::MAX - 5;
    assert_eq!(m.participate_auction(2, 0, big, u64::MAX, 11), Ok(LockOp::Extend { who: 2, amount: big }));
    assert_eq!(m.participate_auction(2, 1, 10, 1000, 11), Err(Error::BalanceAddOverflow));
    assert_eq!(m.account_locks(2), big);
    assert!(!m.auction_bid_exists(1, 2));
}

#[test]
fn owner_stop_releases_locks_then_awaits_payment() {
    let mut m = active_auction(1, None);
    m.participate_auction(2, 0, 50, 1000, 11).unwrap();
    m.participate_auction(3, 0, 60, 1000, 12).unwrap();
    m.participate_auction(2, 0, 70, 1000, 13).unwrap();
    assert_eq!(m.stop_auction(3, 0), Err(Error::NotOwner));
    let payout = Payout { auction_id: 0, owner: 1, winner: 2, item: 7, value: 69, fee: 1 };
    assert_eq!(
        m.stop_auction(1, 0),
        Ok((vec![LockOp::Remove { who: 2 }, LockOp::Remove { who: 3 }], Some(payout)))
    );
    // every lock is released before the winner is asked to pay
    assert_eq!(m.account_locks(2), 0);
    assert_eq!(m.account_locks(3), 0);
    assert!(!m.account_lock_exists(2));
    assert_eq!(m.auction_bids(0, 2), 70);
    assert_eq!(m.auctions(0).unwrap().status, AuctionStatus::Stopped);
    assert_eq!(m.active_auctions(), Vec::<u32>::new());
    assert_eq!(
        m.events().last(),
        Some(&Event::AuctionUpdated(0, AuctionStatus::Active, AuctionStatus::Stopped))
    );
    assert_eq!(m.unsettled_auctions(), vec![0]);
    assert_eq!(m.pending_payout(0), Some(payout));
    // the item stays with the auction until it is handed over
    assert_eq!(m.auction_items(7), Some(0));
    assert_eq!(m.complete_settlement::<Test>(&payout, Ok(())), Ok(()));
    assert_eq!(m.unsettled_auctions(), Vec::<u32>::new());
    assert_eq!(m.pending_payout(0), None);
    assert_eq!(m.auction_items(7), None);
    assert_eq!(m.stop_auction(1, 0), Err(Error::CannotStop));
    assert_eq!(m.complete_settlement::<Test>(&payout, Ok(())), Err(Error::NoSettlementPending));
    assert_eq!(m.pause_auction(1, 0), Err(Error::WrongStatus(AuctionStatus::Active)));
    assert_eq!(m.auctions(0).unwrap().status, AuctionStatus::Stopped);
}

#[test]
fn failed_payment_or_transfer_changes_nothing() {
    let mut m = active_auction(1, None);
    m.participate_auction(2, 0, 50, 1000, 11).unwrap();
    let (ops, payout) = m.stop_auction(1, 0).unwrap();
    assert_eq!(ops, vec![LockOp::Remove { who: 2 }]);
    let payout = payout.unwrap();
    assert_eq!(payout.value, 49);
    assert_eq!(payout.fee, 1);
    let events = m.events().len();
    assert_eq!(
        m.complete_settlement::<Test>(&payout, Err("insufficient funds")),
        Err(Error::PaymentFailed("insufficient funds"))
    );
    assert_eq!(m.unsettled_auctions(), vec![0]);
    assert_eq!(
        m.complete_settlement::<Strict>(&payout, Ok(())),
        Err(Error::ItemTransferFailed("item is locked"))
    );
    assert_eq!(m.unsettled_auctions(), vec![0]);
    assert_eq!(m.auction_items(7), Some(0));
    assert_eq!(m.events().len(), events);
    // a payout that the auction does not owe is refused
    let stale = Payout { value: 48, ..payout };
    assert_eq!(m.complete_settlement::<Test>(&stale, Ok(())), Err(Error::NoSettlementPending));
    let missing = Payout { auction_id: 9, ..payout };
    assert_eq!(m.complete_settlement::<Test>(&missing, Ok(())), Err(Error::NoSettlementPending));
    assert_eq!(m.complete_settlement::<Test>(&payout, Ok(())), Ok(()));
    assert_eq!(m.unsettled_auctions(), Vec::<u32>::new());
    assert_eq!(Error::PaymentFailed("insufficient funds").message(), "insufficient funds");
}

#[test]
fn owner_can_give_up_a_pending_settlement() {
    let mut m = active_auction(1, None);
    m.participate_auction(2, 0, 50, 1000, 11).unwrap();
    let (_, payout) = m.stop_auction(1, 0).unwrap();
    let payout = payout.unwrap();
    assert_eq!(m.cancel_settlement(2, 0), Err(Error::NotOwner));
    assert_eq!(m.cancel_settlement(1, 4), Err(Error::AuctionNotExist));
    assert_eq!(m.unsettled_auctions(), vec![0]);
    assert_eq!(m.cancel_settlement(1, 0), Ok(()));
    assert_eq!(m.unsettled_auctions(), Vec::<u32>::new());
    assert_eq!(m.auction_items(7), None);
    assert_eq!(m.cancel_settlement(1, 0), Err(Error::NoSettlementPending));
    assert_eq!(m.complete_settlement::<Test>(&payout, Ok(())), Err(Error::NoSettlementPending));
    // the item can go into a new auction
    m.create_auction(1, 0, 1, None).unwrap();
    assert_eq!(m.add_item::<Test>(1, 1, 7), Ok(()));
}

#[test]
fn stop_without_winner_or_before_start() {
    let mut m = Module::new();
    m.create_auction(1, 100, 1, None).unwrap();
    assert_eq!(m.stop_auction(1, 0), Ok((vec![], None)));
    assert_eq!(m.auctions(0).unwrap().status, AuctionStatus::Stopped);

    let mut m = active_auction(1, None);
    assert_eq!(m.stop_auction(1, 0), Ok((vec![], None)));
    assert_eq!(m.auctions(0).unwrap().status, AuctionStatus::Stopped);
    assert_eq!(m.active_auctions(), Vec::<u32>::new());
    assert_eq!(m.unsettled_auctions(), Vec::<u32>::new());
    assert_eq!(m.auction_items(7), None);
    assert_eq!(m.stop_auction(1, 3), Err(Error::AuctionNotExist));
}

#[test]
fn stop_with_bid_but_no_item_releases_locks() {
    let mut m = Module::new();
    m.create_auction(1, 40, 1, None).unwrap();
    m.setup_moments(1, 0, Some(1), None, None).unwrap();
    m.start_auctions_passive(&vec![0], Some(KEY), true).unwrap();
    m.participate_auction(2, 0, 40, 1000, 5).unwrap();
    assert_eq!(m.stop_auction(1, 0), Ok((vec![LockOp::Remove { who: 2 }], None)));
    assert_eq!(m.auctions(0).unwrap().status, AuctionStatus::Stopped);
    assert_eq!(m.unsettled_auctions(), Vec::<u32>::new());
}

#[test]
fn settling_keeps_other_auction_locks() {
    let mut m = active_auction(1, None);
    m.create_auction(4, 0, 1, None).unwrap();
    m.setup_moments(4, 1, Some(1), None, None).unwrap();
    m.start_auctions_passive(&vec![1], Some(KEY), true).unwrap();
    m.participate_auction(2, 0, 50, 1000, 11).unwrap();
    m.participate_auction(2, 1, 30, 1000, 11).unwrap();
    let (ops, _) = m.stop_auction(1, 0).unwrap();
    assert_eq!(ops, vec![LockOp::Reset { who: 2, amount: 30 }]);
    assert_eq!(m.account_locks(2), 30);
}

#[test]
fn bid_then_settle_restores_total_lock() {
    let mut m = active_auction(1, None);
    m.create_auction(4, 0, 1, None).unwrap();
    m.setup_moments(4, 1, Some(1), None, None).unwrap();
    m.start_auctions_passive(&vec![1], Some(KEY), true).unwrap();
    m.participate_auction(2, 1, 30, 1000, 11).unwrap();
    let before = m.account_locks(2);
    m.participate_auction(2, 0, 50, 1000, 11).unwrap();
    m.participate_auction(2, 0, 55, 1000, 12).unwrap();
    m.stop_auction(1, 0).unwrap();
    assert_eq!(m.account_locks(2), before);
}

#[test]
fn stop_passive_settles_each_auction() {
    let mut m = active_auction(1, None);
    m.create_auction(4, 0, 1, None).unwrap();
    m.participate_auction(2, 0, 50, 1000, 11).unwrap();
    assert_eq!(m.stop_auctions_passive(&vec![0, 1], None, true).err(), Some(Error::NoAuthorityKey));
    assert_eq!(m.stop_auctions_passive(&vec![0, 1], Some(KEY), false).err(), Some(Error::InvalidSignature));
    assert_eq!(m.stop_auctions_passive(&vec![0, 7], Some(KEY), true).err(), Some(Error::NotAllUnstopped));
    let s: Vec<Settlement> = m.stop_auctions_passive(&vec![0, 1], Some(KEY), true).unwrap();
    assert_eq!(s.len(), 1);
    assert_eq!(s[0].lock_ops, vec![LockOp::Remove { who: 2 }]);
    let payout = Payout { auction_id: 0, owner: 1, winner: 2, item: 7, value: 49, fee: 1 };
    assert_eq!(s[0].payout, Some(payout));
    assert_eq!(m.auctions(0).unwrap().status, AuctionStatus::Stopped);
    assert_eq!(m.auctions(1).unwrap().status, AuctionStatus::Stopped);
    assert_eq!(m.active_auctions(), Vec::<u32>::new());
    assert_eq!(m.stop_auctions_passive(&vec![0], Some(KEY), true).err(), Some(Error::NotAllUnstopped));
    // the locks are released, the payment is awaited
    assert!(!m.account_lock_exists(2));
    assert_eq!(m.unsettled_auctions(), vec![0]);
    assert_eq!(
        m.complete_settlement::<Test>(&payout, Err("insufficient funds")),
        Err(Error::PaymentFailed("insufficient funds"))
    );
    assert_eq!(m.unsettled_auctions(), vec![0]);
    assert_eq!(m.complete_settlement::<Test>(&payout, Ok(())), Ok(()));
    assert_eq!(m.unsettled_auctions(), Vec::<u32>::new());
    assert_eq!(m.complete_settlement::<Test>(&payout, Ok(())), Err(Error::NoSettlementPending));
    assert_eq!(Error::NoSettlementPending.message(), "Auction has no pending settlement.");
}

#[test]
fn stop_passive_without_payment_releases_at_once() {
    let mut m = Module::new();
    m.create_auction(1, 5, 1, None).unwrap();
    m.setup_moments(1, 0, Some(1), None, None).unwrap();
    m.start_auctions_passive(&vec![0], Some(KEY), true).unwrap();
    m.participate_auction(2, 0, 5, 1000, 11).unwrap();
    let s = m.stop_auctions_passive(&vec![0], Some(KEY), true).unwrap();
    assert_eq!(s.len(), 1);
    assert_eq!(s[0].lock_ops, vec![LockOp::Remove { who: 2 }]);
    assert_eq!(s[0].payout, None);
    assert_eq!(m.unsettled_auctions(), Vec::<u32>::new());
    assert_eq!(m.auctions(0).unwrap().status, AuctionStatus::Stopped);
}

#[test]
fn stop_passive_settles_a_repeated_id_once() {
    let mut m = active_auction(1, None);
    m.create_auction(4, 0, 1, None).unwrap();
    m.setup_moments(4, 1, Some(1), None, None).unwrap();
    m.start_auctions_passive(&vec![1], Some(KEY), true).unwrap();
    m.participate_auction(2, 0, 10, 1000, 11).unwrap();
    m.participate_auction(2, 1, 5, 1000, 11).unwrap();
    let s = m.stop_auctions_passive(&vec![1, 1, 0, 0], Some(KEY), true).unwrap();
    assert_eq!(s.len(), 2);
    assert_eq!(s[0].lock_ops, vec![LockOp::Reset { who: 2, amount: 10 }]);
    assert_eq!(s[0].payout, None);
    assert_eq!(s[1].lock_ops, vec![LockOp::Remove { who: 2 }]);
    assert_eq!(s[1].payout, Some(Payout { auction_id: 0, owner: 1, winner: 2, item: 7, value: 10, fee: 0 }));
    assert!(!m.account_lock_exists(2));
    assert_eq!(m.unsettled_auctions(), vec![0]);
}

#[test]
fn is_auctions_with_status_checks_all() {
    let mut m = Module::new();
    m.create_auction(1, 100, 1, None).unwrap();
    m.create_auction(1, 100, 1, None).unwrap();
    assert!(m.is_auctions_with_status(&vec![], AuctionStatus::Active, false));
    assert!(m.is_auctions_with_status(&vec![0, 1], AuctionStatus::PendingStart, false));
    assert!(!m.is_auctions_with_status(&vec![0, 1, 2], AuctionStatus::PendingStart, false));
    assert!(m.is_auctions_with_status(&vec![1, 0], AuctionStatus::Stopped, true));
    assert!(!m.is_auctions_with_status(&vec![1], AuctionStatus::PendingStart, true));
}

#[test]
fn offchain_picks_ready_auctions() {
    let mut m = Module::new();
    for _ in 0..5 {
        m.create_auction(1, 50, 1, Some(80)).unwrap();
    }
    m.setup_moments(1, 0, Some(10), Some(100), None).unwrap();
    m.setup_moments(1, 1, Some(30), Some(100), None).unwrap();
    m.setup_moments(1, 2, None, Some(100), None).unwrap();
    assert_eq!(m.offchain(20).0, vec![0]);
    assert_eq!(m.offchain(10).0, Vec::<u32>::new());
    m.setup_moments(1, 3, Some(1), Some(50), None).unwrap();
    m.setup_moments(1, 4, Some(1), None, None).unwrap();
    m.start_auctions_passive(&vec![3, 4, 0], Some(KEY), true).unwrap();
    assert_eq!(m.offchain(20).1, Vec::<u32>::new());
    // stop moment passed
    assert_eq!(m.offchain(60).1, vec![3]);
    // upper bound reached
    m.participate_auction(2, 0, 80, 1000, 61).unwrap();
    m.participate_auction(2, 4, 90, 1000, 61).unwrap();
    assert_eq!(m.offchain(60).1, vec![3, 4, 0]);
    assert_eq!(m.offchain(200).1, vec![3, 4, 0]);
    assert_eq!(m.offchain(200).0, vec![1]);
}

#[test]
fn authority_is_first_local_authority() {
    let a = [1u8; 32];
    let b = [2u8; 32];
    let c = [3u8; 32];
    assert_eq!(Module::authority_id(&vec![a, b, c], &vec![c, b]), Some(b));
    assert_eq!(Module::authority_id(&vec![a, b], &vec![c]), None);
    assert_eq!(Module::authority_id(&vec![], &vec![c]), None);
    let mut d = a;
    d[31] = 9;
    assert_eq!(Module::authority_id(&vec![a], &vec![d]), None);
}

#[test]
fn validate_unsigned_checks_key_status_and_signature() {
    let mut m = Module::new();
    m.create_auction(1, 100, 1, None).unwrap();
    m.create_auction(1, 100, 1, None).unwrap();
    m.create_auction(1, 100, 1, None).unwrap();
    let key = [7u8; 32];
    let start = UnsignedCall::StartAuctionsPassive(vec![1, 2]);
    assert_eq!(m.validate_unsigned(&start, None, true).err(), Some(InvalidTransaction::BadProof));
    assert_eq!(m.validate_unsigned(&start, Some(key), false).err(), Some(InvalidTransaction::BadProof));
    assert_eq!(m.validate_unsigned(&UnsignedCall::Other, Some(key), true).err(), Some(InvalidTransaction::Call));
    let t = m.validate_unsigned(&start, Some(key), true).unwrap();
    assert_eq!(t.priority, 0);
    assert!(t.requires.is_empty());
    assert_eq!(t.longevity, u64::MAX);
    assert!(t.propagate);
    let mut expected = vec![8u8, 1, 0, 0, 0, 2, 0, 0, 0];
    expected.extend_from_slice(&key);
    assert_eq!(t.provides, vec![expected]);
    let stop = UnsignedCall::StopAuctionsPassive(vec![0]);
    assert!(m.validate_unsigned(&stop, Some(key), true).is_ok());
    assert_eq!(m.stop_auction(1, 0), Ok((vec![], None)));
    assert_eq!(m.validate_unsigned(&stop, Some(key), true).err(), Some(InvalidTransaction::Stale));
    m.start_auctions_passive(&vec![1], Some(KEY), true).unwrap();
    assert_eq!(m.validate_unsigned(&start, Some(key), true).err(), Some(InvalidTransaction::Stale));
}

#[test]
fn validate_unsigned_encodes_long_id_lists() {
    let mut m = Module::new();
    for _ in 0..70 {
        m.create_auction(1, 100, 1, None).unwrap();
    }
    let ids: Vec<u32> = (0..70).collect();
    let key = [0u8; 32];
    let t = m.validate_unsigned(&UnsignedCall::StopAuctionsPassive(ids), Some(key), true).unwrap();
    let p = &t.provides[0];
    // compact length 70: (70 << 2) | 1 in two little-endian bytes
    assert_eq!(&p[0..2], &[0x19u8, 0x01][..]);
    assert_eq!(&p[2..6], &[0u8, 0, 0, 0][..]);
    assert_eq!(&p[6..10], &[1u8, 0, 0, 0][..]);
    assert_eq!(p.len(), 2 + 70 * 4 + 32);
}

#[test]
fn fee_split() {
    assert_eq!(Module::calc_auction_fee(0), (0, 0));
    assert_eq!(Module::calc_auction_fee(19), (19, 0));
    assert_eq!(Module::calc_auction_fee(20), (19, 1));
    assert_eq!(Module::calc_auction_fee(1000), (999, 1));
}

#[test]
fn error_messages() {
    assert_eq!(AuctionStatus::PendingStart.error_str(), "Auction is already started or over.");
    assert_eq!(AuctionStatus::Paused.error_str(), "Auction should be paused.");
    assert_eq!(AuctionStatus::Active.error_str(), "Auction should be acive.");
    assert_eq!(AuctionStatus::Stopped.error_str(), "Auction should be stopped.");
    assert_eq!(Error::WrongStatus(AuctionStatus::Paused).message(), "Auction should be paused.");
    assert_eq!(Error::AuctionNotExist.message(), "Auction does not exist");
    assert_eq!(Error::BidTooLow.message(), "Increment of bid price less than minimum step ");
    assert_eq!(Error::AuctionCountOverflow.message(), "Auction count overflow");
    assert_eq!(Error::GlobalLockMissing.message(), "fatal error, can not find global lock for account");
    assert_eq!(Error::GlobalLockTooSmall.message(), "fatal error, global lock less than auction lock");
    assert_eq!(Error::ItemTransferFailed("x").message(), "x");
}

#[test]
fn mock_item_module_allows_everything() {
    assert!(<SomeItemModule as ItemTransfer<AccountId, ItemId>>::is_item_owner(&5, 9));
    assert_eq!(<SomeItemModule as ItemTransfer<AccountId, ItemId>>::transfer_item(&5, &6, 9), Ok(()));
}

#[test]
fn zero_bids_leave_a_second_settlement_without_lock() {
    let mut m = active_auction(1, None);
    m.create_auction(4, 0, 1, None).unwrap();
    m.setup_moments(4, 1, Some(1), None, None).unwrap();
    m.start_auctions_passive(&vec![1], Some(KEY), true).unwrap();
    assert_eq!(m.participate_auction(2, 0, 0, 1000, 11), Ok(LockOp::Extend { who: 2, amount: 0 }));
    assert_eq!(m.participate_auction(2, 1, 0, 1000, 11), Ok(LockOp::Extend { who: 2, amount: 0 }));
    assert!(m.account_lock_exists(2));
    let payout = Payout { auction_id: 0, owner: 1, winner: 2, item: 7, value: 0, fee: 0 };
    assert_eq!(m.stop_auction(1, 0), Ok((vec![LockOp::Remove { who: 2 }], Some(payout))));
    assert_eq!(m.complete_settlement::<Test>(&payout, Ok(())), Ok(()));
    assert_eq!(m.stop_auction(4, 1), Err(Error::GlobalLockMissing));
    assert_eq!(m.auctions(1).unwrap().status, AuctionStatus::Active);
    // the off-chain worker stops it all the same, releasing nothing
    let s = m.stop_auctions_passive(&vec![1], Some(KEY), true).unwrap();
    assert_eq!(s.len(), 0);
    assert_eq!(m.auctions(1).unwrap().status, AuctionStatus::Stopped);
    assert_eq!(m.unsettled_auctions(), Vec::<u32>::new());
}

#[test]
fn worker_selection_goes_through() {
    let mut m = Module::new();
    for _ in 0..3 {
        m.create_auction(1, 100, 1, None).unwrap();
    }
    m.setup_moments(1, 0, Some(5), Some(20), None).unwrap();
    m.setup_moments(1, 1, Some(50), None, None).unwrap();
    m.setup_moments(1, 2, Some(5), Some(30), None).unwrap();
    let (start, _) = m.offchain(10);
    assert_eq!(start, vec![0, 2]);
    assert_eq!(m.start_auctions_passive(&start, Some(KEY), true), Ok(()));
    let (_, stop) = m.offchain(25);
    assert_eq!(stop, vec![0]);
    assert!(m.stop_auctions_passive(&stop, Some(KEY), true).is_ok());
    assert_eq!(m.auctions(0).unwrap().status, AuctionStatus::Stopped);
    assert_eq!(m.auctions(2).unwrap().status, AuctionStatus::Active);
}

#[test]
fn an_item_is_in_one_auction_at_a_time() {
    let mut m = Module::new();
    m.create_auction(1, 100, 1, None).unwrap();
    m.create_auction(2, 100, 1, None).unwrap();
    assert_eq!(m.add_item::<Test>(1, 0, 7), Ok(()));
    assert_eq!(m.auction_items(7), Some(0));
    assert_eq!(m.add_item::<Test>(2, 1, 7), Err(Error::ItemInAuction));
    assert_eq!(m.auctions(1).unwrap().item, None);
    assert_eq!(Error::ItemInAuction.message(), "Item is already in another auction.");
    // the owner of auction 0 takes another item: item 7 is free again
    assert_eq!(m.add_item::<Test>(1, 0, 8), Ok(()));
    assert_eq!(m.auction_items(7), None);
    assert_eq!(m.auction_items(8), Some(0));
    assert_eq!(m.add_item::<Test>(2, 1, 7), Ok(()));
    assert_eq!(m.auction_items(7), Some(1));
    assert_eq!(m.add_item::<Test>(2, 1, 8), Err(Error::ItemInAuction));
    // once auction 0 stops, its item is free
    assert_eq!(m.stop_auction(1, 0), Ok((vec![], None)));
    assert_eq!(m.auction_items(8), None);
    assert_eq!(m.add_item::<Test>(2, 1, 8), Ok(()));
    assert_eq!(m.auction_items(8), Some(1));
    assert_eq!(m.auction_items(7), None);
}

#[test]
fn offchain_stops_after_the_wait_period() {
    let mut m = Module::new();
    m.create_auction(1, 10, 1, None).unwrap();
    m.create_auction(1, 10, 1, None).unwrap();
    m.setup_moments(1, 0, Some(1), None, Some(5)).unwrap();
    m.setup_moments(1, 1, Some(1), None, Some(5)).unwrap();
    m.start_auctions_passive(&vec![0, 1], Some(KEY), true).unwrap();
    // without a bid the wait period does not run
    assert_eq!(m.offchain(100).1, Vec::<u32>::new());
    m.participate_auction(2, 0, 10, 1000, 11).unwrap();
    assert_eq!(m.offchain(15).1, Vec::<u32>::new());
    assert_eq!(m.offchain(16).1, vec![0]);
    assert_eq!(m.offchain(40).1, vec![0]);
}

#[test]
fn offchain_stops_at_the_upper_bound_without_stop_moment() {
    let mut m = Module::new();
    m.create_auction(1, 40, 1, Some(50)).unwrap();
    m.setup_moments(1, 0, Some(1), None, None).unwrap();
    m.start_auctions_passive(&vec![0], Some(KEY), true).unwrap();
    m.participate_auction(2, 0, 49, 1000, 11).unwrap();
    assert_eq!(m.offchain(12).1, Vec::<u32>::new());
    m.participate_auction(3, 0, 51, 1000, 12).unwrap();
    assert_eq!(m.offchain(12).1, vec![0]);
}

#[test]
fn signing_payload_is_the_scale_encoding() {
    assert_eq!(signing_payload(&vec![1, 2]), vec![8u8, 1, 0, 0, 0, 2, 0, 0, 0]);
    assert_eq!(signing_payload(&vec![]), vec![0u8]);
    assert_eq!(signing_payload(&vec![0x01020304]), vec![4u8, 4, 3, 2, 1]);
}

#[test]
fn id_sets_add_and_remove_once() {
    let ids = vec![3u32, 1, 3];
    let once = add_all(vec![1, 2], &ids);
    assert_eq!(once, vec![1, 2, 3]);
    assert_eq!(add_all(once.clone(), &ids), once);
    assert_eq!(add_all(vec![5, 6], &vec![]), vec![5, 6]);
    let removed = remove_all(&vec![1, 2, 3, 4], &ids);
    assert_eq!(removed, vec![2, 4]);
    assert_eq!(remove_all(&removed, &ids), removed);
    assert_eq!(remove_all(&vec![4, 5], &vec![]), vec![4, 5]);
}
