//! Plain data of the auction pallet: identifiers, auctions, errors, events
//! and the effects that the pallet asks the surrounding runtime to perform.
use vstd::prelude::*;

verus! {

/// Account identifier of the runtime.
pub type AccountId = u64;

/// Amount of currency.
pub type Balance = u64;

/// Identifier of an auction.
pub type AuctionId = u32;

/// Identifier of an item that can be auctioned.
pub type ItemId = u32;

/// Timestamp, as kept by the timestamp and aura modules.
pub type Moment = u64;

/// Block number of the system module.
pub type BlockNumber = u64;

/// Public key of a block authority (an ed25519 public key).
pub type AuthorityId = [u8; 32];

/// Life-cycle state of an auction.
#[derive(Clone, Copy, PartialEq, Eq, Structural, Debug)]
pub enum AuctionStatus {
    PendingStart,
    Paused,
    Active,
    Stopped,
}

/// The message reported when an auction is not in the status `s` that an
/// operation asks for.
pub open spec fn status_error_text(s: AuctionStatus) -> Seq<char> {
    match s {
        AuctionStatus::PendingStart => "Auction is already started or over."@,
        AuctionStatus::Paused => "Auction should be paused."@,
        AuctionStatus::Active => "Auction should be acive."@,
        AuctionStatus::Stopped => "Auction should be stopped."@,
    }
}

impl AuctionStatus {
    /// The message reported when an auction is expected to be in status `self`
    /// and is not.
    pub fn error_str(self) -> (s: &'static str)
        ensures
            s@ == status_error_text(self),
    {
        match self {
            AuctionStatus::PendingStart => "Auction is already started or over.",
            AuctionStatus::Paused => "Auction should be paused.",
            AuctionStatus::Active => "Auction should be acive.",
            AuctionStatus::Stopped => "Auction should be stopped.",
        }
    }
}

/// One auction: a single item sold by its owner to the highest bidder.
#[derive(Clone, Copy, PartialEq, Eq, Debug)]
pub struct Auction {
    pub id: AuctionId,
    /// The item on sale, once the owner has added it.
    pub item: Option<ItemId>,
    /// The account that created the auction and controls it.
    pub owner: AccountId,
    /// When the off-chain worker may start the auction.
    pub start_at: Option<Moment>,
    /// When the off-chain worker may stop the auction.
    pub stop_at: Option<Moment>,
    /// Once this long has passed since the latest bid, the off-chain worker
    /// may stop the auction.
    pub wait_period: Option<Moment>,
    /// The opening price: a first bid must reach it.
    pub begin_price: Balance,
    /// Once a bid reaches this price, the off-chain worker may stop the auction.
    pub upper_bound_price: Option<Balance>,
    /// A new bid must exceed the latest bid by more than this.
    pub minimum_step: Balance,
    /// The latest bidder and the time of the bid.
    pub latest_participate: Option<(AccountId, Moment)>,
    pub status: AuctionStatus,
}

/// Errors of the auction pallet.
#[derive(Clone, Copy, PartialEq, Eq, Debug)]
pub enum Error {
    AuctionCountOverflow,
    AuctionNotExist,
    /// The auction is not in the given status.
    WrongStatus(AuctionStatus),
    NotOwner,
    NotItemOwner,
    /// The item already takes part in another auction.
    ItemInAuction,
    /// The auction has no settlement waiting for a payment.
    NoSettlementPending,
    CannotStop,
    BidTooLow,
    /// A first bid below the auction's begin price.
    BelowBeginPrice,
    InsufficientBalance,
    BalanceAddOverflow,
    GlobalLockMissing,
    GlobalLockTooSmall,
    NotAllPendingStart,
    NotAllUnstopped,
    InvalidSignature,
    NoAuthorityKey,
    /// The currency refused to take the fee or to pay the owner.
    PaymentFailed(&'static str),
    /// The item could not be handed to the winner.
    ItemTransferFailed(&'static str),
}

/// The message that each error carries.
pub open spec fn error_text(e: Error) -> Seq<char> {
    match e {
        Error::AuctionCountOverflow => "Auction count overflow"@,
        Error::AuctionNotExist => "Auction does not exist"@,
        Error::WrongStatus(s) => status_error_text(s),
        Error::NotOwner => "Only owner can call this fn."@,
        Error::NotItemOwner => "you should be item's owner."@,
        Error::ItemInAuction => "Item is already in another auction."@,
        Error::NoSettlementPending => "Auction has no pending settlement."@,
        Error::CannotStop => "Auction can NOT be stopped now."@,
        Error::BidTooLow => "Increment of bid price less than minimum step "@,
        Error::BelowBeginPrice => "Bid price less than begin price."@,
        Error::InsufficientBalance => "No enough balance to lock"@,
        Error::BalanceAddOverflow => "balance add overflow"@,
        Error::GlobalLockMissing => "fatal error, can not find global lock for account"@,
        Error::GlobalLockTooSmall => "fatal error, global lock less than auction lock"@,
        Error::NotAllPendingStart => "auctions should be pending start"@,
        Error::NotAllUnstopped => "auctions should be non stopped"@,
        Error::InvalidSignature => "Invalid signature."@,
        Error::NoAuthorityKey => "Non existent public key."@,
        Error::PaymentFailed(m) => m@,
        Error::ItemTransferFailed(m) => m@,
    }
}

impl Error {
    /// The message of this error, as the dispatchable functions report it.
    pub fn message(&self) -> (s: &'static str)
        ensures
            s@ == error_text(*self),
    {
        match self {
            Error::AuctionCountOverflow => "Auction count overflow",
            Error::AuctionNotExist => "Auction does not exist",
            Error::WrongStatus(s) => s.error_str(),
            Error::NotOwner => "Only owner can call this fn.",
            Error::NotItemOwner => "you should be item's owner.",
            Error::ItemInAuction => "Item is already in another auction.",
            Error::NoSettlementPending => "Auction has no pending settlement.",
            Error::CannotStop => "Auction can NOT be stopped now.",
            Error::BidTooLow => "Increment of bid price less than minimum step ",
            Error::BelowBeginPrice => "Bid price less than begin price.",
            Error::InsufficientBalance => "No enough balance to lock",
            Error::BalanceAddOverflow => "balance add overflow",
            Error::GlobalLockMissing => "fatal error, can not find global lock for account",
            Error::GlobalLockTooSmall => "fatal error, global lock less than auction lock",
            Error::NotAllPendingStart => "auctions should be pending start",
            Error::NotAllUnstopped => "auctions should be non stopped",
            Error::InvalidSignature => "Invalid signature.",
            Error::NoAuthorityKey => "Non existent public key.",
            Error::PaymentFailed(m) => m,
            Error::ItemTransferFailed(m) => m,
        }
    }
}

/// Events deposited by the pallet.
#[derive(Clone, Copy, PartialEq, Eq, Structural, Debug)]
pub enum Event {
    /// A bid was placed: (auction, bidder, price, remaining amount).
    BidderUpdated(AuctionId, AccountId, Balance, u32),
    /// An auction changed status: (auction, from, to).
    AuctionUpdated(AuctionId, AuctionStatus, AuctionStatus),
}

/// A change to the auction lock that the currency keeps on an account.
/// Every lock is taken under the pallet's lock identifier, until the last
/// block, against every withdraw reason.
#[derive(Clone, Copy, PartialEq, Eq, Structural, Debug)]
pub enum LockOp {
    /// Raise the lock of `who` to at least `amount`.
    Extend { who: AccountId, amount: Balance },
    /// Set the lock of `who` to `amount`.
    Reset { who: AccountId, amount: Balance },
    /// Release the lock of `who`.
    Remove { who: AccountId },
}

/// What settling an auction with a winner asks of the currency and of the
/// item module: take `fee` from the winner, pay `value` to the owner, and
/// hand the item to the winner.
#[derive(Clone, Copy, PartialEq, Eq, Structural, Debug)]
pub struct Payout {
    pub auction_id: AuctionId,
    pub owner: AccountId,
    pub winner: AccountId,
    pub item: ItemId,
    pub value: Balance,
    pub fee: Balance,
}

} // verus!
