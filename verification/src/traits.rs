//! What the runtime that includes the auction pallet provides to it.
use vstd::prelude::*;
use crate::types::{AccountId, ItemId};

verus! {

/// Means for interacting with transferring items between accounts. A module
/// that owns items implements it to let them be sold in auctions.
pub trait ItemTransfer<AccountId, ItemId> {
    /// Whether `who` owns the item `item_id`.
    fn is_item_owner(who: &AccountId, item_id: ItemId) -> bool;

    /// Transfer the item `item_id` from `source` to `dest`.
    fn transfer_item(source: &AccountId, dest: &AccountId, item_id: ItemId) -> Result<(), &'static str>;
}

/// The configuration of the auction pallet in a runtime.
pub trait Trait {
    /// The module whose items are auctioned.
    type AuctionTransfer: ItemTransfer<AccountId, ItemId>;
}

} // verus!
