//! A test runtime for the pallet: an item module that lets everyone sell
//! everything, the runtime configuration, and the block counter of the
//! system module.
use vstd::prelude::*;
use crate::storage::Module;
use crate::traits::{ItemTransfer, Trait};
use crate::types::{AccountId, BlockNumber, ItemId};

verus! {

/// An item module in which every account owns every item, and every transfer
/// succeeds.
pub struct SomeItemModule;

impl ItemTransfer<AccountId, ItemId> for SomeItemModule {
    fn is_item_owner(who: &AccountId, item_id: ItemId) -> (r: bool)
        ensures
            r,
    {
        true
    }

    fn transfer_item(source: &AccountId, dest: &AccountId, item_id: ItemId) -> (r: Result<(), &'static str>)
        ensures
            r is Ok,
    {
        Ok(())
    }
}

/// The test runtime.
pub struct Test;

impl Trait for Test {
    type AuctionTransfer = SomeItemModule;
}

/// The block counter of the system module.
pub struct System {
    pub block_number: BlockNumber,
}

impl System {
    /// The current block number.
    pub fn block_number(&self) -> (r: BlockNumber)
        ensures
            r == self.block_number,
    {
        self.block_number
    }

    /// Sets the current block number.
    pub fn set_block_number(&mut self, n: BlockNumber)
        ensures
            final(self).block_number == n,
    {
        self.block_number = n;
    }
}

/// The storage of the test runtime.
pub struct TestExternalities {
    pub system: System,
    pub auctions: Module,
}

/// The storage of the test runtime at genesis: block 0, no auction.
pub fn new_test_ext() -> (t: TestExternalities)
    ensures
        t.system.block_number == 0,
        t.auctions@ == Module::new_view(),
{
    TestExternalities { system: System { block_number: 0 }, auctions: Module::new() }
}

/// Moves the system to the next block.
pub fn next_block(system: &mut System)
    requires
        old(system).block_number < u64::MAX,
    ensures
        final(system).block_number == old(system).block_number + 1,
{
    let now = system.block_number();
    system.set_block_number(now + 1);
}

} // verus!
