//! An auction house pallet: auctions are created by their owners, started and
//! stopped by an off-chain worker or by the owner, and bidders lock the amount
//! of their bids until the auction is settled.
pub mod types;
pub mod accounting;
pub mod id_set;
pub mod laws;
pub mod mock;
pub mod offchain;
pub mod pallet;
pub mod storage;
pub mod traits;
