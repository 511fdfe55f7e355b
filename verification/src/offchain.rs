//! What the off-chain worker decides: which auctions to start and to stop,
//! which local key speaks for the authorities, and which unsigned
//! transactions the pool accepts.
use parity_scale_codec::Encode;
use vstd::prelude::*;
use crate::pallet::{all_with_status, wf};
use crate::storage::{Module, ModuleView};
use crate::types::{AuctionId, AuctionStatus, AuthorityId, Moment};

verus! {

/// Auction `id` is pending start and its start moment lies before `now`.
pub open spec fn ready_to_start(v: ModuleView, id: AuctionId, now: Moment) -> bool {
    &&& v.auctions.contains_key(id)
    &&& v.auctions[id].status == AuctionStatus::PendingStart
    &&& match v.auctions[id].start_at {
        Some(t) => t < now,
        None => false,
    }
}

/// Auction `id` is not stopped and one of the stop conditions holds: its
/// stop moment lies before `now`, the latest bid has reached the upper bound
/// price, or the wait period has passed since the latest bid.
pub open spec fn ready_to_stop(v: ModuleView, id: AuctionId, now: Moment) -> bool {
    &&& v.auctions.contains_key(id)
    &&& v.auctions[id].status != AuctionStatus::Stopped
    &&& {
        ||| v.auctions[id].stop_at matches Some(t) && t < now
        ||| match (v.auctions[id].upper_bound_price, v.auctions[id].latest_participate) {
            (Some(upper), Some(latest)) => v.bid_of(id, latest.0) >= upper,
            _ => false,
        }
        ||| match (v.auctions[id].wait_period, v.auctions[id].latest_participate) {
            (Some(wait), Some(latest)) => now - latest.1 >= wait,
            _ => false,
        }
    }
}

/// Holds of the auctions ready to start at `now`.
pub open spec fn starting(v: ModuleView, now: Moment) -> spec_fn(AuctionId) -> bool {
    |id: AuctionId| ready_to_start(v, id, now)
}

/// Holds of the auctions ready to stop at `now`.
pub open spec fn stopping(v: ModuleView, now: Moment) -> spec_fn(AuctionId) -> bool {
    |id: AuctionId| ready_to_stop(v, id, now)
}

/// The bytes of `x` in little-endian order.
pub open spec fn le_u32_bytes(x: u32) -> Seq<u8> {
    seq![(x % 256) as u8, ((x / 256) % 256) as u8, ((x / 65536) % 256) as u8, ((x / 16777216) % 256) as u8]
}

/// The SCALE compact encoding of `n`.
pub open spec fn compact_u32(n: u32) -> Seq<u8> {
    if n < 64 {
        seq![(n * 4) as u8]
    } else if n < 16384 {
        seq![((n * 4 + 1) % 256) as u8, ((n * 4 + 1) / 256) as u8]
    } else if n < 1073741824 {
        le_u32_bytes((n * 4 + 2) as u32)
    } else {
        seq![3u8] + le_u32_bytes(n)
    }
}

/// The items of `s`, each in little-endian order, one after the other.
pub open spec fn le_u32_seq(s: Seq<u32>) -> Seq<u8>
    decreases s.len(),
{
    if s.len() == 0 {
        Seq::empty()
    } else {
        le_u32_seq(s.drop_last()) + le_u32_bytes(s.last())
    }
}

/// The SCALE encoding of a vector of `u32`: its compact length, then its items.
pub open spec fn scale_u32_vec(s: Seq<u32>) -> Seq<u8> {
    compact_u32(s.len() as u32) + le_u32_seq(s)
}

/// `Encode::encode` of parity-scale-codec on the pair of a vector of
/// auction identifiers and an authority key. The contract claims the SCALE
/// format that the crate implements: a tuple is its parts one after the
/// other, a vector is its compact length followed by its items, a `u32` is
/// little-endian, and a byte array is its bytes. The crate refuses vectors
/// longer than `u32::MAX`.
#[verifier::external_body]
fn encode_ids_with_authority(ids: &Vec<AuctionId>, authority: &AuthorityId) -> (r: Vec<u8>)
    requires
        ids@.len() <= u32::MAX,
    ensures
        r@ == scale_u32_vec(ids@) + authority@,
{
    (ids, authority).encode()
}

/// `Encode::encode` of parity-scale-codec on a vector of auction
/// identifiers. The contract claims the SCALE format that the crate
/// implements: the compact length, then each `u32` little-endian. The crate
/// refuses vectors longer than `u32::MAX`.
#[verifier::external_body]
fn encode_ids(ids: &Vec<AuctionId>) -> (r: Vec<u8>)
    requires
        ids@.len() <= u32::MAX,
    ensures
        r@ == scale_u32_vec(ids@),
{
    ids.encode()
}

/// The bytes an authority signs to start or stop `ids`: their SCALE encoding.
pub fn signing_payload(ids: &Vec<AuctionId>) -> (r: Vec<u8>)
    requires
        ids@.len() <= u32::MAX,
    ensures
        r@ == scale_u32_vec(ids@),
{
    encode_ids(ids)
}

/// A transaction that the pool cannot accept.
#[derive(Clone, Copy, PartialEq, Eq, Structural, Debug)]
pub enum InvalidTransaction {
    /// The proof (the signing key or the signature) is not valid.
    BadProof,
    /// The transaction no longer applies to the state.
    Stale,
    /// The call is not one that may be sent unsigned.
    Call,
}

/// How the pool is to treat an accepted transaction.
#[derive(Debug)]
pub struct ValidTransaction {
    pub priority: u64,
    pub requires: Vec<Vec<u8>>,
    pub provides: Vec<Vec<u8>>,
    pub longevity: u64,
    pub propagate: bool,
}

/// The unsigned calls that the off-chain worker sends.
#[derive(Debug)]
pub enum UnsignedCall {
    StartAuctionsPassive(Vec<AuctionId>),
    StopAuctionsPassive(Vec<AuctionId>),
    /// Any other call of the pallet.
    Other,
}

/// The transaction accepted for `ids` signed by `authority`: lowest priority,
/// no requirement, providing the encoding of the pair, alive for ever, and
/// gossiped.
pub open spec fn accepted_for(t: ValidTransaction, ids: Seq<AuctionId>, authority: AuthorityId) -> bool {
    &&& t.priority == 0
    &&& t.requires@.len() == 0
    &&& t.provides@.len() == 1
    &&& t.provides@[0]@ == scale_u32_vec(ids) + authority@
    &&& t.longevity == u64::MAX
    &&& t.propagate
}

/// The first of `authorities` that `local_keys` holds, if any.
pub open spec fn first_local_authority(authorities: Seq<AuthorityId>, local_keys: Seq<AuthorityId>) -> Option<AuthorityId>
    decreases authorities.len(),
{
    if authorities.len() == 0 {
        None
    } else if local_keys.contains(authorities[0]) {
        Some(authorities[0])
    } else {
        first_local_authority(authorities.drop_first(), local_keys)
    }
}

/// Whether the two keys are the same.
fn same_key(a: &AuthorityId, b: &AuthorityId) -> (r: bool)
    ensures
        r == (*a == *b),
{
    let mut i: usize = 0;
    while i < 32
        invariant
            0 <= i <= 32,
            forall|j: int| 0 <= j < i ==> a[j] == b[j],
        decreases 32 - i,
    {
        if a[i] != b[i] {
            return false;
        }
        i = i + 1;
    }
    assert(*a =~= *b);
    true
}

/// Whether `keys` holds `k`.
fn holds_key(keys: &Vec<AuthorityId>, k: &AuthorityId) -> (r: bool)
    ensures
        r == keys@.contains(*k),
{
    let mut i: usize = 0;
    while i < keys.len()
        invariant
            0 <= i <= keys.len(),
            forall|j: int| 0 <= j < i ==> keys@[j] != *k,
        decreases keys.len() - i,
    {
        if same_key(&keys[i], k) {
            assert(keys@[i as int] == *k);
            return true;
        }
        i = i + 1;
    }
    false
}

impl Module {
    /// The own authority identifier: the first of the current `authorities`
    /// whose key is held in the local keystore (`local_keys`), if any.
    pub fn authority_id(authorities: &Vec<AuthorityId>, local_keys: &Vec<AuthorityId>) -> (r: Option<AuthorityId>)
        ensures
            r == first_local_authority(authorities@, local_keys@),
    {
        let mut i: usize = 0;
        assert(authorities@.skip(0) =~= authorities@);
        while i < authorities.len()
            invariant
                0 <= i <= authorities.len(),
                first_local_authority(authorities@, local_keys@)
                    == first_local_authority(authorities@.skip(i as int), local_keys@),
            decreases authorities.len() - i,
        {
            let ghost rest = authorities@.skip(i as int);
            assert(rest[0] == authorities@[i as int]);
            assert(rest.drop_first() =~= authorities@.skip(i + 1));
            if holds_key(local_keys, &authorities[i]) {
                return Some(authorities[i]);
            }
            i = i + 1;
        }
        assert(authorities@.skip(i as int).len() == 0);
        None
    }

    /// The auctions that the off-chain worker is to start and to stop, given
    /// the timestamp `last_timestamp` of the latest block: the pending
    /// auctions ready to start and the active auctions ready to stop (stop
    /// moment passed, upper bound price reached, or wait period since the
    /// latest bid passed), in the order of their sets.
    pub fn offchain(&self, last_timestamp: Moment) -> (r: (Vec<AuctionId>, Vec<AuctionId>))
        requires
            wf(self@),
        ensures
            r.0@ == self@.pending.filter(starting(self@, last_timestamp)),
            r.1@ == self@.active.filter(stopping(self@, last_timestamp)),
    {
        let pending_auctions = self.pending_auctions();
        let mut starting_ids: Vec<AuctionId> = Vec::new();
        let mut i: usize = 0;
        while i < pending_auctions.len()
            invariant
                0 <= i <= pending_auctions.len(),
                wf(self@),
                starting_ids@ == pending_auctions@.take(i as int).filter(starting(self@, last_timestamp)),
            decreases pending_auctions.len() - i,
        {
            let id = pending_auctions[i];
            reveal_with_fuel(Seq::filter, 1);
            assert(pending_auctions@.take(i + 1).drop_last() =~= pending_auctions@.take(i as int));
            assert(pending_auctions@.take(i + 1).last() == id);
            let mut take = false;
            if let Some(auction) = self.auctions(id) {
                if auction.status == AuctionStatus::PendingStart {
                    if let Some(t) = auction.start_at {
                        if t < last_timestamp {
                            take = true;
                        }
                    }
                }
                assert(auction.id == id);
            }
            assert(take == ready_to_start(self@, id, last_timestamp));
            if take {
                starting_ids.push(id);
            }
            i = i + 1;
        }
        assert(pending_auctions@.take(i as int) =~= pending_auctions@);

        let active_auctions = self.active_auctions();
        let mut stopping_ids: Vec<AuctionId> = Vec::new();
        let mut i: usize = 0;
        while i < active_auctions.len()
            invariant
                0 <= i <= active_auctions.len(),
                wf(self@),
                stopping_ids@ == active_auctions@.take(i as int).filter(stopping(self@, last_timestamp)),
            decreases active_auctions.len() - i,
        {
            let id = active_auctions[i];
            reveal_with_fuel(Seq::filter, 1);
            assert(active_auctions@.take(i + 1).drop_last() =~= active_auctions@.take(i as int));
            assert(active_auctions@.take(i + 1).last() == id);
            let mut take = false;
            if let Some(auction) = self.auctions(id) {
                if auction.status != AuctionStatus::Stopped {
                    if let Some(stop_at) = auction.stop_at {
                        if stop_at < last_timestamp {
                            take = true;
                        }
                    }
                    if let Some(upper_bound_price) = auction.upper_bound_price {
                        if let Some((account_id, _)) = auction.latest_participate {
                            let last_price = self.auction_bids(auction.id, account_id);
                            if last_price >= upper_bound_price {
                                take = true;
                            }
                        }
                    }
                    if let Some(wait_period) = auction.wait_period {
                        if let Some((_, bid_at)) = auction.latest_participate {
                            if last_timestamp >= bid_at && last_timestamp - bid_at >= wait_period {
                                take = true;
                            }
                        }
                    }
                }
                assert(auction.id == id);
            }
            assert(take == ready_to_stop(self@, id, last_timestamp));
            if take {
                stopping_ids.push(id);
            }
            i = i + 1;
        }
        assert(active_auctions@.take(i as int) =~= active_auctions@);
        (starting_ids, stopping_ids)
    }

    /// Whether the transaction pool accepts `call` sent unsigned, given the
    /// own authority identifier (`authority`) and whether the call's signature
    /// is that authority's signature of the encoded identifiers
    /// (`signature_valid`).
    pub fn validate_unsigned(&self, call: &UnsignedCall, authority: Option<AuthorityId>, signature_valid: bool) -> (r: Result<ValidTransaction, InvalidTransaction>)
        requires
            authority is Some && signature_valid ==> match call {
                UnsignedCall::StartAuctionsPassive(ids) => all_with_status(self@, ids@, AuctionStatus::PendingStart, false)
                    ==> ids@.len() <= u32::MAX,
                UnsignedCall::StopAuctionsPassive(ids) => all_with_status(self@, ids@, AuctionStatus::Stopped, true)
                    ==> ids@.len() <= u32::MAX,
                UnsignedCall::Other => true,
            },
        ensures
            authority is None ==> r matches Err(InvalidTransaction::BadProof),
            authority is Some ==> match call {
                UnsignedCall::StartAuctionsPassive(ids) => if !all_with_status(self@, ids@, AuctionStatus::PendingStart, false) {
                    r matches Err(InvalidTransaction::Stale)
                } else if !signature_valid {
                    r matches Err(InvalidTransaction::BadProof)
                } else {
                    r matches Ok(t) && accepted_for(t, ids@, authority->0)
                },
                UnsignedCall::StopAuctionsPassive(ids) => if !all_with_status(self@, ids@, AuctionStatus::Stopped, true) {
                    r matches Err(InvalidTransaction::Stale)
                } else if !signature_valid {
                    r matches Err(InvalidTransaction::BadProof)
                } else {
                    r matches Ok(t) && accepted_for(t, ids@, authority->0)
                },
                UnsignedCall::Other => r matches Err(InvalidTransaction::Call),
            },
    {
        let authority_id = match authority {
            Some(id) => id,
            None => return Err(InvalidTransaction::BadProof),
        };
        match call {
            UnsignedCall::StartAuctionsPassive(auction_ids) => {
                if !self.is_auctions_with_status(auction_ids, AuctionStatus::PendingStart, false) {
                    return Err(InvalidTransaction::Stale);
                }
                if !signature_valid {
                    return Err(InvalidTransaction::BadProof);
                }
                let provides = vec![encode_ids_with_authority(auction_ids, &authority_id)];
                Ok(ValidTransaction {
                    priority: 0,
                    requires: Vec::new(),
                    provides,
                    longevity: u64::MAX,
                    propagate: true,
                })
            },
            UnsignedCall::StopAuctionsPassive(auction_ids) => {
                if !self.is_auctions_with_status(auction_ids, AuctionStatus::Stopped, true) {
                    return Err(InvalidTransaction::Stale);
                }
                if !signature_valid {
                    return Err(InvalidTransaction::BadProof);
                }
                let provides = vec![encode_ids_with_authority(auction_ids, &authority_id)];
                Ok(ValidTransaction {
                    priority: 0,
                    requires: Vec::new(),
                    provides,
                    longevity: u64::MAX,
                    propagate: true,
                })
            },
            UnsignedCall::Other => Err(InvalidTransaction::Call),
        }
    }
}

} // verus!
