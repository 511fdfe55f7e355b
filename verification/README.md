# auction

An auction house pallet with its rules proved in Verus.

An owner creates an auction, adds the item on sale and sets when it starts
and stops. An item takes part in one auction at a time. An off-chain worker
starts auctions when their start moments come, and stops them when their stop
moment passes, when the latest bid reaches the upper bound price, or when the
wait period since the latest bid has passed; it signs the unsigned
transactions that do so. A first bid must reach the begin price; each later
bid must exceed the latest one by more than the minimum step. Bidders lock the
amount of their bids, against every withdraw reason.

Settling an auction first checks every lock in it, and changes nothing where
one cannot be released. Then all its locks are released and it stops. Where
its winner has to pay, it waits among the unsettled auctions, keeping its
item: once the winner has paid the owner (less a fee), the item is handed to
the winner and the settlement is closed. A failed payment or transfer changes
nothing and can be retried; the owner may also give the settlement up, which
frees the item.

Layout:

- `src/types.rs`: identifiers, auctions, errors, events, and the lock changes
  and payments that the pallet asks of the runtime.
- `src/storage.rs`: the pallet's storage, its abstract view, getters and setters.
- `src/id_set.rs`: the pending and active auction lists, kept as sets.
- `src/pallet.rs`: the calls, each stated as an exact outcome on the view
  (where the item module answers, in terms of its answer), and the storage
  invariant they keep.
- `src/offchain.rs`: what the off-chain worker selects, the local authority
  key, the payload it signs, and which unsigned transactions the pool accepts.
- `src/traits.rs`, `src/mock.rs`: the item module interface and a test runtime.
- `src/laws.rs`, `src/accounting.rs`: properties of the pallet as a whole:
  the auction life cycle, one auction per item, leading bids, locks and their
  release, settlement and payout, and the balance of every account's total
  lock against its bids.
- `app/`: the runtime glue: origins, the currency, signing and submitting
  transactions.
- `tests/`: tests on concrete values.
