//! Lists of auction identifiers kept as sets: the pending and the active
//! auctions.
use vstd::prelude::*;
use crate::types::AuctionId;

verus! {

/// `s` after adding, one after the other, each of `ids` that it does not hold yet.
pub open spec fn set_add_all(s: Seq<AuctionId>, ids: Seq<AuctionId>) -> Seq<AuctionId>
    decreases ids.len(),
{
    if ids.len() == 0 {
        s
    } else {
        let prev = set_add_all(s, ids.drop_last());
        if prev.contains(ids.last()) {
            prev
        } else {
            prev.push(ids.last())
        }
    }
}

/// `s` without any element that `ids` holds, in the order of `s`.
pub open spec fn without_all(s: Seq<AuctionId>, ids: Seq<AuctionId>) -> Seq<AuctionId> {
    s.filter(not_in(ids))
}

/// Holds of the identifiers that `ids` does not hold.
pub open spec fn not_in(ids: Seq<AuctionId>) -> spec_fn(AuctionId) -> bool {
    |x: AuctionId| !ids.contains(x)
}

/// Adding keeps what was there, in its place, adds exactly what `ids` holds,
/// and adds nothing twice.
pub proof fn lemma_set_add_all(s: Seq<AuctionId>, ids: Seq<AuctionId>)
    ensures
        forall|x: AuctionId| #[trigger] set_add_all(s, ids).contains(x) <==> (s.contains(x) || ids.contains(x)),
        s.no_duplicates() ==> set_add_all(s, ids).no_duplicates(),
        set_add_all(s, ids).len() >= s.len(),
        set_add_all(s, ids).subrange(0, s.len() as int) == s,
    decreases ids.len(),
{
    if ids.len() > 0 {
        let prev = set_add_all(s, ids.drop_last());
        lemma_set_add_all(s, ids.drop_last());
        assert forall|x: AuctionId| ids.contains(x) <==> (ids.drop_last().contains(x) || x == ids.last()) by {
            if ids.contains(x) {
                let i = choose|i: int| 0 <= i < ids.len() && ids[i] == x;
                if i < ids.len() - 1 {
                    assert(ids.drop_last()[i] == x);
                }
            }
            if ids.drop_last().contains(x) {
                let i = choose|i: int| 0 <= i < ids.drop_last().len() && ids.drop_last()[i] == x;
                assert(ids[i] == x);
            }
            if x == ids.last() {
                assert(ids[ids.len() - 1] == x);
            }
        }
        if !prev.contains(ids.last()) {
            let r = prev.push(ids.last());
            assert forall|x: AuctionId| r.contains(x) <==> (prev.contains(x) || x == ids.last()) by {
                if r.contains(x) {
                    let i = choose|i: int| 0 <= i < r.len() && r[i] == x;
                    if i < prev.len() {
                        assert(prev[i] == x);
                    }
                }
                if prev.contains(x) {
                    let i = choose|i: int| 0 <= i < prev.len() && prev[i] == x;
                    assert(r[i] == x);
                }
                if x == ids.last() {
                    assert(r[r.len() - 1] == x);
                }
            }
            assert(r.subrange(0, s.len() as int) =~= prev.subrange(0, s.len() as int));
            if s.no_duplicates() {
                assert forall|i: int, j: int| 0 <= i < r.len() && 0 <= j < r.len() && i != j implies r[i] != r[j] by {
                    if i < prev.len() && j < prev.len() {
                    } else if i == prev.len() {
                        assert(prev[j] == r[j]);
                    } else {
                        assert(prev[i] == r[i]);
                    }
                }
            }
        }
    }
}

/// Removing keeps exactly what `ids` does not hold, and adds no duplicate.
pub proof fn lemma_without_all(s: Seq<AuctionId>, ids: Seq<AuctionId>)
    ensures
        forall|x: AuctionId| #[trigger] without_all(s, ids).contains(x) <==> (s.contains(x) && !ids.contains(x)),
        s.no_duplicates() ==> without_all(s, ids).no_duplicates(),
    decreases s.len(),
{
    let p = not_in(ids);
    let r = s.filter(p);
    assert forall|x: AuctionId| #[trigger] r.contains(x) <==> (s.contains(x) && !ids.contains(x)) by {
        if r.contains(x) {
            s.lemma_filter_contains_rev(p, x);
            let i = choose|i: int| 0 <= i < r.len() && r[i] == x;
            s.lemma_filter_pred(p, i);
        }
        if s.contains(x) && !ids.contains(x) {
            let i = choose|i: int| 0 <= i < s.len() && s[i] == x;
            s.lemma_filter_contains(p, i);
        }
    }
    if s.len() > 0 {
        lemma_without_all(s.drop_last(), ids);
        reveal_with_fuel(Seq::filter, 1);
        let prev = s.drop_last().filter(p);
        if s.no_duplicates() {
            assert(s.drop_last().no_duplicates());
            if p(s.last()) {
                assert(!prev.contains(s.last())) by {
                    if prev.contains(s.last()) {
                        s.drop_last().lemma_filter_contains_rev(p, s.last());
                        let k = choose|k: int| 0 <= k < s.drop_last().len() && s.drop_last()[k] == s.last();
                        assert(s[k] == s[s.len() - 1]);
                    }
                }
                assert forall|i: int, j: int| 0 <= i < r.len() && 0 <= j < r.len() && i != j implies r[i] != r[j] by {
                    if i < prev.len() && j < prev.len() {
                        assert(r[i] == prev[i] && r[j] == prev[j]);
                    } else if i == prev.len() {
                        assert(r[j] == prev[j]);
                        assert(prev.contains(prev[j]));
                    } else {
                        assert(r[i] == prev[i]);
                        assert(prev.contains(prev[i]));
                    }
                }
            }
        }
    }
}

/// Filtering keeps a sequence whose every element passes.
proof fn lemma_filter_all_pass(s: Seq<AuctionId>, p: spec_fn(AuctionId) -> bool)
    requires
        forall|i: int| 0 <= i < s.len() ==> p(#[trigger] s[i]),
    ensures
        s.filter(p) == s,
    decreases s.len(),
{
    reveal_with_fuel(Seq::filter, 1);
    if s.len() > 0 {
        assert forall|i: int| 0 <= i < s.drop_last().len() implies p(#[trigger] s.drop_last()[i]) by {
            assert(s.drop_last()[i] == s[i]);
        }
        lemma_filter_all_pass(s.drop_last(), p);
        assert(p(s[s.len() - 1]));
        assert(s.drop_last().push(s.last()) =~= s);
    }
}

/// Removing the same identifiers twice removes nothing more than once, and
/// removing none changes nothing.
pub proof fn law_remove_all_idempotent(s: Seq<AuctionId>, ids: Seq<AuctionId>)
    ensures
        without_all(without_all(s, ids), ids) == without_all(s, ids),
        without_all(s, Seq::empty()) == s,
{
    let r = without_all(s, ids);
    lemma_without_all(s, ids);
    assert forall|i: int| 0 <= i < r.len() implies #[trigger] not_in(ids)(r[i]) by {
        assert(r.contains(r[i]));
    }
    lemma_filter_all_pass(r, not_in(ids));
    assert forall|i: int| 0 <= i < s.len() implies #[trigger] not_in(Seq::<AuctionId>::empty())(s[i]) by {}
    lemma_filter_all_pass(s, not_in(Seq::empty()));
}

/// Adding identifiers that are all there already changes nothing.
proof fn lemma_add_present(s: Seq<AuctionId>, ids: Seq<AuctionId>)
    requires
        forall|i: int| 0 <= i < ids.len() ==> s.contains(#[trigger] ids[i]),
    ensures
        set_add_all(s, ids) == s,
    decreases ids.len(),
{
    if ids.len() > 0 {
        assert forall|i: int| 0 <= i < ids.drop_last().len() implies s.contains(#[trigger] ids.drop_last()[i]) by {
            assert(ids.drop_last()[i] == ids[i]);
        }
        lemma_add_present(s, ids.drop_last());
        assert(s.contains(ids[ids.len() - 1]));
    }
}

/// Adding the same identifiers twice adds nothing more than once, and adding
/// none changes nothing.
pub proof fn law_add_all_idempotent(s: Seq<AuctionId>, ids: Seq<AuctionId>)
    ensures
        set_add_all(set_add_all(s, ids), ids) == set_add_all(s, ids),
        set_add_all(s, Seq::empty()) == s,
{
    let r = set_add_all(s, ids);
    lemma_set_add_all(s, ids);
    assert forall|i: int| 0 <= i < ids.len() implies r.contains(#[trigger] ids[i]) by {
        assert(ids.contains(ids[i]));
    }
    lemma_add_present(r, ids);
}

/// Whether `v` holds `x`.
pub fn contains_id(v: &Vec<AuctionId>, x: AuctionId) -> (r: bool)
    ensures
        r == v@.contains(x),
{
    let mut i: usize = 0;
    while i < v.len()
        invariant
            0 <= i <= v.len(),
            forall|j: int| 0 <= j < i ==> v@[j] != x,
        decreases v.len() - i,
    {
        if v[i] == x {
            assert(v@[i as int] == x);
            return true;
        }
        i = i + 1;
    }
    false
}

/// `stored` after adding each of `ids` that it does not hold yet.
pub fn add_all(stored: Vec<AuctionId>, ids: &Vec<AuctionId>) -> (r: Vec<AuctionId>)
    ensures
        r@ == set_add_all(stored@, ids@),
{
    let mut out = stored;
    let ghost s0 = out@;
    let mut i: usize = 0;
    while i < ids.len()
        invariant
            0 <= i <= ids.len(),
            out@ == set_add_all(s0, ids@.take(i as int)),
        decreases ids.len() - i,
    {
        let id = ids[i];
        assert(ids@.take(i + 1).drop_last() =~= ids@.take(i as int));
        assert(ids@.take(i + 1).last() == id);
        if !contains_id(&out, id) {
            out.push(id);
        }
        i = i + 1;
    }
    assert(ids@.take(ids.len() as int) =~= ids@);
    out
}

/// `stored` without any identifier that `ids` holds.
pub fn remove_all(stored: &Vec<AuctionId>, ids: &Vec<AuctionId>) -> (r: Vec<AuctionId>)
    ensures
        r@ == without_all(stored@, ids@),
{
    let ghost p = not_in(ids@);
    let mut out: Vec<AuctionId> = Vec::new();
    let mut i: usize = 0;
    while i < stored.len()
        invariant
            0 <= i <= stored.len(),
            p == not_in(ids@),
            out@ == stored@.take(i as int).filter(p),
        decreases stored.len() - i,
    {
        let x = stored[i];
        reveal_with_fuel(Seq::filter, 1);
        assert(stored@.take(i + 1).drop_last() =~= stored@.take(i as int));
        assert(stored@.take(i + 1).last() == x);
        let keep = !contains_id(ids, x);
        if keep {
            out.push(x);
        }
        assert(stored@.take(i + 1).filter(p) == (if p(x) {
            stored@.take(i as int).filter(p).push(x)
        } else {
            stored@.take(i as int).filter(p)
        }));
        i = i + 1;
    }
    assert(stored@.take(stored.len() as int) =~= stored@);
    out
}

} // verus!
