//! Stable sorting by an order that a type has.

use vstd::prelude::*;

verus! {

/// A type whose values have an order of rank. Values may tie.
pub trait Ranked: Sized {
    /// `self` goes before `other`.
    spec fn ranks_before(self, other: Self) -> bool;

    /// Whether `self` goes before `other`.
    fn comes_before(&self, other: &Self) -> (r: bool)
        ensures
            r == self.ranks_before(*other),
    ;

    /// The order is a strict one in which ties are transitive.
    proof fn rank_is_strict(a: Self, b: Self, c: Self)
        ensures
            !a.ranks_before(a),
            a.ranks_before(b) ==> !b.ranks_before(a),
            a.ranks_before(b) && b.ranks_before(c) ==> a.ranks_before(c),
            !a.ranks_before(b) && !b.ranks_before(c) ==> !a.ranks_before(c),
    ;
}

/// Where `x` goes in a list in rank order: behind everything it does not go
/// before.
pub open spec fn rank_slot<T: Ranked>(s: Seq<T>, x: T) -> int
    decreases s.len(),
{
    if s.len() == 0 {
        0
    } else if x.ranks_before(s.last()) {
        rank_slot(s.drop_last(), x)
    } else {
        s.len() as int
    }
}

/// The list in rank order; what ties keeps its order.
pub open spec fn ranked<T: Ranked>(s: Seq<T>) -> Seq<T>
    decreases s.len(),
{
    if s.len() == 0 {
        s
    } else {
        let rest = ranked(s.drop_last());
        rest.insert(rank_slot(rest, s.last()), s.last())
    }
}

proof fn slot_in_range<T: Ranked>(s: Seq<T>, x: T)
    ensures
        0 <= rank_slot(s, x) <= s.len(),
        forall|i: int| rank_slot(s, x) <= i < s.len() ==> x.ranks_before(#[trigger] s[i]),
        rank_slot(s, x) > 0 ==> !x.ranks_before(s[rank_slot(s, x) - 1]),
    decreases s.len(),
{
    if s.len() > 0 && x.ranks_before(s.last()) {
        slot_in_range(s.drop_last(), x);
        assert forall|i: int| rank_slot(s, x) <= i < s.len() implies x.ranks_before(
            #[trigger] s[i],
        ) by {
            if i < s.len() - 1 {
                assert(s[i] == s.drop_last()[i]);
            }
        }
    }
}

/// Sorting keeps every value: the sorted list holds the same ones, as often.
pub proof fn ranking_keeps_everything<T: Ranked>(s: Seq<T>)
    ensures
        ranked(s).len() == s.len(),
        ranked(s).to_multiset() == s.to_multiset(),
    decreases s.len(),
{
    if s.len() > 0 {
        let rest = ranked(s.drop_last());
        ranking_keeps_everything(s.drop_last());
        slot_in_range(rest, s.last());
        vstd::seq_lib::to_multiset_insert(rest, rank_slot(rest, s.last()), s.last());
        vstd::seq_lib::to_multiset_build(s.drop_last(), s.last());
        assert(s =~= s.drop_last().push(s.last()));
    }
}

/// Sorting puts the values in rank order.
pub proof fn ranking_is_in_order<T: Ranked>(s: Seq<T>)
    ensures
        forall|i: int, j: int|
            0 <= i < j < ranked(s).len() ==> !(#[trigger] ranked(s)[j]).ranks_before(
                #[trigger] ranked(s)[i],
            ),
    decreases s.len(),
{
    if s.len() > 0 {
        let rest = ranked(s.drop_last());
        let x = s.last();
        let p = rank_slot(rest, x);
        ranking_is_in_order(s.drop_last());
        slot_in_range(rest, x);
        let all = ranked(s);
        assert forall|i: int, j: int| 0 <= i < j < all.len() implies !(
        #[trigger] all[j]).ranks_before(#[trigger] all[i]) by {
            let i0 = if i < p { i } else { i - 1 };
            let j0 = if j < p { j } else { j - 1 };
            if i == p {
                assert(all[i] == x && all[j] == rest[j0]);
                T::rank_is_strict(x, rest[j0], x);
            } else if j == p {
                assert(all[j] == x && all[i] == rest[i0]);
                if i0 < p - 1 {
                    assert(!rest[p - 1].ranks_before(rest[i0]));
                    T::rank_is_strict(x, rest[p - 1], rest[i0]);
                }
            } else {
                assert(all[i] == rest[i0] && all[j] == rest[j0]);
            }
        }
    }
}

/// Sorts by rank, keeping the order of what ties.
pub fn sort_by_rank<T: Ranked>(items: Vec<T>) -> (r: Vec<T>)
    ensures
        r@ == ranked(items@),
{
    let ghost all = items@;
    let mut out: Vec<T> = Vec::new();
    assert(all.take(0) =~= Seq::<T>::empty());
    for x in it: items
        invariant
            it.seq() == all,
            out@ == ranked(all.take(it.index() as int)),
    {
        let ghost n = it.index() as int;
        proof {
            assert(all.take(n + 1).drop_last() =~= all.take(n));
            assert(all.take(n + 1).last() == x);
            slot_in_range(out@, x);
        }
        let mut k: usize = out.len();
        assert(out@.take(out@.len() as int) =~= out@);
        while k > 0 && x.comes_before(&out[k - 1])
            invariant
                k <= out@.len(),
                rank_slot(out@, x) == rank_slot(out@.take(k as int), x),
            decreases k,
        {
            assert(out@.take(k as int).drop_last() =~= out@.take(k - 1));
            k = k - 1;
        }
        assert(k > 0 ==> out@.take(k as int).last() == out@[k - 1]);
        out.insert(k, x);
    }
    assert(all.take(all.len() as int) =~= all);
    out
}

/// The first `limit` items of a list.
pub open spec fn first_of<T>(s: Seq<T>, limit: nat) -> Seq<T> {
    if s.len() <= limit {
        s
    } else {
        s.take(limit as int)
    }
}

/// The first `limit` items in rank order.
pub fn top_by_rank<T: Ranked>(items: Vec<T>, limit: usize) -> (r: Vec<T>)
    ensures
        r@ == first_of(ranked(items@), limit as nat),
{
    let mut out = sort_by_rank(items);
    if out.len() > limit {
        out.truncate(limit);
    }
    assert(out@ =~= first_of(ranked(items@), limit as nat));
    out
}

} // verus!
