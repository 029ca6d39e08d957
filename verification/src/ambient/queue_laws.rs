//! Laws of the queue of scheduled items.

use crate::ambient::persistence::{
    claimed, claims, filter_of_none, in_delivery_order, left, ties, Claim,
};
use crate::ambient::types::ScheduledItem;
use crate::time::Timestamp;
use vstd::prelude::*;

verus! {

proof fn count_among_ties(items: Seq<ScheduledItem>, x: ScheduledItem)
    ensures
        items.to_multiset().count(x) == ties(items, x).to_multiset().count(x),
    decreases items.len(),
{
    broadcast use vstd::seq_lib::group_to_multiset_ensures;

    reveal(Seq::filter);
    if items.len() > 0 {
        count_among_ties(items.drop_last(), x);
        assert(items =~= items.drop_last().push(items.last()));
    } else {
        assert(items =~= ties(items, x));
    }
}

/// Delivery order only reorders: nothing is lost, added or doubled.
pub proof fn delivery_order_keeps_every_item(items: Seq<ScheduledItem>, out: Seq<ScheduledItem>)
    requires
        in_delivery_order(items, out),
    ensures
        out.to_multiset() == items.to_multiset(),
        out.len() == items.len(),
{
    assert forall|x: ScheduledItem| #[trigger] out.to_multiset().count(x)
        == items.to_multiset().count(x) by {
        count_among_ties(items, x);
        count_among_ties(out, x);
        assert(ties(out, x) == ties(items, x));
    }
    assert(out.to_multiset() =~= items.to_multiset());
    out.to_multiset_ensures();
    items.to_multiset_ensures();
}

proof fn filter_splits<A>(s: Seq<A>, f: spec_fn(A) -> bool, g: spec_fn(A) -> bool)
    requires
        forall|x: A| #[trigger] g(x) == !f(x),
    ensures
        s.filter(f).to_multiset().add(s.filter(g).to_multiset()) == s.to_multiset(),
    decreases s.len(),
{
    broadcast use vstd::seq_lib::group_to_multiset_ensures;

    reveal(Seq::filter);
    if s.len() > 0 {
        filter_splits(s.drop_last(), f, g);
        assert(s =~= s.drop_last().push(s.last()));
        assert(g(s.last()) == !f(s.last()));
        assert(s.filter(f).to_multiset().add(s.filter(g).to_multiset()) =~= s.to_multiset());
    } else {
        assert(s.filter(f) =~= s);
        assert(s.filter(g) =~= s);
        assert(s.filter(f).to_multiset().add(s.filter(g).to_multiset()) =~= s.to_multiset());
    }
}

/// A claim loses nothing: what it takes and what it leaves make up the queue.
pub proof fn a_claim_loses_nothing(items: Seq<ScheduledItem>, claim: Claim, now: Timestamp)
    ensures
        claimed(items, claim, now).to_multiset().add(left(items, claim, now).to_multiset())
            == items.to_multiset(),
{
    filter_splits(
        items,
        |i: ScheduledItem| claims(claim, i, now),
        |i: ScheduledItem| !claims(claim, i, now),
    );
}

/// A claimed item does not stay behind, so that no later claim gets it again;
/// an item that is not due, or not asked for, stays.
pub proof fn a_claim_takes_what_it_names(items: Seq<ScheduledItem>, claim: Claim, now: Timestamp)
    ensures
        forall|i: ScheduledItem| #[trigger] left(items, claim, now).contains(i) <==> items.contains(i)
            && !claims(claim, i, now),
        forall|i: ScheduledItem| #[trigger]
            claimed(items, claim, now).contains(i) <==> items.contains(i) && claims(claim, i, now),
        claimed(left(items, claim, now), claim, now).len() == 0,
{
    let f = |i: ScheduledItem| claims(claim, i, now);
    let g = |i: ScheduledItem| !claims(claim, i, now);
    filter_members(items, f);
    filter_members(items, g);
    filter_of_none_but(items.filter(g), f);
}

pub proof fn filter_members<A>(s: Seq<A>, f: spec_fn(A) -> bool)
    ensures
        forall|x: A| #[trigger] s.filter(f).contains(x) <==> s.contains(x) && f(x),
    decreases s.len(),
{
    reveal(Seq::filter);
    if s.len() > 0 {
        filter_members(s.drop_last(), f);
        let rest = s.drop_last();
        assert forall|x: A| #[trigger] s.filter(f).contains(x) <==> s.contains(x) && f(x) by {
            if s.contains(x) {
                let i = s.index_of(x);
                if i < rest.len() {
                    assert(rest[i] == x);
                    assert(rest.contains(x));
                }
            }
            if rest.contains(x) {
                let i = rest.index_of(x);
                assert(s[i] == x);
            }
            assert(s.contains(s.last()));
            if f(s.last()) {
                let sub = rest.filter(f);
                assert(s.filter(f) == sub.push(s.last()));
                if sub.contains(x) {
                    let i = sub.index_of(x);
                    assert(s.filter(f)[i] == x);
                }
                assert(s.filter(f)[sub.len() as int] == s.last());
                if s.filter(f).contains(x) {
                    let i = s.filter(f).index_of(x);
                    if i < sub.len() {
                        assert(sub[i] == x);
                    }
                }
            }
        }
    }
}

proof fn filter_of_none_but(s: Seq<ScheduledItem>, f: spec_fn(ScheduledItem) -> bool)
    requires
        forall|x: ScheduledItem| s.contains(x) ==> !#[trigger] f(x),
    ensures
        s.filter(f).len() == 0,
{
    assert forall|i: int| 0 <= i < s.len() implies !f(#[trigger] s[i]) by {
        assert(s.contains(s[i]));
    }
    filter_of_none(s, f);
}

/// Direct and ambient claims divide the due items between them: one after the
/// other they leave what a claim of everything leaves.
pub proof fn direct_and_ambient_are_complements(items: Seq<ScheduledItem>, now: Timestamp)
    ensures
        left(left(items, Claim::Direct, now), Claim::Ambient, now) == left(items, Claim::Any, now),
        left(left(items, Claim::Ambient, now), Claim::Direct, now) == left(items, Claim::Any, now),
        claimed(items, Claim::Direct, now).len() + claimed(items, Claim::Ambient, now).len()
            == claimed(items, Claim::Any, now).len(),
    decreases items.len(),
{
    reveal(Seq::filter);
    if items.len() > 0 {
        direct_and_ambient_are_complements(items.drop_last(), now);
        let d = left(items.drop_last(), Claim::Direct, now);
        let a = left(items.drop_last(), Claim::Ambient, now);
        assert(d.push(items.last()).drop_last() =~= d);
        assert(a.push(items.last()).drop_last() =~= a);
    }
}

/// The items of two lists put together.
pub proof fn multiset_of_sum(a: Seq<ScheduledItem>, b: Seq<ScheduledItem>)
    ensures
        (a + b).to_multiset() == a.to_multiset().add(b.to_multiset()),
    decreases b.len(),
{
    broadcast use vstd::seq_lib::group_to_multiset_ensures;

    if b.len() == 0 {
        assert(a + b =~= a);
        assert((a + b).to_multiset() =~= a.to_multiset().add(b.to_multiset()));
    } else {
        multiset_of_sum(a, b.drop_last());
        assert(a + b =~= (a + b.drop_last()).push(b.last()));
        assert(b =~= b.drop_last().push(b.last()));
        assert((a + b).to_multiset() =~= a.to_multiset().add(b.to_multiset()));
    }
}

/// A claim takes exactly the items of the queue whose time has come and that it
/// asks for: all of them, those for a session, or those for an ambient cycle.
pub proof fn only_due_items_are_claimed(items: Seq<ScheduledItem>, now: Timestamp, x: ScheduledItem)
    ensures
        claimed(items, Claim::Any, now).contains(x) <==> items.contains(x) && x.scheduled_for.nanos
            <= now.nanos,
        claimed(items, Claim::Direct, now).contains(x) <==> items.contains(x)
            && x.scheduled_for.nanos <= now.nanos && !(x.target is Ambient),
        claimed(items, Claim::Ambient, now).contains(x) <==> items.contains(x)
            && x.scheduled_for.nanos <= now.nanos && x.target is Ambient,
{
    a_claim_takes_what_it_names(items, Claim::Any, now);
    a_claim_takes_what_it_names(items, Claim::Direct, now);
    a_claim_takes_what_it_names(items, Claim::Ambient, now);
}

/// Urgent items are handed out first, and among items of one priority the one that
/// was due first.
pub proof fn urgent_items_come_first(
    items: Seq<ScheduledItem>,
    out: Seq<ScheduledItem>,
    i: int,
    j: int,
)
    requires
        in_delivery_order(items, out),
        0 <= i < j < out.len(),
    ensures
        out[j].priority is High ==> out[i].priority is High,
        out[i].priority is Low ==> out[j].priority is Low,
        out[i].priority == out[j].priority ==> out[i].scheduled_for.nanos
            <= out[j].scheduled_for.nanos,
{
    assert(!crate::ambient::persistence::goes_before(out[j], out[i]));
}

/// What a filter keeps is what meets its condition.
pub(crate) proof fn members_of_filter<T>(s: Seq<T>, keep: spec_fn(T) -> bool, x: T)
    ensures
        s.filter(keep).contains(x) <==> s.contains(x) && keep(x),
    decreases s.len(),
{
    reveal(Seq::filter);
    if s.len() > 0 {
        let rest = s.drop_last();
        members_of_filter(rest, keep, x);
        assert(rest.push(s.last()) =~= s);
        vstd::seq_lib::lemma_seq_contains_after_push(rest, s.last(), x);
        vstd::seq_lib::lemma_seq_contains_after_push(rest.filter(keep), s.last(), x);
    }
}

} // verus!
