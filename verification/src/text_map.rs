//! A map keyed by text, kept in key order.

use crate::text::{owned, str_eq, str_lt, text_lt, text_lt_total, text_lt_transitive};
use vstd::prelude::*;

verus! {

/// A map from text to values. Entries are in strictly ascending key order, so
/// that no key occurs twice.
#[derive(Debug)]
pub struct TextMap<V> {
    pub entries: Vec<(String, V)>,
}

/// The keys ascend strictly.
pub open spec fn ascending<V>(entries: Seq<(String, V)>) -> bool {
    forall|i: int, j: int|
        0 <= i < j < entries.len() ==> text_lt((#[trigger] entries[i]).0@, (#[trigger] entries[j]).0@)
}

/// One of the entries has the key `k`.
pub open spec fn has_key<V>(entries: Seq<(String, V)>, k: Seq<char>) -> bool {
    exists|i: int| 0 <= i < entries.len() && (#[trigger] entries[i]).0@ == k
}

/// The position of an entry with the key `k`.
pub open spec fn position<V>(entries: Seq<(String, V)>, k: Seq<char>) -> int {
    choose|i: int| 0 <= i < entries.len() && (#[trigger] entries[i]).0@ == k
}

impl<V> View for TextMap<V> {
    type V = Map<Seq<char>, V>;

    open spec fn view(&self) -> Map<Seq<char>, V> {
        Map::new(
            |k: Seq<char>| has_key(self.entries@, k),
            |k: Seq<char>| self.entries@[position(self.entries@, k)].1,
        )
    }
}

/// In an ascending list the entry at `i` is the one its key leads to.
pub proof fn key_leads_to<V>(m: TextMap<V>, i: int)
    requires
        ascending(m.entries@),
        0 <= i < m.entries@.len(),
    ensures
        m@.dom().contains(m.entries@[i].0@),
        m@[m.entries@[i].0@] == m.entries@[i].1,
{
    let e = m.entries@;
    let k = e[i].0@;
    assert(has_key(e, k));
    let p = position(e, k);
    if p < i {
        assert(text_lt(e[p].0@, e[i].0@));
    } else if i < p {
        assert(text_lt(e[i].0@, e[p].0@));
    }
    text_lt_total(k, k);
}

impl<V> TextMap<V> {
    pub open spec fn well_formed(&self) -> bool {
        ascending(self.entries@)
    }

    pub fn new() -> (r: TextMap<V>)
        ensures
            r.well_formed(),
            r@ == Map::<Seq<char>, V>::empty(),
            r.entries@.len() == 0,
    {
        let r = TextMap { entries: Vec::new() };
        assert(r@ =~= Map::<Seq<char>, V>::empty());
        r
    }

    pub fn is_empty(&self) -> (r: bool)
        ensures
            r == (self.entries@.len() == 0),
            r == (forall|k: Seq<char>| !#[trigger] self@.dom().contains(k)),
    {
        let r = self.entries.len() == 0;
        proof {
            if !r {
                assert(has_key(self.entries@, self.entries@[0].0@));
                assert(self@.dom().contains(self.entries@[0].0@));
            }
        }
        r
    }

    /// The position of `key`, or of the first key behind it.
    fn seek(&self, key: &str) -> (r: usize)
        requires
            self.well_formed(),
        ensures
            r <= self.entries@.len(),
            forall|i: int| 0 <= i < r ==> text_lt((#[trigger] self.entries@[i]).0@, key@),
            forall|i: int|
                r <= i < self.entries@.len() ==> !text_lt((#[trigger] self.entries@[i]).0@, key@),
    {
        let mut i: usize = 0;
        while i < self.entries.len() && str_lt(self.entries[i].0.as_str(), key)
            invariant
                i <= self.entries@.len(),
                forall|j: int| 0 <= j < i ==> text_lt((#[trigger] self.entries@[j]).0@, key@),
            decreases self.entries@.len() - i,
        {
            i = i + 1;
        }
        proof {
            assert forall|j: int| i <= j < self.entries@.len() implies !text_lt(
                (#[trigger] self.entries@[j]).0@,
                key@,
            ) by {
                if j > i && text_lt(self.entries@[j].0@, key@) {
                    text_lt_transitive(
                        self.entries@[i as int].0@,
                        self.entries@[j].0@,
                        key@,
                    );
                }
            }
        }
        i
    }

    /// The value of `key`.
    pub fn get(&self, key: &str) -> (r: Option<&V>)
        requires
            self.well_formed(),
        ensures
            match r {
                Some(v) => self@.dom().contains(key@) && self@[key@] == *v,
                None => !self@.dom().contains(key@),
            },
    {
        let p = self.seek(key);
        if p < self.entries.len() && str_eq(self.entries[p].0.as_str(), key) {
            proof {
                key_leads_to(*self, p as int);
            }
            Some(&self.entries[p].1)
        } else {
            proof {
                if has_key(self.entries@, key@) {
                    let i = position(self.entries@, key@);
                    text_lt_total(key@, key@);
                    if p < i {
                        assert(text_lt(self.entries@[p as int].0@, key@));
                    }
                }
            }
            None
        }
    }

    /// Gives `key` the value `value`.
    pub fn insert(&mut self, key: String, value: V)
        requires
            old(self).well_formed(),
        ensures
            final(self).well_formed(),
            final(self)@ == old(self)@.insert(key@, value),
    {
        let ghost was = self.entries@;
        let ghost old_map = *self;
        let p = self.seek(key.as_str());
        let ghost k = key@;
        let present = p < self.entries.len() && str_eq(self.entries[p].0.as_str(), key.as_str());
        if present {
            let _ = self.entries.remove(p);
            self.entries.insert(p, (key, value));
            proof {
                let now = self.entries@;
                assert(now =~= was.update(p as int, now[p as int]));
                assert forall|i: int, j: int| 0 <= i < j < now.len() implies text_lt(
                    (#[trigger] now[i]).0@,
                    (#[trigger] now[j]).0@,
                ) by {
                    assert(text_lt(was[i].0@, was[j].0@));
                }
                same_keys_but_one(old_map, *self, p as int);
            }
        } else {
            self.entries.insert(p, (key, value));
            proof {
                let now = self.entries@;
                assert forall|i: int| 0 <= i < was.len() implies (#[trigger] was[i]).0@ != k by {
                    if was[i].0@ == k {
                        text_lt_total(k, k);
                        if p < i {
                            assert(text_lt(was[p as int].0@, k));
                        }
                    }
                }
                assert forall|i: int, j: int| 0 <= i < j < now.len() implies text_lt(
                    (#[trigger] now[i]).0@,
                    (#[trigger] now[j]).0@,
                ) by {
                    let a = if i < p { i } else { i - 1 };
                    let b = if j < p { j } else { j - 1 };
                    if i == p {
                        assert(now[j] == was[b]);
                        text_lt_total(was[b].0@, k);
                    } else if j == p {
                        assert(now[i] == was[a]);
                    } else {
                        assert(now[i] == was[a]);
                        assert(now[j] == was[b]);
                        assert(text_lt(was[a].0@, was[b].0@));
                    }
                }
                one_key_more(old_map, *self, p as int);
            }
        }
    }

    /// The value of `key`, to be changed in place. A key without a value gets
    /// `vacant` first.
    pub fn slot(&mut self, key: &str, vacant: V) -> (r: &mut V)
        requires
            old(self).well_formed(),
        ensures
            *r == (if old(self)@.dom().contains(key@) {
                old(self)@[key@]
            } else {
                vacant
            }),
            final(self).well_formed(),
            final(self)@ == old(self)@.insert(key@, *final(r)),
    {
        let ghost start = self@;
        if self.get(key).is_none() {
            self.insert(owned(key), vacant);
        }
        let p = self.seek(key);
        let ghost before = *self;
        proof {
            let e = before.entries@;
            assert(before@.dom().contains(key@));
            let i = position(e, key@);
            text_lt_total(key@, key@);
            if p < i {
                assert(text_lt(e[p as int].0@, e[i].0@));
            }
            assert(i == p);
            key_leads_to(before, p as int);
            assert forall|b: TextMap<V>|
                #![trigger b.view()]
                b.entries@ == e.update(p as int, (e[p as int].0, b.entries@[p as int].1)) implies {
                &&& b.well_formed()
                &&& b@ == start.insert(key@, b.entries@[p as int].1)
            } by {
                assert forall|i: int, j: int| 0 <= i < j < b.entries@.len() implies text_lt(
                    (#[trigger] b.entries@[i]).0@,
                    (#[trigger] b.entries@[j]).0@,
                ) by {
                    assert(text_lt(e[i].0@, e[j].0@));
                }
                same_keys_but_one(before, b, p as int);
                assert(b@ =~= start.insert(key@, b.entries@[p as int].1));
            }
        }
        &mut self.entries[p].1
    }
}

proof fn same_keys_but_one<V>(a: TextMap<V>, b: TextMap<V>, p: int)
    requires
        ascending(a.entries@),
        ascending(b.entries@),
        0 <= p < a.entries@.len(),
        b.entries@.len() == a.entries@.len(),
        b.entries@[p].0@ == a.entries@[p].0@,
        forall|i: int| 0 <= i < a.entries@.len() && i != p ==> #[trigger] b.entries@[i] == a.entries@[i],
    ensures
        b@ == a@.insert(b.entries@[p].0@, b.entries@[p].1),
{
    let k = b.entries@[p].0@;
    let target = a@.insert(k, b.entries@[p].1);
    assert forall|x: Seq<char>| #[trigger] b@.dom().contains(x) <==> target.dom().contains(x) by {
        if has_key(b.entries@, x) {
            let i = position(b.entries@, x);
            if i != p {
                assert(a.entries@[i].0@ == x);
            }
        }
        if has_key(a.entries@, x) {
            let i = position(a.entries@, x);
            assert(b.entries@[i].0@ == x);
        }
        if x == k {
            assert(b.entries@[p].0@ == x);
        }
    }
    assert forall|x: Seq<char>| #[trigger] b@.dom().contains(x) implies b@[x] == target[x] by {
        let i = position(b.entries@, x);
        assert(b.entries@[i].0@ == x);
        key_leads_to(b, i);
        if i == p {
        } else {
            assert(b.entries@[i] == a.entries@[i]);
            key_leads_to(a, i);
            if x == k {
                key_leads_to(b, p);
                if i < p {
                    assert(text_lt(b.entries@[i].0@, b.entries@[p].0@));
                } else {
                    assert(text_lt(b.entries@[p].0@, b.entries@[i].0@));
                }
                text_lt_total(k, k);
            }
        }
    }
    assert(b@ =~= target);
}

proof fn one_key_more<V>(a: TextMap<V>, b: TextMap<V>, p: int)
    requires
        ascending(a.entries@),
        ascending(b.entries@),
        0 <= p <= a.entries@.len(),
        b.entries@ == a.entries@.insert(p, b.entries@[p]),
        forall|i: int| 0 <= i < a.entries@.len() ==> (#[trigger] a.entries@[i]).0@ != b.entries@[p].0@,
    ensures
        b@ == a@.insert(b.entries@[p].0@, b.entries@[p].1),
{
    let k = b.entries@[p].0@;
    let target = a@.insert(k, b.entries@[p].1);
    assert forall|i: int| 0 <= i < b.entries@.len() && i != p implies #[trigger] b.entries@[i]
        == a.entries@[if i < p { i } else { i - 1 }] by {}
    assert forall|x: Seq<char>| #[trigger] b@.dom().contains(x) <==> target.dom().contains(x) by {
        if has_key(b.entries@, x) {
            let i = position(b.entries@, x);
            if i != p {
                let j = if i < p { i } else { i - 1 };
                assert(a.entries@[j].0@ == x);
            }
        }
        if has_key(a.entries@, x) {
            let i = position(a.entries@, x);
            let j = if i < p { i } else { i + 1 };
            assert(b.entries@[j].0@ == x);
        }
        if x == k {
            assert(b.entries@[p].0@ == x);
        }
    }
    assert forall|x: Seq<char>| #[trigger] b@.dom().contains(x) implies b@[x] == target[x] by {
        let i = position(b.entries@, x);
        assert(b.entries@[i].0@ == x);
        key_leads_to(b, i);
        if i != p {
            let j = if i < p { i } else { i - 1 };
            assert(b.entries@[i] == a.entries@[j]);
            key_leads_to(a, j);
        }
    }
    assert(b@ =~= target);
}

} // verus!
