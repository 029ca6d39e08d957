//! A set of texts.

use crate::text::{owned, str_eq};
use vstd::prelude::*;

verus! {

/// A set of texts.
#[derive(Debug)]
pub struct TextSet {
    pub entries: Vec<String>,
}

/// `k` is among the entries.
pub open spec fn lists(entries: Seq<String>, k: Seq<char>) -> bool {
    exists|i: int| 0 <= i < entries.len() && (#[trigger] entries[i])@ == k
}

impl View for TextSet {
    type V = Set<Seq<char>>;

    open spec fn view(&self) -> Set<Seq<char>> {
        Set::new(|k: Seq<char>| lists(self.entries@, k))
    }
}

impl TextSet {
    /// No text is held twice.
    pub open spec fn well_formed(&self) -> bool {
        forall|i: int, j: int|
            0 <= i < j < self.entries@.len() ==> (#[trigger] self.entries@[i])@ != (#[trigger] self.entries@[j])@
    }

    pub fn new() -> (r: TextSet)
        ensures
            r.well_formed(),
            r@ == Set::<Seq<char>>::empty(),
    {
        let r = TextSet { entries: Vec::new() };
        assert(r@ =~= Set::<Seq<char>>::empty());
        r
    }

    fn find(&self, text: &str) -> (r: Option<usize>)
        ensures
            match r {
                Some(i) => i < self.entries@.len() && self.entries@[i as int]@ == text@,
                None => !lists(self.entries@, text@),
            },
    {
        let mut i: usize = 0;
        while i < self.entries.len()
            invariant
                i <= self.entries@.len(),
                forall|j: int| 0 <= j < i ==> (#[trigger] self.entries@[j])@ != text@,
            decreases self.entries@.len() - i,
        {
            if str_eq(self.entries[i].as_str(), text) {
                return Some(i);
            }
            i = i + 1;
        }
        None
    }

    pub fn contains(&self, text: &str) -> (r: bool)
        ensures
            r == self@.contains(text@),
    {
        self.find(text).is_some()
    }

    /// Adds a text. Returns whether it was not there before.
    pub fn insert(&mut self, text: &str) -> (added: bool)
        requires
            old(self).well_formed(),
        ensures
            final(self).well_formed(),
            final(self)@ == old(self)@.insert(text@),
            added == !old(self)@.contains(text@),
    {
        if self.contains(text) {
            assert(self@.insert(text@) =~= self@);
            return false;
        }
        let ghost was = self.entries@;
        self.entries.push(owned(text));
        proof {
            let now = self.entries@;
            assert(now.last()@ == text@);
            assert forall|i: int, j: int| 0 <= i < j < now.len() implies (#[trigger] now[i])@ != (
            #[trigger] now[j])@ by {
                assert(now[i] == was[i]);
                if j < was.len() {
                    assert(now[j] == was[j]);
                } else {
                    assert(lists(was, was[i]@));
                }
            }
            assert forall|k: Seq<char>| lists(now, k) == (lists(was, k) || k == text@) by {
                if lists(was, k) {
                    let i = choose|i: int| 0 <= i < was.len() && (#[trigger] was[i])@ == k;
                    assert(now[i]@ == k);
                }
                if k == text@ {
                    assert(now[was.len() as int]@ == k);
                }
                if lists(now, k) {
                    let i = choose|i: int| 0 <= i < now.len() && (#[trigger] now[i])@ == k;
                    if i < was.len() {
                        assert(was[i]@ == k);
                    }
                }
            }
            assert(self@ =~= old(self)@.insert(text@));
        }
        true
    }

    /// Takes a text out.
    pub fn remove(&mut self, text: &str)
        requires
            old(self).well_formed(),
        ensures
            final(self).well_formed(),
            final(self)@ == old(self)@.remove(text@),
    {
        let ghost was = self.entries@;
        match self.find(text) {
            Some(i) => {
                self.entries.remove(i);
                proof {
                    let now = self.entries@;
                    let p = i as int;
                    assert forall|a: int, b: int| 0 <= a < b < now.len() implies (
                    #[trigger] now[a])@ != (#[trigger] now[b])@ by {
                        let a0 = if a < p { a } else { a + 1 };
                        let b0 = if b < p { b } else { b + 1 };
                        assert(was[a0]@ != was[b0]@);
                    }
                    assert forall|k: Seq<char>| lists(now, k) == (lists(was, k) && k != text@) by {
                        if lists(now, k) {
                            let a = choose|a: int| 0 <= a < now.len() && (#[trigger] now[a])@ == k;
                            let a0 = if a < p { a } else { a + 1 };
                            assert(was[a0]@ == k);
                            if a0 < p {
                                assert(was[a0]@ != was[p]@);
                            } else {
                                assert(was[p]@ != was[a0]@);
                            }
                        }
                        if lists(was, k) && k != text@ {
                            let a = choose|a: int| 0 <= a < was.len() && (#[trigger] was[a])@ == k;
                            let a0 = if a < p { a } else { a - 1 };
                            assert(now[a0]@ == k);
                        }
                    }
                    assert(self@ =~= old(self)@.remove(text@));
                }
            },
            None => {
                assert(self@ =~= old(self)@.remove(text@));
            },
        }
    }
}

} // verus!
