//! Whose turn it is: when each project may run its next cycle.

use crate::text::{opt_view, text_lt, text_lt_total};
use crate::text_map::{has_key, key_leads_to, position, TextMap};
use crate::time::{earlier_of, Timestamp};
use vstd::prelude::*;

verus! {

/// A project key, or `None` for cycles belonging to no project.
pub type ProjectKey = Option<String>;

/// The longest interval that counts, in nanoseconds.
pub const MAX_INTERVAL_NANOS: u128 = 9_223_372_036_854_775_807_000_000;

/// How long an interval keeps a project waiting: one beyond the longest that
/// counts does not.
pub open spec fn delay_of(interval_nanos: u128) -> int {
    if interval_nanos <= MAX_INTERVAL_NANOS {
        interval_nanos as int
    } else {
        0
    }
}

/// When each project is next allowed to run a cycle.
#[derive(Debug)]
pub struct ProjectWakeLedger {
    /// The wake of cycles belonging to no project.
    pub unowned: Option<Timestamp>,
    pub projects: TextMap<Timestamp>,
}

/// The ledger holds a wake for the key.
pub open spec fn holds(l: ProjectWakeLedger, k: Option<Seq<char>>) -> bool {
    match k {
        None => l.unowned is Some,
        Some(p) => l.projects@.dom().contains(p),
    }
}

/// The wake that the ledger holds for the key.
pub open spec fn held_wake(l: ProjectWakeLedger, k: Option<Seq<char>>) -> Timestamp {
    match k {
        None => l.unowned->0,
        Some(p) => l.projects@[p],
    }
}

impl View for ProjectWakeLedger {
    type V = Map<Option<Seq<char>>, Timestamp>;

    open spec fn view(&self) -> Map<Option<Seq<char>>, Timestamp> {
        Map::new(
            |k: Option<Seq<char>>| holds(*self, k),
            |k: Option<Seq<char>>| held_wake(*self, k),
        )
    }
}

/// Cycles without a project come first, then projects by path.
pub open spec fn key_lt(a: Option<Seq<char>>, b: Option<Seq<char>>) -> bool {
    match (a, b) {
        (None, Some(_)) => true,
        (Some(x), Some(y)) => text_lt(x, y),
        (_, None) => false,
    }
}

/// The project `k` is due and has waited longest; the smaller key decides among
/// those that have waited as long.
pub open spec fn waited_longest(
    m: Map<Option<Seq<char>>, Timestamp>,
    now: Timestamp,
    k: Option<Seq<char>>,
) -> bool {
    &&& m.dom().contains(k)
    &&& m[k].nanos <= now.nanos
    &&& forall|j: Option<Seq<char>>| #[trigger]
        m.dom().contains(j) && j != k ==> m[k].nanos < m[j].nanos || (m[k].nanos == m[j].nanos && key_lt(
            k,
            j,
        ))
}

/// No project is due.
pub open spec fn none_due(m: Map<Option<Seq<char>>, Timestamp>, now: Timestamp) -> bool {
    forall|k: Option<Seq<char>>| #[trigger] m.dom().contains(k) ==> m[k].nanos > now.nanos
}

/// The wake of `e` is the earliest of the entries up to `n`, and that of no
/// entry before it is as early.
spec fn leads(entries: Seq<(String, Timestamp)>, n: int, e: int) -> bool {
    &&& 0 <= e < n <= entries.len()
    &&& forall|i: int| 0 <= i < n ==> entries[e].1.nanos <= (#[trigger] entries[i]).1.nanos
    &&& forall|i: int| 0 <= i < e ==> entries[e].1.nanos < (#[trigger] entries[i]).1.nanos
}

impl ProjectWakeLedger {
    pub open spec fn well_formed(&self) -> bool {
        self.projects.well_formed()
    }

    pub fn new() -> (r: ProjectWakeLedger)
        ensures
            r.well_formed(),
            r@ == Map::<Option<Seq<char>>, Timestamp>::empty(),
    {
        let r = ProjectWakeLedger { unowned: None, projects: TextMap::new() };
        assert(r@ =~= Map::<Option<Seq<char>>, Timestamp>::empty());
        r
    }

    fn set(&mut self, project: ProjectKey, wake: Timestamp)
        requires
            old(self).well_formed(),
        ensures
            final(self).well_formed(),
            final(self)@ == old(self)@.insert(opt_view(project), wake),
    {
        match project {
            None => {
                self.unowned = Some(wake);
                assert(self@ =~= old(self)@.insert(None, wake));
            },
            Some(p) => {
                let ghost k = p@;
                self.projects.insert(p, wake);
                assert(self@ =~= old(self)@.insert(Some(k), wake));
            },
        }
    }

    /// Registers a project for scheduling, due immediately when it is new.
    pub fn register(&mut self, project: ProjectKey, now: Timestamp)
        requires
            old(self).well_formed(),
        ensures
            final(self).well_formed(),
            final(self)@ == (if old(self)@.dom().contains(opt_view(project)) {
                old(self)@
            } else {
                old(self)@.insert(opt_view(project), now)
            }),
    {
        if self.next_wake_for(&project).is_none() {
            self.set(project, now);
        }
    }

    /// Records that `project` just ran, and is not due again for `interval`.
    pub fn record_cycle(&mut self, project: ProjectKey, now: Timestamp, interval_nanos: u128)
        requires
            old(self).well_formed(),
            now.reaches(delay_of(interval_nanos)),
        ensures
            final(self).well_formed(),
            final(self)@ == old(self)@.insert(
                opt_view(project),
                Timestamp { nanos: (now.nanos + delay_of(interval_nanos)) as i128 },
            ),
    {
        let delay: i128 = if interval_nanos <= MAX_INTERVAL_NANOS {
            interval_nanos as i128
        } else {
            0
        };
        self.set(project, now.plus_nanos(delay));
    }

    pub fn next_wake_for(&self, project: &ProjectKey) -> (r: Option<Timestamp>)
        requires
            self.well_formed(),
        ensures
            match r {
                Some(t) => self@.dom().contains(opt_view(*project)) && self@[opt_view(*project)]
                    == t,
                None => !self@.dom().contains(opt_view(*project)),
            },
    {
        match project {
            None => self.unowned,
            Some(p) => match self.projects.get(p.as_str()) {
                Some(t) => Some(*t),
                None => None,
            },
        }
    }

    /// The position of the project that wakes first.
    fn first_awake(&self) -> (r: Option<usize>)
        requires
            self.well_formed(),
        ensures
            match r {
                Some(e) => leads(
                    self.projects.entries@,
                    self.projects.entries@.len() as int,
                    e as int,
                ),
                None => self.projects.entries@.len() == 0,
            },
    {
        let n = self.projects.entries.len();
        if n == 0 {
            return None;
        }
        let ghost es = self.projects.entries@;
        let mut e: usize = 0;
        let mut i: usize = 1;
        while i < n
            invariant
                n == self.projects.entries@.len(),
                es == self.projects.entries@,
                1 <= i <= n,
                leads(es, i as int, e as int),
            decreases n - i,
        {
            if self.projects.entries[i].1.nanos < self.projects.entries[e].1.nanos {
                e = i;
            }
            i = i + 1;
        }
        Some(e)
    }

    /// The due project that has waited longest, if any.
    pub fn due_project(&self, now: &Timestamp) -> (r: Option<ProjectKey>)
        requires
            self.well_formed(),
        ensures
            match r {
                Some(k) => waited_longest(self@, *now, opt_view(k)),
                None => none_due(self@, *now),
            },
    {
        let ghost es = self.projects.entries@;
        let e = self.first_awake();
        proof {
            if let Some(e) = e {
                first_awake_leads(*self, e as int);
            }
            projects_have_entries(*self);
        }
        match e {
            None => match self.unowned {
                Some(t) if t.nanos <= now.nanos => Some(None),
                _ => None,
            },
            Some(e) => {
                let first = self.projects.entries[e].1;
                let owned_due = first.nanos <= now.nanos;
                match self.unowned {
                    Some(t) if t.nanos <= now.nanos && t.nanos <= first.nanos => Some(None),
                    _ => if owned_due {
                        Some(Some(self.projects.entries[e].0.clone()))
                    } else {
                        None
                    },
                }
            },
        }
    }

    /// The earliest wake time across all projects, for sizing a sleep.
    pub fn earliest_wake(&self) -> (r: Option<Timestamp>)
        requires
            self.well_formed(),
        ensures
            match r {
                Some(t) => (exists|k: Option<Seq<char>>| #[trigger]
                    self@.dom().contains(k) && self@[k] == t) && (forall|k: Option<Seq<char>>|
                    #[trigger] self@.dom().contains(k) ==> t.nanos <= self@[k].nanos),
                None => forall|k: Option<Seq<char>>| !#[trigger] self@.dom().contains(k),
            },
    {
        let e = self.first_awake();
        proof {
            projects_have_entries(*self);
            if let Some(e) = e {
                first_awake_leads(*self, e as int);
            }
            if self.unowned is Some {
                assert(self@.dom().contains(None));
            }
        }
        match e {
            None => self.unowned,
            Some(e) => earlier_of(self.unowned, Some(self.projects.entries[e].1)),
        }
    }

    pub fn is_empty(&self) -> (r: bool)
        ensures
            r == (forall|k: Option<Seq<char>>| !#[trigger] self@.dom().contains(k)),
    {
        let r = self.unowned.is_none() && self.projects.is_empty();
        proof {
            if !r {
                if self.unowned is Some {
                    assert(self@.dom().contains(None));
                } else {
                    let p = choose|p: Seq<char>| #[trigger] self.projects@.dom().contains(p);
                    assert(self@.dom().contains(Some(p)));
                }
            }
        }
        r
    }
}

proof fn projects_have_entries(l: ProjectWakeLedger)
    requires
        l.well_formed(),
    ensures
        forall|k: Option<Seq<char>>| #[trigger] l@.dom().contains(k) && k is Some ==> exists|i: int|
            0 <= i < l.projects.entries@.len() && (#[trigger] l.projects.entries@[i]).0@ == k->0
                && l.projects.entries@[i].1 == l@[k],
{
    assert forall|k: Option<Seq<char>>| #[trigger] l@.dom().contains(k) && k is Some implies exists|i: int|
        0 <= i < l.projects.entries@.len() && (#[trigger] l.projects.entries@[i]).0@ == k->0
            && l.projects.entries@[i].1 == l@[k] by {
        let i = position(l.projects.entries@, k->0);
        assert(has_key(l.projects.entries@, k->0));
        key_leads_to(l.projects, i);
        assert(l.projects.entries@[i].0@ == k->0);
    }
}

/// The project that wakes first goes before every other project.
proof fn first_awake_leads(l: ProjectWakeLedger, e: int)
    requires
        l.well_formed(),
        leads(l.projects.entries@, l.projects.entries@.len() as int, e),
    ensures
        ({
            let k = Some(l.projects.entries@[e].0@);
            let t = l.projects.entries@[e].1;
            &&& l@.dom().contains(k)
            &&& l@[k] == t
            &&& forall|j: Option<Seq<char>>| #[trigger] l@.dom().contains(j) && j is Some && j != k
                ==> t.nanos < l@[j].nanos || (t.nanos == l@[j].nanos && key_lt(k, j))
        }),
{
    let es = l.projects.entries@;
    let k = Some(es[e].0@);
    key_leads_to(l.projects, e);
    projects_have_entries(l);
    assert forall|j: Option<Seq<char>>| #[trigger] l@.dom().contains(j) && j is Some && j != k implies es[e].1.nanos
        < l@[j].nanos || (es[e].1.nanos == l@[j].nanos && key_lt(k, j)) by {
        let i = choose|i: int|
            0 <= i < es.len() && (#[trigger] es[i]).0@ == j->0 && es[i].1 == l@[j];
        if i > e {
            assert(text_lt(es[e].0@, es[i].0@));
        }
    }
}

/// The first key that names a project.
pub open spec fn first_named(keys: Seq<Option<Seq<char>>>) -> Option<Seq<char>>
    decreases keys.len(),
{
    if keys.len() == 0 {
        None
    } else if keys[0] is Some {
        keys[0]
    } else {
        first_named(keys.drop_first())
    }
}

pub open spec fn key_views(keys: Seq<ProjectKey>) -> Seq<Option<Seq<char>>> {
    keys.map_values(|k: ProjectKey| opt_view(k))
}

/// The project a cycle runs as. A due item that is queued for a project decides
/// over the rotation; one that names no project does not.
pub fn select_cycle_project(
    ledger: &ProjectWakeLedger,
    due_items: &Vec<ProjectKey>,
    now: &Timestamp,
) -> (r: ProjectKey)
    requires
        ledger.well_formed(),
    ensures
        match first_named(key_views(due_items@)) {
            Some(p) => opt_view(r) == Some(p),
            None => waited_longest(ledger@, *now, opt_view(r)) || (r is None && none_due(
                ledger@,
                *now,
            )),
        },
{
    let ghost keys = key_views(due_items@);
    let mut i: usize = 0;
    assert(keys.skip(0) =~= keys);
    while i < due_items.len()
        invariant
            i <= due_items@.len(),
            keys == key_views(due_items@),
            first_named(keys) == first_named(keys.skip(i as int)),
        decreases due_items@.len() - i,
    {
        assert(keys.skip(i as int)[0] == opt_view(due_items@[i as int]));
        assert(keys.skip(i as int).drop_first() =~= keys.skip(i + 1));
        if let Some(p) = &due_items[i] {
            return Some(p.clone());
        }
        i = i + 1;
    }
    match ledger.due_project(now) {
        Some(k) => k,
        None => None,
    }
}

// ---------------------------------------------------------------------------
// Laws
// ---------------------------------------------------------------------------

/// A project that just ran cannot take another's turn: as long as some other
/// project is due, the turn does not go to the one that ran, for as long as its
/// interval lasts.
pub proof fn a_busy_project_cannot_starve_another(
    m: Map<Option<Seq<char>>, Timestamp>,
    ran: Option<Seq<char>>,
    waiting: Option<Seq<char>>,
    ran_at: Timestamp,
    interval: int,
    now: Timestamp,
    turn: Option<Seq<char>>,
)
    requires
        ran != waiting,
        ran_at.valid() && ran_at.reaches(interval),
        m.dom().contains(waiting),
        m[waiting].nanos <= now.nanos,
        now.nanos < ran_at.nanos + interval,
        waited_longest(
            m.insert(ran, Timestamp { nanos: (ran_at.nanos + interval) as i128 }),
            now,
            turn,
        ),
    ensures
        turn != ran,
{
}

/// The turn is decided: no two projects have both waited longest.
pub proof fn the_turn_is_unique(
    m: Map<Option<Seq<char>>, Timestamp>,
    now: Timestamp,
    a: Option<Seq<char>>,
    b: Option<Seq<char>>,
)
    requires
        waited_longest(m, now, a),
        waited_longest(m, now, b),
    ensures
        a == b,
{
    if a != b {
        assert(m.dom().contains(a) && m.dom().contains(b));
        match (a, b) {
            (Some(x), Some(y)) => text_lt_total(x, y),
            _ => {},
        }
    }
}

/// A due item that is queued for a project decides: the first of them does,
/// however many items before it name none.
pub proof fn the_first_project_named_decides(keys: Seq<Option<Seq<char>>>, p: Seq<char>)
    ensures
        first_named(keys) == Some(p) <==> exists|k: int|
            0 <= k < keys.len() && #[trigger] keys[k] == Some(p) && forall|i: int|
                0 <= i < k ==> (#[trigger] keys[i]) is None,
        first_named(keys) is None <==> forall|i: int|
            0 <= i < keys.len() ==> (#[trigger] keys[i]) is None,
    decreases keys.len(),
{
    if keys.len() > 0 {
        let rest = keys.drop_first();
        the_first_project_named_decides(rest, p);
        assert forall|i: int| 0 <= i < rest.len() implies #[trigger] rest[i] == keys[i + 1] by {}
        assert forall|i: int| 1 <= i < keys.len() implies #[trigger] keys[i] == rest[i - 1] by {}
        if keys[0] is None && first_named(rest) == Some(p) {
            let k = choose|k: int|
                0 <= k < rest.len() && #[trigger] rest[k] == Some(p) && forall|i: int|
                    0 <= i < k ==> (#[trigger] rest[i]) is None;
            assert(keys[k + 1] == Some(p));
        }
        if keys[0] is None && exists|k: int|
            0 <= k < keys.len() && #[trigger] keys[k] == Some(p) && forall|i: int|
                0 <= i < k ==> (#[trigger] keys[i]) is None {
            let k = choose|k: int|
                0 <= k < keys.len() && #[trigger] keys[k] == Some(p) && forall|i: int|
                    0 <= i < k ==> (#[trigger] keys[i]) is None;
            assert(rest[k - 1] == Some(p));
        }
        if keys[0] is None {
            if forall|i: int| 0 <= i < rest.len() ==> (#[trigger] rest[i]) is None {
                assert forall|i: int| 0 <= i < keys.len() implies (#[trigger] keys[i]) is None by {
                    if i > 0 {
                        assert(rest[i - 1] == keys[i]);
                    }
                }
            } else {
                let i = choose|i: int| 0 <= i < rest.len() && !((#[trigger] rest[i]) is None);
                assert(keys[i + 1] == rest[i]);
            }
        }
    }
}

/// A project waits out exactly its interval, as long as the interval counts: up to
/// the longest that an `i64` of milliseconds holds.
pub proof fn intervals_are_waited_out(interval_nanos: u128)
    ensures
        interval_nanos <= i64::MAX * 1_000_000 ==> delay_of(interval_nanos) == interval_nanos,
        interval_nanos > i64::MAX * 1_000_000 ==> delay_of(interval_nanos) == 0,
{
}

} // verus!
