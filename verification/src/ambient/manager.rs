//! The ambient agent's state and queue, and what may be done with them.

use crate::ambient::persistence::{
    claimed, first_with_id, fits_wake, has_id, in_delivery_order, is_direct, is_due, left,
    requested_wake, result_in_range, state_after, wake_in_range, wake_time, Claim, ScheduledQueue,
};
use crate::ambient::projects::{project_key_of, resolve_project_key};
use crate::ambient::queue_laws::{
    a_claim_loses_nothing, delivery_order_keeps_every_item, filter_members, multiset_of_sum,
};
use crate::ambient::types::{
    AmbientCycleResult, AmbientState, AmbientStatus, ScheduleRequest, ScheduledItem,
};
use crate::clock;
use crate::numerals::{hex, hex_len, push_hex};
use crate::text::{opt_clone, opt_view, owned, str_eq, views};
use crate::time::{earlier, earlier_of, Timestamp};
use vstd::prelude::*;

verus! {

impl ScheduledItem {
    /// The project owning this item: the recorded one, or else the one that its
    /// working directory belongs to. `paths` are the canonical paths of the
    /// configured projects.
    pub fn project_key(&self, paths: &Vec<String>) -> (r: Option<String>)
        ensures
            opt_view(r) == (match self.project {
                Some(p) => Some(p@),
                None => project_key_of(views(paths@), opt_view(self.working_dir)),
            }),
    {
        if self.project.is_some() {
            return opt_clone(&self.project);
        }
        let dir: Option<&str> = match &self.working_dir {
            Some(d) => Some(d.as_str()),
            None => None,
        };
        resolve_project_key(paths, dir)
    }
}

/// The ambient agent's state and queue.
#[derive(Debug)]
pub struct AmbientManager {
    pub state: AmbientState,
    pub queue: ScheduledQueue,
}

/// The earliest time among the items that run as an ambient cycle, or among all
/// of them.
pub open spec fn earliest_due(items: Seq<ScheduledItem>, direct_too: bool) -> Option<Timestamp>
    decreases items.len(),
{
    if items.len() == 0 {
        None
    } else {
        let rest = earliest_due(items.drop_last(), direct_too);
        if direct_too || !is_direct(items.last()) {
            earlier(rest, Some(items.last().scheduled_for))
        } else {
            rest
        }
    }
}

/// One of the items that run as an ambient cycle is due.
pub open spec fn ambient_due(items: Seq<ScheduledItem>, now: Timestamp) -> bool {
    earliest_due(items, false) matches Some(t) && t.nanos <= now.nanos
}

/// It is time to run a cycle: ambient is on, nothing stands in the way, and
/// either nothing is planned, or the planned wake has come, or a queued item is
/// due.
pub open spec fn wants_cycle(
    enabled: bool,
    status: AmbientStatus,
    items: Seq<ScheduledItem>,
    now: Timestamp,
) -> bool {
    enabled && match status {
        AmbientStatus::Idle => true,
        AmbientStatus::Scheduled { next_wake } => next_wake.nanos <= now.nanos || ambient_due(
            items,
            now,
        ),
        AmbientStatus::Running { .. } => false,
        AmbientStatus::Paused { .. } => false,
        AmbientStatus::Disabled => false,
    }
}

/// The queue after items left on record by a process that died have come back.
/// An item that is queued already does not come back twice.
pub open spec fn recovered(items: Seq<ScheduledItem>, record: Seq<ScheduledItem>) -> Seq<ScheduledItem> {
    items + record.filter(|i: ScheduledItem| !has_id(items, i.id@))
}

/// The id of an item with the given random bits.
pub open spec fn item_id(bits: u32) -> Seq<char> {
    "sched_"@ + hex(bits as nat, 8)
}

/// `item` is what `request` asks for, as of `now`.
pub open spec fn answers(
    item: ScheduledItem,
    request: ScheduleRequest,
    bits: u32,
    now: Timestamp,
    paths: Seq<Seq<char>>,
) -> bool {
    &&& item.id@ == item_id(bits)
    &&& item.scheduled_for == wake_time(request, now)
    &&& item.context == request.context
    &&& item.priority == request.priority
    &&& item.target == request.target
    &&& item.created_by_session == request.created_by_session
    &&& item.created_at == now
    &&& item.working_dir == request.working_dir
    &&& opt_view(item.project) == project_key_of(paths, opt_view(request.working_dir))
    &&& item.task_description == request.task_description
    &&& item.relevant_files == request.relevant_files
    &&& item.git_branch == request.git_branch
    &&& item.additional_context == request.additional_context
}

/// Random bits through `rand::random`. Any value may come.
#[verifier::external_body]
fn random_bits() -> (r: u32) {
    rand::random::<u32>()
}

impl AmbientManager {
    pub fn new(state: AmbientState, queue: ScheduledQueue) -> (r: AmbientManager)
        ensures
            r.state == state,
            r.queue == queue,
    {
        AmbientManager { state, queue }
    }

    /// The earliest time among the items of the queue, all of them or those
    /// that run as an ambient cycle.
    fn earliest(&self, direct_too: bool) -> (r: Option<Timestamp>)
        ensures
            r == earliest_due(self.queue@, direct_too),
    {
        let items = self.queue.items();
        let mut best: Option<Timestamp> = None;
        let mut i: usize = 0;
        assert(items@.take(0) =~= Seq::<ScheduledItem>::empty());
        while i < items.len()
            invariant
                i <= items@.len(),
                best == earliest_due(items@.take(i as int), direct_too),
            decreases items@.len() - i,
        {
            assert(items@.take(i + 1).drop_last() =~= items@.take(i as int));
            assert(items@.take(i + 1).last() == items@[i as int]);
            if direct_too || !items[i].target.is_direct_delivery() {
                best = earlier_of(best, Some(items[i].scheduled_for));
            }
            i = i + 1;
        }
        assert(items@.take(items@.len() as int) =~= items@);
        best
    }

    /// Earliest scheduled time among queue items that run as an ambient cycle.
    pub fn next_ambient_item_due(&self) -> (r: Option<Timestamp>)
        ensures
            r == earliest_due(self.queue@, false),
    {
        self.earliest(false)
    }

    /// Earliest scheduled time among queue items, whatever their target.
    pub fn next_item_due(&self) -> (r: Option<Timestamp>)
        ensures
            r == earliest_due(self.queue@, true),
    {
        self.earliest(true)
    }

    /// Whether an item that runs as an ambient cycle is due at `now`.
    pub fn has_due_ambient_item_at(&self, now: &Timestamp) -> (r: bool)
        ensures
            r == ambient_due(self.queue@, *now),
    {
        match self.next_ambient_item_due() {
            Some(due) => due.nanos <= now.nanos,
            None => false,
        }
    }

    /// Whether an item that runs as an ambient cycle is due by the clock.
    pub fn has_due_ambient_item(&self) -> (r: bool)
        ensures
            exists|now: Timestamp| #[trigger] now.valid() && r == ambient_due(self.queue@, now),
    {
        let now = clock::now();
        self.has_due_ambient_item_at(&now)
    }

    /// Whether it is time to run a cycle at `now`.
    pub fn should_run_at(&self, enabled: bool, now: &Timestamp) -> (r: bool)
        ensures
            r == wants_cycle(enabled, self.state.status, self.queue@, *now),
    {
        if !enabled {
            return false;
        }
        match &self.state.status {
            AmbientStatus::Disabled | AmbientStatus::Paused { .. } => false,
            AmbientStatus::Running { .. } => false,
            AmbientStatus::Idle => true,
            AmbientStatus::Scheduled { next_wake } => next_wake.nanos <= now.nanos
                || self.has_due_ambient_item_at(now),
        }
    }

    /// Whether it is time to run a cycle by the clock.
    pub fn should_run(&self, enabled: bool) -> (r: bool)
        ensures
            exists|now: Timestamp| #[trigger]
                now.valid() && r == wants_cycle(enabled, self.state.status, self.queue@, now),
            self.state.status is Idle ==> r == enabled,
            !(self.state.status is Idle || self.state.status is Scheduled) ==> !r,
    {
        let now = clock::now();
        self.should_run_at(enabled, &now)
    }

    /// Removes and returns all ready items, as of the clock's reading.
    pub fn take_ready_items(&mut self) -> (r: Vec<ScheduledItem>)
        ensures
            final(self).state == old(self).state,
            exists|now: Timestamp|
                {
                    &&& #[trigger] now.valid()
                    &&& final(self).queue@ == left(old(self).queue@, Claim::Any, now)
                    &&& in_delivery_order(claimed(old(self).queue@, Claim::Any, now), r@)
                },
    {
        self.queue.pop_ready()
    }

    /// Removes and returns the ready items that go to a session, as of the
    /// clock's reading.
    pub fn take_ready_direct_items(&mut self) -> (r: Vec<ScheduledItem>)
        ensures
            final(self).state == old(self).state,
            exists|now: Timestamp|
                {
                    &&& #[trigger] now.valid()
                    &&& final(self).queue@ == left(old(self).queue@, Claim::Direct, now)
                    &&& in_delivery_order(claimed(old(self).queue@, Claim::Direct, now), r@)
                },
    {
        self.queue.take_ready_direct_items()
    }

    /// Removes and returns the ready items that a cycle handles itself, as of
    /// the clock's reading. What is returned has to be put on record before the
    /// cycle acts on it, so that it comes back should the process die.
    pub fn take_ready_ambient_items(&mut self) -> (r: Vec<ScheduledItem>)
        ensures
            final(self).state == old(self).state,
            exists|now: Timestamp|
                {
                    &&& #[trigger] now.valid()
                    &&& final(self).queue@ == left(old(self).queue@, Claim::Ambient, now)
                    &&& in_delivery_order(claimed(old(self).queue@, Claim::Ambient, now), r@)
                },
    {
        self.queue.take_ready_ambient_items()
    }

    /// Puts previously claimed items back on the queue.
    pub fn requeue_items(&mut self, items: Vec<ScheduledItem>)
        ensures
            final(self).state == old(self).state,
            final(self).queue@ == old(self).queue@ + items@,
    {
        let ghost all = items@;
        let ghost was = self.queue@;
        for item in it: items
            invariant
                it.seq() == all,
                self.state == old(self).state,
                self.queue@ == was + all.take(it.index() as int),
        {
            self.queue.push(item);
            let ghost n = it.index() as int;
            assert(all.take(n + 1) =~= all.take(n).push(item));
        }
        assert(all.take(all.len() as int) =~= all);
    }

    /// Restores items that a process which died mid-cycle had claimed. Returns
    /// how many came back.
    pub fn recover_inflight_items(&mut self, abandoned: Vec<ScheduledItem>) -> (restored: usize)
        ensures
            final(self).state == old(self).state,
            final(self).queue@ == recovered(old(self).queue@, abandoned@),
            restored == final(self).queue@.len() - old(self).queue@.len(),
    {
        let ghost all = abandoned@;
        let ghost was = self.queue@;
        let ghost f = |i: ScheduledItem| !has_id(was, i.id@);
        let mut known: Vec<String> = Vec::new();
        let mut i: usize = 0;
        while i < self.queue.items.len()
            invariant
                self == old(self),
                i <= self.queue.items@.len(),
                known@.len() == i,
                forall|j: int| 0 <= j < i ==> (#[trigger] known@[j])@ == self.queue.items@[j].id@,
            decreases self.queue.items@.len() - i,
        {
            known.push(self.queue.items[i].id.clone());
            i = i + 1;
        }
        let total: usize = abandoned.len();
        let mut restored: usize = 0;
        proof {
            reveal(Seq::filter);
            assert(all.take(0) =~= Seq::<ScheduledItem>::empty());
            assert(was + all.take(0).filter(f) =~= was);
        }
        for item in it: abandoned
            invariant
                it.seq() == all,
                self.state == old(self).state,
                known@.len() == was.len(),
                forall|j: int| 0 <= j < was.len() ==> (#[trigger] known@[j])@ == was[j].id@,
                f == (|i: ScheduledItem| !has_id(was, i.id@)),
                self.queue@ == was + all.take(it.index() as int).filter(f),
                restored == all.take(it.index() as int).filter(f).len(),
                restored <= it.index(),
                all.len() == total,
        {
            proof {
                reveal(Seq::filter);
                let n = it.index() as int;
                assert(all.take(n + 1).drop_last() =~= all.take(n));
                assert(all.take(n + 1).last() == item);
            }
            if !knows(&known, item.id.as_str(), Ghost(was)) {
                let ghost before = self.queue@;
                self.queue.push(item);
                restored = restored + 1;
                proof {
                    let n = it.index() as int;
                    assert(self.queue@ =~= was + all.take(n).filter(f).push(item));
                }
            }
        }
        assert(all.take(all.len() as int) =~= all);
        restored
    }

    /// Adds a schedule request to the queue, with the given random bits for its
    /// id, as of `now`. Returns the id. `paths` are the canonical paths of the
    /// configured projects; the project that owns the request is recorded once,
    /// here.
    pub fn schedule_at(
        &mut self,
        request: ScheduleRequest,
        bits: u32,
        now: &Timestamp,
        paths: &Vec<String>,
    ) -> (id: String)
        requires
            wake_in_range(request, *now),
        ensures
            id@ == item_id(bits),
            final(self).state == old(self).state,
            final(self).queue@.len() == old(self).queue@.len() + 1,
            final(self).queue@.drop_last() == old(self).queue@,
            answers(final(self).queue@.last(), request, bits, *now, views(paths@)),
    {
        let mut id = owned("sched_");
        push_hex(&mut id, bits as u64, 8);
        let scheduled_for = requested_wake(&request, now);
        let dir: Option<&str> = match &request.working_dir {
            Some(d) => Some(d.as_str()),
            None => None,
        };
        let project = resolve_project_key(paths, dir);
        let item = ScheduledItem {
            id: id.clone(),
            scheduled_for,
            context: request.context,
            priority: request.priority,
            target: request.target,
            created_by_session: request.created_by_session,
            created_at: *now,
            working_dir: request.working_dir,
            project,
            task_description: request.task_description,
            relevant_files: request.relevant_files,
            git_branch: request.git_branch,
            additional_context: request.additional_context,
        };
        self.queue.push(item);
        assert(self.queue@.drop_last() =~= old(self).queue@);
        id
    }

    /// Adds a schedule request to the queue, with a random id, as of the
    /// clock's reading. Returns the id; `None`, and nothing is queued, when the
    /// time asked for is off the calendar.
    pub fn schedule(&mut self, request: ScheduleRequest, paths: &Vec<String>) -> (r: Option<String>)
        ensures
            final(self).state == old(self).state,
            match r {
                Some(id) => {
                    &&& final(self).queue@.len() == old(self).queue@.len() + 1
                    &&& final(self).queue@.drop_last() == old(self).queue@
                    &&& exists|bits: u32, now: Timestamp|
                        id@ == item_id(bits) && wake_in_range(request, now) && #[trigger] answers(
                            final(self).queue@.last(),
                            request,
                            bits,
                            now,
                            views(paths@),
                        )
                },
                None => final(self).queue@ == old(self).queue@ && request.wake_at is None && exists|
                    now: Timestamp,
                | #[trigger]
                    now.valid() && !wake_in_range(request, now),
            },
    {
        let bits: u32 = random_bits();
        let now = clock::now();
        if !fits_wake(&request, &now) {
            return None;
        }
        let id = self.schedule_at(request, bits, &now, paths);
        Some(id)
    }

    /// Cancels a queued item by id.
    pub fn cancel_schedule(&mut self, id: &str) -> (r: Option<ScheduledItem>)
        ensures
            final(self).state == old(self).state,
            match r {
                Some(item) => exists|k: int| #[trigger]
                    first_with_id(old(self).queue@, id@, k) && old(self).queue@[k] == item
                        && final(self).queue@ == old(self).queue@.remove(k),
                None => !has_id(old(self).queue@, id@) && final(self).queue@ == old(self).queue@,
            },
    {
        self.queue.remove_by_id(id)
    }

    /// Records the result of a cycle, as of `now`, and queues the wake it asks
    /// for. Returns the id of the queued item, if any.
    pub fn record_cycle_result(
        &mut self,
        result: AmbientCycleResult,
        bits: u32,
        now: &Timestamp,
        paths: &Vec<String>,
    ) -> (id: Option<String>)
        requires
            old(self).state.total_cycles < u64::MAX,
            result_in_range(result, *now),
        ensures
            final(self).state == state_after(old(self).state, result, *now),
            match result.next_schedule {
                Some(request) => {
                    &&& id matches Some(i) && i@ == item_id(bits)
                    &&& final(self).queue@.len() == old(self).queue@.len() + 1
                    &&& final(self).queue@.drop_last() == old(self).queue@
                    &&& answers(final(self).queue@.last(), request, bits, *now, views(paths@))
                },
                None => id is None && final(self).queue@ == old(self).queue@,
            },
    {
        self.state.record_cycle_at(&result, now);
        match result.next_schedule {
            Some(request) => Some(self.schedule_at(request, bits, now, paths)),
            None => None,
        }
    }

    pub fn state(&self) -> (r: &AmbientState)
        ensures
            *r == self.state,
    {
        &self.state
    }

    pub fn queue(&self) -> (r: &ScheduledQueue)
        ensures
            *r == self.queue,
    {
        &self.queue
    }
}

fn knows(known: &Vec<String>, id: &str, Ghost(items): Ghost<Seq<ScheduledItem>>) -> (r: bool)
    requires
        known@.len() == items.len(),
        forall|j: int| 0 <= j < items.len() ==> (#[trigger] known@[j])@ == items[j].id@,
    ensures
        r == has_id(items, id@),
{
    let mut i: usize = 0;
    while i < known.len()
        invariant
            i <= known@.len(),
            known@.len() == items.len(),
            forall|j: int| 0 <= j < items.len() ==> (#[trigger] known@[j])@ == items[j].id@,
            forall|j: int| 0 <= j < i ==> (#[trigger] items[j]).id@ != id@,
        decreases known@.len() - i,
    {
        assert(known@[i as int]@ == items[i as int].id@);
        if str_eq(known[i].as_str(), id) {
            return true;
        }
        i = i + 1;
    }
    false
}

// ---------------------------------------------------------------------------
// Laws
// ---------------------------------------------------------------------------

/// Ids tell apart what their random bits tell apart, and have a fixed length.
pub proof fn ids_are_as_random_as_their_bits(a: u32, b: u32)
    ensures
        item_id(a).len() == 14,
        a != b ==> item_id(a) != item_id(b),
{
    reveal_strlit("sched_");
    hex_len(a as nat, 8);
    hex_len(b as nat, 8);
    if item_id(a) == item_id(b) {
        assert(item_id(a).skip(6) =~= hex(a as nat, 8));
        assert(item_id(b).skip(6) =~= hex(b as nat, 8));
        assert(vstd::arithmetic::power::pow(16, 8) == 0x1_0000_0000) by {
            reveal(vstd::arithmetic::power::pow);
            reveal_with_fuel(vstd::arithmetic::power::pow, 9);
        }
        crate::numerals::hex_injective(a as nat, b as nat, 8);
    }
}

/// A failed cycle loses nothing: putting back what it claimed leaves the queue
/// with the items it had.
pub proof fn requeueing_undoes_a_claim(
    items: Seq<ScheduledItem>,
    claim: Claim,
    now: Timestamp,
    taken: Seq<ScheduledItem>,
)
    requires
        in_delivery_order(claimed(items, claim, now), taken),
    ensures
        (left(items, claim, now) + taken).to_multiset() == items.to_multiset(),
{
    delivery_order_keeps_every_item(claimed(items, claim, now), taken);
    a_claim_loses_nothing(items, claim, now);
    multiset_of_sum(left(items, claim, now), taken);
    assert((left(items, claim, now) + taken).to_multiset() =~= items.to_multiset());
}

/// The ids of the items differ.
pub open spec fn distinct_ids(items: Seq<ScheduledItem>) -> bool {
    forall|i: int, j: int|
        0 <= i < j < items.len() ==> (#[trigger] items[i]).id@ != (#[trigger] items[j]).id@
}

/// Work claimed by a process that died comes back whole: recovering the record
/// of a claim leaves the queue with the items it had before.
pub proof fn recovery_undoes_a_claim(
    items: Seq<ScheduledItem>,
    claim: Claim,
    now: Timestamp,
    taken: Seq<ScheduledItem>,
)
    requires
        distinct_ids(items),
        in_delivery_order(claimed(items, claim, now), taken),
    ensures
        recovered(left(items, claim, now), taken).to_multiset() == items.to_multiset(),
{
    let rest = left(items, claim, now);
    let f = |i: ScheduledItem| !has_id(rest, i.id@);
    delivery_order_keeps_every_item(claimed(items, claim, now), taken);
    crate::ambient::queue_laws::a_claim_takes_what_it_names(items, claim, now);
    assert forall|k: int| 0 <= k < taken.len() implies f(#[trigger] taken[k]) by {
        let x = taken[k];
        assert(taken.contains(x));
        taken.to_multiset_ensures();
        claimed(items, claim, now).to_multiset_ensures();
        assert(taken.to_multiset().count(x) > 0);
        assert(claimed(items, claim, now).contains(x));
        if has_id(rest, x.id@) {
            let j = choose|j: int| 0 <= j < rest.len() && (#[trigger] rest[j]).id@ == x.id@;
            let y = rest[j];
            assert(rest.contains(y));
            assert(items.contains(x) && items.contains(y));
            let a = items.index_of(x);
            let b = items.index_of(y);
            if a < b {
                assert(items[a].id@ != items[b].id@);
            } else if b < a {
                assert(items[b].id@ != items[a].id@);
            }
            assert(x == y);
        }
    }
    filter_of_all(taken, f);
    requeueing_undoes_a_claim(items, claim, now, taken);
}

proof fn filter_of_all(s: Seq<ScheduledItem>, f: spec_fn(ScheduledItem) -> bool)
    requires
        forall|i: int| 0 <= i < s.len() ==> f(#[trigger] s[i]),
    ensures
        s.filter(f) == s,
    decreases s.len(),
{
    reveal(Seq::filter);
    if s.len() > 0 {
        let rest = s.drop_last();
        assert forall|i: int| 0 <= i < rest.len() implies f(#[trigger] rest[i]) by {
            assert(rest[i] == s[i]);
        }
        filter_of_all(rest, f);
        assert(s =~= rest.push(s.last()));
    } else {
        assert(s.filter(f) =~= s);
    }
}

/// Recovery is idempotent: recovering the same record again adds nothing.
pub proof fn recovery_is_idempotent(items: Seq<ScheduledItem>, record: Seq<ScheduledItem>)
    ensures
        recovered(recovered(items, record), record) == recovered(items, record),
{
    let once = recovered(items, record);
    let f = |i: ScheduledItem| !has_id(items, i.id@);
    let g = |i: ScheduledItem| !has_id(once, i.id@);
    let back = record.filter(f);
    filter_members(record, f);
    assert forall|k: int| 0 <= k < record.len() implies !g(#[trigger] record[k]) by {
        let x = record[k];
        assert(record.contains(x));
        if has_id(items, x.id@) {
            let j = choose|j: int| 0 <= j < items.len() && (#[trigger] items[j]).id@ == x.id@;
            assert(once[j].id@ == x.id@);
        } else {
            assert(back.contains(x));
            let j = back.index_of(x);
            assert(once[items.len() + j] == x);
        }
    }
    crate::ambient::persistence::filter_of_none(record, g);
    assert(recovered(once, record) =~= once);
}

/// A due queue item starts a cycle on its own, however far off the planned wake
/// is; before that wake nothing else does, and an item for a session is no
/// reason.
pub proof fn a_due_item_wants_a_cycle(
    next_wake: Timestamp,
    items: Seq<ScheduledItem>,
    now: Timestamp,
)
    ensures
        wants_cycle(true, AmbientStatus::Scheduled { next_wake }, items, now) == (next_wake.nanos
            <= now.nanos || exists|k: int|
            0 <= k < items.len() && !is_direct(#[trigger] items[k]) && is_due(items[k], now)),
{
    earliest_is_earliest(items, false);
}

/// The earliest time is that of one of the items, and none is earlier.
pub proof fn earliest_is_earliest(items: Seq<ScheduledItem>, direct_too: bool)
    ensures
        forall|i: int|
            0 <= i < items.len() && (direct_too || !is_direct(#[trigger] items[i])) ==> {
                earliest_due(items, direct_too) matches Some(t) && t.nanos
                    <= items[i].scheduled_for.nanos
            },
        earliest_due(items, direct_too) matches Some(t) ==> exists|i: int|
            0 <= i < items.len() && (direct_too || !is_direct(#[trigger] items[i]))
                && items[i].scheduled_for == t,
    decreases items.len(),
{
    if items.len() > 0 {
        let rest = items.drop_last();
        earliest_is_earliest(rest, direct_too);
        assert forall|i: int|
            0 <= i < items.len() && (direct_too || !is_direct(#[trigger] items[i])) implies {
            earliest_due(items, direct_too) matches Some(t) && t.nanos <= items[i].scheduled_for.nanos
        } by {
            if i < rest.len() {
                assert(rest[i] == items[i]);
            }
        }
        if let Some(t) = earliest_due(items, direct_too) {
            if (direct_too || !is_direct(items.last())) && items.last().scheduled_for == t {
                assert(items[items.len() - 1].scheduled_for == t);
            } else {
                let i = choose|i: int|
                    0 <= i < rest.len() && (direct_too || !is_direct(#[trigger] rest[i]))
                        && rest[i].scheduled_for == t;
                assert(items[i].scheduled_for == t);
            }
        }
    }
}

/// Whether a cycle is wanted. Ambient mode has to be on. While nothing is planned
/// one is wanted at once; while a wake is planned, once it has come or once an
/// item for a cycle, at whatever place in the queue, is due; and never while one
/// runs, or while the agent is paused or disabled.
pub proof fn when_a_cycle_is_wanted(
    enabled: bool,
    status: AmbientStatus,
    items: Seq<ScheduledItem>,
    now: Timestamp,
)
    ensures
        wants_cycle(enabled, status, items, now) <==> enabled && {
            ||| status is Idle
            ||| {
                &&& status matches AmbientStatus::Scheduled { next_wake }
                &&& next_wake.nanos <= now.nanos || exists|k: int|
                    0 <= k < items.len() && (#[trigger] items[k]).target is Ambient
                        && items[k].scheduled_for.nanos <= now.nanos
            }
        },
{
    earliest_is_earliest(items, false);
}

/// An item that a dead process left on record comes back behind the queue, unless
/// the queue still has an item of its id.
pub proof fn what_is_left_on_record_comes_back(
    items: Seq<ScheduledItem>,
    record: Seq<ScheduledItem>,
    x: ScheduledItem,
)
    ensures
        recovered(items, record).contains(x) <==> items.contains(x) || (record.contains(x)
            && forall|k: int| 0 <= k < items.len() ==> (#[trigger] items[k]).id@ != x.id@),
        items.len() <= recovered(items, record).len(),
        forall|k: int| 0 <= k < items.len() ==> #[trigger] recovered(items, record)[k] == items[k],
{
    let f = |i: ScheduledItem| !has_id(items, i.id@);
    crate::ambient::queue_laws::filter_members(record, f);
    let back = record.filter(f);
    let all = recovered(items, record);
    assert(all == items + back);
    if items.contains(x) {
        let k = items.index_of(x);
        assert(all[k] == x);
    }
    if back.contains(x) {
        let k = back.index_of(x);
        assert(all[items.len() + k] == x);
    }
}

/// An item is what was asked for, made now and due at the requested wake: it holds
/// the request's own words, whom it is for and where the work is, and belongs to
/// the project that the directory lies in.
pub proof fn requests_become_items(
    item: ScheduledItem,
    request: ScheduleRequest,
    bits: u32,
    now: Timestamp,
    paths: Seq<Seq<char>>,
)
    requires
        answers(item, request, bits, now, paths),
    ensures
        item.created_at == now,
        request.wake_at matches Some(t) ==> item.scheduled_for == t,
        item.context@ == request.context@,
        item.priority == request.priority,
        item.target == request.target,
        item.created_by_session@ == request.created_by_session@,
        item.working_dir == request.working_dir,
        item.task_description == request.task_description,
        item.relevant_files@ == request.relevant_files@,
        item.git_branch == request.git_branch,
        item.additional_context == request.additional_context,
        request.working_dir is None ==> item.project is None,
        item.project matches Some(p) ==> paths.contains(p@)
            && crate::ambient::projects::belongs(request.working_dir->0@, p@),
{
    if let Some(d) = request.working_dir {
        crate::ambient::projects::owner_index_is_first(paths, d@);
    }
}

} // verus!
