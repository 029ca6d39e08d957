//! The queue of scheduled items, the record of cycles, and the lock that keeps
//! a project to one cycle at a time.

use crate::ambient::types::{
    priority_index, AmbientCycleResult, AmbientState, AmbientStatus, CycleStatus, ScheduleRequest,
    ScheduledItem,
};
use crate::clock;
use crate::numerals::{dec_string, dec, parse_u32, spelled_up_to};
use crate::text::{str_eq, trim, trimmed};
use crate::time::{Timestamp, END_SECS, MIN_SECS, NANOS_PER_SEC};
use vstd::prelude::*;

verus! {

// ---------------------------------------------------------------------------
// Recording cycles
// ---------------------------------------------------------------------------

/// Minutes until the next wake when a request names no time.
pub const DEFAULT_WAKE_MINUTES: u32 = 30;

/// When a request asks to be woken: the time it names, or else the minutes it
/// names, half an hour when it names none.
pub open spec fn wake_time(req: ScheduleRequest, now: Timestamp) -> Timestamp {
    match req.wake_at {
        Some(t) => t,
        None => {
            let minutes = match req.wake_in_minutes {
                Some(m) => m,
                None => DEFAULT_WAKE_MINUTES,
            };
            Timestamp { nanos: (now.nanos + minutes * 60 * NANOS_PER_SEC) as i128 }
        },
    }
}

/// The time a request leads to is on the calendar.
pub open spec fn wake_in_range(req: ScheduleRequest, now: Timestamp) -> bool {
    &&& now.valid()
    &&& req.wake_at is None ==> now.reaches(
        (match req.wake_in_minutes {
            Some(m) => m,
            None => DEFAULT_WAKE_MINUTES,
        }) * 60 * NANOS_PER_SEC,
    )
}

/// When a request asks to be woken.
pub fn requested_wake(req: &ScheduleRequest, now: &Timestamp) -> (r: Timestamp)
    requires
        wake_in_range(*req, *now),
    ensures
        r == wake_time(*req, *now),
{
    match req.wake_at {
        Some(t) => t,
        None => {
            let minutes: u32 = match req.wake_in_minutes {
                Some(m) => m,
                None => DEFAULT_WAKE_MINUTES,
            };
            now.plus_secs(minutes as i64 * 60)
        },
    }
}

/// The status after a cycle: a complete one may have asked for its next wake.
pub open spec fn status_after(result: AmbientCycleResult, now: Timestamp) -> AmbientStatus {
    match (result.status, result.next_schedule) {
        (CycleStatus::Complete, Some(req)) => AmbientStatus::Scheduled {
            next_wake: wake_time(req, now),
        },
        _ => AmbientStatus::Idle,
    }
}

/// The state after a cycle.
pub open spec fn state_after(
    before: AmbientState,
    result: AmbientCycleResult,
    now: Timestamp,
) -> AmbientState {
    AmbientState {
        status: status_after(result, now),
        last_run: Some(result.ended_at),
        last_summary: Some(result.summary),
        last_compactions: Some(result.compactions),
        last_memories_modified: Some(result.memories_modified),
        total_cycles: (before.total_cycles + 1) as u64,
    }
}

/// The wake that a complete cycle leads to is on the calendar.
pub open spec fn record_in_range(result: AmbientCycleResult, now: Timestamp) -> bool {
    &&& now.valid()
    &&& result.status is Complete ==> result_in_range(result, now)
}

/// The wake that a result asks for is on the calendar.
pub open spec fn result_in_range(result: AmbientCycleResult, now: Timestamp) -> bool {
    &&& now.valid()
    &&& result.next_schedule matches Some(req) ==> wake_in_range(req, now)
}

impl AmbientState {
    /// Records a cycle that ended, as of `now`.
    pub fn record_cycle_at(&mut self, result: &AmbientCycleResult, now: &Timestamp)
        requires
            old(self).total_cycles < u64::MAX,
            record_in_range(*result, *now),
        ensures
            *final(self) == state_after(*old(self), *result, *now),
    {
        self.last_run = Some(result.ended_at);
        self.last_summary = Some(result.summary.clone());
        self.last_compactions = Some(result.compactions);
        self.last_memories_modified = Some(result.memories_modified);
        self.total_cycles = self.total_cycles + 1;
        self.status = match (result.status, &result.next_schedule) {
            (CycleStatus::Complete, Some(req)) => AmbientStatus::Scheduled {
                next_wake: requested_wake(req, now),
            },
            _ => AmbientStatus::Idle,
        };
    }

    /// Records a cycle that ended. The wake it may ask for counts from the
    /// clock's current reading; when that leads off the calendar, nothing is
    /// recorded.
    pub fn record_cycle(&mut self, result: &AmbientCycleResult) -> (recorded: bool)
        requires
            old(self).total_cycles < u64::MAX,
        ensures
            exists|now: Timestamp|
                {
                    &&& #[trigger] now.valid()
                    &&& recorded == record_in_range(*result, now)
                    &&& *final(self) == (if recorded {
                        state_after(*old(self), *result, now)
                    } else {
                        *old(self)
                    })
                },
    {
        let now = clock::now();
        let fits = match result.status {
            CycleStatus::Complete => fits_result(result, &now),
            _ => true,
        };
        if !fits {
            return false;
        }
        self.record_cycle_at(result, &now);
        true
    }
}

/// Whether the time a request leads to is on the calendar.
pub fn fits_wake(req: &ScheduleRequest, now: &Timestamp) -> (r: bool)
    requires
        now.valid(),
    ensures
        r == wake_in_range(*req, *now),
{
    if req.wake_at.is_some() {
        return true;
    }
    let minutes: u32 = match req.wake_in_minutes {
        Some(m) => m,
        None => DEFAULT_WAKE_MINUTES,
    };
    let end: i128 = now.nanos + minutes as i128 * 60 * NANOS_PER_SEC;
    MIN_SECS as i128 * NANOS_PER_SEC <= end && end < END_SECS as i128 * NANOS_PER_SEC
}

/// Whether the wake that a result asks for is on the calendar.
pub fn fits_result(result: &AmbientCycleResult, now: &Timestamp) -> (r: bool)
    requires
        now.valid(),
    ensures
        r == result_in_range(*result, *now),
{
    match &result.next_schedule {
        Some(req) => fits_wake(req, now),
        None => true,
    }
}

// ---------------------------------------------------------------------------
// The queue
// ---------------------------------------------------------------------------

/// The item's time has come.
pub open spec fn is_due(item: ScheduledItem, now: Timestamp) -> bool {
    item.scheduled_for.nanos <= now.nanos
}

/// The item goes to a session rather than to an ambient cycle.
pub open spec fn is_direct(item: ScheduledItem) -> bool {
    !(item.target is Ambient)
}

/// Which items of the queue are asked for.
#[derive(Debug, Clone, Copy, PartialEq, Eq, Structural)]
pub enum Claim {
    /// Every item.
    Any,
    /// Items delivered into a session.
    Direct,
    /// Items that an ambient cycle handles itself.
    Ambient,
}

/// The item is due and asked for.
pub open spec fn claims(claim: Claim, item: ScheduledItem, now: Timestamp) -> bool {
    is_due(item, now) && match claim {
        Claim::Any => true,
        Claim::Direct => is_direct(item),
        Claim::Ambient => !is_direct(item),
    }
}

/// `a` is delivered before `b`: it has the higher priority, or the same one and
/// the earlier time.
pub open spec fn goes_before(a: ScheduledItem, b: ScheduledItem) -> bool {
    ||| priority_index(a.priority) > priority_index(b.priority)
    ||| priority_index(a.priority) == priority_index(b.priority) && a.scheduled_for.nanos
        < b.scheduled_for.nanos
}

/// `a` and `b` have the same priority and the same time.
pub open spec fn tied(a: ScheduledItem, b: ScheduledItem) -> bool {
    priority_index(a.priority) == priority_index(b.priority) && a.scheduled_for.nanos
        == b.scheduled_for.nanos
}

/// `out` holds the items of `items` in delivery order: no item stands behind
/// one it goes before, and the items tied with any given one are those of
/// `items`, in the same order.
pub open spec fn in_delivery_order(items: Seq<ScheduledItem>, out: Seq<ScheduledItem>) -> bool {
    &&& forall|i: int, j: int|
        0 <= i < j < out.len() ==> !goes_before(#[trigger] out[j], #[trigger] out[i])
    &&& forall|x: ScheduledItem| #[trigger] ties(out, x) == ties(items, x)
}

/// The items tied with `x`, in order.
pub open spec fn ties(items: Seq<ScheduledItem>, x: ScheduledItem) -> Seq<ScheduledItem> {
    items.filter(|y: ScheduledItem| tied(x, y))
}

/// Puts `item` behind every item that it does not go before.
fn insert_in_order(out: &mut Vec<ScheduledItem>, item: ScheduledItem, Ghost(items): Ghost<Seq<ScheduledItem>>)
    requires
        in_delivery_order(items, old(out)@),
    ensures
        in_delivery_order(items.push(item), final(out)@),
{
    let ghost was = out@;
    let mut p: usize = 0;
    while p < out.len() && !comes_first(&item, &out[p])
        invariant
            out@ == was,
            p <= out@.len(),
            forall|i: int| 0 <= i < p ==> !goes_before(item, #[trigger] was[i]),
        decreases out@.len() - p,
    {
        p = p + 1;
    }
    out.insert(p, item);
    proof {
        let now = out@;
        let head = was.take(p as int);
        let tail = was.skip(p as int);
        assert(was =~= head + tail);
        assert(now =~= head + seq![item] + tail);
        assert forall|i: int, j: int| 0 <= i < j < now.len() implies !goes_before(
            #[trigger] now[j],
            #[trigger] now[i],
        ) by {
            let a = if i < p { i } else { i - 1 };
            let b = if j < p { j } else { j - 1 };
            if i == p {
                assert(now[j] == was[b]);
                assert(!goes_before(was[b], was[p as int]));
            } else if j == p {
                assert(now[i] == was[a]);
            } else {
                assert(now[i] == was[a]);
                assert(now[j] == was[b]);
            }
        }
        assert forall|x: ScheduledItem| #[trigger] ties(now, x) == ties(items.push(item), x) by {
            let f = |y: ScheduledItem| tied(x, y);
            Seq::filter_distributes_over_add(head, tail, f);
            Seq::filter_distributes_over_add(head + seq![item], tail, f);
            Seq::filter_distributes_over_add(head, seq![item], f);
            assert(items.push(item) =~= items + seq![item]);
            Seq::filter_distributes_over_add(items, seq![item], f);
            assert(ties(was, x) == ties(items, x));
            if tied(x, item) {
                assert forall|i: int| 0 <= i < tail.len() implies !f(#[trigger] tail[i]) by {
                    assert(tail[i] == was[p + i]);
                    assert(goes_before(item, was[p as int]));
                    assert(i > 0 ==> !goes_before(was[p + i], was[p as int]));
                }
                filter_of_none(tail, f);
                assert(ties(now, x) =~= ties(items.push(item), x));
            } else {
                filter_of_none(seq![item], f);
                assert(ties(now, x) =~= ties(items.push(item), x));
            }
        }
    }
}

pub proof fn filter_of_none<A>(s: Seq<A>, f: spec_fn(A) -> bool)
    requires
        forall|i: int| 0 <= i < s.len() ==> !f(#[trigger] s[i]),
    ensures
        s.filter(f) == Seq::<A>::empty(),
    decreases s.len(),
{
    reveal(Seq::filter);
    if s.len() > 0 {
        assert forall|i: int| 0 <= i < s.drop_last().len() implies !f(#[trigger] s.drop_last()[i]) by {
            assert(s.drop_last()[i] == s[i]);
        }
        filter_of_none(s.drop_last(), f);
    }
}

/// Whether `a` is delivered before `b`.
fn comes_first(a: &ScheduledItem, b: &ScheduledItem) -> (r: bool)
    ensures
        r == goes_before(*a, *b),
{
    let x: u8 = a.priority.index();
    let y: u8 = b.priority.index();
    x > y || (x == y && a.scheduled_for.nanos < b.scheduled_for.nanos)
}

/// Whether the item is due and asked for.
fn is_claimed(claim: Claim, item: &ScheduledItem, now: &Timestamp) -> (r: bool)
    ensures
        r == claims(claim, *item, *now),
{
    item.scheduled_for.nanos <= now.nanos && match claim {
        Claim::Any => true,
        Claim::Direct => item.target.is_direct_delivery(),
        Claim::Ambient => !item.target.is_direct_delivery(),
    }
}

/// The scheduled items that wait to be delivered.
#[derive(Debug)]
pub struct ScheduledQueue {
    pub items: Vec<ScheduledItem>,
}

impl View for ScheduledQueue {
    type V = Seq<ScheduledItem>;

    open spec fn view(&self) -> Seq<ScheduledItem> {
        self.items@
    }
}

/// The item at `k` is the first with the id `id`.
pub open spec fn first_with_id(items: Seq<ScheduledItem>, id: Seq<char>, k: int) -> bool {
    &&& 0 <= k < items.len()
    &&& items[k].id@ == id
    &&& forall|i: int| 0 <= i < k ==> (#[trigger] items[i]).id@ != id
}

/// One of the items has the id `id`.
pub open spec fn has_id(items: Seq<ScheduledItem>, id: Seq<char>) -> bool {
    exists|i: int| 0 <= i < items.len() && (#[trigger] items[i]).id@ == id
}

/// The item at `k` has the earliest time, and no item before it shares it.
pub open spec fn first_earliest(items: Seq<ScheduledItem>, k: int) -> bool {
    &&& 0 <= k < items.len()
    &&& forall|i: int|
        0 <= i < k ==> (#[trigger] items[i]).scheduled_for.nanos > items[k].scheduled_for.nanos
    &&& forall|i: int|
        k < i < items.len() ==> (#[trigger] items[i]).scheduled_for.nanos
            >= items[k].scheduled_for.nanos
}

/// What a claim takes out of the queue, in the order of the queue.
pub open spec fn claimed(items: Seq<ScheduledItem>, claim: Claim, now: Timestamp) -> Seq<ScheduledItem> {
    items.filter(|i: ScheduledItem| claims(claim, i, now))
}

/// What a claim leaves in the queue.
pub open spec fn left(items: Seq<ScheduledItem>, claim: Claim, now: Timestamp) -> Seq<ScheduledItem> {
    items.filter(|i: ScheduledItem| !claims(claim, i, now))
}

impl ScheduledQueue {
    pub fn new() -> (r: ScheduledQueue)
        ensures
            r@.len() == 0,
    {
        ScheduledQueue { items: Vec::new() }
    }

    /// The queue of items read from storage.
    pub fn from_items(items: Vec<ScheduledItem>) -> (r: ScheduledQueue)
        ensures
            r@ == items@,
    {
        ScheduledQueue { items }
    }

    pub fn push(&mut self, item: ScheduledItem)
        ensures
            final(self)@ == old(self)@.push(item),
    {
        self.items.push(item);
    }

    /// Removes the first item with the given id.
    pub fn remove_by_id(&mut self, id: &str) -> (r: Option<ScheduledItem>)
        ensures
            match r {
                Some(item) => exists|k: int| #[trigger]
                    first_with_id(old(self)@, id@, k) && old(self)@[k] == item && final(self)@
                        == old(self)@.remove(k),
                None => !has_id(old(self)@, id@) && final(self)@ == old(self)@,
            },
    {
        let mut k: usize = 0;
        while k < self.items.len() && !str_eq(self.items[k].id.as_str(), id)
            invariant
                self@ == old(self)@,
                k <= self.items@.len(),
                forall|i: int| 0 <= i < k ==> (#[trigger] self.items@[i]).id@ != id@,
            decreases self.items@.len() - k,
        {
            k = k + 1;
        }
        if k == self.items.len() {
            return None;
        }
        assert(first_with_id(old(self)@, id@, k as int));
        Some(self.items.remove(k))
    }

    /// Takes the due items of a claim out of the queue, in delivery order.
    pub fn take_ready_matching(&mut self, claim: Claim, now: &Timestamp) -> (r: Vec<ScheduledItem>)
        ensures
            final(self)@ == left(old(self)@, claim, *now),
            in_delivery_order(claimed(old(self)@, claim, *now), r@),
    {
        let ghost all = self.items@;
        let mut items: Vec<ScheduledItem> = Vec::new();
        std::mem::swap(&mut items, &mut self.items);
        let mut ready: Vec<ScheduledItem> = Vec::new();
        let mut remaining: Vec<ScheduledItem> = Vec::new();
        let ghost took = |i: ScheduledItem| claims(claim, i, *now);
        let ghost kept = |i: ScheduledItem| !claims(claim, i, *now);
        proof {
            reveal(Seq::filter);
            assert(all.take(0) =~= Seq::<ScheduledItem>::empty());
        }
        for item in it: items
            invariant
                it.seq() == all,
                took == (|i: ScheduledItem| claims(claim, i, *now)),
                kept == (|i: ScheduledItem| !claims(claim, i, *now)),
                remaining@ == all.take(it.index() as int).filter(kept),
                in_delivery_order(all.take(it.index() as int).filter(took), ready@),
        {
            proof {
                reveal(Seq::filter);
                let n = it.index() as int;
                assert(all.take(n + 1).drop_last() =~= all.take(n));
                assert(all.take(n + 1).last() == item);
            }
            if is_claimed(claim, &item, now) {
                insert_in_order(&mut ready, item, Ghost(all.take(it.index() as int).filter(took)));
            } else {
                remaining.push(item);
            }
        }
        assert(all.take(all.len() as int) =~= all);
        self.items = remaining;
        ready
    }

    /// Takes every due item out of the queue, as of the clock's reading.
    pub fn pop_ready(&mut self) -> (r: Vec<ScheduledItem>)
        ensures
            exists|now: Timestamp|
                {
                    &&& #[trigger] now.valid()
                    &&& final(self)@ == left(old(self)@, Claim::Any, now)
                    &&& in_delivery_order(claimed(old(self)@, Claim::Any, now), r@)
                },
    {
        let now = clock::now();
        self.take_ready_matching(Claim::Any, &now)
    }

    /// Takes the due items that go to a session out of the queue, as of the
    /// clock's reading.
    pub fn take_ready_direct_items(&mut self) -> (r: Vec<ScheduledItem>)
        ensures
            exists|now: Timestamp|
                {
                    &&& #[trigger] now.valid()
                    &&& final(self)@ == left(old(self)@, Claim::Direct, now)
                    &&& in_delivery_order(claimed(old(self)@, Claim::Direct, now), r@)
                },
    {
        let now = clock::now();
        self.take_ready_matching(Claim::Direct, &now)
    }

    /// Takes the due items that an ambient cycle handles itself out of the
    /// queue, as of the clock's reading.
    pub fn take_ready_ambient_items(&mut self) -> (r: Vec<ScheduledItem>)
        ensures
            exists|now: Timestamp|
                {
                    &&& #[trigger] now.valid()
                    &&& final(self)@ == left(old(self)@, Claim::Ambient, now)
                    &&& in_delivery_order(claimed(old(self)@, Claim::Ambient, now), r@)
                },
    {
        let now = clock::now();
        self.take_ready_matching(Claim::Ambient, &now)
    }

    /// The item with the earliest time, the first of them when several share
    /// it.
    pub fn peek_next(&self) -> (r: Option<&ScheduledItem>)
        ensures
            match r {
                Some(item) => exists|k: int| #[trigger] first_earliest(self@, k) && self@[k] == *item,
                None => self@.len() == 0,
            },
    {
        if self.items.len() == 0 {
            return None;
        }
        let mut k: usize = 0;
        let mut i: usize = 1;
        while i < self.items.len()
            invariant
                k < i <= self.items@.len(),
                first_earliest(self@.take(i as int), k as int),
            decreases self.items@.len() - i,
        {
            let ghost seen = self@.take(i as int);
            let ghost more = self@.take(i + 1);
            assert(forall|j: int| 0 <= j < i ==> #[trigger] more[j] == seen[j]);
            if self.items[i].scheduled_for.nanos < self.items[k].scheduled_for.nanos {
                k = i;
            }
            i = i + 1;
        }
        assert(self@.take(self@.len() as int) =~= self@);
        let item = &self.items[k];
        Some(item)
    }

    pub fn len(&self) -> (r: usize)
        ensures
            r == self@.len(),
    {
        self.items.len()
    }

    pub fn is_empty(&self) -> (r: bool)
        ensures
            r == (self@.len() == 0),
    {
        self.items.len() == 0
    }

    pub fn items(&self) -> (r: &Vec<ScheduledItem>)
        ensures
            r@ == self@,
    {
        &self.items
    }
}

// ---------------------------------------------------------------------------
// The lock
// ---------------------------------------------------------------------------

/// A held lock: the file that names its holder.
#[derive(Debug)]
pub struct AmbientLock {
    pub lock_path: String,
}

/// The process that the text of a lock file names; `None` when it names none.
pub open spec fn named_pid(contents: Seq<char>) -> Option<nat> {
    spelled_up_to(trimmed(contents), u32::MAX as nat)
}

/// The process that the text of a lock file names.
pub fn lock_holder(contents: &str) -> (r: Option<u32>)
    ensures
        match r {
            Some(pid) => named_pid(contents@) == Some(pid as nat),
            None => named_pid(contents@) is None,
        },
{
    parse_u32(trim(contents))
}

/// A live process other than this one holds the lock. A lock that names this
/// process was left by an image it replaced, so it does not count.
pub open spec fn held_elsewhere(holder: Option<u32>, holder_alive: bool, own_pid: u32) -> bool {
    holder matches Some(pid) && holder_alive && pid != own_pid
}

/// Whether a different live process holds the lock.
pub fn is_locked_by_another_process(holder: Option<u32>, holder_alive: bool, own_pid: u32) -> (r: bool)
    ensures
        r == held_elsewhere(holder, holder_alive, own_pid),
{
    match holder {
        Some(pid) => pid != own_pid && holder_alive,
        None => false,
    }
}

/// What the lock file holds while process `pid` has the lock.
pub fn lock_text(pid: u32) -> (r: String)
    ensures
        r@ == dec(pid as nat),
{
    dec_string(pid as u64)
}

/// A process that reads back its own lock finds itself named in it.
pub proof fn lock_text_names_its_writer(pid: u32)
    ensures
        named_pid(dec(pid as nat)) == Some(pid as nat),
{
    crate::numerals::reading_undoes_rendering(pid as nat);
    crate::numerals::numeral_is_trimmed(pid as nat);
}

impl AmbientLock {
    /// Takes the lock at `path` unless a different live process holds it.
    pub fn try_acquire(path: String, holder: Option<u32>, holder_alive: bool, own_pid: u32) -> (r:
        Option<AmbientLock>)
        ensures
            match r {
                Some(lock) => !held_elsewhere(holder, holder_alive, own_pid) && lock.lock_path
                    == path,
                None => held_elsewhere(holder, holder_alive, own_pid),
            },
    {
        if is_locked_by_another_process(holder, holder_alive, own_pid) {
            None
        } else {
            Some(AmbientLock { lock_path: path })
        }
    }

    /// The file to remove when the lock is given back.
    pub fn release(self) -> (r: String)
        ensures
            r == self.lock_path,
    {
        self.lock_path
    }
}

/// A request that names a time is woken then, whatever else it says; one that
/// names minutes that many minutes from now.
pub proof fn wakes_are_as_requested(req: ScheduleRequest, now: Timestamp, t: Timestamp, minutes: u32)
    requires
        wake_in_range(
            ScheduleRequest { wake_at: None, wake_in_minutes: Some(minutes), ..req },
            now,
        ),
    ensures
        wake_time(ScheduleRequest { wake_at: Some(t), ..req }, now) == t,
        wake_time(
            ScheduleRequest { wake_at: None, wake_in_minutes: Some(minutes), ..req },
            now,
        ).nanos == now.nanos + minutes * 60_000_000_000,
{
}

/// A cycle counts once, and leaves its own record: when it ended, what it said and
/// what it did. It is followed by the wake it asked for when it was complete and
/// asked for one, and by none otherwise.
pub proof fn a_cycle_leaves_its_record(
    before: AmbientState,
    result: AmbientCycleResult,
    now: Timestamp,
)
    requires
        before.total_cycles < u64::MAX,
    ensures
        ({
            let s = state_after(before, result, now);
            &&& s.total_cycles == before.total_cycles + 1
            &&& s.last_run == Some(result.ended_at)
            &&& s.last_summary == Some(result.summary)
            &&& s.last_compactions == Some(result.compactions)
            &&& s.last_memories_modified == Some(result.memories_modified)
            &&& s.status is Scheduled <==> result.status is Complete && result.next_schedule is Some
            &&& !(s.status is Scheduled) ==> s.status is Idle
            &&& s.status matches AmbientStatus::Scheduled { next_wake } ==> next_wake == wake_time(
                result.next_schedule->0,
                now,
            )
        }),
{
}

/// A lock counts as held elsewhere only when the process it names is alive and is
/// another one.
pub proof fn own_and_dead_locks_do_not_count(holder: u32, own_pid: u32)
    ensures
        !held_elsewhere(None, true, own_pid),
        !held_elsewhere(Some(holder), false, own_pid),
        !held_elsewhere(Some(own_pid), true, own_pid),
        holder != own_pid ==> held_elsewhere(Some(holder), true, own_pid),
{
}

/// A request that names no time is woken after half an hour.
pub proof fn a_wake_comes_even_unasked(req: ScheduleRequest, now: Timestamp)
    requires
        wake_in_range(ScheduleRequest { wake_at: None, wake_in_minutes: None, ..req }, now),
    ensures
        wake_time(ScheduleRequest { wake_at: None, wake_in_minutes: None, ..req }, now).nanos
            == now.nanos + 30 * 60_000_000_000,
{
}

} // verus!
