//! What is shown of the runner: its status, its queue and its past cycles.

use crate::ambient::cycle::AmbientTranscript;
use crate::ambient::persistence::{is_direct, is_due};
use crate::ambient::phrases::{format_minutes_human, minutes_text};
use crate::ambient::runner::AmbientRunnerHandle;
use crate::ambient::schedule_window::{
    describe, description, window_views, ScheduleWindow, WindowState,
};
use crate::ambient::types::{
    AmbientState, AmbientStatus, CycleStatus, Priority, ScheduleTarget, ScheduledItem,
};
use crate::clock::{rfc3339, rfc3339_of};
use crate::text::{copy_texts, opt_clone, opt_view, owned, views};
use crate::time::{secs_between, truncated, Timestamp, NANOS_PER_SEC};
use vstd::prelude::*;

verus! {

// ---------------------------------------------------------------------------
// Status
// ---------------------------------------------------------------------------

/// The minutes until `t`, none when it has passed, in 32 bits.
pub open spec fn minutes_until(t: Timestamp, now: Timestamp) -> int {
    let mins = truncated(t.nanos - now.nanos, NANOS_PER_SEC as int) / 60;
    if t.nanos <= now.nanos {
        0
    } else {
        mins % 0x1_0000_0000
    }
}

/// The minutes until `t`, none when it has passed, in 32 bits.
pub fn minutes_to(t: &Timestamp, now: &Timestamp) -> (r: u32)
    requires
        t.valid(),
        now.valid(),
    ensures
        r == minutes_until(*t, *now),
{
    let secs: i64 = secs_between(now, t);
    if secs <= 0 {
        assert(t.nanos > now.nanos ==> secs == 0);
        return 0;
    }
    ((secs / 60) % 0x1_0000_0000) as u32
}

/// The status in words.
pub open spec fn status_text(status: AmbientStatus, now: Timestamp) -> Seq<char> {
    match status {
        AmbientStatus::Idle => "idle"@,
        AmbientStatus::Running { detail } => "running: "@ + detail@,
        AmbientStatus::Scheduled { next_wake } => "scheduled (in "@ + minutes_text(
            minutes_until(next_wake, now) as nat,
        ) + ")"@,
        AmbientStatus::Paused { reason } => "paused: "@ + reason@,
        AmbientStatus::Disabled => "disabled"@,
    }
}

/// The status in words.
pub fn describe_status(status: &AmbientStatus, now: &Timestamp) -> (r: String)
    requires
        now.valid(),
        status matches AmbientStatus::Scheduled { next_wake } ==> next_wake.valid(),
    ensures
        r@ == status_text(*status, *now),
{
    match status {
        AmbientStatus::Idle => owned("idle"),
        AmbientStatus::Running { detail } => {
            let mut out = owned("running: ");
            out.append(detail.as_str());
            out
        },
        AmbientStatus::Scheduled { next_wake } => {
            let mut out = owned("scheduled (in ");
            let wait = format_minutes_human(minutes_to(next_wake, now));
            out.append(wait.as_str());
            out.append(")");
            out
        },
        AmbientStatus::Paused { reason } => {
            let mut out = owned("paused: ");
            out.append(reason.as_str());
            out
        },
        AmbientStatus::Disabled => owned("disabled"),
    }
}

/// What is shown of a part of the queue.
#[derive(Debug)]
pub struct QueueGlance {
    pub count: usize,
    /// What the next item is about.
    pub next_preview: Option<String>,
    /// When it is due, in RFC 3339.
    pub next_due: Option<String>,
    pub overdue_count: usize,
}

/// The item belongs to the part shown: all items, or those that go to a session.
pub open spec fn shown(item: ScheduledItem, direct_only: bool) -> bool {
    !direct_only || is_direct(item)
}

/// How many items belong to the part shown, or how many of those are overdue.
pub open spec fn shown_count(
    items: Seq<ScheduledItem>,
    direct_only: bool,
    overdue: Option<Timestamp>,
) -> nat
    decreases items.len(),
{
    if items.len() == 0 {
        0
    } else {
        let item = items.last();
        shown_count(items.drop_last(), direct_only, overdue) + (if shown(item, direct_only) && (
        overdue matches Some(now) ==> is_due(item, now)) {
            1nat
        } else {
            0
        })
    }
}

/// The first of the earliest items of the part shown.
pub open spec fn next_shown(items: Seq<ScheduledItem>, direct_only: bool) -> Option<ScheduledItem>
    decreases items.len(),
{
    if items.len() == 0 {
        None
    } else {
        let item = items.last();
        match next_shown(items.drop_last(), direct_only) {
            None => if shown(item, direct_only) {
                Some(item)
            } else {
                None
            },
            Some(best) => if shown(item, direct_only) && item.scheduled_for.nanos
                < best.scheduled_for.nanos {
                Some(item)
            } else {
                Some(best)
            },
        }
    }
}

/// What an item is about.
pub open spec fn about(item: ScheduledItem) -> Seq<char> {
    match item.task_description {
        Some(d) => d@,
        None => item.context@,
    }
}

/// `g` shows a part of the queue.
pub open spec fn glances(
    g: QueueGlance,
    items: Seq<ScheduledItem>,
    direct_only: bool,
    now: Timestamp,
) -> bool {
    &&& g.count == shown_count(items, direct_only, None)
    &&& g.overdue_count == shown_count(items, direct_only, Some(now))
    &&& opt_view(g.next_preview) == (match next_shown(items, direct_only) {
        Some(item) => Some(about(item)),
        None => None,
    })
    &&& opt_view(g.next_due) == (match next_shown(items, direct_only) {
        Some(item) => Some(rfc3339_of(item.scheduled_for)),
        None => None,
    })
}

/// The instants of the items are on the calendar.
pub open spec fn items_in_range(items: Seq<ScheduledItem>) -> bool {
    forall|i: int|
        0 <= i < items.len() ==> (#[trigger] items[i]).scheduled_for.valid()
            && items[i].created_at.valid()
}

/// Shows the queue, or the part of it that goes to sessions.
pub fn glance(items: &Vec<ScheduledItem>, direct_only: bool, now: &Timestamp) -> (r: QueueGlance)
    requires
        items_in_range(items@),
    ensures
        glances(r, items@, direct_only, *now),
{
    let mut count: usize = 0;
    let mut overdue_count: usize = 0;
    let mut best: Option<usize> = None;
    let mut i: usize = 0;
    assert(items@.take(0) =~= Seq::<ScheduledItem>::empty());
    while i < items.len()
        invariant
            i <= items@.len(),
            count == shown_count(items@.take(i as int), direct_only, None),
            overdue_count == shown_count(items@.take(i as int), direct_only, Some(*now)),
            count <= i,
            overdue_count <= i,
            best matches Some(k) ==> k < i,
            next_shown(items@.take(i as int), direct_only) == (match best {
                Some(k) => Some(items@[k as int]),
                None => None,
            }),
        decreases items@.len() - i,
    {
        let item = &items[i];
        proof {
            assert(items@.take(i + 1).drop_last() =~= items@.take(i as int));
            assert(items@.take(i + 1).last() == *item);
        }
        if !direct_only || item.target.is_direct_delivery() {
            count = count + 1;
            if item.scheduled_for.nanos <= now.nanos {
                overdue_count = overdue_count + 1;
            }
            best = match best {
                Some(k) => if item.scheduled_for.nanos < items[k].scheduled_for.nanos {
                    Some(i)
                } else {
                    Some(k)
                },
                None => Some(i),
            };
        }
        i = i + 1;
    }
    assert(items@.take(items@.len() as int) =~= items@);
    match best {
        Some(k) => {
            let item = &items[k];
            assert(items@[k as int].scheduled_for.valid());
            let text: &str = match &item.task_description {
                Some(d) => d.as_str(),
                None => item.context.as_str(),
            };
            QueueGlance {
                count,
                next_preview: Some(owned(text)),
                next_due: Some(rfc3339(&item.scheduled_for)),
                overdue_count,
            }
        },
        None => QueueGlance { count, next_preview: None, next_due: None, overdue_count },
    }
}

/// What is shown of the next item is one of the items of the part shown, none
/// of which comes before it.
pub proof fn next_shown_is_earliest(items: Seq<ScheduledItem>, direct_only: bool)
    ensures
        match next_shown(items, direct_only) {
            Some(best) => items.contains(best) && shown(best, direct_only) && forall|i: int|
                0 <= i < items.len() && shown(#[trigger] items[i], direct_only)
                    ==> items[i].scheduled_for.nanos >= best.scheduled_for.nanos,
            None => forall|i: int|
                0 <= i < items.len() ==> !shown(#[trigger] items[i], direct_only),
        },
    decreases items.len(),
{
    if items.len() > 0 {
        let rest = items.drop_last();
        next_shown_is_earliest(rest, direct_only);
        assert(forall|i: int| 0 <= i < rest.len() ==> #[trigger] items[i] == rest[i]);
        assert(items[items.len() - 1] == items.last());
        if let Some(best) = next_shown(items, direct_only) {
            if best == items.last() {
                assert(items.contains(items[items.len() - 1]));
            } else {
                let k = rest.index_of(best);
                assert(items[k] == best);
            }
        }
    }
}

/// The status as shown.
#[derive(Debug)]
pub struct StatusReport {
    pub enabled: bool,
    pub status: String,
    pub active_windows: String,
    pub window_open: bool,
    pub window_next_open: Option<Timestamp>,
    pub loop_running: bool,
    pub total_cycles: u64,
    pub last_run: Option<String>,
    pub last_summary: Option<String>,
    pub last_memories_modified: Option<u32>,
    pub last_compactions: Option<u32>,
    pub queue: QueueGlance,
    /// The items that go to sessions, which are called reminders and scheduled
    /// tasks alike.
    pub reminders: QueueGlance,
    pub active_user_sessions: usize,
}

/// `r` reports the runner and its queue at `now`; a queue that cannot be read is
/// shown empty.
pub open spec fn reports(
    r: StatusReport,
    runner: AmbientRunnerHandle,
    queue: Option<Seq<ScheduledItem>>,
    enabled: bool,
    windows: Seq<ScheduleWindow>,
    window: WindowState,
    now: Timestamp,
) -> bool {
    let items = match queue {
        Some(q) => q,
        None => Seq::empty(),
    };
    &&& r.enabled == enabled
    &&& r.status@ == status_text(runner.state.status, now)
    &&& r.active_windows@ == description(window_views(windows))
    &&& r.window_open == (window is Open)
    &&& r.window_next_open == (match window {
        WindowState::Open => None::<Timestamp>,
        WindowState::Closed { next_open } => next_open,
    })
    &&& r.loop_running == runner.running
    &&& r.total_cycles == runner.state.total_cycles
    &&& opt_view(r.last_run) == (match runner.state.last_run {
        Some(t) => Some(rfc3339_of(t)),
        None => None,
    })
    &&& r.last_summary == runner.state.last_summary
    &&& r.last_memories_modified == runner.state.last_memories_modified
    &&& r.last_compactions == runner.state.last_compactions
    &&& glances(r.queue, items, false, now)
    &&& glances(r.reminders, items, true, now)
    &&& r.active_user_sessions == runner.active_user_sessions
}

pub open spec fn opt_items(queue: Option<&Vec<ScheduledItem>>) -> Option<Seq<ScheduledItem>> {
    match queue {
        Some(q) => Some(q@),
        None => None,
    }
}

/// The instants of a state are on the calendar.
pub open spec fn state_in_range(state: AmbientState) -> bool {
    &&& state.last_run matches Some(t) ==> t.valid()
    &&& state.status matches AmbientStatus::Scheduled { next_wake } ==> next_wake.valid()
}

/// Reports the runner and its queue at `now`.
pub fn status_report(
    runner: &AmbientRunnerHandle,
    queue: Option<&Vec<ScheduledItem>>,
    enabled: bool,
    windows: &Vec<ScheduleWindow>,
    window: &WindowState,
    now: &Timestamp,
) -> (r: StatusReport)
    requires
        now.valid(),
        state_in_range(runner.state),
        queue matches Some(q) ==> items_in_range(q@),
    ensures
        reports(r, *runner, opt_items(queue), enabled, windows@, *window, *now),
{
    let none: Vec<ScheduledItem> = Vec::new();
    assert(none@ =~= Seq::<ScheduledItem>::empty());
    let items: &Vec<ScheduledItem> = match queue {
        Some(q) => q,
        None => &none,
    };
    let last_run = match &runner.state.last_run {
        Some(t) => Some(rfc3339(t)),
        None => None,
    };
    StatusReport {
        enabled,
        status: describe_status(&runner.state.status, now),
        active_windows: describe(windows),
        window_open: window.is_open(),
        window_next_open: window.next_open_at(),
        loop_running: runner.running,
        total_cycles: runner.state.total_cycles,
        last_run,
        last_summary: opt_clone(&runner.state.last_summary),
        last_memories_modified: runner.state.last_memories_modified,
        last_compactions: runner.state.last_compactions,
        queue: glance(items, false, now),
        reminders: glance(items, true, now),
        active_user_sessions: runner.active_user_sessions,
    }
}

// ---------------------------------------------------------------------------
// Queue
// ---------------------------------------------------------------------------

/// A queue item as shown.
#[derive(Debug)]
pub struct QueueEntry {
    pub id: String,
    pub scheduled_for: String,
    pub context: String,
    pub task_description: Option<String>,
    pub priority: &'static str,
    pub created_at: String,
    pub target_kind: &'static str,
    pub target_session_id: Option<String>,
    pub target_parent_session_id: Option<String>,
    pub working_dir: Option<String>,
    pub relevant_files: Vec<String>,
    pub git_branch: Option<String>,
    pub overdue: bool,
    pub overdue_seconds: i64,
}

pub open spec fn priority_word(p: Priority) -> Seq<char> {
    match p {
        Priority::Low => "Low"@,
        Priority::Normal => "Normal"@,
        Priority::High => "High"@,
    }
}

/// `e` shows `item` at `now`.
pub open spec fn shows_item(e: QueueEntry, item: ScheduledItem, now: Timestamp) -> bool {
    &&& e.id@ == item.id@
    &&& e.scheduled_for@ == rfc3339_of(item.scheduled_for)
    &&& e.context@ == item.context@
    &&& opt_view(e.task_description) == opt_view(item.task_description)
    &&& e.priority@ == priority_word(item.priority)
    &&& e.created_at@ == rfc3339_of(item.created_at)
    &&& match item.target {
        ScheduleTarget::Ambient => e.target_kind@ == "ambient"@ && e.target_session_id is None
            && e.target_parent_session_id is None,
        ScheduleTarget::Session { session_id } => e.target_kind@ == "session"@ && opt_view(
            e.target_session_id,
        ) == Some(session_id@) && e.target_parent_session_id is None,
        ScheduleTarget::Spawn { parent_session_id } => e.target_kind@ == "spawn"@
            && e.target_session_id is None && opt_view(e.target_parent_session_id) == Some(
            parent_session_id@,
        ),
    }
    &&& opt_view(e.working_dir) == opt_view(item.working_dir)
    &&& views(e.relevant_files@) == views(item.relevant_files@)
    &&& opt_view(e.git_branch) == opt_view(item.git_branch)
    &&& e.overdue == is_due(item, now)
    &&& e.overdue_seconds == (if item.scheduled_for.nanos >= now.nanos {
        0
    } else {
        (now.nanos - item.scheduled_for.nanos) / NANOS_PER_SEC as int
    })
}

/// Shows one queue item at `now`.
pub fn queue_entry(item: &ScheduledItem, now: &Timestamp) -> (r: QueueEntry)
    requires
        now.valid(),
        item.scheduled_for.valid() && item.created_at.valid(),
    ensures
        shows_item(r, *item, *now),
{
    let secs: i64 = secs_between(&item.scheduled_for, now);
    let overdue_seconds: i64 = if secs < 0 {
        0
    } else {
        secs
    };
    let mut target_kind: &'static str = "ambient";
    let mut target_session_id: Option<String> = None;
    let mut target_parent_session_id: Option<String> = None;
    match &item.target {
        ScheduleTarget::Ambient => {},
        ScheduleTarget::Session { session_id } => {
            target_kind = "session";
            target_session_id = Some(session_id.clone());
        },
        ScheduleTarget::Spawn { parent_session_id } => {
            target_kind = "spawn";
            target_parent_session_id = Some(parent_session_id.clone());
        },
    }
    QueueEntry {
        id: item.id.clone(),
        scheduled_for: rfc3339(&item.scheduled_for),
        context: item.context.clone(),
        task_description: opt_clone(&item.task_description),
        priority: match item.priority {
            Priority::Low => "Low",
            Priority::Normal => "Normal",
            Priority::High => "High",
        },
        created_at: rfc3339(&item.created_at),
        target_kind,
        target_session_id,
        target_parent_session_id,
        working_dir: opt_clone(&item.working_dir),
        relevant_files: copy_texts(&item.relevant_files),
        git_branch: opt_clone(&item.git_branch),
        overdue: item.scheduled_for.nanos <= now.nanos,
        overdue_seconds,
    }
}

/// Shows the queue at `now`, in its order.
pub fn queue_report(items: &Vec<ScheduledItem>, now: &Timestamp) -> (r: Vec<QueueEntry>)
    requires
        now.valid(),
        items_in_range(items@),
    ensures
        r@.len() == items@.len(),
        forall|i: int| 0 <= i < items@.len() ==> shows_item(#[trigger] r@[i], items@[i], *now),
{
    let mut out: Vec<QueueEntry> = Vec::new();
    let mut i: usize = 0;
    while i < items.len()
        invariant
            now.valid(),
            items_in_range(items@),
            i <= items@.len(),
            out@.len() == i,
            forall|j: int| 0 <= j < i ==> shows_item(#[trigger] out@[j], items@[j], *now),
        decreases items@.len() - i,
    {
        assert(items@[i as int].scheduled_for.valid());
        out.push(queue_entry(&items[i], now));
        i = i + 1;
    }
    out
}

// ---------------------------------------------------------------------------
// Log
// ---------------------------------------------------------------------------

/// A past cycle as shown.
#[derive(Debug)]
pub struct LogEntry {
    pub session_id: String,
    pub started_at: String,
    pub ended_at: Option<String>,
    pub status: &'static str,
    pub summary: Option<String>,
    pub memories_modified: u32,
    pub compactions: u32,
}

pub open spec fn outcome_word(s: CycleStatus) -> Seq<char> {
    match s {
        CycleStatus::Complete => "Complete"@,
        CycleStatus::Interrupted => "Interrupted"@,
        CycleStatus::Incomplete => "Incomplete"@,
    }
}

/// Shows a past cycle.
pub fn log_entry(t: &AmbientTranscript) -> (r: LogEntry)
    requires
        t.started_at.valid(),
        t.ended_at matches Some(e) ==> e.valid(),
    ensures
        r.session_id@ == t.session_id@,
        r.started_at@ == rfc3339_of(t.started_at),
        opt_view(r.ended_at) == (match t.ended_at {
            Some(e) => Some(rfc3339_of(e)),
            None => None,
        }),
        r.status@ == outcome_word(t.status),
        opt_view(r.summary) == opt_view(t.summary),
        r.memories_modified == t.memories_modified,
        r.compactions == t.compactions,
{
    LogEntry {
        session_id: t.session_id.clone(),
        started_at: rfc3339(&t.started_at),
        ended_at: match &t.ended_at {
            Some(e) => Some(rfc3339(e)),
            None => None,
        },
        status: match t.status {
            CycleStatus::Complete => "Complete",
            CycleStatus::Interrupted => "Interrupted",
            CycleStatus::Incomplete => "Incomplete",
        },
        summary: opt_clone(&t.summary),
        memories_modified: t.memories_modified,
        compactions: t.compactions,
    }
}

/// Every item that is shown counts once, and as overdue exactly when its time has
/// come.
pub proof fn every_item_shown_counts_once(
    items: Seq<ScheduledItem>,
    x: ScheduledItem,
    direct_only: bool,
    now: Timestamp,
)
    ensures
        shown_count(Seq::empty(), direct_only, Some(now)) == 0,
        shown_count(items, false, None) == items.len(),
        shown_count(items.push(x), direct_only, None) == shown_count(items, direct_only, None) + (
        if direct_only && x.target is Ambient {
            0int
        } else {
            1
        }),
        shown_count(items.push(x), direct_only, Some(now)) == shown_count(
            items,
            direct_only,
            Some(now),
        ) + (if (direct_only && x.target is Ambient) || x.scheduled_for.nanos > now.nanos {
            0int
        } else {
            1
        }),
        shown_count(items, direct_only, Some(now)) <= shown_count(items, direct_only, None)
            <= items.len(),
    decreases items.len(),
{
    assert(items.push(x).drop_last() =~= items);
    if items.len() > 0 {
        every_item_shown_counts_once(items.drop_last(), x, direct_only, now);
    }
}

/// What is due is due in no time; what is ahead is that many whole minutes ahead,
/// as far as 32 bits count them.
pub proof fn minutes_are_whole(t: Timestamp, now: Timestamp)
    ensures
        t.nanos <= now.nanos ==> minutes_until(t, now) == 0,
        now.nanos < t.nanos < now.nanos + 0x1_0000_0000 * 60_000_000_000 ==> minutes_until(t, now)
            * 60_000_000_000 <= t.nanos - now.nanos < (minutes_until(t, now) + 1) * 60_000_000_000,
{
}

/// A listed item is overdue exactly when its time has come, by whole seconds, and
/// names whom it is for and no one else.
pub proof fn listed_items_are_told(e: QueueEntry, item: ScheduledItem, now: Timestamp)
    requires
        shows_item(e, item, now),
    ensures
        e.overdue <==> item.scheduled_for.nanos <= now.nanos,
        e.overdue ==> e.overdue_seconds * 1_000_000_000 <= now.nanos - item.scheduled_for.nanos < (
        e.overdue_seconds + 1) * 1_000_000_000,
        !e.overdue ==> e.overdue_seconds == 0,
        e.target_session_id is Some <==> item.target is Session,
        e.target_parent_session_id is Some <==> item.target is Spawn,
{
}

/// A glance at the queue counts what is shown of it and what of that is overdue,
/// and names what comes next whenever something does.
pub proof fn glances_tell_what_comes_next(
    g: QueueGlance,
    items: Seq<ScheduledItem>,
    direct_only: bool,
    now: Timestamp,
)
    requires
        glances(g, items, direct_only, now),
    ensures
        g.overdue_count <= g.count <= items.len(),
        !direct_only ==> g.count == items.len(),
        g.next_preview is Some <==> g.next_due is Some,
        g.next_due is Some <==> next_shown(items, direct_only) is Some,
        next_shown(items, direct_only) matches Some(x) ==> opt_view(g.next_due) == Some(
            rfc3339_of(x.scheduled_for),
        ) && opt_view(g.next_preview) == Some(
            if x.task_description is Some {
                x.task_description->0@
            } else {
                x.context@
            },
        ),
{
    if items.len() > 0 {
        every_item_shown_counts_once(items, items[0], direct_only, now);
    }
}

/// A report tells of the runner and of the queue it was given; a queue that could
/// not be read counts as empty.
pub proof fn reports_tell_of_the_runner(
    r: StatusReport,
    runner: AmbientRunnerHandle,
    queue: Option<Seq<ScheduledItem>>,
    enabled: bool,
    windows: Seq<ScheduleWindow>,
    window: WindowState,
    now: Timestamp,
)
    requires
        reports(r, runner, queue, enabled, windows, window, now),
    ensures
        r.enabled == enabled,
        r.window_open <==> window is Open,
        r.window_open ==> r.window_next_open is None,
        window matches WindowState::Closed { next_open } ==> r.window_next_open == next_open,
        r.loop_running == runner.running,
        r.total_cycles == runner.state.total_cycles,
        r.last_run is Some <==> runner.state.last_run is Some,
        r.last_summary == runner.state.last_summary,
        r.last_memories_modified == runner.state.last_memories_modified,
        r.last_compactions == runner.state.last_compactions,
        r.active_user_sessions == runner.active_user_sessions,
        queue is None ==> r.queue.count == 0 && r.reminders.count == 0,
        queue matches Some(q) ==> r.queue.count == q.len(),
        r.reminders.count <= r.queue.count,
{
    let items = match queue {
        Some(q) => q,
        None => Seq::empty(),
    };
    glances_tell_what_comes_next(r.queue, items, false, now);
    glances_tell_what_comes_next(r.reminders, items, true, now);
}

} // verus!
