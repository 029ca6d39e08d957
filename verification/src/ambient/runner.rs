//! The runner's decisions: whether a cycle starts, how long to sleep, what a
//! restart reclaims, and what a finished cycle leaves behind.

use crate::ambient::manager::{earliest_due, recovered, wants_cycle, AmbientManager};
use crate::ambient::persistence::{
    claimed, first_earliest, in_delivery_order, is_direct, left, record_in_range, state_after, Claim,
};
use crate::ambient::schedule_window;
use crate::ambient::schedule_window::{
    allowed, bad_specs, good_specs, parse_windows, plausible_for, sleep_secs_until_open,
    sleep_until, state_of, window_views, ScheduleWindow, WindowState,
};
use crate::ambient::scheduler::AdaptiveScheduler;
use crate::ambient::types::{AmbientCycleResult, AmbientState, AmbientStatus, ScheduledItem};
use crate::clock;
use crate::clock::{searchable, DayStrike};
use crate::cron::jobs::CronDeadlines;
use crate::cron::schedule::is_searchable;
use crate::numerals::{dec_int, push_dec_int};
use crate::text::{join, joined, opt_view, owned, views};
use crate::time::{
    earlier, earlier_of, millis_between, truncated, LocalTime, Timestamp, NANOS_PER_MILLI,
    NANOS_PER_SEC,
};
use vstd::prelude::*;

verus! {

/// The longest the runner idles without looking at the queue, when nothing else
/// sets its pace.
pub const MAX_IDLE_POLL_SECS: u64 = 30;

/// The longest a closed window parks the runner.
pub const MAX_CLOSED_WINDOW_SLEEP_SECS: u64 = 3600;

/// How long the runner waits while a user is active, or for a lock.
pub const WAIT_SECS: u64 = 60;

// ---------------------------------------------------------------------------
// Windows
// ---------------------------------------------------------------------------

/// The windows of the configuration, and a warning about the entries that do
/// not parse, if there are any. A typo must not silently widen the windows.
pub fn configured_windows(specs: &Vec<String>) -> (r: (Vec<ScheduleWindow>, Option<String>))
    ensures
        window_views(r.0@) == good_specs(views(specs@)),
        forall|i: int| 0 <= i < r.0@.len() ==> (#[trigger] r.0@[i])@.well_formed(),
        match r.1 {
            Some(w) => {
                &&& bad_specs(views(specs@)).len() > 0
                &&& w@ == "Ambient: ignoring unparseable active_windows entries: "@ + joined(
                    bad_specs(views(specs@)),
                    ", "@,
                ) + ". Expected e.g. \"weekdays 09:00-19:00\"."@
            },
            None => bad_specs(views(specs@)).len() == 0,
        },
{
    let (windows, bad) = parse_windows(specs);
    if bad.len() == 0 {
        assert(views(bad@).len() == 0);
        return (windows, None);
    }
    assert(views(bad@).len() > 0);
    let mut warning = owned("Ambient: ignoring unparseable active_windows entries: ");
    let list = join(&bad, ", ");
    warning.append(list.as_str());
    warning.append(". Expected e.g. \"weekdays 09:00-19:00\".");
    (windows, Some(warning))
}

/// `r` is what the windows may say at `now`; nothing when the search ahead leads
/// off the calendar.
pub open spec fn possible_window_state(
    windows: Seq<ScheduleWindow>,
    now: LocalTime,
    r: Option<WindowState>,
) -> bool {
    match r {
        Some(s) => {
            &&& s is Open <==> allowed(windows, now)
            &&& exists|strikes: Seq<Seq<DayStrike>>| #[trigger]
                plausible_for(windows, now, strikes) && s == state_of(windows, now, strikes)
        },
        None => !searchable(now.instant),
    }
}

/// What the windows say at the wall clock's reading.
pub fn current_window_state(windows: &Vec<ScheduleWindow>) -> (r: Option<WindowState>)
    requires
        forall|i: int| 0 <= i < windows@.len() ==> (#[trigger] windows@[i])@.well_formed(),
    ensures
        exists|now: LocalTime|
            (searchable(now.instant) ==> now.valid()) && #[trigger] possible_window_state(
                windows@,
                now,
                r,
            ),
{
    let instant = clock::now();
    if !is_searchable(&instant) {
        let now = LocalTime { instant, wall_secs: 0 };
        assert(possible_window_state(windows@, now, None));
        return None;
    }
    let now = clock::local_time(instant);
    proof {
        assert forall|i: int| 0 <= i < windows@.len() implies (
        #[trigger] windows@[i]).start.valid() by {
            assert(windows@[i]@.well_formed());
        }
    }
    let r = Some(schedule_window::evaluate(windows, &now));
    assert(possible_window_state(windows@, now, r));
    r
}

/// Whether an ambient cycle may start.
pub fn may_start_cycle(ambient_allowed: bool, window_open: bool, wants_to_run: bool) -> (r: bool)
    ensures
        r == (ambient_allowed && window_open && wants_to_run),
{
    ambient_allowed && window_open && wants_to_run
}

// ---------------------------------------------------------------------------
// Sleeping
// ---------------------------------------------------------------------------

/// The soonest of two optional deadlines.
pub fn earliest_deadline(a: Option<Timestamp>, b: Option<Timestamp>) -> (r: Option<Timestamp>)
    ensures
        r == earlier(a, b),
{
    earlier_of(a, b)
}

/// The seconds to idle: a deadline ahead shortens the interval, rounded up to
/// whole seconds; one that has passed does not.
pub open spec fn idle_for(now: Timestamp, interval_secs: int, deadline: Option<Timestamp>) -> int {
    match deadline {
        Some(d) => {
            let ms = truncated(d.nanos - now.nanos, NANOS_PER_MILLI as int);
            let secs = (ms + 999) / 1000;
            if ms > 0 && secs < interval_secs {
                secs
            } else {
                interval_secs
            }
        },
        None => interval_secs,
    }
}

/// How long the idle loop sleeps. The interval is the ceiling; a deadline ahead
/// lowers it, so that queued work is not delayed by a whole interval.
pub fn idle_sleep_secs(now: &Timestamp, interval_secs: u64, next_deadline: Option<Timestamp>) -> (r:
    u64)
    requires
        now.valid(),
        next_deadline matches Some(d) ==> d.valid(),
    ensures
        r == idle_for(*now, interval_secs as int, next_deadline),
{
    match next_deadline {
        Some(d) => {
            let ms: i64 = millis_between(now, &d);
            if ms > 0 {
                let secs: u64 = (ms as u64 + 999) / 1000;
                if secs < interval_secs {
                    return secs;
                }
            }
            interval_secs
        },
        None => interval_secs,
    }
}

/// How long to idle while a window is closed. Only a deadline that is serviced
/// regardless of the window shortens the wait.
pub fn closed_window_sleep_secs(
    now: &Timestamp,
    next_open: Option<Timestamp>,
    next_direct_due: Option<Timestamp>,
) -> (r: u64)
    requires
        now.valid(),
        next_open matches Some(t) ==> t.valid(),
        next_direct_due matches Some(t) ==> t.valid(),
    ensures
        r == idle_for(
            *now,
            sleep_until(*now, next_open, MAX_CLOSED_WINDOW_SLEEP_SECS),
            next_direct_due,
        ),
{
    let until_open: u64 = sleep_secs_until_open(now, next_open, MAX_CLOSED_WINDOW_SLEEP_SECS);
    idle_sleep_secs(now, until_open, next_direct_due)
}

/// The loop never spins and never oversleeps: it sleeps at least a second and
/// at most the interval; and when a deadline is a millisecond or more ahead, it
/// wakes less than a second after it, and, unless the interval is up first, not
/// a millisecond before it.
pub proof fn idling_meets_deadlines(now: Timestamp, interval_secs: int, deadline: Timestamp)
    requires
        interval_secs >= 1,
        deadline.nanos - now.nanos >= NANOS_PER_MILLI,
    ensures
        1 <= idle_for(now, interval_secs, Some(deadline)) <= interval_secs,
        now.nanos + idle_for(now, interval_secs, Some(deadline)) * NANOS_PER_SEC < deadline.nanos
            + NANOS_PER_SEC,
        idle_for(now, interval_secs, Some(deadline)) < interval_secs ==> now.nanos + idle_for(
            now,
            interval_secs,
            Some(deadline),
        ) * NANOS_PER_SEC > deadline.nanos - NANOS_PER_MILLI,
{
}

/// A deadline that has passed does not shorten the sleep.
pub proof fn passed_deadlines_do_not_spin_the_loop(
    now: Timestamp,
    interval_secs: int,
    deadline: Timestamp,
)
    requires
        deadline.nanos <= now.nanos,
    ensures
        idle_for(now, interval_secs, Some(deadline)) == interval_secs,
{
}

// ---------------------------------------------------------------------------
// Rescheduling and recovery
// ---------------------------------------------------------------------------

/// The wake to record after a cycle, if it is the runner's to decide.
pub open spec fn next_wake_of(current: AmbientStatus, computed: Timestamp) -> Option<Timestamp> {
    match current {
        AmbientStatus::Scheduled { next_wake } => earlier(Some(next_wake), Some(computed)),
        AmbientStatus::Running { .. } => Some(computed),
        AmbientStatus::Idle => Some(computed),
        AmbientStatus::Paused { .. } => None,
        AmbientStatus::Disabled => None,
    }
}

/// The wake to record after a cycle. What the cycle asked for is a preference:
/// a later wake than the budget allows for is pulled forward, a sooner one is
/// kept. A disabled or paused runner is not rescheduled.
pub fn reconciled_next_wake(current: &AmbientStatus, computed: Timestamp) -> (r: Option<Timestamp>)
    ensures
        r == next_wake_of(*current, computed),
{
    match current {
        AmbientStatus::Scheduled { next_wake } => earlier_of(Some(*next_wake), Some(computed)),
        AmbientStatus::Running { .. } | AmbientStatus::Idle => Some(computed),
        AmbientStatus::Paused { .. } | AmbientStatus::Disabled => None,
    }
}

/// The wake on record never lies behind the one the budget allows for.
pub proof fn no_request_outlasts_the_budget(current: AmbientStatus, computed: Timestamp)
    ensures
        match next_wake_of(current, computed) {
            Some(t) => {
                &&& t.nanos <= computed.nanos
                &&& current matches AmbientStatus::Scheduled { next_wake } ==> t.nanos
                    <= next_wake.nanos
                &&& t == computed || (current matches AmbientStatus::Scheduled { next_wake } && t
                    == next_wake)
            },
            None => current is Paused || current is Disabled,
        },
{
}

/// The status to adopt at startup, or `None` to leave it alone. A recorded
/// `Running` was left by a process that died mid-cycle, unless another live
/// process holds the lock: then that process is in that cycle.
pub fn reclaimed_startup_status(status: &AmbientStatus, lock_is_foreign: bool) -> (r: Option<
    AmbientStatus,
>)
    ensures
        r == (if !lock_is_foreign && *status is Running {
            Some(AmbientStatus::Idle)
        } else {
            None
        }),
{
    if lock_is_foreign {
        return None;
    }
    match status {
        AmbientStatus::Running { .. } => Some(AmbientStatus::Idle),
        _ => None,
    }
}

/// Restores the queue items of a cycle that died before finishing them. Returns
/// how many came back. Nothing does while another live process holds the lock:
/// it is working on them.
pub fn recover_abandoned_queue_items(
    lock_is_foreign: bool,
    manager: &mut AmbientManager,
    abandoned: Vec<ScheduledItem>,
) -> (restored: usize)
    ensures
        final(manager).state == old(manager).state,
        final(manager).queue@ == (if lock_is_foreign {
            old(manager).queue@
        } else {
            recovered(old(manager).queue@, abandoned@)
        }),
        restored == final(manager).queue@.len() - old(manager).queue@.len(),
{
    if lock_is_foreign {
        return 0;
    }
    manager.recover_inflight_items(abandoned)
}

// ---------------------------------------------------------------------------
// The runner
// ---------------------------------------------------------------------------

/// What the runner knows of itself.
#[derive(Debug)]
pub struct AmbientRunnerHandle {
    pub state: AmbientState,
    /// Items in the queue, as last seen.
    pub queue_count: usize,
    /// The context of the next of them.
    pub next_queue_preview: Option<String>,
    /// Whether the loop is active.
    pub running: bool,
    pub active_user_sessions: usize,
    /// Whether a cycle is under way that takes messages.
    pub cycle_takes_messages: bool,
    /// A human asked for a cycle right now: windows do not apply to it.
    pub manual_override: bool,
}

/// What a restart reclaimed.
#[derive(Debug, Clone, Copy, PartialEq, Eq, Structural)]
pub struct StartupPlan {
    /// The status was reset and is to be saved.
    pub reset_status: bool,
    /// So many queue items came back.
    pub recovered: usize,
    /// The record of claimed items is settled. It is left alone when it belongs
    /// to another process.
    pub clear_record: bool,
}

/// Which replies are polled for.
#[derive(Debug, Clone, Copy, PartialEq, Eq, Structural)]
pub struct ReplyPollers {
    pub email: bool,
    pub channels: bool,
}

/// Which replies are polled for. None are while ambient mode is off.
pub fn reply_pollers(
    ambient_enabled: bool,
    email_enabled: bool,
    email_reply_enabled: bool,
    imap_host_set: bool,
) -> (r: ReplyPollers)
    ensures
        r.channels == ambient_enabled,
        r.email == (ambient_enabled && email_enabled && email_reply_enabled && imap_host_set),
{
    ReplyPollers {
        email: ambient_enabled && email_reply_enabled && imap_host_set && email_enabled,
        channels: ambient_enabled,
    }
}

/// How a pass of the loop starts.
#[derive(Debug, Clone, Copy, PartialEq, Eq, Structural)]
pub struct PassStart {
    /// Ambient mode is on and not stopped.
    pub ambient_allowed: bool,
    /// A window is open, or a human opened it for this pass.
    pub window_open: bool,
    /// A window is open by the clock, which is what recurring jobs go by.
    pub clock_window_open: bool,
    /// A human asked for a cycle.
    pub manual_override: bool,
    /// The pass ends here: a user is active.
    pub paused: bool,
}

/// What a look at the queue found.
#[derive(Debug)]
pub struct QueueCheck {
    pub should_run: bool,
    /// Items to deliver into sessions now.
    pub ready_direct: Vec<ScheduledItem>,
    pub next_direct_due: Option<Timestamp>,
    pub next_ambient_due: Option<Timestamp>,
}

/// What trying to take the lock led to.
#[derive(Debug, Clone, Copy, PartialEq, Eq, Structural)]
pub enum LockAttempt {
    Acquired,
    HeldElsewhere,
    Failed,
}

/// What the loop does after trying to take the lock.
#[derive(Debug, Clone, Copy, PartialEq, Eq, Structural)]
pub enum LockStep {
    RunCycle,
    Wait { secs: u64 },
}

/// How the loop goes on after a cycle.
#[derive(Debug, Clone, Copy, PartialEq, Eq, Structural)]
pub struct NextWake {
    pub sleep_secs: u64,
    /// The status was rescheduled and is to be saved.
    pub rescheduled: bool,
}

/// What becomes of a message from outside.
#[derive(Debug)]
pub enum MessageRoute {
    /// It goes into the running cycle.
    Interrupt { content: String },
    /// It is kept as a directive, and a cycle is asked for.
    Directive { text: String, source_id: String },
}

/// The earliest time among the items that go to a session.
pub open spec fn earliest_direct(items: Seq<ScheduledItem>) -> Option<Timestamp>
    decreases items.len(),
{
    if items.len() == 0 {
        None
    } else {
        let rest = earliest_direct(items.drop_last());
        if is_direct(items.last()) {
            earlier(rest, Some(items.last().scheduled_for))
        } else {
            rest
        }
    }
}

fn next_direct_due(items: &Vec<ScheduledItem>) -> (r: Option<Timestamp>)
    ensures
        r == earliest_direct(items@),
{
    let mut best: Option<Timestamp> = None;
    let mut i: usize = 0;
    assert(items@.take(0) =~= Seq::<ScheduledItem>::empty());
    while i < items.len()
        invariant
            i <= items@.len(),
            best == earliest_direct(items@.take(i as int)),
        decreases items@.len() - i,
    {
        assert(items@.take(i + 1).drop_last() =~= items@.take(i as int));
        assert(items@.take(i + 1).last() == items@[i as int]);
        if items[i].target.is_direct_delivery() {
            best = earlier_of(best, Some(items[i].scheduled_for));
        }
        i = i + 1;
    }
    assert(items@.take(items@.len() as int) =~= items@);
    best
}

/// `preview` is the context of the first of the earliest items.
pub open spec fn previews(items: Seq<ScheduledItem>, preview: Option<Seq<char>>) -> bool {
    match preview {
        Some(p) => exists|k: int| #[trigger] first_earliest(items, k) && items[k].context@ == p,
        None => items.len() == 0,
    }
}

/// The deadlines of recurring jobs that count: those that keep quiet hours do
/// not while the window is closed.
pub open spec fn cron_deadline(window_open: bool, cron: CronDeadlines) -> Option<Timestamp> {
    if window_open {
        earlier(cron.unblocked, cron.windowed)
    } else {
        cron.unblocked
    }
}

fn next_job_due(window_open: bool, cron: &CronDeadlines) -> (r: Option<Timestamp>)
    ensures
        r == cron_deadline(window_open, *cron),
{
    if window_open {
        earliest_deadline(cron.unblocked, cron.windowed)
    } else {
        cron.unblocked
    }
}

/// How long a pass that starts no cycle sleeps.
pub open spec fn pass_sleep(
    start: PassStart,
    direct_due: Option<Timestamp>,
    ambient_due: Option<Timestamp>,
    cron: CronDeadlines,
    next_open: Option<Timestamp>,
    now: Timestamp,
    interval_secs: u64,
) -> int {
    let direct = earlier(direct_due, cron_deadline(start.clock_window_open, cron));
    if start.ambient_allowed && !start.window_open {
        idle_for(now, sleep_until(now, next_open, MAX_CLOSED_WINDOW_SLEEP_SECS), direct)
    } else if start.ambient_allowed {
        let interval = if interval_secs < MAX_IDLE_POLL_SECS {
            MAX_IDLE_POLL_SECS
        } else {
            interval_secs
        };
        idle_for(now, interval as int, earlier(direct, ambient_due))
    } else {
        idle_for(now, MAX_IDLE_POLL_SECS as int, direct)
    }
}

pub open spec fn on_calendar(t: Option<Timestamp>) -> bool {
    t matches Some(x) ==> x.valid()
}

/// How long a pass that starts no cycle sleeps. A deadline that cannot be
/// serviced does not shorten it: that of a cycle while ambient mode is off or
/// the window is closed.
pub fn pass_sleep_secs(
    start: &PassStart,
    direct_due: Option<Timestamp>,
    ambient_due: Option<Timestamp>,
    cron: &CronDeadlines,
    next_open: Option<Timestamp>,
    now: &Timestamp,
    interval_secs: u64,
) -> (r: u64)
    requires
        now.valid(),
        on_calendar(direct_due) && on_calendar(ambient_due) && on_calendar(next_open),
        on_calendar(cron.unblocked) && on_calendar(cron.windowed),
    ensures
        r == pass_sleep(
            *start,
            direct_due,
            ambient_due,
            *cron,
            next_open,
            *now,
            interval_secs,
        ),
{
    let direct = earliest_deadline(direct_due, next_job_due(start.clock_window_open, cron));
    if start.ambient_allowed && !start.window_open {
        closed_window_sleep_secs(now, next_open, direct)
    } else if start.ambient_allowed {
        let interval: u64 = if interval_secs < MAX_IDLE_POLL_SECS {
            MAX_IDLE_POLL_SECS
        } else {
            interval_secs
        };
        idle_sleep_secs(now, interval, earliest_deadline(direct, ambient_due))
    } else {
        idle_sleep_secs(now, MAX_IDLE_POLL_SECS, direct)
    }
}

impl AmbientRunnerHandle {
    pub fn new(state: AmbientState) -> (r: AmbientRunnerHandle)
        ensures
            r.state == state,
            r.queue_count == 0 && r.next_queue_preview is None,
            !r.running && r.active_user_sessions == 0,
            !r.cycle_takes_messages && !r.manual_override,
    {
        AmbientRunnerHandle {
            state,
            queue_count: 0,
            next_queue_preview: None,
            running: false,
            active_user_sessions: 0,
            cycle_takes_messages: false,
            manual_override: false,
        }
    }

    pub fn is_running(&self) -> (r: bool)
        ensures
            r == self.running,
    {
        self.running
    }

    pub fn state(&self) -> (r: &AmbientState)
        ensures
            *r == self.state,
    {
        &self.state
    }

    /// Asks for a cycle right now. Returns whether the state is to be saved: a
    /// planned wake is given up, so that the loop finds it is time to run.
    pub fn trigger(&mut self) -> (save: bool)
        ensures
            save == (old(self).state.status is Scheduled || old(self).state.status is Idle),
            final(self).state.status == (if save {
                AmbientStatus::Idle
            } else {
                old(self).state.status
            }),
            *final(self) == (AmbientRunnerHandle {
                state: AmbientState { status: final(self).state.status, ..old(self).state },
                manual_override: true,
                ..*old(self)
            }),
    {
        let save = match &self.state.status {
            AmbientStatus::Scheduled { .. } | AmbientStatus::Idle => true,
            _ => false,
        };
        if save {
            self.state.status = AmbientStatus::Idle;
        }
        self.manual_override = true;
        save
    }

    /// Stops ambient mode. The state is to be saved.
    pub fn stop(&mut self)
        ensures
            *final(self) == (AmbientRunnerHandle {
                state: AmbientState { status: AmbientStatus::Disabled, ..old(self).state },
                ..*old(self)
            }),
    {
        self.state.status = AmbientStatus::Disabled;
    }

    /// Starts the loop unless it is active. Returns whether it is to be
    /// started, and the state saved.
    pub fn start(&mut self) -> (r: bool)
        ensures
            r == !old(self).running,
            *final(self) == (if r {
                AmbientRunnerHandle {
                    state: AmbientState { status: AmbientStatus::Idle, ..old(self).state },
                    ..*old(self)
                }
            } else {
                *old(self)
            }),
    {
        if self.running {
            return false;
        }
        self.state.status = AmbientStatus::Idle;
        true
    }

    /// Routes a message from outside: into the running cycle, or, when there is
    /// none, to a directive, and a cycle is asked for. Returns the route, and
    /// whether the state is to be saved.
    pub fn inject_message(&mut self, text: &str, source: &str, now: &Timestamp) -> (r: (
        MessageRoute,
        bool,
    ))
        requires
            now.valid(),
        ensures
            old(self).cycle_takes_messages ==> {
                &&& r.0 matches MessageRoute::Interrupt { content } && content@ == "["@ + source@
                    + " message from user]\n"@ + text@
                &&& !r.1
                &&& *final(self) == *old(self)
            },
            !old(self).cycle_takes_messages ==> {
                &&& r.0 matches MessageRoute::Directive { text: kept, source_id } && kept@ == text@
                    && source_id@ == source@ + "_"@ + dec_int(now.secs())
                &&& final(self).manual_override
                &&& r.1 == (old(self).state.status is Scheduled || old(self).state.status is Idle)
                &&& final(self).state.status == (if r.1 {
                    AmbientStatus::Idle
                } else {
                    old(self).state.status
                })
                &&& *final(self) == (AmbientRunnerHandle {
                    state: AmbientState { status: final(self).state.status, ..old(self).state },
                    manual_override: true,
                    ..*old(self)
                })
            },
    {
        if self.cycle_takes_messages {
            let mut content = owned("[");
            content.append(source);
            content.append(" message from user]\n");
            content.append(text);
            return (MessageRoute::Interrupt { content }, false);
        }
        let mut source_id = owned(source);
        source_id.append("_");
        push_dec_int(&mut source_id, now.timestamp());
        let save = self.trigger();
        (MessageRoute::Directive { text: owned(text), source_id }, save)
    }

    /// Starts the loop's work: reclaims what a process that died mid-cycle left
    /// behind, unless another live process holds the lock.
    pub fn start_up(
        &mut self,
        lock_is_foreign: bool,
        manager: &mut AmbientManager,
        abandoned: Vec<ScheduledItem>,
    ) -> (r: StartupPlan)
        ensures
            r.reset_status == (!lock_is_foreign && old(self).state.status is Running),
            r.clear_record == !lock_is_foreign,
            r.recovered == final(manager).queue@.len() - old(manager).queue@.len(),
            final(manager).state == old(manager).state,
            final(manager).queue@ == (if lock_is_foreign {
                old(manager).queue@
            } else {
                recovered(old(manager).queue@, abandoned@)
            }),
            final(self).state.status == (if r.reset_status {
                AmbientStatus::Idle
            } else {
                old(self).state.status
            }),
            *final(self) == (AmbientRunnerHandle {
                state: AmbientState { status: final(self).state.status, ..old(self).state },
                running: true,
                ..*old(self)
            }),
    {
        self.running = true;
        let mut reset_status = false;
        if let Some(status) = reclaimed_startup_status(&self.state.status, lock_is_foreign) {
            self.state.status = status;
            reset_status = true;
        }
        let recovered = recover_abandoned_queue_items(lock_is_foreign, manager, abandoned);
        StartupPlan { reset_status, recovered, clear_record: !lock_is_foreign }
    }

    /// Starts a pass of the loop. A pending manual trigger opens the window for
    /// it, without being spent. While a user is active the pass ends here, after
    /// [`WAIT_SECS`].
    pub fn begin_pass(
        &mut self,
        scheduler: &mut AdaptiveScheduler,
        ambient_enabled: bool,
        window_open: bool,
    ) -> (r: PassStart)
        ensures
            r.ambient_allowed == (ambient_enabled && !(old(self).state.status is Disabled)),
            r.manual_override == old(self).manual_override,
            r.clock_window_open == window_open,
            r.window_open == (window_open || old(self).manual_override),
            r.paused == (r.ambient_allowed && old(self).active_user_sessions > 0 && old(
                scheduler,
            ).config.pause_on_active_session),
            *final(scheduler) == (AdaptiveScheduler {
                user_active: if r.ambient_allowed {
                    old(self).active_user_sessions > 0
                } else {
                    old(scheduler).user_active
                },
                ..*old(scheduler)
            }),
            r.paused ==> (final(self).state.status matches AmbientStatus::Paused { reason }
                && reason@ == "user session active"@),
            !r.paused ==> final(self).state.status == old(self).state.status,
            *final(self) == (AmbientRunnerHandle {
                state: AmbientState { status: final(self).state.status, ..old(self).state },
                ..*old(self)
            }),
    {
        let disabled = match &self.state.status {
            AmbientStatus::Disabled => true,
            _ => false,
        };
        let ambient_allowed = ambient_enabled && !disabled;
        let manual_override = self.manual_override;
        let mut paused = false;
        if ambient_allowed {
            scheduler.set_user_active(self.active_user_sessions > 0);
            if scheduler.should_pause() {
                self.state.status = AmbientStatus::Paused { reason: owned("user session active") };
                paused = true;
            }
        }
        PassStart {
            ambient_allowed,
            window_open: window_open || manual_override,
            clock_window_open: window_open,
            manual_override,
            paused,
        }
    }

    /// Looks at the queue at `now`: takes out what is to be delivered into
    /// sessions, and decides whether a cycle is to start.
    pub fn check_queue(
        &mut self,
        manager: &mut AmbientManager,
        start: &PassStart,
        ambient_enabled: bool,
        pending_directives: bool,
        now: &Timestamp,
    ) -> (r: QueueCheck)
        ensures
            final(manager).state == old(manager).state,
            final(manager).queue@ == left(old(manager).queue@, Claim::Direct, *now),
            in_delivery_order(claimed(old(manager).queue@, Claim::Direct, *now), r.ready_direct@),
            r.next_direct_due == earliest_direct(final(manager).queue@),
            r.next_ambient_due == earliest_due(final(manager).queue@, false),
            r.should_run == (start.ambient_allowed && start.window_open && (pending_directives
                || wants_cycle(
                ambient_enabled,
                old(manager).state.status,
                final(manager).queue@,
                *now,
            ))),
            final(self).queue_count == final(manager).queue@.len(),
            previews(final(manager).queue@, opt_view(final(self).next_queue_preview)),
            *final(self) == (AmbientRunnerHandle {
                queue_count: final(self).queue_count,
                next_queue_preview: final(self).next_queue_preview,
                ..*old(self)
            }),
    {
        let ready_direct = manager.queue.take_ready_matching(Claim::Direct, now);
        let direct_due = next_direct_due(manager.queue.items());
        let ambient_due = manager.next_ambient_item_due();
        self.queue_count = manager.queue.len();
        self.next_queue_preview = match manager.queue.peek_next() {
            Some(item) => Some(item.context.clone()),
            None => None,
        };
        let wants = manager.should_run_at(ambient_enabled, now) || pending_directives;
        QueueCheck {
            should_run: may_start_cycle(start.ambient_allowed, start.window_open, wants),
            ready_direct,
            next_direct_due: direct_due,
            next_ambient_due: ambient_due,
        }
    }

    /// What a look at a queue that cannot be read comes to.
    pub fn queue_unreadable() -> (r: QueueCheck)
        ensures
            !r.should_run,
            r.ready_direct@.len() == 0,
            r.next_direct_due is None && r.next_ambient_due is None,
    {
        QueueCheck {
            should_run: false,
            ready_direct: Vec::new(),
            next_direct_due: None,
            next_ambient_due: None,
        }
    }

    /// Goes on after trying to take the lock. Only a cycle that really starts
    /// spends a manual trigger.
    pub fn after_lock(&mut self, attempt: LockAttempt, start: &PassStart) -> (r: LockStep)
        ensures
            r == (if attempt is Acquired {
                LockStep::RunCycle
            } else {
                LockStep::Wait { secs: WAIT_SECS }
            }),
            attempt is Acquired ==> {
                &&& final(self).state.status matches AmbientStatus::Running { detail } && detail@
                    == "starting cycle"@
                &&& final(self).manual_override == (old(self).manual_override
                    && !start.manual_override)
            },
            !(attempt is Acquired) ==> *final(self) == *old(self),
            *final(self) == (AmbientRunnerHandle {
                state: AmbientState { status: final(self).state.status, ..old(self).state },
                manual_override: final(self).manual_override,
                ..*old(self)
            }),
    {
        match attempt {
            LockAttempt::Acquired => {
                if start.manual_override {
                    self.manual_override = false;
                }
                self.set_running_detail("starting cycle");
                LockStep::RunCycle
            },
            LockAttempt::HeldElsewhere | LockAttempt::Failed => LockStep::Wait { secs: WAIT_SECS },
        }
    }

    /// Notes what the running cycle is doing. The state is to be saved.
    pub fn set_running_detail(&mut self, detail: &str)
        ensures
            final(self).state.status matches AmbientStatus::Running { detail: d } && d@ == detail@,
            *final(self) == (AmbientRunnerHandle {
                state: AmbientState { status: final(self).state.status, ..old(self).state },
                ..*old(self)
            }),
    {
        self.state.status = AmbientStatus::Running { detail: owned(detail) };
    }

    /// Records a finished cycle as of `now`. The state is to be saved, and the
    /// claim of the cycle is settled.
    pub fn cycle_succeeded(
        &mut self,
        result: &AmbientCycleResult,
        now: &Timestamp,
        scheduler: &mut AdaptiveScheduler,
    )
        requires
            old(self).state.total_cycles < u64::MAX,
            record_in_range(*result, *now),
        ensures
            *final(self) == (AmbientRunnerHandle {
                state: state_after(old(self).state, *result, *now),
                cycle_takes_messages: false,
                ..*old(self)
            }),
            *final(scheduler) == (AdaptiveScheduler { backoff_multiplier: 1, ..*old(scheduler) }),
    {
        self.cycle_takes_messages = false;
        self.state.record_cycle_at(result, now);
        scheduler.on_successful_cycle();
    }

    /// Notes that a cycle failed: the next one is put off further. The state is
    /// to be saved.
    pub fn cycle_failed(&mut self, scheduler: &mut AdaptiveScheduler)
        ensures
            *final(self) == (AmbientRunnerHandle {
                state: AmbientState { status: AmbientStatus::Idle, ..old(self).state },
                cycle_takes_messages: false,
                ..*old(self)
            }),
            final(scheduler).config == old(scheduler).config,
            final(scheduler).user_active == old(scheduler).user_active,
            final(scheduler).backoff_multiplier == (if old(scheduler).backoff_multiplier * 2 > 64 {
                64
            } else {
                old(scheduler).backoff_multiplier * 2
            }),
    {
        self.cycle_takes_messages = false;
        scheduler.on_rate_limit_hit();
        self.state.status = AmbientStatus::Idle;
    }

    /// Plans the next wake after a cycle: an interval from `now`, or sooner when
    /// a queue item or a recurring job is due sooner, or sooner yet when the
    /// cycle asked for it.
    pub fn plan_next_wake(
        &mut self,
        interval_secs: u64,
        next_due: Option<Timestamp>,
        cron: &CronDeadlines,
        clock_window_open: bool,
        now: &Timestamp,
    ) -> (r: NextWake)
        requires
            now.valid(),
            on_calendar(next_due) && on_calendar(cron.unblocked) && on_calendar(cron.windowed),
            now.reaches(interval_secs * NANOS_PER_SEC),
            now.reaches(MAX_IDLE_POLL_SECS * NANOS_PER_SEC),
        ensures
            r.sleep_secs == idle_for(
                *now,
                if interval_secs < MAX_IDLE_POLL_SECS {
                    MAX_IDLE_POLL_SECS as int
                } else {
                    interval_secs as int
                },
                earlier(next_due, cron_deadline(clock_window_open, *cron)),
            ),
            match next_wake_of(
                old(self).state.status,
                Timestamp { nanos: (now.nanos + r.sleep_secs * NANOS_PER_SEC) as i128 },
            ) {
                Some(next_wake) => r.rescheduled && final(self).state.status
                    == (AmbientStatus::Scheduled { next_wake }),
                None => !r.rescheduled && final(self).state.status == old(self).state.status,
            },
            *final(self) == (AmbientRunnerHandle {
                state: AmbientState { status: final(self).state.status, ..old(self).state },
                ..*old(self)
            }),
    {
        let interval: u64 = if interval_secs < MAX_IDLE_POLL_SECS {
            MAX_IDLE_POLL_SECS
        } else {
            interval_secs
        };
        let deadline = earliest_deadline(next_due, next_job_due(clock_window_open, cron));
        let sleep_secs: u64 = idle_sleep_secs(now, interval, deadline);
        let computed = now.plus_secs(sleep_secs as i64);
        match reconciled_next_wake(&self.state.status, computed) {
            Some(next_wake) => {
                self.state.status = AmbientStatus::Scheduled { next_wake };
                NextWake { sleep_secs, rescheduled: true }
            },
            None => NextWake { sleep_secs, rescheduled: false },
        }
    }
}

/// The earliest delivery into a session is that of an item for a session, none is
/// earlier, and there is one whenever such an item waits.
pub proof fn the_earliest_delivery(items: Seq<ScheduledItem>)
    ensures
        forall|i: int|
            0 <= i < items.len() && !((#[trigger] items[i]).target is Ambient) ==> {
                earliest_direct(items) matches Some(t) && t.nanos <= items[i].scheduled_for.nanos
            },
        earliest_direct(items) matches Some(t) ==> exists|i: int|
            0 <= i < items.len() && !((#[trigger] items[i]).target is Ambient)
                && items[i].scheduled_for == t,
    decreases items.len(),
{
    if items.len() > 0 {
        let rest = items.drop_last();
        the_earliest_delivery(rest);
        assert forall|i: int| 0 <= i < items.len() && !((#[trigger] items[i]).target is Ambient) implies {
            earliest_direct(items) matches Some(t) && t.nanos <= items[i].scheduled_for.nanos
        } by {
            if i < rest.len() {
                assert(rest[i] == items[i]);
            }
        }
        if let Some(t) = earliest_direct(items) {
            if !(items.last().target is Ambient) && items.last().scheduled_for == t {
                assert(items[items.len() - 1].scheduled_for == t);
            } else {
                let i = choose|i: int|
                    0 <= i < rest.len() && !((#[trigger] rest[i]).target is Ambient)
                        && rest[i].scheduled_for == t;
                assert(items[i].scheduled_for == t);
            }
        }
    }
}

/// A deadline that the pass cannot meet does not shorten its sleep: the wake of a
/// cycle matters only while ambient mode is on and the window open, the opening of
/// a window only while ambient mode is on and it is closed, and a job that keeps
/// quiet hours only while the clock is inside a window.
pub proof fn deadlines_that_cannot_be_met_do_not_count(
    start: PassStart,
    direct_due: Option<Timestamp>,
    ambient_due: Option<Timestamp>,
    other_due: Option<Timestamp>,
    cron: CronDeadlines,
    windowed: Option<Timestamp>,
    next_open: Option<Timestamp>,
    other_open: Option<Timestamp>,
    now: Timestamp,
    interval_secs: u64,
)
    ensures
        !start.ambient_allowed || !start.window_open ==> pass_sleep(
            start,
            direct_due,
            ambient_due,
            cron,
            next_open,
            now,
            interval_secs,
        ) == pass_sleep(start, direct_due, other_due, cron, next_open, now, interval_secs),
        !start.ambient_allowed || start.window_open ==> pass_sleep(
            start,
            direct_due,
            ambient_due,
            cron,
            next_open,
            now,
            interval_secs,
        ) == pass_sleep(start, direct_due, ambient_due, cron, other_open, now, interval_secs),
        !start.clock_window_open ==> pass_sleep(
            start,
            direct_due,
            ambient_due,
            cron,
            next_open,
            now,
            interval_secs,
        ) == pass_sleep(
            start,
            direct_due,
            ambient_due,
            CronDeadlines { windowed, ..cron },
            next_open,
            now,
            interval_secs,
        ),
{
}

/// A pass never sleeps through a delivery, a job that ignores quiet hours, or,
/// where they count, a cycle's item or a job that keeps them: it is up again less
/// than a second after the earliest that is a millisecond or more ahead, provided
/// that nothing that counts has passed already.
pub proof fn a_pass_is_up_for_its_deadlines(
    start: PassStart,
    direct_due: Option<Timestamp>,
    ambient_due: Option<Timestamp>,
    cron: CronDeadlines,
    next_open: Option<Timestamp>,
    now: Timestamp,
    interval_secs: u64,
    deadline: Timestamp,
)
    requires
        deadline.nanos - now.nanos >= 1_000_000,
        direct_due matches Some(t) ==> t.nanos >= now.nanos + 1_000_000,
        ambient_due matches Some(t) ==> t.nanos >= now.nanos + 1_000_000,
        cron.unblocked matches Some(t) ==> t.nanos >= now.nanos + 1_000_000,
        cron.windowed matches Some(t) ==> t.nanos >= now.nanos + 1_000_000,
        ({
            ||| direct_due == Some(deadline)
            ||| cron.unblocked == Some(deadline)
            ||| start.clock_window_open && cron.windowed == Some(deadline)
            ||| start.ambient_allowed && start.window_open && ambient_due == Some(deadline)
        }),
    ensures
        now.nanos + pass_sleep(
            start,
            direct_due,
            ambient_due,
            cron,
            next_open,
            now,
            interval_secs,
        ) * 1_000_000_000 < deadline.nanos + 1_000_000_000,
{
}

} // verus!
