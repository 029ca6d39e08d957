//! The runner: when it wakes, when a cycle starts, and what a restart recovers.

use chrono::{DateTime, Duration, Utc};
use jcode_ambient::ambient::delivery::{
    after_notify, answer_to, child_session, delivery_of, Delivery, NotifyStep, ParentSession,
    ReplyEvent,
};
use jcode_ambient::ambient::loop_steps::{next_step, LoopEvent, LoopStep};
use jcode_ambient::ambient::manager::AmbientManager;
use jcode_ambient::ambient::persistence::{
    is_locked_by_another_process, lock_holder, AmbientLock, ScheduledQueue,
};
use jcode_ambient::ambient::runner::{
    closed_window_sleep_secs, configured_windows, current_window_state, earliest_deadline,
    idle_sleep_secs, may_start_cycle, pass_sleep_secs, reclaimed_startup_status,
    reconciled_next_wake, recover_abandoned_queue_items, reply_pollers, AmbientRunnerHandle,
    LockAttempt, LockStep, MessageRoute,
};
use jcode_ambient::ambient::scheduler::{AdaptiveScheduler, AmbientSchedulerConfig};
use jcode_ambient::ambient::types::{
    AmbientCycleResult, AmbientState, AmbientStatus, CycleStatus, Priority, ScheduleRequest,
    ScheduleTarget, ScheduledItem,
};
use jcode_ambient::cron::jobs::CronDeadlines;
use jcode_ambient::time::Timestamp;

fn at(t: DateTime<Utc>) -> Timestamp {
    Timestamp::from_parts(t.timestamp(), t.timestamp_subsec_nanos())
}

fn state_with(status: AmbientStatus) -> AmbientState {
    AmbientState {
        status,
        last_run: None,
        last_summary: None,
        last_compactions: None,
        last_memories_modified: None,
        total_cycles: 0,
    }
}

fn manager_with(status: AmbientStatus) -> AmbientManager {
    AmbientManager::new(state_with(status), ScheduledQueue::new())
}

fn request(context: &str, when: DateTime<Utc>, target: ScheduleTarget) -> ScheduleRequest {
    ScheduleRequest {
        wake_in_minutes: None,
        wake_at: Some(at(when)),
        context: context.to_string(),
        priority: Priority::Normal,
        target,
        created_by_session: "test".to_string(),
        working_dir: None,
        task_description: None,
        relevant_files: Vec::new(),
        git_branch: None,
        additional_context: None,
    }
}

fn copied(item: &ScheduledItem) -> ScheduledItem {
    item.clone()
}

#[test]
fn runner_stays_alive_to_service_schedules_when_ambient_disabled() {
    let mut runner = AmbientRunnerHandle::new(state_with(AmbientStatus::Idle));
    let mut manager = manager_with(AmbientStatus::Idle);
    runner.start_up(false, &mut manager, Vec::new());
    assert!(
        runner.is_running(),
        "runner should remain active for scheduled tasks even with ambient disabled"
    );

    let mut scheduler = AdaptiveScheduler::new(AmbientSchedulerConfig::default());
    let start = runner.begin_pass(&mut scheduler, false, true);
    assert!(!start.ambient_allowed);
    assert!(!start.paused);
    assert!(matches!(
        next_step(LoopStep::BeginPass, LoopEvent::PassBegun { start }),
        LoopStep::CheckQueue { .. }
    ));
}

#[test]
fn spawn_target_creates_one_child_session_and_runs_task() {
    let parent_id = "session_parent_spawn_test";
    let now = at(Utc::now());
    let item = ScheduledItem {
        id: "sched_spawn_test".to_string(),
        scheduled_for: now,
        context: "Follow up later".to_string(),
        priority: Priority::Normal,
        target: ScheduleTarget::Spawn { parent_session_id: parent_id.to_string() },
        created_by_session: parent_id.to_string(),
        created_at: now,
        working_dir: Some("/work".to_string()),
        project: None,
        task_description: Some("Follow up later".to_string()),
        relevant_files: vec!["src/lib.rs".to_string()],
        git_branch: None,
        additional_context: Some("Background: spawned schedule test".to_string()),
    };

    match delivery_of(&item) {
        Delivery::Spawn { parent_session_id, reminder } => {
            assert_eq!(parent_session_id, parent_id);
            assert!(reminder.contains("[Scheduled task]"));
            assert!(reminder.contains("Follow up later"));
            assert!(reminder.contains("src/lib.rs"));
        }
        other => panic!("expected a spawn, got {other:?}"),
    }

    let parent = ParentSession { working_dir: Some("/parent".to_string()) };
    let child = child_session(&item, parent_id, Some(&parent));
    assert_eq!(child.parent_id, parent_id);
    assert_eq!(child.working_dir.as_deref(), Some("/work"));
    assert!(child.inherits);

    let homeless = ScheduledItem { working_dir: None, task_description: None, ..copied(&item) };
    let child = child_session(&homeless, parent_id, Some(&parent));
    assert_eq!(child.working_dir.as_deref(), Some("/parent"));
    assert_eq!(child.title, "Scheduled task");
    assert!(!child_session(&homeless, parent_id, None).inherits);
}

#[test]
fn earliest_deadline_picks_the_nearer_of_the_two() {
    let now = Utc::now();
    let soon = at(now + Duration::minutes(5));
    let later = at(now + Duration::hours(2));

    assert_eq!(earliest_deadline(Some(soon), Some(later)), Some(soon));
    assert_eq!(earliest_deadline(Some(later), Some(soon)), Some(soon));
    assert_eq!(earliest_deadline(Some(soon), None), Some(soon));
    assert_eq!(earliest_deadline(None, Some(later)), Some(later));
    assert_eq!(earliest_deadline(None, None), None);
}

/// An ambient-targeted queue item that is already due must make the runner
/// want to run, even while the next wake is planned far in the future.
#[test]
fn due_ambient_queue_item_triggers_a_cycle_despite_a_distant_next_wake() {
    let mut mgr = manager_with(AmbientStatus::Scheduled {
        next_wake: at(Utc::now() + Duration::hours(2)),
    });
    assert!(!mgr.should_run(true), "an empty queue with a distant next_wake must not run");

    mgr.schedule(
        request(
            "overdue ambient work",
            Utc::now() - Duration::minutes(1),
            ScheduleTarget::Ambient,
        ),
        &Vec::new(),
    )
    .expect("schedule item");

    assert!(mgr.has_due_ambient_item(), "the overdue item should be reported as due");
    assert!(
        mgr.should_run(true),
        "a due ambient queue item must trigger a cycle on its own"
    );
}

/// A future ambient item must still be visible as a deadline (so the sleep can
/// be shortened to meet it) without claiming to be due yet.
#[test]
fn future_ambient_queue_item_is_a_deadline_but_not_yet_due() {
    let mut mgr = manager_with(AmbientStatus::Idle);
    let due_at = Utc::now() + Duration::minutes(45);
    mgr.schedule(request("later ambient work", due_at, ScheduleTarget::Ambient), &Vec::new())
        .expect("schedule item");

    assert!(!mgr.has_due_ambient_item(), "not due for another 45 minutes");
    let next = mgr.next_ambient_item_due().expect("a deadline is known");
    assert_eq!(next, at(due_at));
}

/// The post-cycle sleep is bounded by the next queued item whatever its target.
#[test]
fn the_next_deadline_spans_every_target_kind() {
    let mut mgr = manager_with(AmbientStatus::Idle);
    assert!(mgr.next_item_due().is_none(), "an empty queue imposes no deadline");

    let now = Utc::now();
    let ambient_at = now + Duration::minutes(45);
    let direct_at = now + Duration::minutes(10);
    mgr.schedule(request("queued work", ambient_at, ScheduleTarget::Ambient), &Vec::new())
        .expect("schedule item");
    mgr.schedule(
        request(
            "queued work",
            direct_at,
            ScheduleTarget::Session { session_id: "session_test".to_string() },
        ),
        &Vec::new(),
    )
    .expect("schedule item");

    assert_eq!(
        mgr.next_item_due(),
        Some(at(direct_at)),
        "the soonest item wins regardless of target"
    );
    assert_eq!(
        mgr.next_ambient_item_due(),
        Some(at(ambient_at)),
        "the ambient-only view still excludes direct deliveries"
    );

    // And the sleep actually shortens to it, rather than taking the interval.
    let interval = 15 * 60;
    assert_eq!(
        idle_sleep_secs(&at(now), interval, mgr.next_item_due()),
        10 * 60,
        "a 10-minute deadline must not wait out a 15-minute interval"
    );
}

/// Due ambient items must leave the queue when a cycle claims them.
#[test]
fn claiming_ambient_items_removes_them_but_keeps_future_and_direct_ones() {
    let mut mgr = manager_with(AmbientStatus::Idle);
    let past = Utc::now() - Duration::minutes(10);
    let future = Utc::now() + Duration::hours(1);
    let none: Vec<String> = Vec::new();
    mgr.schedule(request("due ambient", past, ScheduleTarget::Ambient), &none).expect("schedule");
    mgr.schedule(request("future ambient", future, ScheduleTarget::Ambient), &none)
        .expect("schedule");
    mgr.schedule(
        request(
            "due direct",
            past,
            ScheduleTarget::Session { session_id: "session_other".to_string() },
        ),
        &none,
    )
    .expect("schedule");

    let claimed = mgr.take_ready_ambient_items();
    assert_eq!(claimed.len(), 1, "only the due ambient item is claimed");
    assert_eq!(claimed[0].context, "due ambient");

    let left: Vec<_> = mgr.queue().items().iter().map(|i| i.context.clone()).collect();
    assert!(
        !left.contains(&"due ambient".to_string()),
        "the claimed item must not be replayed to the next cycle"
    );
    assert!(
        left.contains(&"future ambient".to_string()),
        "items that are not due yet must stay queued"
    );
    assert!(
        left.contains(&"due direct".to_string()),
        "direct-delivery items are serviced by their own path"
    );
    assert!(!mgr.has_due_ambient_item());
}

/// The idle sleep must be shortened by a future deadline but never by a past
/// one: a past deadline means the run is blocked by something else, and a
/// sub-second sleep re-armed every pass turns the loop into a busy-wait.
#[test]
fn idle_sleep_is_bounded_by_future_deadlines_and_never_busy_loops() {
    let now = Utc::now();
    let t = at(now);
    let interval = 7200u64;

    assert_eq!(
        idle_sleep_secs(&t, interval, None),
        interval,
        "no deadline means the full maintenance interval"
    );
    assert_eq!(
        idle_sleep_secs(&t, interval, Some(at(now + Duration::minutes(45)))),
        45 * 60,
        "a nearer deadline shortens the sleep"
    );
    assert_eq!(
        idle_sleep_secs(&t, interval, Some(at(now + Duration::hours(5)))),
        interval,
        "a deadline beyond the interval does not extend the sleep"
    );

    for past in [Duration::seconds(1), Duration::hours(4), Duration::days(3)] {
        assert_eq!(
            idle_sleep_secs(&t, interval, Some(at(now - past))),
            interval,
            "an overdue deadline must not shorten the sleep ({past})"
        );
    }
    assert_eq!(
        idle_sleep_secs(&t, interval, Some(t)),
        interval,
        "a deadline exactly now must not produce a zero-length sleep"
    );

    for ms in [1i64, 100, 500, 871, 999] {
        assert_eq!(
            idle_sleep_secs(&t, interval, Some(at(now + Duration::milliseconds(ms)))),
            1,
            "a deadline {ms}ms away must wake in ~1s, not sleep the full interval"
        );
    }
    assert_eq!(
        idle_sleep_secs(&t, interval, Some(at(now + Duration::milliseconds(1500)))),
        2,
        "partial seconds round up so the wake lands at or after the deadline"
    );
}

/// A cycle that dies mid-flight leaves `Running` recorded. Nothing else clears
/// it, so startup must reclaim it or ambient would never run again.
#[test]
fn startup_reclaims_a_cycle_interrupted_by_a_previous_process() {
    let running = || AmbientStatus::Running { detail: "running agent".to_string() };
    let mut mgr = manager_with(running());
    assert!(
        !mgr.should_run(true),
        "a Running status blocks every future cycle while it persists"
    );

    let mut runner = AmbientRunnerHandle::new(state_with(running()));
    let plan = runner.start_up(false, &mut mgr, Vec::new());
    assert!(plan.reset_status);
    assert!(
        !matches!(runner.state().status, AmbientStatus::Running { .. }),
        "startup must clear a stale Running status, got {:?}",
        runner.state().status
    );
}

/// A reload keeps the process id, so a lock left behind by the image before it
/// passes the liveness check.
#[test]
fn lock_left_by_our_own_pre_exec_image_is_not_mistaken_for_a_live_holder() {
    let own: u32 = 4242;
    assert!(
        AmbientLock::try_acquire("/l".to_string(), lock_holder("4242"), true, own).is_some(),
        "a lock naming our own PID is stale by definition and must be reclaimed"
    );
    assert!(
        AmbientLock::try_acquire("/l".to_string(), lock_holder("1"), true, own).is_none(),
        "a live foreign holder must still block acquisition"
    );
}

/// Claiming is optimistic, so it needs an undo that restores what was claimed.
#[test]
fn requeued_items_are_restored_and_persisted_so_failed_cycles_lose_nothing() {
    let mut mgr = manager_with(AmbientStatus::Idle);
    mgr.schedule(
        ScheduleRequest {
            priority: Priority::High,
            ..request(
                "important scheduled work",
                Utc::now() - Duration::minutes(5),
                ScheduleTarget::Ambient,
            )
        },
        &Vec::new(),
    )
    .expect("schedule");

    let claimed = mgr.take_ready_ambient_items();
    assert_eq!(claimed.len(), 1);
    assert!(!mgr.has_due_ambient_item(), "precondition: the claim emptied the due set");

    // The cycle failed; hand the work back.
    mgr.requeue_items(claimed);

    assert!(
        mgr.has_due_ambient_item(),
        "restored work must be due again so the next wake picks it up"
    );
    let restored: Vec<_> = mgr
        .queue()
        .items()
        .iter()
        .filter(|i| i.context == "important scheduled work")
        .collect();
    assert_eq!(restored.len(), 1, "restored exactly once, not duplicated or lost");
    assert_eq!(
        restored[0].priority,
        Priority::High,
        "priority must survive the round trip"
    );
}

/// What a process that died had claimed is restored by the next one.
#[test]
fn items_claimed_by_a_process_that_died_are_recovered_at_startup() {
    // A cycle claims the work...
    let mut mgr = manager_with(AmbientStatus::Idle);
    mgr.schedule(
        request(
            "work that must survive a crash",
            Utc::now() - Duration::minutes(5),
            ScheduleTarget::Ambient,
        ),
        &Vec::new(),
    )
    .expect("schedule");
    let claimed = mgr.take_ready_ambient_items();
    assert_eq!(claimed.len(), 1);
    let record: Vec<ScheduledItem> = claimed.iter().map(copied).collect();
    let record_again: Vec<ScheduledItem> = claimed.iter().map(copied).collect();
    assert!(mgr.queue().is_empty(), "precondition: the claim really did remove it");

    // ...and the next process recovers it.
    let mut fresh = manager_with(AmbientStatus::Idle);
    assert_eq!(fresh.recover_inflight_items(record), 1, "the item must come back");
    assert!(
        fresh.has_due_ambient_item(),
        "recovered work must be due so the next cycle picks it up"
    );

    // Recovery is idempotent: a second startup must not duplicate the work.
    assert_eq!(fresh.recover_inflight_items(record_again), 0);
    assert_eq!(fresh.recover_inflight_items(Vec::new()), 0);
    let count = fresh
        .queue()
        .items()
        .iter()
        .filter(|i| i.context == "work that must survive a crash")
        .count();
    assert_eq!(count, 1, "the item must exist exactly once, never duplicated");
}

/// A completed cycle settles its claim, so there is nothing left to recover.
#[test]
fn a_settled_claim_is_not_resurrected_by_a_later_restart() {
    let mut mgr = manager_with(AmbientStatus::Idle);
    mgr.schedule(
        request(
            "work completed normally",
            Utc::now() - Duration::minutes(5),
            ScheduleTarget::Ambient,
        ),
        &Vec::new(),
    )
    .expect("schedule");
    assert_eq!(mgr.take_ready_ambient_items().len(), 1);

    assert_eq!(
        mgr.recover_inflight_items(Vec::new()),
        0,
        "completed work must not be resurrected as abandoned"
    );
    assert!(
        !mgr.has_due_ambient_item(),
        "the queue must stay empty after a normally completed cycle"
    );
}

/// Our own process id must not count as a holder, because a reload keeps it.
#[test]
fn a_live_foreign_lock_holder_suppresses_startup_recovery() {
    let own: u32 = 4242;
    assert!(
        !is_locked_by_another_process(None, false, own),
        "absent lock must not look like a live holder"
    );
    assert!(
        is_locked_by_another_process(lock_holder("1"), true, own),
        "a live foreign holder must suppress recovery"
    );
    assert!(
        !is_locked_by_another_process(lock_holder("4242"), true, own),
        "our own stale lock must not block us from recovering our own work"
    );
    assert!(
        !is_locked_by_another_process(lock_holder("4294967294"), false, own),
        "a dead holder is not live"
    );
    assert!(
        !is_locked_by_another_process(lock_holder("not-a-pid"), false, own),
        "an unparseable lock must not wedge recovery forever"
    );
}

/// The startup path consults the lock.
#[test]
fn startup_recovery_defers_to_a_live_foreign_lock_holder() {
    let running = AmbientStatus::Running { detail: "mid-cycle".to_string() };

    // No foreign holder: the wedged status is ours to clear.
    assert!(
        matches!(reclaimed_startup_status(&running, false), Some(AmbientStatus::Idle)),
        "an interrupted cycle we own must be reset or ambient stays wedged forever"
    );
    // A live foreign holder: that Running belongs to a cycle happening NOW.
    assert!(
        reclaimed_startup_status(&running, true).is_none(),
        "resetting a live daemon's status would let two cycles run at once"
    );
    // An idle status is never "recovered" either way.
    for foreign in [true, false] {
        assert!(
            reclaimed_startup_status(&AmbientStatus::Idle, foreign).is_none(),
            "idle is not an interrupted cycle (foreign={foreign})"
        );
    }

    // Same gate on the queue items. Seed a real abandoned claim first.
    let mut mgr = manager_with(AmbientStatus::Idle);
    mgr.schedule(
        request(
            "claimed by the other daemon",
            Utc::now() - Duration::minutes(5),
            ScheduleTarget::Ambient,
        ),
        &Vec::new(),
    )
    .expect("schedule");
    let claimed = mgr.take_ready_ambient_items();
    assert_eq!(claimed.len(), 1);

    assert_eq!(
        recover_abandoned_queue_items(true, &mut mgr, claimed.iter().map(copied).collect()),
        0,
        "items claimed by a live daemon must not be handed to a second cycle"
    );
    let mut runner = AmbientRunnerHandle::new(state_with(AmbientStatus::Idle));
    let plan = runner.start_up(true, &mut mgr, claimed.iter().map(copied).collect());
    assert!(
        !plan.clear_record,
        "deferring must LEAVE the record for its real owner, not consume it"
    );
    assert_eq!(
        recover_abandoned_queue_items(false, &mut mgr, claimed),
        1,
        "with no foreign holder the abandoned item is ours to recover"
    );
}

/// A record that cannot be read holds nothing to recover, and is cleared.
#[test]
fn a_corrupt_inflight_record_is_survivable_and_self_clearing() {
    let mut mgr = manager_with(AmbientStatus::Idle);
    let mut runner = AmbientRunnerHandle::new(state_with(AmbientStatus::Idle));
    let plan = runner.start_up(false, &mut mgr, Vec::new());
    assert_eq!(plan.recovered, 0);
    assert!(plan.clear_record);
}

/// A manual trigger must be recorded, or the loop reads back the planned wake.
#[test]
fn a_manual_trigger_is_persisted_so_the_loop_can_see_it() {
    let planned =
        || AmbientStatus::Scheduled { next_wake: at(Utc::now() + Duration::hours(3)) };
    assert!(
        !manager_with(planned()).should_run(true),
        "a distant scheduled wake must not run on its own"
    );

    let mut runner = AmbientRunnerHandle::new(state_with(planned()));
    assert!(runner.trigger(), "the change must be saved");
    assert!(
        matches!(runner.state().status, AmbientStatus::Idle),
        "trigger must record Idle, got {:?}",
        runner.state().status
    );
    assert!(
        AmbientManager::new(runner.state().copied(), ScheduledQueue::new()).should_run(true),
        "a triggered cycle must be runnable from a freshly loaded manager"
    );
}

/// A cycle's own request for a wake is a preference, not an override.
#[test]
fn an_agents_requested_wake_never_outlasts_the_budgeted_interval() {
    let now = Utc::now();
    let computed = at(now + Duration::minutes(13));

    let distant_request = AmbientStatus::Scheduled { next_wake: at(now + Duration::hours(3)) };
    assert_eq!(
        reconciled_next_wake(&distant_request, computed),
        Some(computed),
        "a request beyond the budgeted interval is pulled forward"
    );

    // The reverse is honoured: asking to wake sooner is always allowed, since
    // the interval is a budget ceiling and not a minimum spacing.
    let soon = at(now + Duration::minutes(2));
    let eager_request = AmbientStatus::Scheduled { next_wake: soon };
    assert_eq!(
        reconciled_next_wake(&eager_request, computed),
        Some(soon),
        "a nearer request is kept"
    );

    // No request at all: the computed interval stands.
    assert_eq!(reconciled_next_wake(&AmbientStatus::Idle, computed), Some(computed));
    assert_eq!(
        reconciled_next_wake(
            &AmbientStatus::Running { detail: "running agent".to_string() },
            computed
        ),
        Some(computed)
    );
}

/// Disabled and Paused are not ours to reschedule.
#[test]
fn a_disabled_or_paused_runner_is_not_rescheduled() {
    let computed = at(Utc::now() + Duration::minutes(13));

    assert_eq!(reconciled_next_wake(&AmbientStatus::Disabled, computed), None);
    assert_eq!(
        reconciled_next_wake(
            &AmbientStatus::Paused { reason: "user session active".to_string() },
            computed
        ),
        None
    );
}

/// The window must actually gate cycle start.
#[test]
fn closed_window_blocks_cycle_start() {
    assert!(
        may_start_cycle(true, true, true),
        "open window and wanting to run must start a cycle"
    );
    assert!(
        !may_start_cycle(true, false, true),
        "a closed window must block a cycle even when everything else says run"
    );
    assert!(
        !may_start_cycle(false, true, true),
        "ambient disabled still blocks regardless of the window"
    );
    assert!(
        !may_start_cycle(true, true, false),
        "an open window must not force a run that was not wanted"
    );
}

/// A closed window must park the runner near the reopening instead of polling
/// every 30s, but a direct delivery still pulls it awake early.
#[test]
fn closed_window_sleeps_until_open() {
    let now = Utc::now();

    // Reopens in 10 minutes, nothing else pending: sleep ~10 minutes.
    let secs =
        closed_window_sleep_secs(&at(now), Some(at(now + Duration::minutes(10))), None);
    assert!(
        (590..=600).contains(&secs),
        "expected ~600s until the window opens, got {secs}"
    );

    // A direct delivery inside the closed period still wins: those bypass the
    // window because the user is sitting in that session.
    let secs = closed_window_sleep_secs(
        &at(now),
        Some(at(now + Duration::minutes(10))),
        Some(at(now + Duration::minutes(2))),
    );
    assert!(
        (110..=120).contains(&secs),
        "a direct delivery must shorten the closed-window sleep, got {secs}"
    );

    // Far-off reopening is capped so config edits and manual triggers are seen.
    let secs = closed_window_sleep_secs(&at(now), Some(at(now + Duration::days(2))), None);
    assert_eq!(secs, 3600, "a distant reopening must clamp to the hourly re-check");
}

/// A human asking for a cycle right now is not the agent waking itself.
#[test]
fn manual_trigger_overrides_closed_window() {
    let mut handle = AmbientRunnerHandle::new(state_with(AmbientStatus::Idle));
    assert!(
        !handle.manual_override,
        "override must start clear, or windows would never apply"
    );

    handle.trigger();

    assert!(
        handle.manual_override,
        "an explicit trigger must set the one-shot window bypass"
    );

    // The bypass must actually open a closed window.
    let window_open = false;
    assert!(
        may_start_cycle(true, window_open || handle.manual_override, true),
        "a triggered cycle must start despite the window being closed"
    );

    let mut scheduler = AdaptiveScheduler::new(AmbientSchedulerConfig::default());
    let start = handle.begin_pass(&mut scheduler, true, false);
    assert!(start.window_open && !start.clock_window_open);
    assert!(handle.manual_override, "beginning a pass does not spend the trigger");
    assert_eq!(
        handle.after_lock(LockAttempt::HeldElsewhere, &start),
        LockStep::Wait { secs: 60 }
    );
    assert!(handle.manual_override, "nor does a cycle that cannot start");
    assert_eq!(handle.after_lock(LockAttempt::Acquired, &start), LockStep::RunCycle);
    assert!(!handle.manual_override, "the cycle that starts does");
}

#[test]
fn an_active_user_pauses_the_loop() {
    let mut handle = AmbientRunnerHandle::new(state_with(AmbientStatus::Idle));
    handle.active_user_sessions = 1;
    let mut scheduler = AdaptiveScheduler::new(AmbientSchedulerConfig::default());
    let start = handle.begin_pass(&mut scheduler, true, true);
    assert!(start.paused);
    assert!(
        matches!(&handle.state().status, AmbientStatus::Paused { reason } if reason == "user session active")
    );
    assert_eq!(
        next_step(LoopStep::BeginPass, LoopEvent::PassBegun { start }),
        LoopStep::Wait { secs: 60, until_nudged: true }
    );
}

#[test]
fn a_queue_check_delivers_and_decides() {
    let mut handle = AmbientRunnerHandle::new(state_with(AmbientStatus::Idle));
    let now = Utc::now();
    let planned = AmbientStatus::Scheduled { next_wake: at(now + Duration::hours(2)) };
    let mut mgr = manager_with(planned);
    let none: Vec<String> = Vec::new();
    let session = ScheduleTarget::Session { session_id: "s".to_string() };
    mgr.schedule(request("deliver me", now - Duration::minutes(1), session), &none).unwrap();
    let later = now + Duration::minutes(3);
    mgr.schedule(request("ambient later", later, ScheduleTarget::Ambient), &none).unwrap();

    let mut scheduler = AdaptiveScheduler::new(AmbientSchedulerConfig::default());
    let start = handle.begin_pass(&mut scheduler, true, true);
    let check = handle.check_queue(&mut mgr, &start, true, false, &at(now));
    assert_eq!(check.ready_direct.len(), 1);
    assert_eq!(check.ready_direct[0].context, "deliver me");
    assert!(!check.should_run);
    assert_eq!(check.next_direct_due, None);
    assert_eq!(check.next_ambient_due, Some(at(later)));
    assert_eq!(handle.queue_count, 1);
    assert_eq!(handle.next_queue_preview.as_deref(), Some("ambient later"));

    let check = handle.check_queue(&mut mgr, &start, true, true, &at(now));
    assert!(check.should_run, "a pending directive asks for a cycle");
    let check = handle.check_queue(&mut mgr, &start, true, false, &at(later));
    assert!(check.should_run, "a due item asks for a cycle");

    let unreadable = AmbientRunnerHandle::queue_unreadable();
    assert!(!unreadable.should_run && unreadable.ready_direct.is_empty());
}

#[test]
fn the_loop_takes_its_steps_in_order() {
    let mut handle = AmbientRunnerHandle::new(state_with(AmbientStatus::Idle));
    let mut scheduler = AdaptiveScheduler::new(AmbientSchedulerConfig::default());
    let start = handle.begin_pass(&mut scheduler, true, true);

    let step = next_step(LoopStep::BeginPass, LoopEvent::PassBegun { start });
    assert_eq!(step, LoopStep::CheckQueue { start });
    let step = next_step(step, LoopEvent::QueueChecked { any_direct: true, should_run: true });
    assert_eq!(step, LoopStep::Deliver { start, should_run: true });
    let step = next_step(step, LoopEvent::Delivered);
    assert_eq!(step, LoopStep::TakeLock { start });
    let step = next_step(step, LoopEvent::LockTried { attempt: LockAttempt::Acquired });
    assert_eq!(step, LoopStep::RunCycle);
    let step = next_step(step, LoopEvent::CycleEnded { succeeded: true });
    assert_eq!(step, LoopStep::Settle { succeeded: true });
    let step = next_step(step, LoopEvent::Settled);
    assert_eq!(step, LoopStep::PlanNextWake);
    assert_eq!(next_step(step, LoopEvent::Slept), LoopStep::BeginPass);

    let idle = next_step(
        LoopStep::CheckQueue { start },
        LoopEvent::QueueChecked { any_direct: false, should_run: false },
    );
    assert_eq!(idle, LoopStep::Idle { start });
    assert_eq!(
        next_step(
            LoopStep::TakeLock { start },
            LoopEvent::LockTried { attempt: LockAttempt::HeldElsewhere }
        ),
        LoopStep::Wait { secs: 60, until_nudged: false }
    );
}

#[test]
fn a_message_reaches_the_running_cycle_or_becomes_a_directive() {
    let now = Timestamp::from_parts(1_786_120_200, 5);
    let mut handle = AmbientRunnerHandle::new(state_with(AmbientStatus::Idle));
    handle.cycle_takes_messages = true;
    let (route, save) = handle.inject_message("stop", "telegram", &now);
    assert!(!save);
    match route {
        MessageRoute::Interrupt { content } => {
            assert_eq!(content, "[telegram message from user]\nstop")
        }
        other => panic!("expected an interrupt, got {other:?}"),
    }

    handle.cycle_takes_messages = false;
    let (route, save) = handle.inject_message("stop", "telegram", &now);
    assert!(save && handle.manual_override);
    match route {
        MessageRoute::Directive { text, source_id } => {
            assert_eq!(text, "stop");
            assert_eq!(source_id, "telegram_1786120200");
        }
        other => panic!("expected a directive, got {other:?}"),
    }
}

#[test]
fn starting_and_stopping_are_recorded() {
    let mut handle = AmbientRunnerHandle::new(state_with(AmbientStatus::Idle));
    handle.stop();
    assert!(matches!(handle.state().status, AmbientStatus::Disabled));
    assert!(handle.start());
    assert!(matches!(handle.state().status, AmbientStatus::Idle));
    let mut manager = manager_with(AmbientStatus::Idle);
    handle.start_up(false, &mut manager, Vec::new());
    assert!(!handle.start(), "a loop that is active is not started again");
}

#[test]
fn a_finished_cycle_is_recorded_and_the_next_wake_planned() {
    let now = Timestamp::from_parts(1_786_120_200, 0);
    let mut handle = AmbientRunnerHandle::new(state_with(AmbientStatus::Idle));
    let mut scheduler = AdaptiveScheduler::new(AmbientSchedulerConfig::default());
    handle.cycle_failed(&mut scheduler);
    assert_eq!(scheduler.backoff_multiplier, 2);
    assert!(matches!(handle.state().status, AmbientStatus::Idle));

    let result = AmbientCycleResult {
        summary: "done".to_string(),
        memories_modified: 2,
        compactions: 1,
        proactive_work: None,
        significance: None,
        next_schedule: None,
        started_at: now,
        ended_at: now,
        status: CycleStatus::Complete,
        agent_session_id: None,
        conversation: None,
    };
    handle.cycle_succeeded(&result, &now, &mut scheduler);
    assert_eq!(scheduler.backoff_multiplier, 1);
    assert_eq!(handle.state().total_cycles, 1);

    let cron = CronDeadlines { unblocked: None, windowed: Some(now.plus_secs(40)) };
    let wake = handle.plan_next_wake(600, None, &cron, false, &now);
    assert_eq!(wake.sleep_secs, 600);
    assert!(wake.rescheduled);
    assert!(
        matches!(handle.state().status, AmbientStatus::Scheduled { next_wake } if next_wake == now.plus_secs(600))
    );
    let wake = handle.plan_next_wake(600, None, &cron, true, &now);
    assert_eq!(wake.sleep_secs, 40, "an open window lets the windowed job count");
    let wake = handle.plan_next_wake(1, None, &cron, false, &now);
    assert_eq!(wake.sleep_secs, 30, "the loop never polls faster than this");
}

#[test]
fn a_pass_sleeps_until_the_nearest_deadline() {
    let now = Timestamp::from_parts(1_786_120_200, 0);
    let mut handle = AmbientRunnerHandle::new(state_with(AmbientStatus::Idle));
    let mut scheduler = AdaptiveScheduler::new(AmbientSchedulerConfig::default());
    let quiet = CronDeadlines { unblocked: None, windowed: None };
    let open = handle.begin_pass(&mut scheduler, true, true);
    assert_eq!(pass_sleep_secs(&open, None, None, &quiet, None, &now, 900), 900);
    assert_eq!(
        pass_sleep_secs(&open, None, Some(now.plus_secs(70)), &quiet, None, &now, 900),
        70
    );
    let closed = handle.begin_pass(&mut scheduler, true, false);
    assert_eq!(
        pass_sleep_secs(&closed, None, None, &quiet, Some(now.plus_secs(120)), &now, 900),
        120
    );
    let off = handle.begin_pass(&mut scheduler, false, true);
    assert_eq!(pass_sleep_secs(&off, None, None, &quiet, None, &now, 900), 30);
}

#[test]
fn unreadable_windows_are_warned_about() {
    let (windows, warning) =
        configured_windows(&vec!["weekdays 09:00-19:00".to_string(), "garbage".to_string()]);
    assert_eq!(windows.len(), 1);
    let warning = warning.expect("a warning");
    assert!(warning.contains("garbage"), "got: {warning}");
    let (windows, warning) = configured_windows(&vec![]);
    assert!(windows.is_empty() && warning.is_none());
    assert!(current_window_state(&windows).unwrap().is_open());
}

#[test]
fn replies_are_polled_only_when_someone_can_send_them() {
    let p = reply_pollers(true, true, true, true);
    assert!(p.email && p.channels);
    let p = reply_pollers(true, true, true, false);
    assert!(!p.email && p.channels);
    let p = reply_pollers(false, true, true, true);
    assert!(!p.channels);
}

#[test]
fn a_session_that_cannot_be_reached_is_resumed() {
    assert_eq!(after_notify(true), NotifyStep::Done);
    assert_eq!(after_notify(false), NotifyStep::Resume);
    assert_eq!(answer_to(3, ReplyEvent::Done { id: 3 }), Some(Ok(())));
    assert_eq!(answer_to(3, ReplyEvent::Done { id: 4 }), None);
    assert_eq!(
        answer_to(3, ReplyEvent::Error { id: 3, message: "no".to_string() }),
        Some(Err("no".to_string()))
    );
    assert_eq!(answer_to(3, ReplyEvent::Other), None);
}
