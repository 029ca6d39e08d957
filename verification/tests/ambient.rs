//! The queue of scheduled items, the recorded state, and project identity.

use chrono::{DateTime, Duration, Utc};
use jcode_ambient::ambient::manager::AmbientManager;
use jcode_ambient::ambient::persistence::{AmbientLock, ScheduledQueue};
use jcode_ambient::ambient::phrases::{
    format_duration_rough, format_minutes_human, format_scheduled_session_message,
};
use jcode_ambient::ambient::projects::{
    configured_project_priority, configured_projects, priority_rank, resolve_project_key,
    AmbientProject, ProjectsConfig,
};
use jcode_ambient::ambient::report::{
    describe_status, glance, log_entry, minutes_to, queue_entry, queue_report,
};
use jcode_ambient::ambient::cycle::AmbientTranscript;
use jcode_ambient::ambient::types::{
    AmbientCycleResult, AmbientState, AmbientStatus, CycleStatus, Priority, ScheduleRequest,
    ScheduleTarget, ScheduledItem,
};
use jcode_ambient::text_map::TextMap;
use jcode_ambient::time::Timestamp;

fn at(t: DateTime<Utc>) -> Timestamp {
    Timestamp::from_parts(t.timestamp(), t.timestamp_subsec_nanos())
}

#[test]
fn test_ambient_status_default() {
    let status = AmbientStatus::default();
    assert_eq!(status, AmbientStatus::Idle);
}

#[test]
fn test_priority_ordering() {
    assert!(Priority::High > Priority::Normal);
    assert!(Priority::Normal > Priority::Low);
}

#[test]
fn test_scheduled_queue_push_and_pop() {
    let mut queue = ScheduledQueue::new();
    assert!(queue.is_empty());

    let past = at(Utc::now() - Duration::minutes(5));
    let future = at(Utc::now() + Duration::hours(1));

    queue.push(ScheduledItem {
        id: "s1".into(),
        scheduled_for: past,
        context: "past item".into(),
        priority: Priority::Low,
        target: ScheduleTarget::Ambient,
        created_by_session: "test".into(),
        created_at: at(Utc::now()),
        project: None,
        working_dir: None,
        task_description: None,
        relevant_files: Vec::new(),
        git_branch: None,
        additional_context: None,
    });

    queue.push(ScheduledItem {
        id: "s2".into(),
        scheduled_for: future,
        context: "future item".into(),
        priority: Priority::High,
        target: ScheduleTarget::Ambient,
        created_by_session: "test".into(),
        created_at: at(Utc::now()),
        project: None,
        working_dir: None,
        task_description: None,
        relevant_files: Vec::new(),
        git_branch: None,
        additional_context: None,
    });

    assert_eq!(queue.len(), 2);

    let ready = queue.pop_ready();
    assert_eq!(ready.len(), 1);
    assert_eq!(ready[0].id, "s1");

    // Future item still in queue
    assert_eq!(queue.len(), 1);
    assert_eq!(queue.peek_next().unwrap().id, "s2");
}

#[test]
fn test_scheduled_queue_remove_by_id_persists_remaining_items() {
    let mut queue = ScheduledQueue::new();
    let future = at(Utc::now() + Duration::hours(1));

    queue.push(ScheduledItem {
        id: "keep".into(),
        scheduled_for: future,
        context: "keep item".into(),
        priority: Priority::Normal,
        target: ScheduleTarget::Ambient,
        created_by_session: "test".into(),
        created_at: at(Utc::now()),
        project: None,
        working_dir: None,
        task_description: None,
        relevant_files: Vec::new(),
        git_branch: None,
        additional_context: None,
    });
    queue.push(ScheduledItem {
        id: "cancel".into(),
        scheduled_for: future,
        context: "cancel item".into(),
        priority: Priority::High,
        target: ScheduleTarget::Ambient,
        created_by_session: "test".into(),
        created_at: at(Utc::now()),
        project: None,
        working_dir: None,
        task_description: None,
        relevant_files: Vec::new(),
        git_branch: None,
        additional_context: None,
    });

    let removed = queue.remove_by_id("cancel").unwrap();
    assert_eq!(removed.id, "cancel");
    assert!(queue.remove_by_id("missing").is_none());

    assert_eq!(queue.len(), 1);
    assert_eq!(queue.items()[0].id, "keep");
}

#[test]
fn test_pop_ready_sorts_by_priority_then_time() {
    let mut queue = ScheduledQueue::new();
    let past1 = at(Utc::now() - Duration::minutes(10));
    let past2 = at(Utc::now() - Duration::minutes(5));

    queue.push(ScheduledItem {
        id: "low_early".into(),
        scheduled_for: past1,
        context: "low early".into(),
        priority: Priority::Low,
        target: ScheduleTarget::Ambient,
        created_by_session: "test".into(),
        created_at: at(Utc::now()),
        project: None,
        working_dir: None,
        task_description: None,
        relevant_files: Vec::new(),
        git_branch: None,
        additional_context: None,
    });

    queue.push(ScheduledItem {
        id: "high_late".into(),
        scheduled_for: past2,
        context: "high late".into(),
        priority: Priority::High,
        target: ScheduleTarget::Ambient,
        created_by_session: "test".into(),
        created_at: at(Utc::now()),
        project: None,
        working_dir: None,
        task_description: None,
        relevant_files: Vec::new(),
        git_branch: None,
        additional_context: None,
    });

    let ready = queue.pop_ready();
    assert_eq!(ready.len(), 2);
    // High priority should come first
    assert_eq!(ready[0].id, "high_late");
    assert_eq!(ready[1].id, "low_early");
}

#[test]
fn test_take_ready_direct_items_only_removes_direct_targets() {
    let mut queue = ScheduledQueue::new();
    let past = at(Utc::now() - Duration::minutes(5));

    queue.push(ScheduledItem {
        id: "session_due".into(),
        scheduled_for: past,
        context: "scheduled session task".into(),
        priority: Priority::Normal,
        target: ScheduleTarget::Session {
            session_id: "session_123".into(),
        },
        created_by_session: "session_123".into(),
        created_at: at(Utc::now()),
        project: None,
        working_dir: None,
        task_description: None,
        relevant_files: Vec::new(),
        git_branch: None,
        additional_context: None,
    });

    queue.push(ScheduledItem {
        id: "spawn_due".into(),
        scheduled_for: past,
        context: "spawned session task".into(),
        priority: Priority::High,
        target: ScheduleTarget::Spawn {
            parent_session_id: "session_123".into(),
        },
        created_by_session: "session_123".into(),
        created_at: at(Utc::now()),
        project: None,
        working_dir: None,
        task_description: None,
        relevant_files: Vec::new(),
        git_branch: None,
        additional_context: None,
    });

    queue.push(ScheduledItem {
        id: "ambient_due".into(),
        scheduled_for: past,
        context: "scheduled ambient task".into(),
        priority: Priority::High,
        target: ScheduleTarget::Ambient,
        created_by_session: "ambient".into(),
        created_at: at(Utc::now()),
        project: None,
        working_dir: None,
        task_description: None,
        relevant_files: Vec::new(),
        git_branch: None,
        additional_context: None,
    });

    let ready_direct = queue.take_ready_direct_items();
    assert_eq!(ready_direct.len(), 2);
    assert_eq!(ready_direct[0].id, "spawn_due");
    assert_eq!(ready_direct[1].id, "session_due");
    assert_eq!(queue.len(), 1);
    assert_eq!(queue.items()[0].id, "ambient_due");
}

#[test]
fn test_ambient_state_record_cycle() {
    let mut state = AmbientState::default();
    assert_eq!(state.total_cycles, 0);

    let result = AmbientCycleResult {
        summary: "Merged 2 duplicates".into(),
        memories_modified: 3,
        compactions: 1,
        proactive_work: None,
        significance: None,
        next_schedule: None,
        started_at: at(Utc::now() - Duration::seconds(30)),
        ended_at: at(Utc::now()),
        status: CycleStatus::Complete,
        conversation: None,
        agent_session_id: None,
    };

    assert!(state.record_cycle(&result));
    assert_eq!(state.total_cycles, 1);
    assert_eq!(state.last_summary.as_deref(), Some("Merged 2 duplicates"));
    assert_eq!(state.last_compactions, Some(1));
    assert_eq!(state.last_memories_modified, Some(3));
    assert_eq!(state.status, AmbientStatus::Idle);
}

#[test]
fn test_ambient_state_record_cycle_with_schedule() {
    let mut state = AmbientState::default();

    let result = AmbientCycleResult {
        summary: "Done".into(),
        memories_modified: 0,
        compactions: 0,
        proactive_work: None,
        significance: None,
        next_schedule: Some(ScheduleRequest {
            wake_in_minutes: Some(15),
            wake_at: None,
            context: "check CI".into(),
            priority: Priority::Normal,
            target: ScheduleTarget::Ambient,
            created_by_session: "ambient_test".into(),
            working_dir: None,
            task_description: None,
            relevant_files: Vec::new(),
            git_branch: None,
            additional_context: None,
        }),
        started_at: at(Utc::now() - Duration::seconds(10)),
        ended_at: at(Utc::now()),
        status: CycleStatus::Complete,
        conversation: None,
        agent_session_id: None,
    };

    assert!(state.record_cycle(&result));
    assert!(matches!(state.status, AmbientStatus::Scheduled { .. }));
}

#[test]
fn test_scheduled_queue_items_accessor() {
    let mut queue = ScheduledQueue::new();

    queue.push(ScheduledItem {
        id: "s1".into(),
        scheduled_for: at(Utc::now()),
        context: "test item".into(),
        priority: Priority::Normal,
        target: ScheduleTarget::Ambient,
        created_by_session: "test".into(),
        created_at: at(Utc::now()),
        project: None,
        working_dir: None,
        task_description: None,
        relevant_files: Vec::new(),
        git_branch: None,
        additional_context: None,
    });

    let items = queue.items();
    assert_eq!(items.len(), 1);
    assert_eq!(items[0].id, "s1");
}

#[test]
fn test_ambient_lock_release() {
    let lock = AmbientLock { lock_path: "/data/ambient/test.lock".to_string() };
    assert_eq!(lock.release(), "/data/ambient/test.lock", "the file to remove");
}

#[test]
fn test_schedule_id_format() {
    let mut manager = AmbientManager::new(AmbientState::default(), ScheduledQueue::new());
    let id = manager.schedule(request(None), &Vec::new()).unwrap();
    assert!(id.starts_with("sched_"));
    assert_eq!(id.len(), 6 + 8); // "sched_" + 8 hex chars
    assert!(id[6..].chars().all(|c| c.is_ascii_hexdigit()));
    let now = Timestamp::from_parts(1_786_120_200, 0);
    assert_eq!(manager.schedule_at(request(None), 0xbeef, &now, &Vec::new()), "sched_0000beef");
}

#[test]
fn scheduled_ids_are_drawn_at_random() {
    let mut manager = AmbientManager::new(AmbientState::default(), ScheduledQueue::new());
    let mut ids: Vec<String> =
        (0..20).map(|_| manager.schedule(request(None), &Vec::new()).unwrap()).collect();
    ids.sort();
    ids.dedup();
    assert!(ids.len() > 1, "twenty draws are not all the same");
}

#[test]
fn test_format_duration_rough() {
    assert_eq!(format_duration_rough(Duration::seconds(30).num_seconds()), "30s");
    assert_eq!(format_duration_rough(Duration::minutes(5).num_seconds()), "5m");
    assert_eq!(format_duration_rough(Duration::hours(2).num_seconds()), "2h");
    assert_eq!(
        format_duration_rough((Duration::hours(2) + Duration::minutes(30)).num_seconds()),
        "2h 30m"
    );
    assert_eq!(format_duration_rough(Duration::days(3).num_seconds()), "3d");
    assert_eq!(format_duration_rough(Duration::seconds(-5).num_seconds()), "0s");
}

#[test]
fn minutes_read_like_durations() {
    assert_eq!(format_minutes_human(5), "5m");
    assert_eq!(format_minutes_human(120), "2h");
    assert_eq!(format_minutes_human(150), "2h 30m");
}

#[test]
fn priority_matching_respects_path_boundaries() {
    // `/home/potb/jcode-cron` is a different project from `/home/potb/jcode`.
    // A naive prefix test silently merges them.
    let priority = vec!["/home/potb/jcode".to_string()];
    assert_eq!(priority_rank(&priority, "/home/potb/jcode"), 0);
    assert_eq!(
        priority_rank(&priority, "/home/potb/jcode/crates/x"),
        0,
        "a subdirectory belongs to its project"
    );
    assert_eq!(
        priority_rank(&priority, "/home/potb/jcode/"),
        0,
        "a trailing slash is the same directory"
    );
    assert_eq!(
        priority_rank(&priority, "/home/potb/jcode-cron"),
        usize::MAX,
        "a sibling sharing a name prefix is a different project"
    );
    assert_eq!(priority_rank(&priority, "/home/potb/other"), usize::MAX);
}

fn project(path: &str) -> AmbientProject {
    AmbientProject {
        path: path.to_string(),
        pr_repo: String::new(),
        instructions: String::new(),
        instructions_file: String::new(),
        active_windows: Vec::new(),
    }
}

/// The configured project paths, for the given tables and home directory.
fn project_paths(tables: Vec<AmbientProject>, home: Option<&str>) -> Vec<String> {
    let files = tables.iter().map(|_| None).collect();
    let config = ProjectsConfig {
        projects: tables,
        project_priority: Vec::new(),
        pr_repos: TextMap::new(),
        pr_repo: String::new(),
        ignore_active_windows: false,
    };
    configured_project_priority(&configured_projects(&config, &files, home))
}

/// Project identity must be canonical and boundary-safe.
#[test]
fn scheduled_item_project_key_is_canonical_and_boundary_safe() {
    let paths = project_paths(
        vec![project("~/jcode"), project("/home/potb/projects/costo/beakon")],
        Some("/home/potb"),
    );
    let key = |dir: Option<&str>| resolve_project_key(&paths, dir);

    assert_eq!(
        key(Some("/home/potb/jcode")).as_deref(),
        Some("/home/potb/jcode"),
        "a configured `~` path must resolve to its expanded canonical form"
    );
    assert_eq!(
        key(Some("/home/potb/jcode/crates/jcode-app-core")).as_deref(),
        Some("/home/potb/jcode"),
        "a subdirectory must key to the project, not to itself"
    );
    assert_eq!(
        key(Some("/home/potb/jcode/")).as_deref(),
        Some("/home/potb/jcode"),
        "a trailing slash is the same directory"
    );
    assert_eq!(
        key(Some("/home/potb/jcode-cron")),
        None,
        "a sibling sharing a name prefix is a different project"
    );
    assert_eq!(key(Some("/home/potb")), None, "a parent is not the project");
    assert_eq!(key(None), None);
    assert_eq!(key(Some("   ")), None, "a blank working dir owns nothing");
    assert_eq!(
        key(Some("/home/potb/projects/costo/beakon")).as_deref(),
        Some("/home/potb/projects/costo/beakon"),
        "each configured project resolves to itself"
    );
}

/// An item that names no project is still attributable through its directory.
#[test]
fn legacy_queue_items_without_a_project_field_still_resolve_one() {
    let paths = project_paths(vec![project("/home/potb/jcode")], Some("/home/potb"));
    let day = Timestamp::from_parts(1_767_225_600, 0);
    let queue = ScheduledQueue::from_items(vec![ScheduledItem {
        id: "sched_old".into(),
        scheduled_for: day,
        context: "queued by an older build".into(),
        priority: Priority::Normal,
        target: ScheduleTarget::Ambient,
        created_by_session: "s1".into(),
        created_at: day,
        project: None,
        working_dir: Some("/home/potb/jcode/crates".into()),
        task_description: None,
        relevant_files: Vec::new(),
        git_branch: None,
        additional_context: None,
    }]);
    assert_eq!(queue.len(), 1);
    let item = &queue.items()[0];
    assert_eq!(item.project, None, "the item has no stored project");
    assert_eq!(
        item.project_key(&paths).as_deref(),
        Some("/home/potb/jcode"),
        "an old item must still be attributable via its working_dir"
    );
}

fn request(working_dir: Option<&str>) -> ScheduleRequest {
    ScheduleRequest {
        wake_in_minutes: Some(30),
        wake_at: None,
        context: "later".into(),
        priority: Priority::Normal,
        target: ScheduleTarget::Ambient,
        created_by_session: "s1".into(),
        working_dir: working_dir.map(ToOwned::to_owned),
        task_description: None,
        relevant_files: Vec::new(),
        git_branch: None,
        additional_context: None,
    }
}

/// Scheduling stamps the project onto the item, once, when it is created.
#[test]
fn scheduling_stamps_the_project_onto_the_queued_item() {
    let paths = project_paths(vec![project("/home/potb/jcode")], None);
    let mut manager = AmbientManager::new(AmbientState::default(), ScheduledQueue::new());

    let in_project = manager
        .schedule(request(Some("/home/potb/jcode/crates/jcode-tui")), &paths)
        .expect("schedule");
    let elsewhere =
        manager.schedule(request(Some("/tmp/unconfigured")), &paths).expect("schedule");

    let find = |id: &str| {
        manager.queue().items().iter().find(|item| item.id == id).expect("queued item").clone()
    };
    assert_eq!(
        find(&in_project).project.as_deref(),
        Some("/home/potb/jcode"),
        "a project item must carry its canonical key from the moment it is queued"
    );
    assert_eq!(
        find(&elsewhere).project,
        None,
        "work outside every configured project belongs to no project"
    );
}

fn item(id: &str, when: Timestamp, target: ScheduleTarget) -> ScheduledItem {
    ScheduledItem {
        id: id.into(),
        scheduled_for: when,
        context: format!("{id} context"),
        priority: Priority::High,
        target,
        created_by_session: "s1".into(),
        created_at: Timestamp::from_parts(1_786_120_200, 0),
        project: None,
        working_dir: None,
        task_description: None,
        relevant_files: Vec::new(),
        git_branch: None,
        additional_context: None,
    }
}

#[test]
fn a_queue_is_reported_with_what_is_overdue() {
    let now = Timestamp::from_parts(1_786_120_200, 0);
    let session = ScheduleTarget::Session { session_id: "abc".into() };
    let items = vec![
        item("late", now.plus_secs(-90), ScheduleTarget::Ambient),
        item("soon", now.plus_secs(600), session),
    ];

    let entry = queue_entry(&items[0], &now);
    assert_eq!(entry.scheduled_for, "2026-08-07T16:28:30+00:00");
    assert_eq!(entry.created_at, "2026-08-07T16:30:00+00:00");
    assert!(entry.overdue);
    assert_eq!(entry.overdue_seconds, 90);
    assert_eq!(entry.target_kind, "ambient");

    let report = queue_report(&items, &now);
    assert_eq!(report.len(), 2);
    assert!(!report[1].overdue);
    assert_eq!(report[1].target_kind, "session");
    assert_eq!(report[1].target_session_id.as_deref(), Some("abc"));

    let all = glance(&items, false, &now);
    assert_eq!((all.count, all.overdue_count), (2, 1));
    let direct = glance(&items, true, &now);
    assert_eq!((direct.count, direct.overdue_count), (1, 0));
    assert_eq!(direct.next_preview.as_deref(), Some("soon context"));
}

#[test]
fn a_status_reads_as_a_phrase() {
    let now = Timestamp::from_parts(1_786_120_200, 0);
    assert_eq!(minutes_to(&now.plus_secs(150 * 60), &now), 150);
    assert_eq!(minutes_to(&now.plus_secs(-60), &now), 0);
    assert_eq!(describe_status(&AmbientStatus::Idle, &now), "idle");
    assert_eq!(describe_status(&AmbientStatus::Disabled, &now), "disabled");
    let planned = AmbientStatus::Scheduled { next_wake: now.plus_secs(150 * 60) };
    assert_eq!(describe_status(&planned, &now), "scheduled (in 2h 30m)");
}

#[test]
fn a_transcript_is_listed_by_its_times() {
    let start = Timestamp::from_parts(1_786_120_200, 0);
    let entry = log_entry(&AmbientTranscript {
        session_id: "ambient_1".into(),
        started_at: start,
        ended_at: Some(start.plus_secs(60)),
        status: CycleStatus::Complete,
        provider: "p".into(),
        model: "m".into(),
        pending_permissions: 0,
        summary: Some("done".into()),
        compactions: 1,
        memories_modified: 2,
        conversation: None,
    });
    assert_eq!(entry.started_at, "2026-08-07T16:30:00+00:00");
    assert_eq!(entry.ended_at.as_deref(), Some("2026-08-07T16:31:00+00:00"));
    assert_eq!((entry.memories_modified, entry.compactions), (2, 1));
}

#[test]
fn a_scheduled_task_is_handed_over_with_its_details() {
    let mut task = item("x", Timestamp::from_parts(1_786_120_200, 0), ScheduleTarget::Ambient);
    task.task_description = Some("Check the build".into());
    task.relevant_files = vec!["a.rs".into(), "b.rs".into()];
    let text = format_scheduled_session_message(&task);
    assert!(text.starts_with("[Scheduled task]"), "got: {text}");
    assert!(text.contains("Check the build"));
    assert!(text.contains("a.rs, b.rs"));
}

#[test]
fn claimed_and_left_items_make_up_the_queue() {
    let now = Timestamp::from_parts(1_786_120_200, 0);
    let mut manager = AmbientManager::new(
        AmbientState::default(),
        ScheduledQueue::from_items(vec![
            item("a", now, ScheduleTarget::Ambient),
            item("b", Timestamp::from_parts(9_000_000_000, 0), ScheduleTarget::Ambient),
        ]),
    );
    let taken = manager.take_ready_items();
    assert_eq!(taken.len() + manager.queue().len(), 2);
    assert_eq!(taken[0].id, "a");
    assert_eq!(manager.cancel_schedule("b").unwrap().id, "b");
    assert!(manager.queue().is_empty());
    assert!(manager.take_ready_direct_items().is_empty());
}

#[test]
fn minutes_below_a_day_are_told_apart() {
    let texts: std::collections::HashSet<String> = (0..1440).map(format_minutes_human).collect();
    assert_eq!(texts.len(), 1440);
    assert_eq!(format_minutes_human(0), "0m");
    assert_eq!(format_minutes_human(60), "1h");
    assert_eq!(format_minutes_human(61), "1h 1m");
    assert_eq!(format_minutes_human(1439), "23h 59m");
}

#[test]
fn minutes_from_a_day_on_are_shown_in_whole_hours() {
    assert_eq!(format_minutes_human(1440), "1d");
    assert_eq!(format_minutes_human(1499), "1d");
    assert_eq!(format_minutes_human(1500), "1d 1h");
    assert_eq!(format_minutes_human(1559), format_minutes_human(1500));
    assert_ne!(format_minutes_human(1560), format_minutes_human(1500));
}
