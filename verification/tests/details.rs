//! Smaller pieces of the library, each on its own.

use jcode_ambient::ambient::activity::{rank_activity, RecentSessionInfo};
use jcode_ambient::ambient::gates::{
    build_digest, incomplete_count, work_remains, TodoItem, TodoProgress,
};
use jcode_ambient::ambient::manager::AmbientManager;
use jcode_ambient::ambient::paths;
use jcode_ambient::ambient::persistence::{
    fits_result, fits_wake, requested_wake, Claim, ScheduledQueue,
};
use jcode_ambient::ambient::projects::{
    configured_project_instructions, expand_project_path, final_segment, paths_match,
    project_ambient_instructions, project_window_open, AmbientProject, ResolvedProject,
};
use jcode_ambient::ambient::report::status_report;
use jcode_ambient::ambient::runner::AmbientRunnerHandle;
use jcode_ambient::ambient::schedule_window::{
    parse_day, parse_days, parse_time, parse_window, window_allows, WindowState,
};
use jcode_ambient::ambient::scheduler::{UsageLog, UsageRecord, UsageSource};
use jcode_ambient::ambient::state_file::AmbientStateFile;
use jcode_ambient::ambient::types::{
    AmbientCycleResult, AmbientState, AmbientStatus, CycleStatus, Priority, ScheduleRequest,
    ScheduleTarget, ScheduledItem, VisibleCycleContext,
};
use jcode_ambient::channel::jade::JadeRelayChannel;
use jcode_ambient::clock;
use jcode_ambient::cron::exec::cron_dir;
use jcode_ambient::server::debug_ambient::inspection_budget;
use jcode_ambient::time::{LocalTime, Timestamp, Weekday};
use std::hash::{Hash, Hasher};

fn at(secs: i64) -> Timestamp {
    Timestamp::from_parts(secs, 0)
}

fn request(wake_in_minutes: Option<u32>, wake_at: Option<Timestamp>) -> ScheduleRequest {
    ScheduleRequest {
        wake_in_minutes,
        wake_at,
        context: "look again".to_string(),
        priority: Priority::High,
        target: ScheduleTarget::Ambient,
        created_by_session: "session_1".to_string(),
        working_dir: Some("/work/app/sub".to_string()),
        task_description: None,
        relevant_files: vec!["src/lib.rs".to_string()],
        git_branch: Some("main".to_string()),
        additional_context: None,
    }
}

fn result(status: CycleStatus, next_schedule: Option<ScheduleRequest>) -> AmbientCycleResult {
    AmbientCycleResult {
        summary: "tidied up".to_string(),
        memories_modified: 3,
        compactions: 1,
        proactive_work: None,
        significance: None,
        next_schedule,
        started_at: at(1_000),
        ended_at: at(1_060),
        status,
        agent_session_id: None,
        conversation: None,
    }
}

fn item(id: &str, secs: i64, priority: Priority, target: ScheduleTarget) -> ScheduledItem {
    ScheduledItem {
        id: id.to_string(),
        scheduled_for: at(secs),
        context: format!("context of {id}"),
        priority,
        target,
        created_by_session: "session_1".to_string(),
        created_at: at(0),
        working_dir: None,
        project: None,
        task_description: None,
        relevant_files: Vec::new(),
        git_branch: None,
        additional_context: None,
    }
}

fn session(dir: Option<&str>) -> RecentSessionInfo {
    RecentSessionInfo {
        id: "session_1".to_string(),
        status: "closed".to_string(),
        topic: None,
        duration_secs: 60,
        extraction_status: "extracted".to_string(),
        working_dir: dir.map(str::to_string),
    }
}

#[test]
fn a_wake_is_the_time_named_or_the_minutes_or_half_an_hour() {
    let now = at(1_000);
    assert_eq!(requested_wake(&request(Some(5), Some(at(7_000))), &now), at(7_000));
    assert_eq!(requested_wake(&request(Some(5), None), &now), at(1_300));
    assert_eq!(requested_wake(&request(None, None), &now), at(2_800));
    assert!(fits_wake(&request(Some(u32::MAX), None), &now));
    assert!(fits_result(&result(CycleStatus::Complete, None), &now));
}

#[test]
fn a_recorded_cycle_queues_the_wake_it_asks_for() {
    let mut manager = AmbientManager::new(AmbientState::default(), ScheduledQueue::new());
    let wanted = result(CycleStatus::Complete, Some(request(Some(5), None)));
    let paths = vec!["/work/app".to_string()];
    let id = manager.record_cycle_result(wanted, 0xbeef, &at(2_000), &paths);

    assert_eq!(id.as_deref(), Some("sched_0000beef"));
    let queued = &manager.queue().items()[0];
    assert_eq!(queued.id, "sched_0000beef");
    assert_eq!(queued.scheduled_for, at(2_300));
    assert_eq!(queued.created_at, at(2_000));
    assert_eq!(queued.project.as_deref(), Some("/work/app"));
    assert_eq!(queued.relevant_files, vec!["src/lib.rs".to_string()]);
    assert_eq!(manager.state().total_cycles, 1);
    assert_eq!(manager.state().last_run, Some(at(1_060)));
    assert_eq!(manager.state().status, AmbientStatus::Scheduled { next_wake: at(2_300) });
}

#[test]
fn an_interrupted_cycle_leaves_the_state_idle() {
    let mut state = AmbientState::default();
    state.record_cycle_at(
        &result(CycleStatus::Interrupted, Some(request(Some(5), None))),
        &at(2_000),
    );
    assert_eq!(state.status, AmbientStatus::Idle);
    assert_eq!(state.last_summary.as_deref(), Some("tidied up"));
    assert_eq!(state.last_compactions, Some(1));
    assert_eq!(state.last_memories_modified, Some(3));
}

#[test]
fn a_claim_takes_due_items_by_priority_then_time() {
    let direct = ScheduleTarget::Session { session_id: "s".to_string() };
    let mut queue = ScheduledQueue::from_items(vec![
        item("late", 50, Priority::Normal, ScheduleTarget::Ambient),
        item("direct", 10, Priority::High, direct),
        item("early", 20, Priority::Normal, ScheduleTarget::Ambient),
        item("high", 90, Priority::High, ScheduleTarget::Ambient),
        item("future", 101, Priority::High, ScheduleTarget::Ambient),
    ]);
    let taken = queue.take_ready_matching(Claim::Ambient, &at(100));
    let ids: Vec<&str> = taken.iter().map(|i| i.id.as_str()).collect();
    assert_eq!(ids, vec!["high", "early", "late"]);
    let left: Vec<&str> = queue.items().iter().map(|i| i.id.as_str()).collect();
    assert_eq!(left, vec!["direct", "future"]);
}

#[test]
fn a_project_slot_is_changed_in_place() {
    let mut file = AmbientStateFile::new();
    file.project_mut("/work/app").total_cycles = 7;
    file.project_mut("/work/app").last_summary = Some("seven".to_string());
    file.project_mut("/work/zebra").total_cycles += 1;
    assert_eq!(file.project("/work/app").total_cycles, 7);
    assert_eq!(file.project("/work/app").last_summary.as_deref(), Some("seven"));
    assert_eq!(file.project("/work/zebra").total_cycles, 1);
    assert_eq!(file.project("/work/other").total_cycles, 0);
    assert_eq!(file.global.total_cycles, 0);
}

#[test]
fn directories_are_listed_by_rank_then_activity() {
    let sessions = vec![
        session(Some("/b")),
        session(Some("/a")),
        session(None),
        session(Some("/b")),
        session(Some("/c")),
    ];
    let listed = |priority: &[&str]| -> Vec<(String, usize)> {
        let priority: Vec<String> = priority.iter().map(|p| p.to_string()).collect();
        rank_activity(&sessions, &priority).into_iter().map(|d| (d.dir, d.count)).collect()
    };
    let row = |dir: &str, count: usize| (dir.to_string(), count);
    assert_eq!(listed(&[]), vec![row("/b", 2), row("/a", 1), row("/c", 1)]);
    assert_eq!(listed(&["/c"]), vec![row("/c", 1), row("/b", 2), row("/a", 1)]);
}

#[test]
fn open_todos_are_counted() {
    let todo = |progress: TodoProgress| TodoItem {
        group: None,
        progress,
        confidence_passes: true,
        confidence_spiked: false,
    };
    let todos = vec![
        todo(TodoProgress::Open),
        todo(TodoProgress::Completed),
        todo(TodoProgress::Open),
        todo(TodoProgress::Cancelled),
    ];
    assert_eq!(incomplete_count(&todos), 2);
    assert!(work_remains(&todos));
    assert!(!work_remains(&vec![todo(TodoProgress::Cancelled)]));
}

#[test]
fn a_digest_of_no_observations_is_none() {
    let text = || Some("weak points".to_string());
    assert_eq!(build_digest(0, text()), None);
    assert_eq!(build_digest(2, text()), text());
    assert_eq!(build_digest(2, None), None);
}

#[test]
fn files_are_found_below_the_data_directory() {
    assert_eq!(paths::ambient_dir("/home/u/.jcode"), "/home/u/.jcode/ambient");
    assert_eq!(paths::state_path("/d"), "/d/ambient/state.json");
    assert_eq!(paths::queue_path("/d"), "/d/ambient/queue.json");
    assert_eq!(paths::inflight_path("/d"), "/d/ambient/inflight.json");
    assert_eq!(paths::transcripts_dir("/d"), "/d/ambient/transcripts");
    assert_eq!(paths::locks_dir("/d"), "/d/ambient/locks");
    assert_eq!(VisibleCycleContext::context_path("/d"), "/d/ambient/visible_cycle.json");
    assert_eq!(VisibleCycleContext::result_path("/d"), "/d/ambient/cycle_result.json");
    assert_eq!(cron_dir("/d"), "/d/cron");
}

#[test]
fn file_names_keep_the_readable_end_of_a_path() {
    assert_eq!(paths::path_component_safe("/work/my-app_2.x"), "_work_my-app_2_x");
    assert_eq!(paths::last_chars("abcdef", 4), "cdef");
    assert_eq!(paths::last_chars("ab", 4), "ab");
}

#[test]
fn the_hash_of_a_path_is_that_of_the_standard_library() {
    let mut hasher = std::collections::hash_map::DefaultHasher::new();
    "/work/app".hash(&mut hasher);
    assert_eq!(paths::hash_of("/work/app"), hasher.finish());
    assert_ne!(paths::hash_of("/work/app"), paths::hash_of("/work/apq"));
}

#[test]
fn project_paths_are_expanded_and_matched_at_boundaries() {
    assert_eq!(expand_project_path("~/app", Some("/home/u")), "/home/u/app");
    assert_eq!(expand_project_path("/srv/app", Some("/home/u")), "/srv/app");
    assert!(paths_match("/srv/app/sub", "/srv/app"));
    assert!(paths_match("/srv/app", "/srv/app"));
    assert!(!paths_match("/srv/application", "/srv/app"));
    assert_eq!(final_segment("/srv/app"), "app");
}

#[test]
fn instructions_come_inline_and_from_a_file() {
    let project = |inline: &str, file: &str| AmbientProject {
        path: "/srv/app".to_string(),
        pr_repo: String::new(),
        instructions: inline.to_string(),
        instructions_file: file.to_string(),
        active_windows: Vec::new(),
    };
    let declared = |inline: &str, file: &str, contents: Option<&str>| {
        configured_project_instructions(&project(inline, file), contents)
    };
    assert_eq!(declared("  be brief ", "", None), "be brief");
    assert_eq!(declared("be brief", "app.md", Some("and kind")), "be brief\n\nand kind");
    assert_eq!(declared("", "app.md", Some("and kind\n")), "and kind");
    assert_eq!(declared("be brief", "", Some("and kind")), "be brief");
    let read = project_ambient_instructions(Some("  run the tests\n"));
    assert_eq!(read.as_deref(), Some("run the tests"));
    assert_eq!(project_ambient_instructions(Some(" \n")), None);
    assert_eq!(project_ambient_instructions(None), None);
}

#[test]
fn a_project_keeps_its_own_hours() {
    // Noon on the first day of 1970, a Thursday.
    let noon = LocalTime { instant: at(43_200), wall_secs: 43_200 };
    let project = |windows: &[&str]| ResolvedProject {
        path: "/srv/app".to_string(),
        pr_repo: String::new(),
        instructions: String::new(),
        active_windows: windows.iter().map(|w| w.to_string()).collect(),
    };
    assert!(project_window_open(&project(&[]), false, &noon));
    assert!(project_window_open(&project(&["thu 11:00-13:00"]), false, &noon));
    assert!(!project_window_open(&project(&["fri 11:00-13:00"]), false, &noon));
    assert!(project_window_open(&project(&["fri 11:00-13:00"]), true, &noon));
}

#[test]
fn windows_are_read_piece_by_piece() {
    assert_eq!(parse_day("mon"), Some(Weekday::Mon));
    assert_eq!(parse_day("noday"), None);
    assert_eq!(parse_time("09:30").map(|t| t.secs), Some(34_200));
    assert_eq!(parse_time("24:01"), None);
    assert_eq!(parse_days("sat,sun"), Some(vec![Weekday::Sat, Weekday::Sun]));
    let night = parse_window("thu 22:00-06:00").expect("a window");
    assert!(night.wraps());
    let late = LocalTime { instant: at(82_800), wall_secs: 82_800 };
    assert!(night.contains(&late));
    assert!(window_allows(&vec![night], &late));
    assert!(window_allows(&Vec::new(), &late));
}

#[test]
fn a_window_opens_at_its_next_start() {
    let window = parse_window("daily 09:00-10:00").expect("a window");
    let now = clock::local_time(clock::now());
    let next = window.next_open(&now).expect("a day has a morning");
    assert!(!next.before(&now.instant));
    let opened = clock::local_time(next);
    assert!(window.contains(&opened));
}

#[test]
fn usage_is_summed_by_source_and_time() {
    let record = |secs: i64, source: UsageSource, tokens: u32| UsageRecord {
        timestamp: at(secs),
        source,
        tokens_input: tokens,
        tokens_output: 1,
        provider: "p".to_string(),
    };
    let log = UsageLog::new(vec![
        record(10, UsageSource::User, 100),
        record(20, UsageSource::User, 200),
        record(20, UsageSource::Ambient, 400),
        record(30, UsageSource::User, 800),
    ]);
    assert_eq!(log.total_tokens_since(&UsageSource::User, &at(20)), Some(1_002));
    assert_eq!(log.total_tokens_since(&UsageSource::Ambient, &at(0)), Some(401));
}

#[test]
fn the_status_tells_of_the_runner_and_its_queue() {
    let now = at(1_000);
    let mut handle = AmbientRunnerHandle::new(AmbientState {
        status: AmbientStatus::Scheduled { next_wake: at(1_000 + 90 * 60) },
        last_run: Some(at(0)),
        last_summary: Some("fine".to_string()),
        last_compactions: Some(1),
        last_memories_modified: None,
        total_cycles: 4,
    });
    handle.running = true;
    handle.active_user_sessions = 2;
    let direct = ScheduleTarget::Session { session_id: "s".to_string() };
    let items = vec![
        item("due", 900, Priority::Normal, ScheduleTarget::Ambient),
        item("reminder", 2_000, Priority::Normal, direct),
    ];
    let closed = WindowState::Closed { next_open: Some(at(5_000)) };
    let windows = vec![parse_window("daily 09:00-10:00").expect("a window")];
    let report = status_report(&handle, Some(&items), true, &windows, &closed, &now);

    assert!(report.enabled && report.loop_running);
    assert_eq!(report.status, "scheduled (in 1h 30m)");
    assert!(!report.window_open);
    assert_eq!(report.window_next_open, Some(at(5_000)));
    assert_eq!(report.total_cycles, 4);
    assert_eq!(report.last_run.as_deref(), Some("1970-01-01T00:00:00+00:00"));
    assert_eq!(report.last_summary.as_deref(), Some("fine"));
    assert_eq!(report.queue.count, 2);
    assert_eq!(report.queue.overdue_count, 1);
    assert_eq!(report.queue.next_preview.as_deref(), Some("context of due"));
    assert_eq!(report.reminders.count, 1);
    assert_eq!(report.reminders.overdue_count, 0);
    assert_eq!(report.reminders.next_preview.as_deref(), Some("context of reminder"));
    assert_eq!(report.active_user_sessions, 2);

    handle.set_running_detail("running agent");
    let bare = status_report(&handle, None, false, &Vec::new(), &WindowState::Open, &now);
    assert_eq!(bare.status, "running: running agent");
    assert_eq!(bare.queue.count, 0);
    assert!(bare.window_open);
}

#[test]
fn a_heartbeat_is_due_after_half_a_minute() {
    assert!(!JadeRelayChannel::heartbeat_due(29));
    assert!(JadeRelayChannel::heartbeat_due(30));
}

#[test]
fn a_prompt_shown_for_inspection_knows_no_budget() {
    let budget = inspection_budget("anthropic");
    assert_eq!(budget.provider, "anthropic");
    assert_eq!(budget.tokens_remaining_desc, "unknown (debug dump)");
    assert_eq!(budget.window_resets_desc, "unknown");
}
