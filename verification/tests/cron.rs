//! Recurring jobs: what fires, what is recorded, and what is answered.

use chrono::{DateTime, Duration, Utc};
use jcode_ambient::ambient::loop_steps::{next_step, LoopEvent, LoopStep};
use jcode_ambient::ambient::manager::AmbientManager;
use jcode_ambient::ambient::persistence::ScheduledQueue;
use jcode_ambient::ambient::runner::AmbientRunnerHandle;
use jcode_ambient::ambient::scheduler::{AdaptiveScheduler, AmbientSchedulerConfig};
use jcode_ambient::ambient::types::{AmbientState, ScheduleTarget};
use jcode_ambient::cron::config::CronJobConfig;
use jcode_ambient::cron::control::{list_snapshot, next_due, run_job_now, soonest_of};
use jcode_ambient::cron::exec::{
    conclude, expand_working_dir, job_log_path, logs_dir, rotate_log_if_large, rotated_log_path,
    state_path, write_log, ExecEvent, ExecOutcome,
};
use jcode_ambient::cron::jobs::{
    begin_exec_job, fire, finish_exec_job, has_outstanding_fire, parse_cron_target, peek_next_due,
    run_prompt_job, tick, warn_invalid, ExecStart, FireRoute,
};
use jcode_ambient::cron::running::{
    clear_running, forget_invalid_warnings, is_running, mark_running, should_warn_invalid,
};
use jcode_ambient::cron::state::{CronState, LastStatus};
use jcode_ambient::server::debug_cron::{
    list_entry, maybe_handle_cron_command, run_reply, CronCommand,
};
use jcode_ambient::text_set::TextSet;
use jcode_ambient::time::Timestamp;

fn at(t: DateTime<Utc>) -> Timestamp {
    Timestamp::from_parts(t.timestamp(), t.timestamp_subsec_nanos())
}

fn exec_job(id: &str, every: &str) -> CronJobConfig {
    CronJobConfig {
        id: id.to_string(),
        every: Some(every.to_string()),
        command: Some("true".to_string()),
        ..Default::default()
    }
}

fn prompt_job(id: &str, every: &str) -> CronJobConfig {
    CronJobConfig {
        id: id.to_string(),
        every: Some(every.to_string()),
        prompt: Some("do a thing".to_string()),
        ..Default::default()
    }
}

fn manager() -> AmbientManager {
    AmbientManager::new(AmbientState::default(), ScheduledQueue::new())
}

fn succeeded_in(ms: u128) -> ExecOutcome {
    ExecOutcome { exit_code: Some(0), timed_out: false, duration_ms: ms, spawn_error: None }
}

#[test]
fn runner_loop_fires_a_cron_job_with_ambient_disabled() {
    let jobs = vec![exec_job("loop-test-job", "1m")];
    let mut runs = CronState::new();
    let mut running = TextSet::new();

    // The loop starts and begins its passes with ambient mode off.
    let mut runner = AmbientRunnerHandle::new(AmbientState::default());
    let mut manager = manager();
    runner.start_up(false, &mut manager, Vec::new());
    assert!(runner.is_running());
    let mut scheduler = AdaptiveScheduler::new(AmbientSchedulerConfig::default());

    // Every pass fires what is due, then goes on to the queue.
    let pass = tick(&jobs, &runs, true).unwrap();
    assert_eq!(pass.fires.len(), 1);
    assert_eq!(pass.fires[0].job, 0);
    assert_eq!(fire(&jobs[0]), FireRoute::Exec);
    assert!(matches!(begin_exec_job(&jobs[0], &mut running), ExecStart::Run { .. }));
    let start = runner.begin_pass(&mut scheduler, false, true);
    assert!(!start.ambient_allowed);
    let step = next_step(LoopStep::BeginPass, LoopEvent::PassBegun { start });
    assert_eq!(step, LoopStep::CheckQueue { start });
    let now = at(Utc::now());
    let queue = runner.check_queue(&mut manager, &start, false, false, &now);
    assert!(!queue.should_run, "no cycle starts while ambient mode is off");
    let event = LoopEvent::QueueChecked { any_direct: false, should_run: queue.should_run };
    let step = next_step(step, event);
    assert_eq!(step, LoopStep::Idle { start });
    assert_eq!(next_step(step, LoopEvent::Slept), LoopStep::BeginPass);

    // What ran is recorded, and is not due again at once.
    let slot = Some(pass.fires[0].slot);
    finish_exec_job("loop-test-job", &succeeded_in(5), slot, &now, &mut runs, &mut running);
    assert_eq!(runs.get("loop-test-job").unwrap().last_status, Some(LastStatus::Success));
    assert!(tick(&jobs, &runs, true).unwrap().fires.is_empty());
}

#[test]
fn a_due_exec_job_actually_runs_and_records_its_exit_code() {
    let jobs = vec![exec_job("touch-job", "1m")];
    let mut runs = CronState::new();
    let mut running = TextSet::new();
    let pass = tick(&jobs, &runs, true).unwrap();
    assert_eq!(pass.fires.len(), 1, "a first-ever run fires immediately");
    let slot = pass.fires[0].slot;

    assert_eq!(fire(&jobs[0]), FireRoute::Exec);
    assert_eq!(begin_exec_job(&jobs[0], &mut running), ExecStart::Run { timeout_secs: 3600 });
    assert_eq!(begin_exec_job(&jobs[0], &mut running), ExecStart::StillRunning);

    finish_exec_job(
        "touch-job",
        &succeeded_in(20),
        Some(slot),
        &at(Utc::now()),
        &mut runs,
        &mut running,
    );
    let recorded = runs.get("touch-job").expect("state should be recorded");
    assert_eq!(recorded.last_status, Some(LastStatus::Success));
    assert_eq!(recorded.last_exit_code, Some(0));
    assert_eq!(recorded.last_duration_ms, Some(20));
    assert!(!is_running(&running, "touch-job"));
}

#[test]
fn list_snapshot_reports_schedule_and_state_for_every_job() {
    let jobs = vec![
        exec_job("job-a", "6h"),
        CronJobConfig {
            id: "job-b".to_string(),
            at: Some("daily 03:00".to_string()),
            prompt: Some("do a thing".to_string()),
            enabled: false,
            ..Default::default()
        },
    ];

    let snapshot = list_snapshot(&jobs, &CronState::new(), &TextSet::new()).unwrap();
    assert_eq!(snapshot.len(), 2);

    let a = snapshot.iter().find(|j| j.id == "job-a").unwrap();
    assert!(a.valid);
    assert!(a.enabled);
    assert_eq!(a.schedule_description, "every 6h");
    assert!(a.next_run.is_some(), "enabled valid job should have a next_run");

    let b = snapshot.iter().find(|j| j.id == "job-b").unwrap();
    assert!(b.valid);
    assert!(!b.enabled);
    assert_eq!(b.schedule_description, "at daily 03:00");
    assert!(b.next_run.is_none(), "disabled job has no next_run");
}

#[test]
fn invalid_job_config_is_reported_but_does_not_crash_the_tick() {
    let jobs =
        vec![CronJobConfig { at: Some("daily 03:00".to_string()), ..exec_job("broken", "6h") }];

    let snapshot = list_snapshot(&jobs, &CronState::new(), &TextSet::new()).unwrap();
    let broken = &snapshot[0];
    assert!(!broken.valid, "both every and at set is invalid");
    assert!(broken.next_run.is_none());

    // Must not treat the invalid job as due.
    let pass = tick(&jobs, &CronState::new(), true).unwrap();
    assert!(pass.fires.is_empty());
    assert_eq!(pass.invalid, vec![0]);
    let mut warned = TextSet::new();
    let warnings = warn_invalid(&jobs, &pass.invalid, &mut warned);
    assert_eq!(warnings.len(), 1);
    assert!(warnings[0].contains("broken"), "got: {}", warnings[0]);
    assert!(warn_invalid(&jobs, &pass.invalid, &mut warned).is_empty());
}

#[test]
fn run_job_now_fires_regardless_of_schedule() {
    let jobs = vec![CronJobConfig {
        id: "manual-job".to_string(),
        at: Some("daily 03:00".to_string()),
        command: Some("touch x".to_string()),
        catch_up: false,
        ..Default::default()
    }];
    let mut runs = CronState::new();
    let run = run_job_now(
        &jobs,
        "manual-job",
        &TextSet::new(),
        &mut manager(),
        &mut runs,
        0,
        &at(Utc::now()),
        &Vec::new(),
    )
    .expect("manual run should start");
    assert_eq!(run.start, Some(0), "cron:run:<id> should run immediately");
}

#[test]
fn run_job_now_rejects_unknown_and_disabled_jobs() {
    let jobs = vec![CronJobConfig { enabled: false, ..exec_job("off-job", "1h") }];
    let mut runs = CronState::new();
    let mut run = |id: &str| {
        run_job_now(
            &jobs,
            id,
            &TextSet::new(),
            &mut manager(),
            &mut runs,
            0,
            &at(Utc::now()),
            &Vec::new(),
        )
    };

    assert!(run("does-not-exist").is_err());
    assert!(run("off-job").is_err());
}

#[test]
fn run_job_now_rejects_a_job_that_is_running() {
    let jobs = vec![exec_job("busy", "1h")];
    let mut running = TextSet::new();
    assert!(mark_running(&mut running, "busy"));
    assert!(!mark_running(&mut running, "busy"));
    let mut runs = CronState::new();
    let refused = run_job_now(
        &jobs,
        "busy",
        &running,
        &mut manager(),
        &mut runs,
        0,
        &at(Utc::now()),
        &Vec::new(),
    );
    assert!(refused.is_err());
    clear_running(&mut running, "busy");
    assert!(!is_running(&running, "busy"));
}

#[test]
fn respect_windows_holds_a_due_job_back_when_the_window_is_closed() {
    let jobs = vec![CronJobConfig { respect_windows: true, ..exec_job("windowed-job", "1m") }];

    // Closed window: the due first-ever run must NOT fire.
    let pass = tick(&jobs, &CronState::new(), false).unwrap();
    assert!(
        pass.fires.is_empty(),
        "a respect_windows job must not fire while the window is closed"
    );
    // It is due right now, so it contributes no *future* deadline either.
    assert!(pass.deadlines.windowed.is_none());
    assert!(pass.deadlines.unblocked.is_none());

    // Open window: the same due job now fires.
    let pass = tick(&jobs, &CronState::new(), true).unwrap();
    assert_eq!(pass.fires.len(), 1, "the same job must fire once the window opens");
}

#[test]
fn unblocked_job_deadline_is_reported_separately_from_windowed() {
    let jobs = vec![
        exec_job("clock-job", "6h"),
        CronJobConfig { respect_windows: true, ..exec_job("quiet-hours-job", "6h") },
    ];

    // Both jobs already ran, so that their next occurrence is a future deadline
    // rather than due now.
    let mut state = CronState::new();
    let last_run = at(Utc::now() - Duration::hours(1));
    state.record_run("clock-job", last_run, LastStatus::Success, Some(0), 0);
    state.record_run("quiet-hours-job", last_run, LastStatus::Success, Some(0), 0);

    let deadlines = peek_next_due(&jobs, &state, false).unwrap();
    assert_eq!(
        deadlines.unblocked,
        Some(last_run.plus_secs(6 * 3600)),
        "clock-job (respect_windows=false) must report an unblocked deadline"
    );
    assert_eq!(
        deadlines.windowed,
        Some(last_run.plus_secs(6 * 3600)),
        "quiet-hours-job (respect_windows=true) must report a windowed deadline"
    );
}

#[test]
fn a_job_that_just_fired_still_reports_its_following_deadline() {
    let jobs = vec![exec_job("fast-job", "5s")];

    let before = at(Utc::now());
    let deadlines = tick(&jobs, &CronState::new(), true).unwrap().deadlines;

    let next = deadlines
        .unblocked
        .expect("a job that just fired must still report its following fire");
    let delay = next.nanos - before.nanos;
    assert!(
        delay > 0 && delay <= 6_000_000_000,
        "the next fire should be about one interval away, got {delay}"
    );
    assert!(
        deadlines.windowed.is_none(),
        "the job does not opt into windows, so nothing belongs in the windowed slot"
    );
}

#[test]
fn an_interval_job_records_its_scheduled_slot_not_its_completion_time() {
    // A slot deliberately in the past, so the recorded value is unambiguously
    // the slot rather than "whatever now happened to be".
    let now = Utc::now();
    let slot = at(now - Duration::seconds(30));
    let mut runs = CronState::new();
    let mut running = TextSet::new();
    finish_exec_job(
        "slot-anchored",
        &succeeded_in(5),
        Some(slot),
        &at(now),
        &mut runs,
        &mut running,
    );

    let recorded = runs.last_run("slot-anchored").expect("the run must be recorded");
    assert_eq!(
        recorded, slot,
        "last_run must be the scheduled slot; recording completion time drifts \
         the cadence by one execution's latency every cycle"
    );
}

#[test]
fn a_malformed_job_warns_once_rather_than_once_per_runner_pass() {
    let mut warned = TextSet::new();
    forget_invalid_warnings(&mut warned);

    assert!(
        should_warn_invalid(&mut warned, "typo-job"),
        "the first sighting of a malformed job must be reported"
    );
    for _ in 0..10 {
        assert!(
            !should_warn_invalid(&mut warned, "typo-job"),
            "subsequent passes must stay quiet instead of repeating the warning"
        );
    }
    assert!(
        should_warn_invalid(&mut warned, "other-typo-job"),
        "a different malformed job is a different problem and must be reported"
    );

    // A config reload clears the set, so a job that was fixed and broken again
    // is reported again rather than being silenced for the process lifetime.
    forget_invalid_warnings(&mut warned);
    assert!(
        should_warn_invalid(&mut warned, "typo-job"),
        "after a config reload the job must be able to warn again"
    );
}

#[test]
fn a_prompt_job_does_not_requeue_while_its_previous_fire_is_undelivered() {
    let job = prompt_job("chatty", "1s");
    let mut mgr = manager();
    let mut runs = CronState::new();
    let now = at(Utc::now());
    let none: Vec<String> = Vec::new();

    let first = run_prompt_job(&job, None, &mut mgr, &mut runs, 7, &now, &none)
        .expect("the first fire must enqueue");
    assert!(!first.is_empty(), "a queued item id is expected");

    let second = run_prompt_job(&job, None, &mut mgr, &mut runs, 8, &now, &none);
    assert!(
        second.is_err(),
        "a second fire must be skipped while the first is still queued"
    );
    let message = second.unwrap_err();
    assert!(
        message.contains("queued fire") && message.contains("chatty"),
        "the skip should say which job and why, got: {message}"
    );

    let queued = mgr
        .queue()
        .items()
        .iter()
        .filter(|item| item.created_by_session == "cron:chatty")
        .count();
    assert_eq!(queued, 1, "exactly one outstanding request per job, not one per tick");
    assert!(has_outstanding_fire(mgr.queue().items(), "chatty"));
    assert!(!has_outstanding_fire(mgr.queue().items(), "other"));
}

#[test]
fn next_due_ignores_deadlines_that_have_already_passed() {
    let jobs = vec![CronJobConfig { respect_windows: true, ..exec_job("gated", "1s") }];
    let mut runs = CronState::new();
    runs.record_run(
        "gated",
        at(Utc::now() - Duration::minutes(5)),
        LastStatus::Success,
        Some(0),
        0,
    );

    // The gated job is overdue on paper but cannot fire outside its window.
    // Whatever next_due reports must not be in the past.
    if let Some(next) = next_due(&jobs, &runs, &TextSet::new()) {
        assert!(
            next.nanos >= at(Utc::now() - Duration::seconds(1)).nanos,
            "next_due must not report an already-passed deadline, got {next:?}"
        );
    }
    let snaps = list_snapshot(&jobs, &runs, &TextSet::new()).unwrap();
    assert!(snaps[0].next_run.is_some());
    assert_eq!(soonest_of(&snaps, &at(Utc::now())), None);
    let early = at(Utc::now() - Duration::hours(1));
    assert_eq!(soonest_of(&snaps, &early), snaps[0].next_run);
}

#[test]
fn every_documented_target_value_maps_to_its_delivery_route() {
    let base = || CronJobConfig {
        id: "t".to_string(),
        every: Some("1h".to_string()),
        prompt: Some("p".to_string()),
        ..Default::default()
    };

    assert!(
        matches!(parse_cron_target(&base()), ScheduleTarget::Ambient),
        "no target means ambient, as documented"
    );

    let explicit_ambient = CronJobConfig { target: Some("ambient".to_string()), ..base() };
    assert!(
        matches!(parse_cron_target(&explicit_ambient), ScheduleTarget::Ambient),
        "an explicit 'ambient' must route the same as the default"
    );

    let spawn = CronJobConfig { target: Some("spawn".to_string()), ..base() };
    match parse_cron_target(&spawn) {
        ScheduleTarget::Spawn { parent_session_id } => assert_eq!(
            parent_session_id, "cron:t",
            "a spawned worker is parented to the job, so its origin is traceable"
        ),
        other => unreachable!("expected Spawn, got {other:?}"),
    }

    let session = CronJobConfig { target: Some("session:abc123".to_string()), ..base() };
    match parse_cron_target(&session) {
        ScheduleTarget::Session { session_id } => {
            assert_eq!(session_id, "abc123", "the id after the prefix is the target")
        }
        other => unreachable!("expected Session, got {other:?}"),
    }

    // An unrecognised value falls back to ambient rather than failing the job:
    // delivering somewhere sane beats a schedule that silently stops.
    let bogus = CronJobConfig { target: Some("nonsense".to_string()), ..base() };
    assert!(
        matches!(parse_cron_target(&bogus), ScheduleTarget::Ambient),
        "an unknown target falls back to ambient"
    );
}

#[test]
fn successful_command_records_zero_exit_and_logs_output() {
    let event = ExecEvent::Ended {
        exit_code: Some(0),
        stdout: b"hello-from-cron\n".to_vec(),
        stderr: Vec::new(),
    };
    let (outcome, output) = conclude("echo hello-from-cron", event, 12);
    assert!(outcome.spawn_error.is_none());
    assert!(!outcome.timed_out);
    assert_eq!(outcome.exit_code, Some(0));
    assert!(outcome.succeeded());

    let output = output.expect("output to log");
    let log = write_log(
        "2026-08-07T16:30:00+00:00",
        "echo hello-from-cron",
        &output.stdout,
        &output.stderr,
        false,
    );
    let log = String::from_utf8(log).unwrap();
    assert!(log.contains("hello-from-cron"), "got: {log}");
    assert_eq!(job_log_path("/data", "echo-job"), "/data/cron/logs/echo-job.log");
}

#[test]
fn nonzero_exit_is_recorded_and_not_treated_as_success() {
    let event =
        ExecEvent::Ended { exit_code: Some(1), stdout: Vec::new(), stderr: Vec::new() };
    let (outcome, _) = conclude("false", event, 3);
    assert_eq!(outcome.exit_code, Some(1));
    assert!(!outcome.succeeded());
    assert_eq!(outcome.status(), LastStatus::Failure);
}

#[test]
fn long_running_command_is_killed_at_the_timeout() {
    let (outcome, _) = conclude("sleep 30", ExecEvent::TimedOut, 200);
    assert!(outcome.timed_out);
    assert!(!outcome.succeeded());
    assert_eq!(outcome.status(), LastStatus::Timeout);
    assert_eq!(outcome.millis(), 200);
}

#[test]
fn unparseable_command_reports_a_spawn_error_without_panicking() {
    let event = ExecEvent::Unparsable { error: "missing closing quote".to_string() };
    let (outcome, output) = conclude("'unterminated", event, 0);
    assert!(outcome.spawn_error.is_some());
    assert!(!outcome.succeeded());
    assert!(output.is_none());

    let event = ExecEvent::NotStarted { error: "no such file".to_string() };
    let (outcome, _) = conclude("nope", event, 0);
    assert!(outcome.spawn_error.unwrap().contains("no such file"));
}

#[test]
fn job_files_live_below_the_cron_directory() {
    assert_eq!(state_path("/data"), "/data/cron/state.json");
    assert_eq!(logs_dir("/data"), "/data/cron/logs");
    assert_eq!(rotated_log_path("/data", "x"), "/data/cron/logs/x.log.1");
    assert!(rotate_log_if_large(Some(3_000_000)));
    assert!(!rotate_log_if_large(Some(1_000)));
    assert!(!rotate_log_if_large(None));
    assert_eq!(expand_working_dir("~/jcode", Some("/home/potb")), "/home/potb/jcode");
    assert_eq!(expand_working_dir("/srv", Some("/home/potb")), "/srv");
}

#[test]
fn a_job_that_does_nothing_is_not_started() {
    let idle = CronJobConfig { command: None, ..exec_job("x", "1h") };
    assert_eq!(fire(&idle), FireRoute::Nothing);
    assert_eq!(begin_exec_job(&idle, &mut TextSet::new()), ExecStart::NoCommand);
    assert_eq!(fire(&prompt_job("x", "1h")), FireRoute::Prompt);
}

#[test]
fn unknown_prefix_returns_none_so_the_dispatch_chain_falls_through() {
    assert!(matches!(maybe_handle_cron_command("ambient:status"), CronCommand::NotMine));
}

#[test]
fn cron_run_requires_a_non_empty_id() {
    match maybe_handle_cron_command("cron:run:") {
        CronCommand::Reply(output) => assert!(output.contains("Usage: cron:run")),
        other => panic!("expected a reply, got {other:?}"),
    }
}

#[test]
fn cron_run_answers_an_unknown_id_instead_of_dropping_the_connection() {
    let id = match maybe_handle_cron_command("cron:run:definitely-not-a-job") {
        CronCommand::Run { id } => id,
        other => panic!("the cron namespace must claim its own command, got {other:?}"),
    };
    let outcome = run_job_now(
        &Vec::new(),
        &id,
        &TextSet::new(),
        &mut manager(),
        &mut CronState::new(),
        0,
        &at(Utc::now()),
        &Vec::new(),
    );
    let output = run_reply(&outcome);
    assert!(
        output.contains("definitely-not-a-job"),
        "the reply should name the job that could not be found, got: {output}"
    );
}

#[test]
fn cron_help_lists_the_documented_commands() {
    match maybe_handle_cron_command("cron:help") {
        CronCommand::Reply(help) => {
            assert!(help.contains("cron:list"));
            assert!(help.contains("cron:run:<id>"));
        }
        other => panic!("expected a reply, got {other:?}"),
    }
}

#[test]
fn cron_list_is_valid_json_and_empty_with_no_configured_jobs() {
    assert!(matches!(maybe_handle_cron_command("cron:list"), CronCommand::List));
    let snapshots = list_snapshot(&Vec::new(), &CronState::new(), &TextSet::new()).unwrap();
    assert!(snapshots.is_empty());
}

#[test]
fn cron_list_reports_a_configured_job() {
    let jobs = vec![CronJobConfig {
        id: "nightly".to_string(),
        at: Some("daily 03:00".to_string()),
        command: Some("true".to_string()),
        ..Default::default()
    }];
    let snapshots = list_snapshot(&jobs, &CronState::new(), &TextSet::new()).unwrap();
    assert_eq!(snapshots.len(), 1);
    let entry = list_entry(&snapshots[0], &at(Utc::now()));
    assert_eq!(entry.id, "nightly");
    assert_eq!(entry.schedule, "at daily 03:00");
    assert!(entry.enabled);
    assert!(entry.valid);
    assert!(entry.next_run.is_some());
    assert!(entry.next_run_in.is_some());
}

#[test]
fn a_job_whose_following_slot_is_off_the_calendar_is_shown_but_not_fired() {
    let jobs = vec![CronJobConfig {
        id: "rare".to_string(),
        every: Some("9000000000000s".to_string()),
        command: Some("true".to_string()),
        ..Default::default()
    }];
    let runs = CronState::new();
    let shown = list_snapshot(&jobs, &runs, &TextSet::new()).expect("its next slot is now");
    assert!(shown[0].next_run.is_some());
    assert!(peek_next_due(&jobs, &runs, true).is_some());
    assert!(tick(&jobs, &runs, true).is_none());
}
