//! What is remembered of each job's runs.

use chrono::Utc;
use jcode_ambient::cron::state::{CronJobState, CronState, LastStatus};
use jcode_ambient::time::Timestamp;

fn now() -> Timestamp {
    let t = Utc::now();
    Timestamp::from_parts(t.timestamp(), t.timestamp_subsec_nanos())
}

#[test]
fn round_trips_through_disk_keyed_by_job_id() {
    let mut state = CronState::new();
    assert!(state.get("upstream-merge").is_none(), "fresh state is empty");

    let ended_at = now();
    state.record_run("upstream-merge", ended_at, LastStatus::Success, Some(0), 1200);

    let entry = state.get("upstream-merge").expect("job should be recorded");
    assert_eq!(entry.last_run, Some(ended_at));
    assert_eq!(entry.last_status, Some(LastStatus::Success));
    assert_eq!(entry.last_exit_code, Some(0));
    assert_eq!(entry.last_duration_ms, Some(1200));
    assert_eq!(entry.consecutive_failures, 0);
}

#[test]
fn consecutive_failures_accumulate_and_reset_on_success() {
    let mut state = CronState::new();
    let now = now();
    state.record_run("job", now, LastStatus::Failure, Some(1), 10);
    state.record_run("job", now, LastStatus::Failure, Some(1), 10);
    assert_eq!(state.get("job").unwrap().consecutive_failures, 2);

    state.record_run("job", now, LastStatus::Success, Some(0), 10);
    assert_eq!(state.get("job").unwrap().consecutive_failures, 0);
}

#[test]
fn timeout_status_counts_as_a_failure_for_the_streak() {
    let mut state = CronState::new();
    state.record_run("job", now(), LastStatus::Timeout, None, 60_000);
    assert_eq!(state.get("job").unwrap().consecutive_failures, 1);
    assert_eq!(state.get("job").unwrap().last_exit_code, None);
}

#[test]
fn other_jobs_are_untouched_by_a_record_for_a_different_id() {
    let mut state = CronState::new();
    state.record_run("job-a", now(), LastStatus::Success, Some(0), 5);
    state.record_run("job-b", now(), LastStatus::Failure, Some(1), 5);

    assert_eq!(state.get("job-a").unwrap().last_status, Some(LastStatus::Success));
    assert_eq!(state.get("job-b").unwrap().last_status, Some(LastStatus::Failure));
}

#[test]
fn missing_state_file_loads_as_empty_rather_than_erroring() {
    let state = CronState::new();
    assert!(state.get("anything").is_none());
    assert!(state.last_run("anything").is_none());
    assert_eq!(state.recorded("anything"), CronJobState::default());
}
