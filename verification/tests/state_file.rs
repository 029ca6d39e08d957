//! The recorded state: daemon-wide, and per project.

use jcode_ambient::ambient::manager::AmbientManager;
use jcode_ambient::ambient::persistence::ScheduledQueue;
use jcode_ambient::ambient::state_file::{
    layout_with_keys, state_layout, AmbientStateFile, StateLayout,
};
use jcode_ambient::ambient::types::{AmbientCycleResult, AmbientState, AmbientStatus, CycleStatus};
use jcode_ambient::clock;
use jcode_ambient::text_map::TextMap;

fn cycle_result(summary: &str) -> AmbientCycleResult {
    let now = clock::now();
    AmbientCycleResult {
        summary: summary.to_string(),
        memories_modified: 1,
        compactions: 0,
        proactive_work: None,
        significance: None,
        next_schedule: None,
        started_at: now,
        ended_at: now,
        status: CycleStatus::Complete,
        agent_session_id: None,
        conversation: None,
    }
}

fn untouched() -> AmbientState {
    AmbientState {
        status: AmbientStatus::Idle,
        last_run: None,
        last_summary: None,
        last_compactions: None,
        last_memories_modified: None,
        total_cycles: 0,
    }
}

/// State recorded before there was per-project state is a bare object. Its
/// cycle count and summary must land in the global slot rather than being
/// defaulted away.
#[test]
fn a_pre_envelope_state_file_migrates_into_the_global_slot() {
    let text = r#"{
            "status": {"Running": {"detail": "running agent"}},
            "last_run": "2026-08-15T10:00:00Z",
            "last_summary": "legacy cycle",
            "last_compactions": 2,
            "last_memories_modified": 7,
            "total_cycles": 145
        }"#;
    assert_eq!(state_layout(text), StateLayout::Flat);

    let file = AmbientStateFile::adopting_legacy_flat_state(AmbientState {
        status: AmbientStatus::Running { detail: "running agent".to_string() },
        last_run: clock::read_rfc3339("2026-08-15T10:00:00Z"),
        last_summary: Some("legacy cycle".to_string()),
        last_compactions: Some(2),
        last_memories_modified: Some(7),
        total_cycles: 145,
    });

    assert_eq!(file.global.total_cycles, 145, "cycle count must survive");
    assert_eq!(file.global.last_summary.as_deref(), Some("legacy cycle"));
    assert_eq!(file.global.last_memories_modified, Some(7));
    assert!(file.projects.is_empty(), "a legacy file has no per-project history to invent");
}

#[test]
fn the_layout_of_a_state_file_is_told_from_its_keys() {
    assert_eq!(state_layout(r#"{"global": {}, "projects": {}}"#), StateLayout::Envelope);
    assert_eq!(state_layout(r#"{"total_cycles": 3}"#), StateLayout::Flat);
    assert_eq!(state_layout("[1, 2]"), StateLayout::Flat);
    assert_eq!(state_layout("{"), StateLayout::Unreadable);
    assert_eq!(layout_with_keys(&None), StateLayout::Unreadable);
    assert_eq!(layout_with_keys(&Some(None)), StateLayout::Flat);
    assert_eq!(
        layout_with_keys(&Some(Some(vec!["a".to_string(), "global".to_string()]))),
        StateLayout::Envelope
    );
}

#[test]
fn an_envelope_state_file_round_trips_project_state() {
    let mut projects = TextMap::new();
    projects.insert(
        "/home/potb/jcode".to_string(),
        AmbientState {
            last_summary: Some("jcode cycle".to_string()),
            total_cycles: 3,
            ..untouched()
        },
    );
    let file =
        AmbientStateFile { global: AmbientState { total_cycles: 10, ..untouched() }, projects };

    assert_eq!(file.global.total_cycles, 10);
    assert_eq!(file.project("/home/potb/jcode").total_cycles, 3);
    assert_eq!(
        file.project("/home/potb/projects/costo/beakon").total_cycles,
        0,
        "a project with no history reads as default, not as an error"
    );
}

/// One project's cycle must not be the only thing the file remembers, and must
/// not leak into another project's counters.
#[test]
fn recording_a_cycle_updates_its_project_and_the_global_slot() {
    let mut file = AmbientStateFile::new();
    let now = clock::now();

    file.record_cycle(Some("/home/potb/jcode"), &cycle_result("jcode work"), &now);
    file.record_cycle(
        Some("/home/potb/projects/costo/beakon"),
        &cycle_result("beakon work"),
        &now,
    );
    file.record_cycle(Some("/home/potb/jcode"), &cycle_result("more jcode work"), &now);

    assert_eq!(file.project("/home/potb/jcode").total_cycles, 2);
    assert_eq!(
        file.project("/home/potb/jcode").last_summary.as_deref(),
        Some("more jcode work")
    );
    assert_eq!(
        file.project("/home/potb/projects/costo/beakon").total_cycles,
        1,
        "another project's cycles must not be counted here"
    );
    assert_eq!(file.global.total_cycles, 3, "the global slot stays the daemon-wide total");
}

#[test]
fn a_projectless_cycle_is_recorded_globally_only() {
    let mut file = AmbientStateFile::new();

    file.record_cycle(None, &cycle_result("gardening"), &clock::now());

    assert_eq!(file.global.total_cycles, 1);
    assert!(
        file.projects.is_empty(),
        "a cycle owning no project must not create a project slot"
    );
}

/// Saving the global state must not destroy the per-project map beside it.
#[test]
fn saving_global_state_preserves_per_project_state() {
    let mut file = AmbientStateFile::new();
    file.record_cycle(Some("/home/potb/jcode"), &cycle_result("jcode work"), &clock::now());

    let mut global = file.global.copied();
    global.total_cycles += 1;
    file.set_global(&global);

    assert_eq!(
        file.project("/home/potb/jcode").total_cycles,
        1,
        "per-project state must survive a global-only save"
    );
    assert_eq!(file.global.total_cycles, 2);
}

/// A finished cycle is recorded against the project it belonged to as well as
/// globally, so the two cannot disagree about the same cycle.
#[test]
fn recording_a_cycle_for_a_project_updates_both_slots_once() {
    let mut file = AmbientStateFile::new();
    let mut mgr = AmbientManager::new(untouched(), ScheduledQueue::new());
    let none: Vec<String> = Vec::new();
    let now = clock::now();
    mgr.record_cycle_result_for(
        &mut file,
        Some("/work/alpha"),
        cycle_result("alpha work"),
        0,
        &now,
        &none,
    );

    assert_eq!(file.global.total_cycles, 1);
    assert_eq!(file.project("/work/alpha").total_cycles, 1);
    assert_eq!(
        file.project("/work/alpha").last_summary.as_deref(),
        Some("alpha work"),
        "a project's own history must be attributable to it"
    );
    assert_eq!(
        file.project("/work/beta").total_cycles,
        0,
        "another project's history must not move"
    );

    mgr.record_cycle_result_for(&mut file, None, cycle_result("gardening"), 0, &now, &none);
    assert_eq!(file.global.total_cycles, 2);
    assert_eq!(
        file.project("/work/alpha").total_cycles,
        1,
        "an unfocused cycle belongs to no project, so no project slot moves"
    );
}
