//! Whether a finished cycle notifies.

use jcode_ambient::ambient::cycle::{
    after_turn, cycle_outcome, finished_result, forced_result, silence_line, transcript_of,
    standing_result, visible_result, CycleProgress, TurnDecision, CLOSED_SUMMARY, FORCED_SUMMARY,
};
use jcode_ambient::ambient::cycle_significance::{should_notify, CycleOutcome, CycleSignificance};
use jcode_ambient::ambient::gates::{
    GateFacts, GateMessages, GoalDelivery, TodoItem, TodoProgress, AMBIENT_GATE_MAX_ATTEMPTS,
};
use jcode_ambient::ambient::types::{AmbientCycleResult, CycleStatus};
use jcode_ambient::time::Timestamp;

fn outcome(significance: CycleSignificance) -> CycleOutcome {
    CycleOutcome { significance, pending_permissions: 0, did_proactive_work: false, failed: false }
}

fn at(secs: i64) -> Timestamp {
    Timestamp::from_parts(secs, 0)
}

fn result(significance: Option<&str>, status: CycleStatus) -> AmbientCycleResult {
    AmbientCycleResult {
        summary: "done".to_string(),
        memories_modified: 2,
        compactions: 1,
        proactive_work: None,
        significance: significance.map(str::to_string),
        next_schedule: None,
        started_at: at(10),
        ended_at: at(20),
        status,
        agent_session_id: Some("session_1".to_string()),
        conversation: None,
    }
}

#[test]
fn parses_declared_values() {
    assert_eq!(CycleSignificance::parse(Some("routine")), CycleSignificance::Routine);
    assert_eq!(CycleSignificance::parse(Some("notable")), CycleSignificance::Notable);
    assert_eq!(
        CycleSignificance::parse(Some("  ROUTINE  ")),
        CycleSignificance::Routine,
        "case and whitespace must not change the meaning"
    );
}

#[test]
fn accepts_plausible_synonyms() {
    assert_eq!(CycleSignificance::parse(Some("garden")), CycleSignificance::Routine);
    assert_eq!(CycleSignificance::parse(Some("maintenance")), CycleSignificance::Routine);
    assert_eq!(CycleSignificance::parse(Some("significant")), CycleSignificance::Notable);
}

#[test]
fn unknown_or_missing_is_unspecified() {
    assert_eq!(CycleSignificance::parse(None), CycleSignificance::Unspecified);
    assert_eq!(CycleSignificance::parse(Some("")), CycleSignificance::Unspecified);
    assert_eq!(
        CycleSignificance::parse(Some("kind of important")),
        CycleSignificance::Unspecified,
        "an unrecognised string must not be silently read as routine"
    );
}

#[test]
fn routine_cycle_is_silent() {
    assert!(!should_notify(&outcome(CycleSignificance::Routine)));
}

#[test]
fn notable_cycle_notifies() {
    assert!(should_notify(&outcome(CycleSignificance::Notable)));
}

#[test]
fn unspecified_is_silent() {
    assert!(!should_notify(&outcome(CycleSignificance::Unspecified)));
}

#[test]
fn pending_permission_always_notifies() {
    let mut o = outcome(CycleSignificance::Routine);
    o.pending_permissions = 1;
    assert!(should_notify(&o), "a routine label must never suppress work blocked on the user");
}

#[test]
fn failure_always_notifies() {
    let mut o = outcome(CycleSignificance::Routine);
    o.failed = true;
    assert!(should_notify(&o), "a failed cycle is news even if labelled routine");

    let mut o = outcome(CycleSignificance::Unspecified);
    o.failed = true;
    assert!(should_notify(&o));
}

#[test]
fn proactive_work_always_notifies() {
    let mut o = outcome(CycleSignificance::Routine);
    o.did_proactive_work = true;
    assert!(should_notify(&o));
}

#[test]
fn real_garden_cycles_are_silent() {
    assert!(!should_notify(&outcome(CycleSignificance::Routine)));

    let mut with_memory_work = outcome(CycleSignificance::Routine);
    with_memory_work.did_proactive_work = false;
    assert!(
        !should_notify(&with_memory_work),
        "gardening IS memory work, so touching memories must not force a push"
    );
}

#[test]
fn real_newsworthy_cycle_notifies() {
    assert!(
        should_notify(&outcome(CycleSignificance::Notable)),
        "a cycle with the same counts as gardening must still be able to reach the user"
    );
}

#[test]
fn an_outcome_is_read_off_the_result() {
    let mut r = result(Some("ROUTINE "), CycleStatus::Complete);
    let o = cycle_outcome(&r, 3);
    assert_eq!(o.significance, CycleSignificance::Routine);
    assert_eq!(o.pending_permissions, 3);
    assert!(!o.did_proactive_work && !o.failed);
    r.proactive_work = Some("  \n".to_string());
    assert!(!cycle_outcome(&r, 0).did_proactive_work);
    r.proactive_work = Some("opened a change".to_string());
    assert!(cycle_outcome(&r, 0).did_proactive_work);
    r.status = CycleStatus::Interrupted;
    assert!(cycle_outcome(&r, 0).failed);
}

#[test]
fn a_silent_cycle_says_which_kind_it_was() {
    let routine = result(Some("routine"), CycleStatus::Complete);
    assert_eq!(
        silence_line(&routine, 0).as_deref(),
        Some("Ambient runner: routine cycle, no notification sent")
    );
    let unsaid = result(None, CycleStatus::Complete);
    assert_eq!(
        silence_line(&unsaid, 0).as_deref(),
        Some("Ambient runner: unspecified-significance cycle, no notification sent")
    );
    assert!(silence_line(&unsaid, 1).is_none());
    assert!(silence_line(&result(Some("notable"), CycleStatus::Complete), 0).is_none());
}

fn facts(todos: Vec<TodoItem>, digest: Option<&str>) -> GateFacts {
    GateFacts {
        todos,
        goals: vec![GoalDelivery { group: None, sufficient: true }],
        gate_digest: digest.map(str::to_string),
        messages: GateMessages {
            incomplete: "keep going".to_string(),
            ownership: "carry it further".to_string(),
            completion: "verify it".to_string(),
            spike: "explain the jump".to_string(),
        },
    }
}

fn todo(progress: TodoProgress) -> TodoItem {
    TodoItem { group: None, progress, confidence_passes: true, confidence_spiked: false }
}

#[test]
fn a_cycle_gets_one_continuation_turn() {
    let met = || Some(facts(Vec::new(), None));
    assert_eq!(after_turn(&mut CycleProgress::new(), false, met()), TurnDecision::Finish);
    for first in [true, false] {
        let mut progress = CycleProgress::new();
        assert_eq!(after_turn(&mut progress, first, None), TurnDecision::Continue);
        assert_eq!(after_turn(&mut progress.clone(), false, met()), TurnDecision::Finish);
        assert_eq!(
            after_turn(&mut progress.clone(), true, None),
            TurnDecision::ForceEnd { restore_claimed: first }
        );
        assert_eq!(
            after_turn(&mut progress, false, None),
            TurnDecision::ForceEnd { restore_claimed: false }
        );
    }
}

#[test]
fn an_unmet_gate_holds_back_the_end_five_times() {
    let mut progress = CycleProgress::new();
    for sent in 1..=AMBIENT_GATE_MAX_ATTEMPTS {
        match after_turn(&mut progress, false, Some(facts(vec![todo(TodoProgress::Open)], None))) {
            TurnDecision::FollowUp { follow_up } => assert_eq!(follow_up.message(), "keep going"),
            other => panic!("expected a follow-up, got {other:?}"),
        }
        assert_eq!(progress.gates.attempts, sent);
    }
    assert_eq!(AMBIENT_GATE_MAX_ATTEMPTS, 5);
    let still_open = Some(facts(vec![todo(TodoProgress::Open)], None));
    assert_eq!(after_turn(&mut progress, false, still_open), TurnDecision::Finish);
}

#[test]
fn an_end_is_accepted_once_the_gates_are_met() {
    let mut progress = CycleProgress::new();
    let jump = TodoItem { confidence_spiked: true, ..todo(TodoProgress::Completed) };
    let labels: Vec<&str> = vec!["incomplete-todos", "gate-digest", "confidence-spike"];
    let ends = [
        facts(vec![todo(TodoProgress::Open)], None),
        facts(vec![jump.clone()], Some("weak points")),
        // A digest that was delivered is not delivered again.
        facts(vec![jump.clone()], Some("weak points")),
    ];
    for (end, label) in ends.into_iter().zip(labels) {
        match after_turn(&mut progress, false, Some(end)) {
            TurnDecision::FollowUp { follow_up } => assert_eq!(follow_up.label(), label),
            other => panic!("expected {label}, got {other:?}"),
        }
    }
    // The jump is challenged once only.
    let last = Some(facts(vec![jump], None));
    assert_eq!(after_turn(&mut progress, true, last), TurnDecision::Finish);
    assert_eq!(progress.gates.attempts, 3);
}

#[test]
fn a_reported_end_stands_until_another_is_reported() {
    let first = || Some(result(Some("routine"), CycleStatus::Complete));
    let second = || Some(result(Some("notable"), CycleStatus::Complete));
    let claim = |r: Option<AmbientCycleResult>| r.and_then(|r| r.significance);
    assert!(standing_result(None, None).is_none());
    assert_eq!(claim(standing_result(None, first())).as_deref(), Some("routine"));
    assert_eq!(claim(standing_result(first(), None)).as_deref(), Some("routine"));
    assert_eq!(claim(standing_result(first(), second())).as_deref(), Some("notable"));
}

#[test]
fn a_forced_cycle_is_incomplete_and_notifies() {
    let forced = forced_result(at(1), at(2), "log".to_string());
    assert_eq!(forced.summary, FORCED_SUMMARY);
    assert_eq!(forced.status, CycleStatus::Incomplete);
    assert_eq!(forced.conversation.as_deref(), Some("log"));
    assert!(forced.significance.is_none());
    assert!(silence_line(&forced, 0).is_none());
}

#[test]
fn the_runner_times_a_finished_cycle() {
    let r = finished_result(
        result(Some("notable"), CycleStatus::Complete),
        at(100),
        at(200),
        "talk".to_string(),
    );
    assert_eq!(r.started_at, at(100));
    assert_eq!(r.ended_at, at(200));
    assert_eq!(r.conversation.as_deref(), Some("talk"));
    assert_eq!(r.summary, "done");
    assert_eq!(r.agent_session_id.as_deref(), Some("session_1"));
}

#[test]
fn a_closed_window_is_an_incomplete_cycle() {
    let closed = visible_result(None, at(1), at(2));
    assert_eq!(closed.summary, CLOSED_SUMMARY);
    assert_eq!(closed.status, CycleStatus::Incomplete);
    let left = visible_result(Some(result(None, CycleStatus::Complete)), at(1), at(2));
    assert_eq!(left.summary, "done");
    assert_eq!(left.started_at, at(1));
}

#[test]
fn a_transcript_is_named_after_its_second() {
    let r = result(None, CycleStatus::Complete);
    let t = transcript_of(&r, "anthropic", "opus", 4, &at(1_786_120_200));
    assert_eq!(t.session_id, "ambient_20260807_163000");
    assert_eq!(t.ended_at, Some(at(20)));
    assert_eq!(t.pending_permissions, 4);
    assert_eq!(t.summary.as_deref(), Some("done"));
    assert_eq!(t.provider, "anthropic");
    assert_eq!(t.model, "opus");
}

#[test]
fn case_and_padding_do_not_change_what_a_word_claims() {
    for word in ["notable", "NOTABLE", "  NoTaBle\n", "Significant", "\tSIGNIFICANT "] {
        assert_eq!(CycleSignificance::parse(Some(word)), CycleSignificance::Notable, "{word:?}");
    }
    for word in ["Routine", " GARDEN ", "maintenancE"] {
        assert_eq!(CycleSignificance::parse(Some(word)), CycleSignificance::Routine, "{word:?}");
    }
    // Beside other letters the case of ASCII letters does not matter either.
    for (a, b) in [("É notable", "É NOTABLE"), ("NOTABLEΣ", "notableΣ"), ("\u{212A}", "k")] {
        assert_eq!(CycleSignificance::parse(Some(a)), CycleSignificance::parse(Some(b)));
    }
    for word in ["", "notable!", "not able", "routines"] {
        assert_eq!(CycleSignificance::parse(Some(word)), CycleSignificance::Unspecified, "{word:?}");
    }
}
