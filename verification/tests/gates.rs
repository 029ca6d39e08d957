//! The quality gates at the end of a cycle.

use jcode_ambient::ambient::gates::{
    digest_is_due, next_gate_follow_up, AmbientGateFollowUp, AmbientGateState, GateMessages,
    GoalDelivery, TodoItem, TodoProgress, AMBIENT_TODO_GUIDANCE,
};

fn todo(progress: TodoProgress) -> TodoItem {
    TodoItem { group: None, progress, confidence_passes: false, confidence_spiked: false }
}

/// A completed todo whose confidence climbed one step, so that nothing else is
/// held against it.
fn completed_clean() -> TodoItem {
    TodoItem { confidence_passes: true, ..todo(TodoProgress::Completed) }
}

/// A goal whose delivery assessment passes.
fn goal_delivered(group: Option<&str>) -> GoalDelivery {
    GoalDelivery { group: group.map(str::to_string), sufficient: true }
}

fn messages() -> GateMessages {
    GateMessages {
        incomplete: "keep going".to_string(),
        ownership: "carry it further".to_string(),
        completion: "verify it".to_string(),
        spike: "explain the jump".to_string(),
    }
}

fn follow_up(
    todos: &Vec<TodoItem>,
    goals: &[GoalDelivery],
    digest: Option<&str>,
    state: AmbientGateState,
) -> Option<AmbientGateFollowUp> {
    next_gate_follow_up(todos, &goals.to_vec(), digest.map(str::to_string), state, messages())
}

#[test]
fn no_todos_at_all_means_no_gate() {
    assert!(follow_up(&Vec::new(), &[], None, AmbientGateState::default()).is_none());
}

#[test]
fn incomplete_todos_block_the_end_of_the_cycle() {
    let todos = vec![completed_clean(), todo(TodoProgress::Open)];
    match follow_up(&todos, &[goal_delivered(None)], None, Default::default()) {
        Some(AmbientGateFollowUp::Incomplete { count, .. }) => assert_eq!(count, 1),
        other => panic!("expected the incomplete gate, got {other:?}"),
    }
}

#[test]
fn cancelled_todos_do_not_count_as_incomplete() {
    let todos = vec![completed_clean(), todo(TodoProgress::Cancelled)];
    assert!(follow_up(&todos, &[goal_delivered(None)], None, Default::default()).is_none());
}

#[test]
fn digest_is_withheld_while_work_remains() {
    let todos = vec![todo(TodoProgress::Open)];
    assert!(!digest_is_due(&todos, AmbientGateState::default()));
    assert!(digest_is_due(&vec![completed_clean()], AmbientGateState::default()));
}

#[test]
fn digest_is_not_due_twice() {
    let state = AmbientGateState { gate_digest_delivered: true, ..Default::default() };
    assert!(!digest_is_due(&vec![completed_clean()], state));
}

#[test]
fn digest_outranks_ownership_and_confidence() {
    let todos = vec![completed_clean()];
    match follow_up(&todos, &[], Some("weak points"), Default::default()) {
        Some(AmbientGateFollowUp::GateDigest { message }) => assert_eq!(message, "weak points"),
        other => panic!("expected the digest, got {other:?}"),
    }
}

#[test]
fn a_completed_group_without_a_passing_delivery_assessment_is_gated() {
    let todos = vec![completed_clean()];
    match follow_up(&todos, &[], None, Default::default()) {
        Some(AmbientGateFollowUp::Ownership { message }) => assert!(!message.is_empty()),
        other => panic!("expected the ownership gate, got {other:?}"),
    }
}

#[test]
fn weak_completion_confidence_is_gated() {
    let todos = vec![TodoItem { confidence_passes: false, ..completed_clean() }];
    match follow_up(&todos, &[goal_delivered(None)], None, Default::default()) {
        Some(AmbientGateFollowUp::CompletionConfidence { .. }) => {}
        other => panic!("expected the completion-confidence gate, got {other:?}"),
    }
}

#[test]
fn missing_completion_confidence_is_gated() {
    let todos = vec![todo(TodoProgress::Completed)];
    match follow_up(&todos, &[goal_delivered(None)], None, Default::default()) {
        Some(AmbientGateFollowUp::CompletionConfidence { .. }) => {}
        other => panic!("expected the completion-confidence gate, got {other:?}"),
    }
}

#[test]
fn a_confidence_jump_is_challenged_once_only() {
    let todos = vec![TodoItem { confidence_spiked: true, ..completed_clean() }];
    match follow_up(&todos, &[goal_delivered(None)], None, Default::default()) {
        Some(AmbientGateFollowUp::ConfidenceSpike { .. }) => {}
        other => panic!("expected the spike challenge, got {other:?}"),
    }
    let challenged = AmbientGateState { confidence_spike_challenged: true, ..Default::default() };
    assert!(follow_up(&todos, &[goal_delivered(None)], None, challenged).is_none());
}

#[test]
fn a_fully_validated_cycle_passes_every_gate() {
    let todos = vec![completed_clean(), completed_clean()];
    assert!(follow_up(&todos, &[goal_delivered(None)], None, Default::default()).is_none());
}

#[test]
fn ownership_is_judged_per_group() {
    // One group carried to delivery does not vouch for another.
    let todos = vec![
        TodoItem { group: Some("a".to_string()), ..completed_clean() },
        TodoItem { group: Some("b".to_string()), ..completed_clean() },
    ];
    let goals = [goal_delivered(Some("a"))];
    match follow_up(&todos, &goals, None, Default::default()) {
        Some(AmbientGateFollowUp::Ownership { .. }) => {}
        other => panic!("expected the ownership gate for group b, got {other:?}"),
    }
}

#[test]
fn a_goal_that_does_not_pass_does_not_vouch_for_its_group() {
    let todos = vec![TodoItem { group: Some("b".to_string()), ..completed_clean() }];
    let failing = GoalDelivery { sufficient: false, ..goal_delivered(Some("b")) };
    let goals = [goal_delivered(None), failing];
    assert!(matches!(
        follow_up(&todos, &goals, None, Default::default()),
        Some(AmbientGateFollowUp::Ownership { .. })
    ));
    let goals = [goal_delivered(Some("a")), goal_delivered(Some("b"))];
    assert!(follow_up(&todos, &goals, None, Default::default()).is_none());
}

#[test]
fn follow_ups_carry_their_label_and_text() {
    let todos = vec![todo(TodoProgress::Open)];
    let f = follow_up(&todos, &[goal_delivered(None)], None, Default::default()).unwrap();
    assert_eq!(f.label(), "incomplete-todos");
    assert_eq!(f.message(), "keep going");
    let f = follow_up(&vec![completed_clean()], &[], None, Default::default()).unwrap();
    assert_eq!(f.label(), "ownership");
    assert_eq!(f.message(), "carry it further");
}

#[test]
fn test_ambient_todo_guidance_does_not_leak_gate_thresholds() {
    let guidance = AMBIENT_TODO_GUIDANCE.to_lowercase();
    // Compare whole tokens, not substrings: the passing value `verified` is a
    // substring of the ordinary English word "unverified".
    let tokens: Vec<&str> = guidance
        .split(|c: char| !(c.is_ascii_alphanumeric() || c == '_'))
        .filter(|token| !token.is_empty())
        .collect();

    for threshold in [
        "workflow_validated",
        "outcome_delivered",
        "necessary_followthrough",
        "acceptance_aligned",
        "edge_and_integration_paths",
        "validated",
        "verified",
    ] {
        assert!(
            !tokens.contains(&threshold),
            "guidance names the passing value {threshold:?}, which turns it into a form to fill in"
        );
    }
}
