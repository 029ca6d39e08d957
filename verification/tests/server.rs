//! Disconnects, and the ambient debug commands.

use jcode_ambient::server::debug_ambient::{
    done_reply, maybe_handle_ambient_command, permission_entry, AmbientCommand, PermissionFacts,
    NOT_CONFIGURED, NOT_ENABLED,
};
use jcode_ambient::server::disconnect::{
    disconnect_disposition, session_has_live_successor, CleanupPlan, ClientConnection, Disconnect,
    DisconnectDisposition, LiveState, SwarmMembership,
};
use jcode_ambient::text_set::TextSet;
use jcode_ambient::time::Timestamp;

#[test]
fn idle_disconnect_is_closed() {
    assert_eq!(disconnect_disposition(false, false, false), DisconnectDisposition::Closed);
}

#[test]
fn running_disconnect_without_reload_is_crash() {
    assert_eq!(disconnect_disposition(true, false, false), DisconnectDisposition::Crashed);
}

#[test]
fn running_disconnect_during_reload_is_expected() {
    assert_eq!(disconnect_disposition(true, false, true), DisconnectDisposition::Reloading);
}

#[test]
fn running_disconnect_during_recent_socket_ready_reload_is_expected() {
    // A recent mark whose socket is ready still counts as a reload.
    let reload_active = true;
    assert_eq!(
        disconnect_disposition(true, false, reload_active),
        DisconnectDisposition::Reloading
    );
}

#[test]
fn explicit_detach_is_not_a_close_or_crash() {
    assert_eq!(disconnect_disposition(false, true, false), DisconnectDisposition::Detached);
}

#[test]
fn explicit_detach_while_processing_is_still_detach() {
    assert_eq!(disconnect_disposition(true, true, false), DisconnectDisposition::Detached);
}

fn one(text: &str) -> TextSet {
    let mut set = TextSet::new();
    set.insert(text);
    set
}

fn live_state(session_id: &str, extra: Option<bool>) -> LiveState {
    let mut connections = vec![ClientConnection {
        id: "conn-1".to_string(),
        session_id: session_id.to_string(),
        is_detaching: false,
    }];
    if let Some(is_detaching) = extra {
        connections.push(ClientConnection {
            id: "conn-2".to_string(),
            session_id: session_id.to_string(),
            is_detaching,
        });
    }
    LiveState {
        connections,
        debug_clients: one("debug-1"),
        sessions: one(session_id),
        members: vec![SwarmMembership {
            session_id: session_id.to_string(),
            swarm_id: Some("swarm".to_string()),
            friendly_name: None,
        }],
        subscriptions: one(session_id),
        file_touches: one(session_id),
        shutdown_signals: one(session_id),
        interrupt_queues: one(session_id),
    }
}

fn run_cleanup(session_id: &str, detached: bool, extra: Option<bool>) -> (LiveState, CleanupPlan) {
    let mut live = live_state(session_id, extra);
    let plan = live.cleanup_client_connection(&Disconnect {
        session_id,
        connection_id: "conn-1",
        debug_id: "debug-1",
        client_is_processing: false,
        task_unfinished: false,
        detached,
        reload_active: false,
    });
    (live, plan)
}

#[test]
fn detach_keeps_the_live_session_but_drops_the_connection() {
    let (live, plan) = run_cleanup("detach-session", true, None);
    assert!(matches!(plan, CleanupPlan::KeepDetached));
    assert!(
        live.sessions.contains("detach-session"),
        "detach must leave the live agent attachable"
    );
    assert!(
        live.shutdown_signals.contains("detach-session"),
        "detach must leave the session's interrupt signal registered"
    );
    assert!(
        live.connections.is_empty(),
        "detach must surrender connection ownership"
    );
}

#[test]
fn ordinary_disconnect_still_removes_the_live_session() {
    let (live, plan) = run_cleanup("closed-session", false, None);
    assert!(
        !live.sessions.contains("closed-session"),
        "a non-detach disconnect must keep removing the live agent"
    );
    assert!(
        !live.shutdown_signals.contains("closed-session"),
        "a non-detach disconnect must keep clearing the interrupt signal"
    );
    assert!(live.connections.is_empty());
    assert!(live.members.is_empty());
    match plan {
        CleanupPlan::EndSession(teardown) => {
            assert!(teardown.agent.is_some());
            assert_eq!(teardown.left_swarm.unwrap().0, "swarm");
        }
        other => panic!("expected the session to end, got {other:?}"),
    }
}

/// A connection whose detach was accepted must not be mistaken for a client
/// that is still attached, though its record has not left the list yet.
#[test]
fn a_connection_mid_detach_is_not_a_live_successor() {
    let (live, _) = run_cleanup("stranded-session", false, Some(true));
    assert!(
        !live.sessions.contains("stranded-session"),
        "a connection whose detach was accepted must not keep the session alive"
    );
}

#[test]
fn an_ordinary_second_connection_is_still_a_live_successor() {
    let (live, plan) = run_cleanup("shared-session", false, Some(false));
    assert!(matches!(plan, CleanupPlan::KeepShared));
    assert!(
        live.sessions.contains("shared-session"),
        "a genuinely attached second client must keep the live session"
    );
    assert!(session_has_live_successor(&live.connections, "shared-session"));
    assert!(!session_has_live_successor(&live.connections, "other"));
}

#[test]
fn a_crashed_session_says_so() {
    let mut live = live_state("s", None);
    let plan = live.cleanup_client_connection(&Disconnect {
        session_id: "s",
        connection_id: "conn-1",
        debug_id: "debug-1",
        client_is_processing: true,
        task_unfinished: true,
        detached: false,
        reload_active: false,
    });
    match plan {
        CleanupPlan::EndSession(teardown) => {
            assert_eq!(teardown.member_status, "crashed");
            assert!(teardown.agent.unwrap().crash_reason.is_some());
        }
        other => panic!("expected the session to end, got {other:?}"),
    }
    assert!(!live.debug_clients.contains("debug-1"));
}

#[test]
fn ambient_commands_are_told_apart() {
    assert!(matches!(maybe_handle_ambient_command("cron:list", true), AmbientCommand::NotMine));
    assert!(matches!(
        maybe_handle_ambient_command("ambient:status", true),
        AmbientCommand::Status
    ));
    assert!(matches!(
        maybe_handle_ambient_command("ambient:status", false),
        AmbientCommand::DisabledStatus
    ));
    match maybe_handle_ambient_command("ambient:deny:req_1 not now", true) {
        AmbientCommand::Deny { request_id, message } => {
            assert_eq!(request_id, "req_1");
            assert_eq!(message.as_deref(), Some("not now"));
        }
        other => panic!("expected a denial, got {other:?}"),
    }
    match maybe_handle_ambient_command("ambient:approve:req_1", true) {
        AmbientCommand::Approve { request_id } => assert_eq!(request_id, "req_1"),
        other => panic!("expected an approval, got {other:?}"),
    }
    match maybe_handle_ambient_command("ambient:trigger", false) {
        AmbientCommand::Fail(text) => assert_eq!(text, NOT_ENABLED),
        other => panic!("expected a failure, got {other:?}"),
    }
    match maybe_handle_ambient_command("ambient:start", false) {
        AmbientCommand::Fail(text) => assert_eq!(text, NOT_CONFIGURED),
        other => panic!("expected a failure, got {other:?}"),
    }
    match maybe_handle_ambient_command("ambient:queue", false) {
        AmbientCommand::Reply(text) => assert_eq!(text, "[]"),
        other => panic!("expected an empty queue, got {other:?}"),
    }
    assert!(done_reply(&AmbientCommand::Trigger, false).is_some());
    assert!(done_reply(&AmbientCommand::Queue, false).is_none());
}

#[test]
fn a_permission_request_is_listed_with_its_reasons() {
    let entry = permission_entry(&PermissionFacts {
        id: "req_1".to_string(),
        action: "push".to_string(),
        description: "Push a branch".to_string(),
        rationale: "It is done".to_string(),
        urgency: "low".to_string(),
        wait: false,
        created_at: Timestamp::from_parts(1_786_120_200, 0),
        review_summary: None,
        review_why: Some("It leaves the machine".to_string()),
    });
    assert_eq!(entry.summary, "Push a branch");
    assert_eq!(entry.why_permission_needed, "It leaves the machine");
    assert_eq!(entry.created_at, "2026-08-07T16:30:00+00:00");
}
