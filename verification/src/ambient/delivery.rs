//! Handing a scheduled task to a session.

use crate::ambient::phrases::{format_scheduled_session_message, reminder_lines};
use crate::ambient::types::{ScheduleTarget, ScheduledItem};
use crate::text::{joined, opt_clone, opt_view, owned};
use vstd::prelude::*;

verus! {

/// How a scheduled task is handed over.
#[derive(Debug)]
pub enum Delivery {
    /// Not at all: a cycle handles it itself.
    Nowhere,
    /// Into a session: to the live one, or, when that cannot be reached, by
    /// resuming it.
    Notify { session_id: String, reminder: String },
    /// Into a new session derived from another.
    Spawn { parent_session_id: String, reminder: String },
}

/// How a scheduled task is handed over.
pub fn delivery_of(item: &ScheduledItem) -> (r: Delivery)
    ensures
        match item.target {
            ScheduleTarget::Ambient => r is Nowhere,
            ScheduleTarget::Session { session_id: target } => r matches Delivery::Notify {
                session_id,
                reminder,
            } && session_id@ == target@ && reminder@ == joined(reminder_lines(*item), "\n"@),
            ScheduleTarget::Spawn { parent_session_id: parent } => r matches Delivery::Spawn {
                parent_session_id,
                reminder,
            } && parent_session_id@ == parent@ && reminder@ == joined(reminder_lines(*item), "\n"@),
        },
{
    match &item.target {
        ScheduleTarget::Ambient => Delivery::Nowhere,
        ScheduleTarget::Session { session_id } => Delivery::Notify {
            session_id: session_id.clone(),
            reminder: format_scheduled_session_message(item),
        },
        ScheduleTarget::Spawn { parent_session_id } => Delivery::Spawn {
            parent_session_id: parent_session_id.clone(),
            reminder: format_scheduled_session_message(item),
        },
    }
}

/// What follows an attempt to reach a live session.
#[derive(Debug, Clone, Copy, PartialEq, Eq, Structural)]
pub enum NotifyStep {
    Done,
    /// Resume the session and remind it there.
    Resume,
}

/// What follows an attempt to reach a live session.
pub fn after_notify(reached: bool) -> (r: NotifyStep)
    ensures
        r == (if reached {
            NotifyStep::Done
        } else {
            NotifyStep::Resume
        }),
{
    if reached {
        NotifyStep::Done
    } else {
        NotifyStep::Resume
    }
}

/// An event from the server while waiting for a request to be done.
#[derive(Debug)]
pub enum ReplyEvent {
    Done { id: u64 },
    Error { id: u64, message: String },
    Other,
}

/// What an event means to the one waiting for the request `request_id`: its
/// answer, or nothing.
pub fn answer_to(request_id: u64, event: ReplyEvent) -> (r: Option<Result<(), String>>)
    ensures
        r == (match event {
            ReplyEvent::Done { id } if id == request_id => Some(Ok::<(), String>(())),
            ReplyEvent::Error { id, message } if id == request_id => Some(Err(message)),
            _ => None,
        }),
{
    match event {
        ReplyEvent::Done { id } => if id == request_id {
            Some(Ok(()))
        } else {
            None
        },
        ReplyEvent::Error { id, message } => if id == request_id {
            Some(Err(message))
        } else {
            None
        },
        ReplyEvent::Other => None,
    }
}

/// The session spawned for a task.
#[derive(Debug)]
pub struct ChildSession {
    pub parent_id: String,
    pub title: String,
    pub working_dir: Option<String>,
    /// Whether it takes over the conversation and settings of its parent.
    pub inherits: bool,
    /// Whether the directory is set for the first message, too.
    pub set_pending_dir: bool,
}

/// A parent that could be loaded, as far as it matters.
#[derive(Debug)]
pub struct ParentSession {
    pub working_dir: Option<String>,
}

/// The session to spawn for a task. A parent that cannot be loaded leaves it
/// standing alone; the task's own directory goes before the parent's.
pub fn child_session(
    item: &ScheduledItem,
    parent_session_id: &str,
    parent: Option<&ParentSession>,
) -> (r: ChildSession)
    ensures
        r.parent_id@ == parent_session_id@,
        r.title@ == (match item.task_description {
            Some(d) => d@,
            None => "Scheduled task"@,
        }),
        opt_view(r.working_dir) == (match item.working_dir {
            Some(d) => Some(d@),
            None => match parent {
                Some(p) => opt_view(p.working_dir),
                None => None,
            },
        }),
        r.inherits == (parent is Some),
        r.set_pending_dir == (item.working_dir is Some),
{
    let title = match &item.task_description {
        Some(d) => d.clone(),
        None => owned("Scheduled task"),
    };
    let working_dir = match &item.working_dir {
        Some(d) => Some(d.clone()),
        None => match parent {
            Some(p) => opt_clone(&p.working_dir),
            None => None,
        },
    };
    ChildSession {
        parent_id: owned(parent_session_id),
        title,
        working_dir,
        inherits: parent.is_some(),
        set_pending_dir: item.working_dir.is_some(),
    }
}

} // verus!
