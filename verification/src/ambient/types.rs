//! What the ambient agent keeps and is asked for.

use crate::time::Timestamp;
use vstd::prelude::*;

verus! {

/// Ambient mode status.
#[derive(Debug, Clone, PartialEq)]
pub enum AmbientStatus {
    Idle,
    Running { detail: String },
    Scheduled { next_wake: Timestamp },
    Paused { reason: String },
    Disabled,
}

impl Default for AmbientStatus {
    fn default() -> (r: AmbientStatus)
        ensures
            r == AmbientStatus::Idle,
    {
        AmbientStatus::Idle
    }
}

impl AmbientStatus {
    /// A copy of the status.
    pub fn copied(&self) -> (r: AmbientStatus)
        ensures
            r == *self,
    {
        match self {
            AmbientStatus::Idle => AmbientStatus::Idle,
            AmbientStatus::Running { detail } => AmbientStatus::Running { detail: detail.clone() },
            AmbientStatus::Scheduled { next_wake } => AmbientStatus::Scheduled {
                next_wake: *next_wake,
            },
            AmbientStatus::Paused { reason } => AmbientStatus::Paused { reason: reason.clone() },
            AmbientStatus::Disabled => AmbientStatus::Disabled,
        }
    }
}

/// Priority of a scheduled item, lowest first.
#[derive(Debug, Clone, Copy, PartialEq, Eq, PartialOrd, Ord, Structural)]
pub enum Priority {
    Low,
    Normal,
    High,
}

/// The place of a priority in ascending order.
pub open spec fn priority_index(p: Priority) -> int {
    match p {
        Priority::Low => 0,
        Priority::Normal => 1,
        Priority::High => 2,
    }
}

impl Priority {
    /// The place of the priority in ascending order.
    pub fn index(&self) -> (r: u8)
        ensures
            r == priority_index(*self),
    {
        match self {
            Priority::Low => 0,
            Priority::Normal => 1,
            Priority::High => 2,
        }
    }
}

/// Where a scheduled task is delivered when it becomes due.
#[derive(Debug, Clone, PartialEq, Eq)]
pub enum ScheduleTarget {
    /// Wake the ambient agent and hand it the queued task.
    Ambient,
    /// Deliver the reminder back into a specific interactive session.
    Session { session_id: String },
    /// Spawn a single new session derived from the originating session.
    Spawn { parent_session_id: String },
}

impl Default for ScheduleTarget {
    fn default() -> (r: ScheduleTarget)
        ensures
            r == ScheduleTarget::Ambient,
    {
        ScheduleTarget::Ambient
    }
}

impl ScheduleTarget {
    /// Whether the task goes to a session rather than to an ambient cycle.
    pub fn is_direct_delivery(&self) -> (r: bool)
        ensures
            r == !(*self is Ambient),
    {
        matches!(self, ScheduleTarget::Session { .. } | ScheduleTarget::Spawn { .. })
    }
}

/// A scheduled ambient task.
#[derive(Debug, Clone)]
pub struct ScheduledItem {
    pub id: String,
    pub scheduled_for: Timestamp,
    pub context: String,
    pub priority: Priority,
    pub target: ScheduleTarget,
    pub created_by_session: String,
    pub created_at: Timestamp,
    pub working_dir: Option<String>,
    /// Canonical path of the configured project this item belongs to, absent on
    /// items queued before projects were recorded.
    pub project: Option<String>,
    pub task_description: Option<String>,
    pub relevant_files: Vec<String>,
    pub git_branch: Option<String>,
    pub additional_context: Option<String>,
}

/// Persistent ambient state.
#[derive(Debug, Clone)]
pub struct AmbientState {
    pub status: AmbientStatus,
    pub last_run: Option<Timestamp>,
    pub last_summary: Option<String>,
    pub last_compactions: Option<u32>,
    pub last_memories_modified: Option<u32>,
    pub total_cycles: u64,
}

/// The state before the first cycle.
pub open spec fn untouched_state() -> AmbientState {
    AmbientState {
        status: AmbientStatus::Idle,
        last_run: None,
        last_summary: None,
        last_compactions: None,
        last_memories_modified: None,
        total_cycles: 0,
    }
}

impl Default for AmbientState {
    fn default() -> (r: AmbientState)
        ensures
            r == untouched_state(),
    {
        AmbientState {
            status: AmbientStatus::Idle,
            last_run: None,
            last_summary: None,
            last_compactions: None,
            last_memories_modified: None,
            total_cycles: 0,
        }
    }
}

impl AmbientState {
    /// A copy of the state.
    pub fn copied(&self) -> (r: AmbientState)
        ensures
            r == *self,
    {
        AmbientState {
            status: self.status.copied(),
            last_run: self.last_run,
            last_summary: crate::text::opt_clone(&self.last_summary),
            last_compactions: self.last_compactions,
            last_memories_modified: self.last_memories_modified,
            total_cycles: self.total_cycles,
        }
    }
}

#[derive(Debug, Clone, Copy, PartialEq, Eq, Structural)]
pub enum CycleStatus {
    Complete,
    Interrupted,
    Incomplete,
}

/// A request to be woken later.
#[derive(Debug, Clone)]
pub struct ScheduleRequest {
    pub wake_in_minutes: Option<u32>,
    pub wake_at: Option<Timestamp>,
    pub context: String,
    pub priority: Priority,
    pub target: ScheduleTarget,
    pub created_by_session: String,
    pub working_dir: Option<String>,
    pub task_description: Option<String>,
    pub relevant_files: Vec<String>,
    pub git_branch: Option<String>,
    pub additional_context: Option<String>,
}

/// Result of an ambient cycle.
#[derive(Debug, Clone)]
pub struct AmbientCycleResult {
    pub summary: String,
    pub memories_modified: u32,
    pub compactions: u32,
    pub proactive_work: Option<String>,
    /// The agent's own claim about whether the user needs to see this cycle.
    pub significance: Option<String>,
    pub next_schedule: Option<ScheduleRequest>,
    pub started_at: Timestamp,
    pub ended_at: Timestamp,
    pub status: CycleStatus,
    /// The session that ran this cycle.
    pub agent_session_id: Option<String>,
    /// Conversation transcript.
    pub conversation: Option<String>,
}

/// What the runner hands to a cycle shown in a terminal.
#[derive(Debug, Clone)]
pub struct VisibleCycleContext {
    pub system_prompt: String,
    pub initial_message: String,
}

} // verus!
