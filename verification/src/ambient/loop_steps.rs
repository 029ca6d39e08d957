//! The order in which the runner's loop does things.

use crate::ambient::runner::{LockAttempt, PassStart, WAIT_SECS};
use vstd::prelude::*;

verus! {

/// What the loop is to do next.
#[derive(Debug, Clone, Copy, PartialEq, Eq, Structural)]
pub enum LoopStep {
    /// Fire recurring jobs, look at the windows and the users, and start a pass.
    BeginPass,
    /// Wait and start over. A nudge cuts the wait short where it says so: while
    /// a user is active, but not while another process runs a cycle.
    Wait { secs: u64, until_nudged: bool },
    /// Drop stale permission requests, when ambient mode is on, then look at the
    /// queue.
    CheckQueue { start: PassStart },
    /// Deliver what is due to sessions.
    Deliver { start: PassStart, should_run: bool },
    /// Sleep as long as the pass allows, or be nudged, and start over.
    Idle { start: PassStart },
    /// Try to take the lock.
    TakeLock { start: PassStart },
    /// Run a cycle.
    RunCycle,
    /// Record what came of the cycle, then release the lock.
    Settle { succeeded: bool },
    /// Plan the next wake, sleep until then, or be nudged, and start over.
    PlanNextWake,
}

/// What came of a step.
#[derive(Debug, Clone, Copy, PartialEq, Eq, Structural)]
pub enum LoopEvent {
    PassBegun { start: PassStart },
    QueueChecked { any_direct: bool, should_run: bool },
    Delivered,
    LockTried { attempt: LockAttempt },
    CycleEnded { succeeded: bool },
    Settled,
    Slept,
}

/// Where the loop goes on once the queue has been seen to.
pub open spec fn after_queue(start: PassStart, should_run: bool) -> LoopStep {
    if should_run {
        LoopStep::TakeLock { start }
    } else {
        LoopStep::Idle { start }
    }
}

/// What the loop does after a step, given what came of it. An event that does
/// not belong to the step starts the loop over.
pub open spec fn step_after(step: LoopStep, event: LoopEvent) -> LoopStep {
    match (step, event) {
        (LoopStep::BeginPass, LoopEvent::PassBegun { start }) => if start.paused {
            LoopStep::Wait { secs: WAIT_SECS, until_nudged: true }
        } else {
            LoopStep::CheckQueue { start }
        },
        (LoopStep::CheckQueue { start }, LoopEvent::QueueChecked { any_direct, should_run }) => {
            if any_direct {
                LoopStep::Deliver { start, should_run }
            } else {
                after_queue(start, should_run)
            }
        },
        (LoopStep::Deliver { start, should_run }, LoopEvent::Delivered) => after_queue(
            start,
            should_run,
        ),
        (LoopStep::TakeLock { .. }, LoopEvent::LockTried { attempt }) => if attempt is Acquired {
            LoopStep::RunCycle
        } else {
            LoopStep::Wait { secs: WAIT_SECS, until_nudged: false }
        },
        (LoopStep::RunCycle, LoopEvent::CycleEnded { succeeded }) => LoopStep::Settle { succeeded },
        (LoopStep::Settle { .. }, LoopEvent::Settled) => LoopStep::PlanNextWake,
        _ => LoopStep::BeginPass,
    }
}

fn step_after_queue(start: PassStart, should_run: bool) -> (r: LoopStep)
    ensures
        r == after_queue(start, should_run),
{
    if should_run {
        LoopStep::TakeLock { start }
    } else {
        LoopStep::Idle { start }
    }
}

/// What the loop does after a step, given what came of it.
pub fn next_step(step: LoopStep, event: LoopEvent) -> (r: LoopStep)
    ensures
        r == step_after(step, event),
{
    match (step, event) {
        (LoopStep::BeginPass, LoopEvent::PassBegun { start }) => if start.paused {
            LoopStep::Wait { secs: WAIT_SECS, until_nudged: true }
        } else {
            LoopStep::CheckQueue { start }
        },
        (LoopStep::CheckQueue { start }, LoopEvent::QueueChecked { any_direct, should_run }) => {
            if any_direct {
                LoopStep::Deliver { start, should_run }
            } else {
                step_after_queue(start, should_run)
            }
        },
        (LoopStep::Deliver { start, should_run }, LoopEvent::Delivered) => step_after_queue(
            start,
            should_run,
        ),
        (LoopStep::TakeLock { .. }, LoopEvent::LockTried { attempt }) => match attempt {
            LockAttempt::Acquired => LoopStep::RunCycle,
            LockAttempt::HeldElsewhere | LockAttempt::Failed => LoopStep::Wait {
                secs: WAIT_SECS,
                until_nudged: false,
            },
        },
        (LoopStep::RunCycle, LoopEvent::CycleEnded { succeeded }) => LoopStep::Settle { succeeded },
        (LoopStep::Settle { .. }, LoopEvent::Settled) => LoopStep::PlanNextWake,
        _ => LoopStep::BeginPass,
    }
}

/// A cycle runs only under the lock, and the lock is tried for only when the
/// queue check of that pass said to run.
pub proof fn cycles_run_under_the_lock(step: LoopStep, event: LoopEvent)
    ensures
        step_after(step, event) is RunCycle ==> step is TakeLock && event
            == (LoopEvent::LockTried { attempt: LockAttempt::Acquired }),
        step_after(step, event) is TakeLock ==> {
            ||| step is CheckQueue && (event matches LoopEvent::QueueChecked { should_run, .. }
                && should_run)
            ||| step matches LoopStep::Deliver { should_run, .. } && should_run
        },
{
}

/// What is due to sessions is delivered before the pass does anything else,
/// whether or not a cycle follows.
pub proof fn deliveries_come_first(start: PassStart, should_run: bool)
    ensures
        step_after(
            LoopStep::CheckQueue { start },
            LoopEvent::QueueChecked { any_direct: true, should_run },
        ) == (LoopStep::Deliver { start, should_run }),
        step_after(LoopStep::Deliver { start, should_run }, LoopEvent::Delivered) == step_after(
            LoopStep::CheckQueue { start },
            LoopEvent::QueueChecked { any_direct: false, should_run },
        ),
{
}

/// Every cycle is settled before the loop sleeps.
pub proof fn cycles_are_settled(succeeded: bool)
    ensures
        step_after(LoopStep::RunCycle, LoopEvent::CycleEnded { succeeded }) == (LoopStep::Settle {
            succeeded,
        }),
        step_after(LoopStep::Settle { succeeded }, LoopEvent::Settled) == LoopStep::PlanNextWake,
        step_after(LoopStep::PlanNextWake, LoopEvent::Slept) == LoopStep::BeginPass,
{
}

/// A pass that is paused does nothing but wait, and a nudge ends the wait; while
/// the lock is held elsewhere it waits as long, and no nudge does.
pub proof fn waiting_passes(start: PassStart, attempt: LockAttempt)
    ensures
        ({
            let s = step_after(LoopStep::BeginPass, LoopEvent::PassBegun { start });
            &&& start.paused <==> s is Wait
            &&& start.paused ==> s == (LoopStep::Wait { secs: 60, until_nudged: true })
            &&& !start.paused ==> s == (LoopStep::CheckQueue { start })
        }),
        ({
            let s = step_after(LoopStep::TakeLock { start }, LoopEvent::LockTried { attempt });
            &&& attempt is Acquired <==> s is RunCycle
            &&& !(attempt is Acquired) ==> s == (LoopStep::Wait { secs: 60, until_nudged: false })
        }),
        step_after(LoopStep::Wait { secs: 60, until_nudged: true }, LoopEvent::Slept)
            == LoopStep::BeginPass,
        step_after(LoopStep::Idle { start }, LoopEvent::Slept) == LoopStep::BeginPass,
{
}

/// A pass goes on with what it started with, and ends in a cycle exactly when the
/// queue wants one.
pub proof fn passes_go_on_as_they_began(start: PassStart, any_direct: bool, should_run: bool)
    ensures
        ({
            let s = step_after(
                LoopStep::CheckQueue { start },
                LoopEvent::QueueChecked { any_direct, should_run },
            );
            &&& any_direct <==> s is Deliver
            &&& !any_direct && should_run ==> s == (LoopStep::TakeLock { start })
            &&& !any_direct && !should_run ==> s == (LoopStep::Idle { start })
        }),
{
}

} // verus!
