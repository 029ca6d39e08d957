//! Run history of recurring jobs, keyed by job id.

use crate::text::owned;
use crate::text_map::TextMap;
use crate::time::Timestamp;
use vstd::prelude::*;

verus! {

/// Recorded outcome of a job's most recent run.
#[derive(Debug, Clone, Copy, PartialEq, Eq, Structural)]
pub enum LastStatus {
    Success,
    Failure,
    /// Killed after exceeding its time limit.
    Timeout,
}

/// Recorded state of one job.
#[derive(Debug, Clone, Copy, PartialEq, Eq, Structural)]
pub struct CronJobState {
    pub last_run: Option<Timestamp>,
    pub last_status: Option<LastStatus>,
    /// `None` for prompt jobs and for exec jobs that never completed a process.
    pub last_exit_code: Option<i32>,
    pub last_duration_ms: Option<u64>,
    /// Runs since the last success that did not succeed.
    pub consecutive_failures: u32,
}

/// The state of a job that never ran.
pub open spec fn never_ran() -> CronJobState {
    CronJobState {
        last_run: None,
        last_status: None,
        last_exit_code: None,
        last_duration_ms: None,
        consecutive_failures: 0,
    }
}

impl Default for CronJobState {
    fn default() -> (r: CronJobState)
        ensures
            r == never_ran(),
    {
        CronJobState {
            last_run: None,
            last_status: None,
            last_exit_code: None,
            last_duration_ms: None,
            consecutive_failures: 0,
        }
    }
}

/// What is recorded of a run, on top of what was recorded before.
pub open spec fn after_run(
    before: CronJobState,
    ended_at: Timestamp,
    status: LastStatus,
    exit_code: Option<i32>,
    duration_ms: u64,
) -> CronJobState {
    CronJobState {
        last_run: Some(ended_at),
        last_status: Some(status),
        last_exit_code: exit_code,
        last_duration_ms: Some(duration_ms),
        consecutive_failures: if status is Success {
            0
        } else {
            (before.consecutive_failures + 1) as u32
        },
    }
}

/// All recorded state, keyed by job id.
#[derive(Debug)]
pub struct CronState {
    pub jobs: TextMap<CronJobState>,
}

impl View for CronState {
    type V = Map<Seq<char>, CronJobState>;

    open spec fn view(&self) -> Map<Seq<char>, CronJobState> {
        self.jobs@
    }
}

/// The recorded state of a job, or that of one that never ran.
pub open spec fn recorded(m: Map<Seq<char>, CronJobState>, id: Seq<char>) -> CronJobState {
    if m.dom().contains(id) {
        m[id]
    } else {
        never_ran()
    }
}

/// The state after a run of job `id`.
pub open spec fn with_run(
    m: Map<Seq<char>, CronJobState>,
    id: Seq<char>,
    at: Timestamp,
    status: LastStatus,
    exit_code: Option<i32>,
    duration_ms: u64,
) -> Map<Seq<char>, CronJobState> {
    m.insert(id, after_run(recorded(m, id), at, status, exit_code, duration_ms))
}

impl CronState {
    pub open spec fn well_formed(&self) -> bool {
        self.jobs.well_formed()
    }

    pub fn new() -> (r: CronState)
        ensures
            r.well_formed(),
            r@ == Map::<Seq<char>, CronJobState>::empty(),
    {
        CronState { jobs: TextMap::new() }
    }

    pub fn get(&self, id: &str) -> (r: Option<&CronJobState>)
        requires
            self.well_formed(),
        ensures
            match r {
                Some(s) => self@.dom().contains(id@) && self@[id@] == *s,
                None => !self@.dom().contains(id@),
            },
    {
        self.jobs.get(id)
    }

    /// The recorded state of a job, or that of one that never ran.
    pub fn recorded(&self, id: &str) -> (r: CronJobState)
        requires
            self.well_formed(),
        ensures
            r == recorded(self@, id@),
    {
        match self.jobs.get(id) {
            Some(s) => *s,
            None => CronJobState::default(),
        }
    }

    pub fn last_run(&self, id: &str) -> (r: Option<Timestamp>)
        requires
            self.well_formed(),
        ensures
            r == recorded(self@, id@).last_run,
    {
        self.recorded(id).last_run
    }

    /// Records a completed run.
    pub fn record_run(
        &mut self,
        id: &str,
        ended_at: Timestamp,
        status: LastStatus,
        exit_code: Option<i32>,
        duration_ms: u64,
    )
        requires
            old(self).well_formed(),
            status is Success || recorded(old(self)@, id@).consecutive_failures < u32::MAX,
        ensures
            final(self).well_formed(),
            final(self)@ == with_run(
                old(self)@,
                id@,
                ended_at,
                status,
                exit_code,
                duration_ms,
            ),
    {
        let before = self.recorded(id);
        let consecutive_failures: u32 = match status {
            LastStatus::Success => 0,
            LastStatus::Failure | LastStatus::Timeout => before.consecutive_failures + 1,
        };
        let entry = CronJobState {
            last_run: Some(ended_at),
            last_status: Some(status),
            last_exit_code: exit_code,
            last_duration_ms: Some(duration_ms),
            consecutive_failures,
        };
        self.jobs.insert(owned(id), entry);
    }
}

/// A run is recorded against its own job and no other.
pub proof fn other_jobs_are_untouched(
    m: Map<Seq<char>, CronJobState>,
    id: Seq<char>,
    other: Seq<char>,
    at: Timestamp,
    status: LastStatus,
    exit_code: Option<i32>,
    duration_ms: u64,
)
    requires
        id != other,
    ensures
        recorded(with_run(m, id, at, status, exit_code, duration_ms), other) == recorded(m, other),
        recorded(with_run(m, id, at, status, exit_code, duration_ms), id).last_run == Some(at),
{
}

/// The failure streak grows by one with every run that does not succeed, a
/// timeout included, and a success ends it.
pub proof fn failure_streak(
    m: Map<Seq<char>, CronJobState>,
    id: Seq<char>,
    at: Timestamp,
    status: LastStatus,
    exit_code: Option<i32>,
    duration_ms: u64,
)
    requires
        recorded(m, id).consecutive_failures < u32::MAX,
    ensures
        recorded(with_run(m, id, at, status, exit_code, duration_ms), id).consecutive_failures == (
        if status is Success {
            0
        } else {
            recorded(m, id).consecutive_failures + 1
        }),
{
}

/// A run leaves its own record: when it ended, how, with which code and how long it
/// took.
pub proof fn a_run_leaves_its_record(
    before: CronJobState,
    ended_at: Timestamp,
    status: LastStatus,
    exit_code: Option<i32>,
    duration_ms: u64,
)
    requires
        before.consecutive_failures < u32::MAX,
    ensures
        ({
            let after = after_run(before, ended_at, status, exit_code, duration_ms);
            &&& after.last_run == Some(ended_at)
            &&& after.last_status == Some(status)
            &&& after.last_exit_code == exit_code
            &&& after.last_duration_ms == Some(duration_ms)
            &&& status is Success <==> after.consecutive_failures == 0
            &&& !(status is Success) ==> after.consecutive_failures == before.consecutive_failures
                + 1
        }),
{
}

} // verus!
