//! Running recurring jobs: which are due, what a run leaves behind, and what is
//! shown of them.

use crate::ambient::manager::{answers, item_id, AmbientManager};
use crate::ambient::types::{Priority, ScheduleRequest, ScheduleTarget, ScheduledItem};
use crate::clock;
use crate::cron::config::CronJobConfig;
use crate::cron::exec::ExecOutcome;
use crate::cron::running::{clear_running, mark_running, should_warn_invalid};
use crate::cron::schedule::{
    at_named, every_in_range, every_millis, every_slot, fits_calendar, job_in_range, next_fire,
    possible_at_slot, possible_fire, wall_clock_jobs_wait,
};
use crate::cron::state::{recorded, with_run, CronJobState, CronState, LastStatus};
use crate::text::{
    has_prefix, lowercased, opt_clone, opt_view, owned, str_eq, strip_prefix, trimmed, views,
};
use crate::text_set::TextSet;
use crate::time::{earlier, earlier_of, Timestamp};
use vstd::prelude::*;

verus! {

// ---------------------------------------------------------------------------
// Prompt jobs
// ---------------------------------------------------------------------------

/// The session that the queue items of a job name as their origin.
pub open spec fn origin_of(id: Seq<char>) -> Seq<char> {
    "cron:"@ + id
}

fn origin(id: &str) -> (r: String)
    ensures
        r@ == origin_of(id@),
{
    let mut out = owned("cron:");
    out.append(id);
    out
}

/// `target` is where a job's prompt goes. `spawn` asks for a fresh session: no
/// session with the parent's id exists, so that the new one stands alone. What
/// is neither that nor a session goes to the ambient agent.
pub open spec fn routed(job: CronJobConfig, target: ScheduleTarget) -> bool {
    match job.target {
        Some(t) => if t@ == "spawn"@ {
            target matches ScheduleTarget::Spawn { parent_session_id } && parent_session_id@
                == origin_of(job.id@)
        } else if has_prefix(t@, "session:"@) {
            target matches ScheduleTarget::Session { session_id } && session_id@ == t@.skip(
                "session:"@.len() as int,
            )
        } else {
            target is Ambient
        },
        None => target is Ambient,
    }
}

/// Where a job's prompt goes.
pub fn parse_cron_target(job: &CronJobConfig) -> (r: ScheduleTarget)
    ensures
        routed(*job, r),
{
    match &job.target {
        Some(t) => {
            if str_eq(t.as_str(), "spawn") {
                ScheduleTarget::Spawn { parent_session_id: origin(job.id.as_str()) }
            } else if let Some(id) = strip_prefix(t.as_str(), "session:") {
                assert(id@ =~= t@.skip("session:"@.len() as int));
                ScheduleTarget::Session { session_id: owned(id) }
            } else {
                ScheduleTarget::Ambient
            }
        },
        None => ScheduleTarget::Ambient,
    }
}

/// `request` asks for the job's prompt to be delivered at `now`.
pub open spec fn asks_for(request: ScheduleRequest, job: CronJobConfig, now: Timestamp) -> bool {
    &&& request.wake_in_minutes is None
    &&& request.wake_at == Some(now)
    &&& Some(request.context@) == opt_view(job.prompt)
    &&& request.priority == Priority::Normal
    &&& routed(job, request.target)
    &&& request.created_by_session@ == origin_of(job.id@)
    &&& opt_view(request.working_dir) == opt_view(job.working_dir)
    &&& request.task_description matches Some(d) && d@ == "Cron job: "@ + job.id@
    &&& request.relevant_files@.len() == 0
    &&& request.git_branch is None
    &&& request.additional_context is None
}

fn prompt_request(job: &CronJobConfig, prompt: String, now: &Timestamp) -> (r: ScheduleRequest)
    requires
        job.prompt == Some(prompt),
    ensures
        asks_for(r, *job, *now),
{
    let mut description = owned("Cron job: ");
    description.append(job.id.as_str());
    ScheduleRequest {
        wake_in_minutes: None,
        wake_at: Some(*now),
        context: prompt,
        priority: Priority::Normal,
        target: parse_cron_target(job),
        created_by_session: origin(job.id.as_str()),
        working_dir: opt_clone(&job.working_dir),
        task_description: Some(description),
        relevant_files: Vec::new(),
        git_branch: None,
        additional_context: None,
    }
}

/// A fire of the job waits in the queue.
pub open spec fn outstanding(items: Seq<ScheduledItem>, id: Seq<char>) -> bool {
    exists|i: int|
        0 <= i < items.len() && (#[trigger] items[i]).created_by_session@ == origin_of(id)
}

/// Whether a fire of the job waits in the queue.
pub fn has_outstanding_fire(items: &Vec<ScheduledItem>, job_id: &str) -> (r: bool)
    ensures
        r == outstanding(items@, job_id@),
{
    let name = origin(job_id);
    let mut i: usize = 0;
    while i < items.len()
        invariant
            i <= items@.len(),
            name@ == origin_of(job_id@),
            forall|j: int| 0 <= j < i ==> (#[trigger] items@[j]).created_by_session@ != name@,
        decreases items@.len() - i,
    {
        if str_eq(items[i].created_by_session.as_str(), name.as_str()) {
            return true;
        }
        i = i + 1;
    }
    false
}

/// Why a prompt job does not queue its prompt, if it does not: it has none, or
/// its previous fire still waits.
pub open spec fn prompt_refusal(job: CronJobConfig, items: Seq<ScheduledItem>) -> Option<Seq<char>> {
    if job.prompt is None {
        Some("cron job '"@ + job.id@ + "' has no prompt configured"@)
    } else if outstanding(items, job.id@) {
        Some("cron job '"@ + job.id@ + "' still has a queued fire; skipping this one"@)
    } else {
        None
    }
}

/// The instant a run is recorded at: the slot it was due at, or else when it
/// ended.
pub open spec fn recorded_at(slot: Option<Timestamp>, now: Timestamp) -> Timestamp {
    match slot {
        Some(t) => t,
        None => now,
    }
}

/// One more item waits, which asks for the job's prompt at `now`.
pub open spec fn queued_prompt(
    before: Seq<ScheduledItem>,
    after: Seq<ScheduledItem>,
    job: CronJobConfig,
    bits: u32,
    now: Timestamp,
    paths: Seq<Seq<char>>,
) -> bool {
    &&& after.len() == before.len() + 1
    &&& after.drop_last() == before
    &&& exists|request: ScheduleRequest| #[trigger]
        asks_for(request, job, now) && answers(after.last(), request, bits, now, paths)
}

/// What a fire of a prompt job does to the queue and the run history: refused,
/// it leaves both alone; otherwise it queues the prompt and records a success.
pub open spec fn prompt_fired(
    job: CronJobConfig,
    slot: Option<Timestamp>,
    bits: u32,
    now: Timestamp,
    paths: Seq<Seq<char>>,
    queue_before: Seq<ScheduledItem>,
    queue_after: Seq<ScheduledItem>,
    runs_before: Map<Seq<char>, CronJobState>,
    runs_after: Map<Seq<char>, CronJobState>,
) -> bool {
    if prompt_refusal(job, queue_before) is Some {
        queue_after == queue_before && runs_after == runs_before
    } else {
        &&& queued_prompt(queue_before, queue_after, job, bits, now, paths)
        &&& runs_after == with_run(
            runs_before,
            job.id@,
            recorded_at(slot, now),
            LastStatus::Success,
            None,
            0,
        )
    }
}

/// Queues the prompt of a job, with the given random bits for the item's id, as
/// of `now`, and records the run at the slot it was due at. Returns the id of
/// the item, or why nothing is queued: one request per job is outstanding at a
/// time, so that a queue which nothing drains does not grow.
pub fn run_prompt_job(
    job: &CronJobConfig,
    slot: Option<Timestamp>,
    manager: &mut AmbientManager,
    runs: &mut CronState,
    bits: u32,
    now: &Timestamp,
    paths: &Vec<String>,
) -> (r: Result<String, String>)
    requires
        old(runs).well_formed(),
        now.valid(),
    ensures
        final(runs).well_formed(),
        final(manager).state == old(manager).state,
        prompt_fired(
            *job,
            slot,
            bits,
            *now,
            views(paths@),
            old(manager).queue@,
            final(manager).queue@,
            old(runs)@,
            final(runs)@,
        ),
        match r {
            Ok(id) => prompt_refusal(*job, old(manager).queue@) is None && id@ == item_id(bits),
            Err(e) => prompt_refusal(*job, old(manager).queue@) == Some(e@),
        },
{
    let mut name = owned("cron job '");
    name.append(job.id.as_str());
    let prompt = match &job.prompt {
        Some(p) => p.clone(),
        None => {
            name.append("' has no prompt configured");
            return Err(name);
        },
    };
    if has_outstanding_fire(manager.queue.items(), job.id.as_str()) {
        name.append("' still has a queued fire; skipping this one");
        return Err(name);
    }
    let request = prompt_request(job, prompt, now);
    let ghost asked = request;
    let id = manager.schedule_at(request, bits, now, paths);
    assert(asks_for(asked, *job, *now));
    let at = match slot {
        Some(t) => t,
        None => *now,
    };
    runs.record_run(job.id.as_str(), at, LastStatus::Success, None, 0);
    Ok(id)
}

/// A job has at most one request outstanding: once its prompt is queued, its
/// next fire is refused until the queue lets go of it.
pub proof fn one_request_at_a_time(
    job: CronJobConfig,
    slot: Option<Timestamp>,
    bits: u32,
    now: Timestamp,
    paths: Seq<Seq<char>>,
    queue_before: Seq<ScheduledItem>,
    queue_after: Seq<ScheduledItem>,
    runs_before: Map<Seq<char>, CronJobState>,
    runs_after: Map<Seq<char>, CronJobState>,
)
    requires
        prompt_fired(
            job,
            slot,
            bits,
            now,
            paths,
            queue_before,
            queue_after,
            runs_before,
            runs_after,
        ),
    ensures
        prompt_refusal(job, queue_after) is Some,
        queue_after.len() <= queue_before.len() + 1,
{
    if prompt_refusal(job, queue_before) is None {
        assert(queue_after[queue_after.len() - 1].created_by_session@ == origin_of(job.id@));
    }
}

// ---------------------------------------------------------------------------
// Exec jobs
// ---------------------------------------------------------------------------

/// How the run of an exec job starts.
#[derive(Debug, Clone, Copy, PartialEq, Eq, Structural)]
pub enum ExecStart {
    /// It does not: the job has no command.
    NoCommand,
    /// It does not: the previous run is still going.
    StillRunning,
    /// The command runs, and is killed after this long.
    Run { timeout_secs: u64 },
}

/// The time limit of a job's command.
pub open spec fn time_limit(job: CronJobConfig) -> u64 {
    if job.timeout_secs == 0 {
        1
    } else {
        job.timeout_secs
    }
}

/// Starts the run of an exec job, marking it as running unless it does not
/// start. Two runs of a job never overlap.
pub fn begin_exec_job(job: &CronJobConfig, running: &mut TextSet) -> (r: ExecStart)
    requires
        old(running).well_formed(),
    ensures
        final(running).well_formed(),
        r == (if job.command is None {
            ExecStart::NoCommand
        } else if old(running)@.contains(job.id@) {
            ExecStart::StillRunning
        } else {
            ExecStart::Run { timeout_secs: time_limit(*job) }
        }),
        final(running)@ == (if r is Run {
            old(running)@.insert(job.id@)
        } else {
            old(running)@
        }),
{
    if job.command.is_none() {
        return ExecStart::NoCommand;
    }
    if !mark_running(running, job.id.as_str()) {
        assert(running@ =~= old(running)@);
        return ExecStart::StillRunning;
    }
    let timeout_secs: u64 = if job.timeout_secs == 0 {
        1
    } else {
        job.timeout_secs
    };
    ExecStart::Run { timeout_secs }
}

/// Ends the run of an exec job at `now`: its outcome is recorded at the slot it
/// was due at, or else at `now`, and the job is no longer running.
pub fn finish_exec_job(
    job_id: &str,
    outcome: &ExecOutcome,
    slot: Option<Timestamp>,
    now: &Timestamp,
    runs: &mut CronState,
    running: &mut TextSet,
)
    requires
        old(runs).well_formed(),
        old(running).well_formed(),
        outcome.success() || recorded(old(runs)@, job_id@).consecutive_failures < u32::MAX,
    ensures
        final(runs).well_formed(),
        final(running).well_formed(),
        final(runs)@ == with_run(
            old(runs)@,
            job_id@,
            recorded_at(slot, *now),
            outcome.status_of(),
            outcome.exit_code,
            outcome.recorded_ms() as u64,
        ),
        final(running)@ == old(running)@.remove(job_id@),
{
    let at = match slot {
        Some(t) => t,
        None => *now,
    };
    runs.record_run(job_id, at, outcome.status(), outcome.exit_code, outcome.millis());
    clear_running(running, job_id);
}

/// What firing a job means.
#[derive(Debug, Clone, Copy, PartialEq, Eq, Structural)]
pub enum FireRoute {
    /// Its command runs, on a task of its own.
    Exec,
    /// Its prompt is queued.
    Prompt,
    Nothing,
}

pub open spec fn route_of(job: CronJobConfig) -> FireRoute {
    if job.command is Some {
        FireRoute::Exec
    } else if job.prompt is Some {
        FireRoute::Prompt
    } else {
        FireRoute::Nothing
    }
}

/// What firing a job means.
pub fn fire(job: &CronJobConfig) -> (r: FireRoute)
    ensures
        r == route_of(*job),
{
    if job.command.is_some() {
        FireRoute::Exec
    } else if job.prompt.is_some() {
        FireRoute::Prompt
    } else {
        FireRoute::Nothing
    }
}

// ---------------------------------------------------------------------------
// Deadlines
// ---------------------------------------------------------------------------

/// The two deadlines that recurring jobs put to the runner: that of the jobs
/// which ignore quiet hours, and that of those which keep them.
#[derive(Debug, Clone, Copy, PartialEq, Eq, Structural)]
pub struct CronDeadlines {
    pub unblocked: Option<Timestamp>,
    pub windowed: Option<Timestamp>,
}

/// When a job fires next, and, when it fires in this pass, when it fires after
/// that.
#[derive(Debug, Clone, Copy, PartialEq, Eq, Structural)]
pub struct JobTiming {
    pub next: Option<Timestamp>,
    pub following: Option<Timestamp>,
}

/// A job to fire, by its place in the configuration, and the slot it is due at.
#[derive(Debug, Clone, Copy, PartialEq, Eq, Structural)]
pub struct CronFire {
    pub job: usize,
    pub slot: Timestamp,
}

/// What one pass over the jobs comes to.
#[derive(Debug)]
pub struct CronPass {
    pub deadlines: CronDeadlines,
    /// The jobs to fire, in the order of the configuration.
    pub fires: Vec<CronFire>,
    /// The malformed jobs.
    pub invalid: Vec<usize>,
}

/// The job is due, and quiet hours do not hold it back.
pub open spec fn fires_now(
    job: CronJobConfig,
    timing: JobTiming,
    now: Timestamp,
    window_open: bool,
) -> bool {
    &&& job.valid() && job.enabled
    &&& timing.next matches Some(next) && next.nanos <= now.nanos
    &&& window_open || !job.respect_windows
}

/// The next fire of a job that is still to come: a job that fires in this pass
/// counts with the fire after it, projected from the slot it was due at; a job
/// that is due and does not fire has none.
pub open spec fn upcoming(
    job: CronJobConfig,
    timing: JobTiming,
    now: Timestamp,
    window_open: bool,
    fire_due: bool,
) -> Option<Timestamp> {
    if !job.valid() || !job.enabled {
        None
    } else {
        match timing.next {
            None => None,
            Some(next) => if next.nanos > now.nanos {
                Some(next)
            } else if fire_due && fires_now(job, timing, now, window_open) {
                timing.following
            } else {
                None
            },
        }
    }
}

/// The earliest upcoming fire among the jobs that keep quiet hours, or among
/// those that do not.
pub open spec fn deadline(
    jobs: Seq<CronJobConfig>,
    timings: Seq<JobTiming>,
    now: Timestamp,
    window_open: bool,
    fire_due: bool,
    windowed: bool,
) -> Option<Timestamp>
    decreases jobs.len(),
{
    if jobs.len() == 0 {
        None
    } else {
        let rest = deadline(
            jobs.drop_last(),
            timings.drop_last(),
            now,
            window_open,
            fire_due,
            windowed,
        );
        if jobs.last().respect_windows == windowed {
            earlier(rest, upcoming(jobs.last(), timings.last(), now, window_open, fire_due))
        } else {
            rest
        }
    }
}

/// The jobs to fire.
pub open spec fn fired(
    jobs: Seq<CronJobConfig>,
    timings: Seq<JobTiming>,
    now: Timestamp,
    window_open: bool,
) -> Seq<CronFire>
    decreases jobs.len(),
{
    if jobs.len() == 0 {
        Seq::empty()
    } else {
        let rest = fired(jobs.drop_last(), timings.drop_last(), now, window_open);
        if fires_now(jobs.last(), timings.last(), now, window_open) {
            rest.push(
                (CronFire { job: (jobs.len() - 1) as usize, slot: timings.last().next->0 }),
            )
        } else {
            rest
        }
    }
}

/// The malformed jobs.
pub open spec fn malformed(jobs: Seq<CronJobConfig>) -> Seq<usize>
    decreases jobs.len(),
{
    if jobs.len() == 0 {
        Seq::empty()
    } else {
        let rest = malformed(jobs.drop_last());
        if jobs.last().valid() {
            rest
        } else {
            rest.push((jobs.len() - 1) as usize)
        }
    }
}

/// What one pass over the jobs comes to, given when each fires.
pub open spec fn passed(
    jobs: Seq<CronJobConfig>,
    timings: Seq<JobTiming>,
    now: Timestamp,
    window_open: bool,
    fire_due: bool,
    pass: CronPass,
) -> bool {
    &&& pass.deadlines.unblocked == deadline(jobs, timings, now, window_open, fire_due, false)
    &&& pass.deadlines.windowed == deadline(jobs, timings, now, window_open, fire_due, true)
    &&& pass.fires@ == (if fire_due {
        fired(jobs, timings, now, window_open)
    } else {
        Seq::empty()
    })
    &&& pass.invalid@ == malformed(jobs)
}

/// Walks the jobs, given when each fires: which of them fire, and when the next
/// fire of each category is due. Nothing fires unless `fire_due` is set.
pub fn evaluate(
    jobs: &Vec<CronJobConfig>,
    timings: &Vec<JobTiming>,
    now: &Timestamp,
    window_open: bool,
    fire_due: bool,
) -> (r: CronPass)
    requires
        jobs@.len() == timings@.len(),
    ensures
        passed(jobs@, timings@, *now, window_open, fire_due, r),
{
    let mut unblocked: Option<Timestamp> = None;
    let mut windowed: Option<Timestamp> = None;
    let mut fires: Vec<CronFire> = Vec::new();
    let mut invalid: Vec<usize> = Vec::new();
    let mut i: usize = 0;
    assert(jobs@.take(0) =~= Seq::<CronJobConfig>::empty());
    while i < jobs.len()
        invariant
            i <= jobs@.len() == timings@.len(),
            unblocked == deadline(
                jobs@.take(i as int),
                timings@.take(i as int),
                *now,
                window_open,
                fire_due,
                false,
            ),
            windowed == deadline(
                jobs@.take(i as int),
                timings@.take(i as int),
                *now,
                window_open,
                fire_due,
                true,
            ),
            fires@ == (if fire_due {
                fired(jobs@.take(i as int), timings@.take(i as int), *now, window_open)
            } else {
                Seq::empty()
            }),
            invalid@ == malformed(jobs@.take(i as int)),
        decreases jobs@.len() - i,
    {
        let job = &jobs[i];
        let timing = timings[i];
        proof {
            assert(jobs@.take(i + 1).drop_last() =~= jobs@.take(i as int));
            assert(timings@.take(i + 1).drop_last() =~= timings@.take(i as int));
            assert(jobs@.take(i + 1).last() == *job);
            assert(timings@.take(i + 1).last() == timing);
        }
        let mut ahead: Option<Timestamp> = None;
        if !job.is_valid() {
            invalid.push(i);
        } else if job.enabled {
            if let Some(next) = timing.next {
                if next.nanos > now.nanos {
                    ahead = Some(next);
                } else if fire_due && (window_open || !job.respect_windows) {
                    fires.push(CronFire { job: i, slot: next });
                    ahead = timing.following;
                }
            }
        }
        assert(ahead == upcoming(*job, timing, *now, window_open, fire_due));
        if job.respect_windows {
            windowed = earlier_of(windowed, ahead);
        } else {
            unblocked = earlier_of(unblocked, ahead);
        }
        i = i + 1;
    }
    assert(jobs@.take(jobs@.len() as int) =~= jobs@);
    assert(timings@.take(timings@.len() as int) =~= timings@);
    CronPass { deadlines: CronDeadlines { unblocked, windowed }, fires, invalid }
}

// ---------------------------------------------------------------------------
// By the clock
// ---------------------------------------------------------------------------

/// The fire after a due one counts in a pass: it fires due jobs, and the window
/// does not hold this one back.
pub open spec fn follows(job: CronJobConfig, window_open: bool, fire_due: bool) -> bool {
    fire_due && (window_open || !job.respect_windows)
}

/// When a slot of an interval job is due, the one after it is on the calendar.
pub open spec fn following_in_range(
    job: CronJobConfig,
    last_run: Option<Timestamp>,
    now: Timestamp,
) -> bool {
    job.every matches Some(every) ==> {
        every_millis(every@) matches Some(ms) ==> {
            every_slot(ms, last_run, now, job.catch_up) matches Some(next) ==> {
                next.nanos <= now.nanos ==> every_in_range(ms, Some(next), next, job.catch_up)
            }
        }
    }
}

/// The slots of a job that count in a pass are on the calendar.
pub open spec fn timing_in_range(
    job: CronJobConfig,
    last_run: Option<Timestamp>,
    now: Timestamp,
    follow: bool,
) -> bool {
    job_in_range(job, last_run, now) && (follow ==> following_in_range(job, last_run, now))
}

/// The slots of every job that count in a pass are on the calendar.
pub open spec fn all_in_range(
    jobs: Seq<CronJobConfig>,
    runs: Map<Seq<char>, CronJobState>,
    now: Timestamp,
    window_open: bool,
    fire_due: bool,
) -> bool {
    forall|i: int|
        0 <= i < jobs.len() && (#[trigger] jobs[i]).valid() && jobs[i].enabled ==> timing_in_range(
            jobs[i],
            recorded(runs, jobs[i].id@).last_run,
            now,
            follows(jobs[i], window_open, fire_due),
        )
}

/// `timing` is when the job may fire: at a time that its schedule allows, and,
/// when that is due and the fire after it counts, at one that its schedule
/// allows after that slot. A job that is malformed or disabled does not fire.
pub open spec fn possible_timing(
    job: CronJobConfig,
    last_run: Option<Timestamp>,
    now: Timestamp,
    follow: bool,
    timing: JobTiming,
) -> bool {
    if !job.valid() || !job.enabled {
        timing.next is None && timing.following is None
    } else {
        &&& possible_fire(job, last_run, now, timing.next)
        &&& match timing.next {
            Some(next) if follow && next.nanos <= now.nanos => possible_fire(
                job,
                Some(next),
                next,
                timing.following,
            ),
            _ => timing.following is None,
        }
    }
}

/// The timings are possible ones, job by job.
pub open spec fn possible_timings(
    jobs: Seq<CronJobConfig>,
    runs: Map<Seq<char>, CronJobState>,
    now: Timestamp,
    window_open: bool,
    fire_due: bool,
    timings: Seq<JobTiming>,
) -> bool {
    &&& timings.len() == jobs.len()
    &&& forall|i: int|
        0 <= i < jobs.len() ==> possible_timing(
            #[trigger] jobs[i],
            recorded(runs, jobs[i].id@).last_run,
            now,
            follows(jobs[i], window_open, fire_due),
            timings[i],
        )
}

/// A due slot of a wall-clock job lies between the last run and `now`, so that
/// the search for the one after it stays on the calendar too.
proof fn due_slot_in_range(
    job: CronJobConfig,
    last_run: Option<Timestamp>,
    now: Timestamp,
    next: Timestamp,
)
    requires
        job.enabled,
        job_in_range(job, last_run, now),
        possible_fire(job, last_run, now, Some(next)),
        next.nanos <= now.nanos,
    ensures
        job_in_range(job, Some(next), next) == following_in_range(job, last_run, now),
{
    match (job.every, job.at) {
        (None, Some(at)) => {
            let (days, time) = at_named(lowercased(trimmed(at@)))->0;
            assert(possible_at_slot(days, time, last_run, now, job.catch_up, Some(next)));
            let (a, b, c) = choose|
                a: Seq<crate::clock::DayStrike>,
                b: Seq<crate::clock::DayStrike>,
                c: Seq<crate::clock::DayStrike>,
            |
                Some(next) == #[trigger] crate::cron::schedule::at_slot(
                    days,
                    last_run,
                    now,
                    job.catch_up,
                    a,
                    b,
                    c,
                );
            wall_clock_jobs_wait(days, last_run, now, job.catch_up, a, b, c);
        },
        _ => {},
    }
}

/// When a job fires, as of `now`; `None` when its schedule leads off the
/// calendar.
fn job_timing(
    job: &CronJobConfig,
    last_run: Option<Timestamp>,
    now: Timestamp,
    follow: bool,
) -> (r: Option<JobTiming>)
    ensures
        match r {
            Some(timing) => possible_timing(*job, last_run, now, follow, timing) && (job.valid()
                && job.enabled ==> timing_in_range(*job, last_run, now, follow)),
            None => job.valid() && job.enabled && !timing_in_range(*job, last_run, now, follow),
        },
{
    if !job.is_valid() || !job.enabled {
        return Some(JobTiming { next: None, following: None });
    }
    if !fits_calendar(job, last_run, now) {
        return None;
    }
    let next = next_fire(job, last_run, now);
    let mut following: Option<Timestamp> = None;
    if let Some(t) = next {
        if follow && t.nanos <= now.nanos {
            proof {
                due_slot_in_range(*job, last_run, now, t);
            }
            if !fits_calendar(job, Some(t), t) {
                return None;
            }
            following = next_fire(job, Some(t), t);
        }
    }
    Some(JobTiming { next, following })
}

/// When each job fires, as of `now`, for a pass with the window open or closed
/// that fires due jobs or does not; `None` when a schedule leads off the
/// calendar.
pub fn job_timings(
    jobs: &Vec<CronJobConfig>,
    runs: &CronState,
    now: Timestamp,
    window_open: bool,
    fire_due: bool,
) -> (r: Option<Vec<JobTiming>>)
    requires
        runs.well_formed(),
    ensures
        match r {
            Some(timings) => all_in_range(jobs@, runs@, now, window_open, fire_due)
                && possible_timings(jobs@, runs@, now, window_open, fire_due, timings@),
            None => !all_in_range(jobs@, runs@, now, window_open, fire_due),
        },
{
    let mut out: Vec<JobTiming> = Vec::new();
    let mut i: usize = 0;
    while i < jobs.len()
        invariant
            runs.well_formed(),
            i <= jobs@.len(),
            out@.len() == i,
            forall|j: int|
                0 <= j < i && (#[trigger] jobs@[j]).valid() && jobs@[j].enabled ==> timing_in_range(
                    jobs@[j],
                    recorded(runs@, jobs@[j].id@).last_run,
                    now,
                    follows(jobs@[j], window_open, fire_due),
                ),
            forall|j: int|
                0 <= j < i ==> possible_timing(
                    #[trigger] jobs@[j],
                    recorded(runs@, jobs@[j].id@).last_run,
                    now,
                    follows(jobs@[j], window_open, fire_due),
                    out@[j],
                ),
        decreases jobs@.len() - i,
    {
        let job = &jobs[i];
        let last_run = runs.last_run(job.id.as_str());
        let follow = fire_due && (window_open || !job.respect_windows);
        match job_timing(job, last_run, now, follow) {
            Some(timing) => {
                out.push(timing);
            },
            None => {
                assert(jobs@[i as int].valid());
                return None;
            },
        }
        i = i + 1;
    }
    Some(out)
}

/// `r` is what a pass at `now` may come to; nothing comes of it when a schedule
/// leads off the calendar.
pub open spec fn possible_pass(
    jobs: Seq<CronJobConfig>,
    runs: Map<Seq<char>, CronJobState>,
    now: Timestamp,
    window_open: bool,
    fire_due: bool,
    r: Option<CronPass>,
) -> bool {
    match r {
        Some(pass) => exists|timings: Seq<JobTiming>| #[trigger]
            possible_timings(jobs, runs, now, window_open, fire_due, timings) && passed(
                jobs,
                timings,
                now,
                window_open,
                fire_due,
                pass,
            ),
        None => !all_in_range(jobs, runs, now, window_open, fire_due),
    }
}

fn pass_at(
    jobs: &Vec<CronJobConfig>,
    runs: &CronState,
    now: Timestamp,
    window_open: bool,
    fire_due: bool,
) -> (r: Option<CronPass>)
    requires
        runs.well_formed(),
    ensures
        possible_pass(jobs@, runs@, now, window_open, fire_due, r),
{
    match job_timings(jobs, runs, now, window_open, fire_due) {
        Some(timings) => Some(evaluate(jobs, &timings, &now, window_open, fire_due)),
        None => None,
    }
}

/// Which jobs fire by the clock, and when the next fire of each category is
/// due.
pub fn tick(jobs: &Vec<CronJobConfig>, runs: &CronState, window_open: bool) -> (r: Option<CronPass>)
    requires
        runs.well_formed(),
    ensures
        exists|now: Timestamp| #[trigger]
            now.valid() && possible_pass(jobs@, runs@, now, window_open, true, r),
{
    let now = clock::now();
    pass_at(jobs, runs, now, window_open, true)
}

/// The deadlines that [`tick`] computes, without firing anything.
pub fn peek_next_due(jobs: &Vec<CronJobConfig>, runs: &CronState, window_open: bool) -> (r: Option<
    CronDeadlines,
>)
    requires
        runs.well_formed(),
    ensures
        exists|now: Timestamp, pass: Option<CronPass>|
            {
                &&& now.valid()
                &&& #[trigger] possible_pass(jobs@, runs@, now, window_open, false, pass)
                &&& match (r, pass) {
                    (Some(d), Some(p)) => d == p.deadlines,
                    (None, None) => true,
                    _ => false,
                }
            },
{
    let now = clock::now();
    let pass = pass_at(jobs, runs, now, window_open, false);
    assert(possible_pass(jobs@, runs@, now, window_open, false, pass));
    match pass {
        Some(p) => Some(p.deadlines),
        None => None,
    }
}

/// The warning that a malformed job gets.
pub open spec fn invalid_warning(id: Seq<char>) -> Seq<char> {
    "cron: job '"@ + id
        + "' has an invalid config (needs exactly one of every/at and exactly one of command/prompt); skipping"@
}

/// The warnings for the jobs of `invalid` that were not warned about before,
/// first come first.
pub open spec fn warnings_of(
    jobs: Seq<CronJobConfig>,
    invalid: Seq<usize>,
    warned: Set<Seq<char>>,
) -> (Seq<Seq<char>>, Set<Seq<char>>)
    decreases invalid.len(),
{
    if invalid.len() == 0 {
        (Seq::empty(), warned)
    } else {
        let (texts, known) = warnings_of(jobs, invalid.drop_last(), warned);
        let id = jobs[invalid.last() as int].id@;
        if known.contains(id) {
            (texts, known)
        } else {
            (texts.push(invalid_warning(id)), known.insert(id))
        }
    }
}

/// The warnings for malformed jobs that were not warned about before.
pub fn warn_invalid(jobs: &Vec<CronJobConfig>, invalid: &Vec<usize>, warned: &mut TextSet) -> (r: Vec<
    String,
>)
    requires
        old(warned).well_formed(),
        forall|i: int| 0 <= i < invalid@.len() ==> (#[trigger] invalid@[i]) < jobs@.len(),
    ensures
        final(warned).well_formed(),
        views(r@) == warnings_of(jobs@, invalid@, old(warned)@).0,
        final(warned)@ == warnings_of(jobs@, invalid@, old(warned)@).1,
{
    let mut out: Vec<String> = Vec::new();
    let mut i: usize = 0;
    assert(invalid@.take(0) =~= Seq::<usize>::empty());
    assert(views(out@) =~= Seq::<Seq<char>>::empty());
    while i < invalid.len()
        invariant
            warned.well_formed(),
            i <= invalid@.len(),
            forall|j: int| 0 <= j < invalid@.len() ==> (#[trigger] invalid@[j]) < jobs@.len(),
            views(out@) == warnings_of(jobs@, invalid@.take(i as int), old(warned)@).0,
            warned@ == warnings_of(jobs@, invalid@.take(i as int), old(warned)@).1,
        decreases invalid@.len() - i,
    {
        assert(invalid@.take(i + 1).drop_last() =~= invalid@.take(i as int));
        let job = &jobs[invalid[i]];
        let ghost known = warned@;
        if should_warn_invalid(warned, job.id.as_str()) {
            let mut text = owned("cron: job '");
            text.append(job.id.as_str());
            text.append(
                "' has an invalid config (needs exactly one of every/at and exactly one of command/prompt); skipping",
            );
            let ghost was = out@;
            out.push(text);
            assert(views(out@) =~= views(was).push(text@));
        } else {
            assert(warned@ =~= known);
        }
        i = i + 1;
    }
    assert(invalid@.take(invalid@.len() as int) =~= invalid@);
    out
}

/// A prompt goes to the session that its target names, to a fresh one when the
/// target asks for that, and to the ambient agent otherwise.
pub proof fn prompts_go_where_they_are_sent(
    job: CronJobConfig,
    target: ScheduleTarget,
    session: Seq<char>,
)
    requires
        routed(job, target),
    ensures
        job.target is None ==> target is Ambient,
        job.target matches Some(t) ==> {
            &&& t@ == "session:"@ + session ==> (target matches ScheduleTarget::Session { session_id }
                && session_id@ == session)
            &&& t@ == "spawn"@ ==> (target matches ScheduleTarget::Spawn { parent_session_id }
                && parent_session_id@ == "cron:"@ + job.id@)
            &&& target is Ambient <==> t@ != "spawn"@ && !has_prefix(t@, "session:"@)
        },
{
    reveal_strlit("session:");
    reveal_strlit("spawn");
    if let Some(t) = job.target {
        if t@ == "session:"@ + session {
            assert(t@.take(8) =~= "session:"@);
            assert(t@.skip(8) =~= session);
            assert(t@[0] == 's' && t@[1] == 'e');
            assert("spawn"@[1] == 'p');
        }
    }
}

/// A fire of a job waits exactly when an item in the queue, at whatever place,
/// came from it.
pub proof fn a_waiting_fire_is_found(items: Seq<ScheduledItem>, id: Seq<char>)
    ensures
        outstanding(items, id) <==> exists|k: int|
            0 <= k < items.len() && (#[trigger] items[k]).created_by_session@ == "cron:"@ + id,
{
}

/// A run is recorded at the slot it was due at, so that a job keeps its cadence;
/// only a run without a slot is recorded when it ended. A command always gets a
/// second at least.
pub proof fn runs_are_recorded_at_their_slots(slot: Timestamp, now: Timestamp, job: CronJobConfig)
    ensures
        recorded_at(Some(slot), now) == slot,
        recorded_at(None, now) == now,
        time_limit(job) >= 1,
        job.timeout_secs >= 1 ==> time_limit(job) == job.timeout_secs,
{
}

/// The jobs reported as misconfigured are exactly those that are, each once and in
/// order.
pub proof fn misconfigured_jobs_are_reported(jobs: Seq<CronJobConfig>, k: usize)
    requires
        jobs.len() <= usize::MAX,
    ensures
        malformed(jobs).contains(k) <==> k < jobs.len() && !jobs[k as int].valid(),
        forall|i: int, j: int|
            0 <= i < j < malformed(jobs).len() ==> (#[trigger] malformed(jobs)[i]) < (
            #[trigger] malformed(jobs)[j]),
        forall|i: int| 0 <= i < malformed(jobs).len() ==> (#[trigger] malformed(jobs)[i]) < jobs.len(),
    decreases jobs.len(),
{
    if jobs.len() > 0 {
        let rest = malformed(jobs.drop_last());
        misconfigured_jobs_are_reported(jobs.drop_last(), k);
        vstd::seq_lib::lemma_seq_contains_after_push(rest, (jobs.len() - 1) as usize, k);
    }
}

/// A misconfigured job is warned about once: every job that was not warned about
/// before is now, and a second pass over the same jobs warns about none.
pub proof fn warnings_are_given_once(
    jobs: Seq<CronJobConfig>,
    invalid: Seq<usize>,
    warned: Set<Seq<char>>,
    id: Seq<char>,
)
    ensures
        warnings_of(jobs, invalid, warned).1.contains(id) <==> warned.contains(id) || exists|k: int|
            0 <= k < invalid.len() && jobs[#[trigger] invalid[k] as int].id@ == id,
        !warned.contains(id) && warnings_of(jobs, invalid, warned).1.contains(id) ==> warnings_of(
            jobs,
            invalid,
            warned,
        ).0.contains(invalid_warning(id)),
        (forall|k: int| 0 <= k < invalid.len() ==> warned.contains(jobs[#[trigger] invalid[k] as int].id@))
            ==> warnings_of(jobs, invalid, warned) == (Seq::<Seq<char>>::empty(), warned),
    decreases invalid.len(),
{
    if invalid.len() > 0 {
        let rest = invalid.drop_last();
        warnings_are_given_once(jobs, rest, warned, id);
        let (texts, known) = warnings_of(jobs, rest, warned);
        let last = jobs[invalid.last() as int].id@;
        assert(forall|k: int| 0 <= k < rest.len() ==> #[trigger] invalid[k] == rest[k]);
        assert(forall|k: int| 0 <= k < rest.len() ==> #[trigger] rest[k] == invalid[k]);
        assert(invalid[invalid.len() - 1] == invalid.last());
        vstd::seq_lib::lemma_seq_contains_after_push(
            texts,
            invalid_warning(last),
            invalid_warning(id),
        );
    }
}

/// A prompt job asks to be woken now, with its own prompt, in its own directory and
/// in its own name.
pub proof fn prompts_ask_for_themselves(request: ScheduleRequest, job: CronJobConfig, now: Timestamp)
    requires
        asks_for(request, job, now),
    ensures
        request.wake_at == Some(now),
        job.prompt matches Some(p) ==> request.context@ == p@,
        request.created_by_session@ == "cron:"@ + job.id@,
        opt_view(request.working_dir) == opt_view(job.working_dir),
        request.priority is Normal,
        request.task_description matches Some(d) && d@ == "Cron job: "@ + job.id@,
        job.target is None ==> request.target is Ambient,
{
}

/// A prompt that is queued stands behind the queue, due at once and for where its
/// job sends it, and its run is recorded as a success at its slot. A prompt that is
/// refused changes neither queue nor record, and no job but its own is touched.
pub proof fn fired_prompts_are_queued_and_recorded(
    job: CronJobConfig,
    slot: Timestamp,
    bits: u32,
    now: Timestamp,
    paths: Seq<Seq<char>>,
    queue_before: Seq<ScheduledItem>,
    queue_after: Seq<ScheduledItem>,
    runs_before: Map<Seq<char>, CronJobState>,
    runs_after: Map<Seq<char>, CronJobState>,
    other: Seq<char>,
)
    requires
        prompt_fired(
            job,
            Some(slot),
            bits,
            now,
            paths,
            queue_before,
            queue_after,
            runs_before,
            runs_after,
        ),
    ensures
        other != job.id@ ==> recorded(runs_after, other) == recorded(runs_before, other),
        ({
            let refused = job.prompt is None || exists|k: int|
                0 <= k < queue_before.len() && (#[trigger] queue_before[k]).created_by_session@
                    == "cron:"@ + job.id@;
            &&& refused ==> queue_after == queue_before && runs_after == runs_before
            &&& !refused ==> {
                &&& queue_after.drop_last() == queue_before
                &&& queue_after.len() == queue_before.len() + 1
                &&& queue_after.last().scheduled_for == now
                &&& queue_after.last().context@ == job.prompt->0@
                &&& queue_after.last().created_by_session@ == "cron:"@ + job.id@
                &&& routed(job, queue_after.last().target)
                &&& recorded(runs_after, job.id@).last_run == Some(slot)
                &&& recorded(runs_after, job.id@).last_status == Some(LastStatus::Success)
                &&& recorded(runs_after, job.id@).consecutive_failures == 0
            }
        }),
{
}

} // verus!
