//! What is shown of recurring jobs, and running one on demand.

use crate::ambient::manager::{item_id, AmbientManager};
use crate::ambient::types::ScheduledItem;
use crate::clock;
use crate::cron::config::CronJobConfig;
use crate::cron::running::is_running;
use crate::cron::jobs::{
    all_in_range, deadline, fired, fires_now, job_timings, possible_timings, prompt_fired,
    prompt_refusal, run_prompt_job, upcoming, CronFire, JobTiming,
};
use crate::cron::schedule::{
    after_millis, describe_schedule, every_millis, possible_fire, schedule_text,
};
use crate::cron::state::{recorded, CronJobState, CronState, LastStatus};
use crate::text::{owned, str_eq, views};
use crate::text_set::TextSet;
use crate::time::{earlier, earlier_of, Timestamp, NANOS_PER_MILLI};
use vstd::prelude::*;

verus! {

/// One job's schedule and history, as shown.
#[derive(Debug)]
pub struct CronJobSnapshot {
    pub id: String,
    pub schedule_description: String,
    pub enabled: bool,
    pub valid: bool,
    pub last_run: Option<Timestamp>,
    pub last_status: Option<LastStatus>,
    pub consecutive_failures: u32,
    pub next_run: Option<Timestamp>,
    pub running: bool,
}

/// `s` shows `job`, which fires next at `next`.
pub open spec fn shows(
    s: CronJobSnapshot,
    job: CronJobConfig,
    next: Option<Timestamp>,
    entry: CronJobState,
    running: bool,
) -> bool {
    &&& s.id@ == job.id@
    &&& s.schedule_description@ == schedule_text(job)
    &&& s.enabled == job.enabled
    &&& s.valid == job.valid()
    &&& s.last_run == entry.last_run
    &&& s.last_status == entry.last_status
    &&& s.consecutive_failures == entry.consecutive_failures
    &&& s.next_run == (if job.valid() && job.enabled {
        next
    } else {
        None
    })
    &&& s.running == running
}

/// The snapshots show the jobs, in order, given when each fires.
pub open spec fn shows_all(
    snaps: Seq<CronJobSnapshot>,
    jobs: Seq<CronJobConfig>,
    timings: Seq<JobTiming>,
    runs: Map<Seq<char>, CronJobState>,
    running: Set<Seq<char>>,
) -> bool {
    &&& snaps.len() == jobs.len()
    &&& forall|i: int|
        0 <= i < jobs.len() ==> shows(
            #[trigger] snaps[i],
            jobs[i],
            timings[i].next,
            recorded(runs, jobs[i].id@),
            running.contains(jobs[i].id@),
        )
}

/// Shows every job, given when each fires.
pub fn list_snapshot_with(
    jobs: &Vec<CronJobConfig>,
    timings: &Vec<JobTiming>,
    runs: &CronState,
    running: &TextSet,
) -> (r: Vec<CronJobSnapshot>)
    requires
        runs.well_formed(),
        jobs@.len() == timings@.len(),
    ensures
        shows_all(r@, jobs@, timings@, runs@, running@),
{
    let mut out: Vec<CronJobSnapshot> = Vec::new();
    let mut i: usize = 0;
    while i < jobs.len()
        invariant
            runs.well_formed(),
            i <= jobs@.len() == timings@.len(),
            out@.len() == i,
            forall|j: int|
                0 <= j < i ==> shows(
                    #[trigger] out@[j],
                    jobs@[j],
                    timings@[j].next,
                    recorded(runs@, jobs@[j].id@),
                    running@.contains(jobs@[j].id@),
                ),
        decreases jobs@.len() - i,
    {
        let job = &jobs[i];
        let valid = job.is_valid();
        let entry = runs.recorded(job.id.as_str());
        let next_run = if valid && job.enabled {
            timings[i].next
        } else {
            None
        };
        out.push(
            CronJobSnapshot {
                id: job.id.clone(),
                schedule_description: describe_schedule(job),
                enabled: job.enabled,
                valid,
                last_run: entry.last_run,
                last_status: entry.last_status,
                consecutive_failures: entry.consecutive_failures,
                next_run,
                running: is_running(running, job.id.as_str()),
            },
        );
        i = i + 1;
    }
    out
}

pub open spec fn listed(r: Option<Vec<CronJobSnapshot>>) -> Option<Seq<CronJobSnapshot>> {
    match r {
        Some(v) => Some(v@),
        None => None,
    }
}

/// `r` is what may be shown of the jobs at `now`; nothing when a schedule leads
/// off the calendar.
pub open spec fn possible_list(
    jobs: Seq<CronJobConfig>,
    runs: Map<Seq<char>, CronJobState>,
    running: Set<Seq<char>>,
    now: Timestamp,
    r: Option<Seq<CronJobSnapshot>>,
) -> bool {
    match r {
        Some(snaps) => exists|timings: Seq<JobTiming>| #[trigger]
            possible_timings(jobs, runs, now, false, false, timings) && shows_all(
                snaps,
                jobs,
                timings,
                runs,
                running,
            ),
        None => !all_in_range(jobs, runs, now, false, false),
    }
}

fn list_at(jobs: &Vec<CronJobConfig>, runs: &CronState, running: &TextSet, now: Timestamp) -> (r: Option<
    Vec<CronJobSnapshot>,
>)
    requires
        runs.well_formed(),
    ensures
        possible_list(
            jobs@,
            runs@,
            running@,
            now,
            listed(r),
        ),
{
    match job_timings(jobs, runs, now, false, false) {
        Some(timings) => Some(list_snapshot_with(jobs, &timings, runs, running)),
        None => None,
    }
}

/// Shows every job as of the clock's reading; `None` when a schedule leads off
/// the calendar.
pub fn list_snapshot(jobs: &Vec<CronJobConfig>, runs: &CronState, running: &TextSet) -> (r: Option<
    Vec<CronJobSnapshot>,
>)
    requires
        runs.well_formed(),
    ensures
        exists|now: Timestamp| #[trigger]
            now.valid() && possible_list(
                jobs@,
                runs@,
                running@,
                now,
                listed(r),
            ),
{
    let now = clock::now();
    list_at(jobs, runs, running, now)
}

/// A fire that has not passed.
pub open spec fn still_ahead(t: Option<Timestamp>, now: Timestamp) -> Option<Timestamp> {
    match t {
        Some(next) if next.nanos >= now.nanos => Some(next),
        _ => None,
    }
}

/// The soonest fire that has not passed.
pub open spec fn soonest(snaps: Seq<CronJobSnapshot>, now: Timestamp) -> Option<Timestamp>
    decreases snaps.len(),
{
    if snaps.len() == 0 {
        None
    } else {
        earlier(soonest(snaps.drop_last(), now), still_ahead(snaps.last().next_run, now))
    }
}

/// The soonest fire among the jobs shown that has not passed. One that has
/// passed is a job held back, not work to come.
pub fn soonest_of(snaps: &Vec<CronJobSnapshot>, now: &Timestamp) -> (r: Option<Timestamp>)
    ensures
        r == soonest(snaps@, *now),
{
    let mut best: Option<Timestamp> = None;
    let mut i: usize = 0;
    assert(snaps@.take(0) =~= Seq::<CronJobSnapshot>::empty());
    while i < snaps.len()
        invariant
            i <= snaps@.len(),
            best == soonest(snaps@.take(i as int), *now),
        decreases snaps@.len() - i,
    {
        assert(snaps@.take(i + 1).drop_last() =~= snaps@.take(i as int));
        let ahead = match snaps[i].next_run {
            Some(next) => if next.nanos >= now.nanos {
                Some(next)
            } else {
                None
            },
            None => None,
        };
        best = earlier_of(best, ahead);
        i = i + 1;
    }
    assert(snaps@.take(snaps@.len() as int) =~= snaps@);
    best
}

/// The soonest fire of any job that has not passed, as of the clock's reading.
pub fn next_due(jobs: &Vec<CronJobConfig>, runs: &CronState, running: &TextSet) -> (r: Option<
    Timestamp,
>)
    requires
        runs.well_formed(),
    ensures
        exists|now: Timestamp, list: Option<Seq<CronJobSnapshot>>|
            {
                &&& now.valid()
                &&& #[trigger] possible_list(jobs@, runs@, running@, now, list)
                &&& r == match list {
                    Some(snaps) => soonest(snaps, now),
                    None => None,
                }
            },
{
    let now = clock::now();
    let list = list_at(jobs, runs, running, now);
    let ghost shown = listed(list);
    assert(possible_list(jobs@, runs@, running@, now, shown));
    match list {
        Some(snaps) => soonest_of(&snaps, &now),
        None => None,
    }
}

// ---------------------------------------------------------------------------
// Running a job on demand
// ---------------------------------------------------------------------------

/// `k` is the first job with the given id.
pub open spec fn first_job(jobs: Seq<CronJobConfig>, id: Seq<char>, k: int) -> bool {
    &&& 0 <= k < jobs.len()
    &&& jobs[k].id@ == id
    &&& forall|j: int| 0 <= j < k ==> (#[trigger] jobs[j]).id@ != id
}

pub open spec fn has_job(jobs: Seq<CronJobConfig>, id: Seq<char>) -> bool {
    exists|k: int| 0 <= k < jobs.len() && (#[trigger] jobs[k]).id@ == id
}

fn find_job(jobs: &Vec<CronJobConfig>, id: &str) -> (r: Option<usize>)
    ensures
        match r {
            Some(k) => first_job(jobs@, id@, k as int),
            None => !has_job(jobs@, id@),
        },
{
    let mut i: usize = 0;
    while i < jobs.len()
        invariant
            i <= jobs@.len(),
            forall|j: int| 0 <= j < i ==> (#[trigger] jobs@[j]).id@ != id@,
        decreases jobs@.len() - i,
    {
        if str_eq(jobs[i].id.as_str(), id) {
            return Some(i);
        }
        i = i + 1;
    }
    None
}

/// What a request to run a job now comes to.
#[derive(Debug)]
pub struct RunNow {
    pub reply: String,
    /// The job whose command is to be started, by its place in the
    /// configuration.
    pub start: Option<usize>,
}

/// Why a job does not run on demand, if it does not, its prompt aside.
pub open spec fn run_refusal(job: CronJobConfig, running: Set<Seq<char>>) -> Option<Seq<char>> {
    if !job.valid() {
        Some(
            "cron job '"@ + job.id@
                + "' has an invalid config (needs exactly one of every/at and exactly one of command/prompt)"@,
        )
    } else if !job.enabled {
        Some("cron job '"@ + job.id@ + "' is disabled"@)
    } else if job.command is Some && running.contains(job.id@) {
        Some("cron job '"@ + job.id@ + "' is already running"@)
    } else {
        None
    }
}

/// What a request to run the job at `k` comes to: a refusal; or a command to be
/// started; or a queued prompt.
pub open spec fn ran_now(
    jobs: Seq<CronJobConfig>,
    k: int,
    running: Set<Seq<char>>,
    bits: u32,
    queue_before: Seq<ScheduledItem>,
    r: Result<RunNow, String>,
) -> bool {
    let job = jobs[k];
    match run_refusal(job, running) {
        Some(text) => r matches Err(e) && e@ == text,
        None => if job.command is Some {
            r matches Ok(run) && run.reply@ == "started exec job '"@ + job.id@ + "'"@ && run.start
                == Some(k as usize)
        } else {
            match prompt_refusal(job, queue_before) {
                Some(text) => r matches Err(e) && e@ == text,
                None => r matches Ok(run) && run.reply@ == "queued prompt job '"@ + job.id@
                    + "' as scheduled item "@ + item_id(bits) && run.start is None,
            }
        },
    }
}

/// The job at `k` queues its prompt when asked to run.
pub open spec fn queues_now(jobs: Seq<CronJobConfig>, k: int, running: Set<Seq<char>>) -> bool {
    run_refusal(jobs[k], running) is None && jobs[k].command is None
}

/// Runs the first job with the given id, whatever its schedule says. Its
/// `enabled` flag, its being well formed and its not running twice at once
/// still count. A prompt is queued here; a command is for the caller to start.
pub fn run_job_now(
    jobs: &Vec<CronJobConfig>,
    id: &str,
    running: &TextSet,
    manager: &mut AmbientManager,
    runs: &mut CronState,
    bits: u32,
    now: &Timestamp,
    paths: &Vec<String>,
) -> (r: Result<RunNow, String>)
    requires
        old(runs).well_formed(),
        now.valid(),
    ensures
        final(runs).well_formed(),
        final(manager).state == old(manager).state,
        !has_job(jobs@, id@) ==> (r matches Err(e) && e@ == "no cron job with id '"@ + id@ + "'"@),
        forall|k: int| #[trigger]
            first_job(jobs@, id@, k) ==> ran_now(
                jobs@,
                k,
                running@,
                bits,
                old(manager).queue@,
                r,
            ),
        (forall|k: int| #[trigger]
            first_job(jobs@, id@, k) ==> !queues_now(jobs@, k, running@)) ==> final(manager).queue@
            == old(manager).queue@ && final(runs)@ == old(runs)@,
        forall|k: int| #[trigger]
            first_job(jobs@, id@, k) && queues_now(jobs@, k, running@) ==> prompt_fired(
                jobs@[k],
                None,
                bits,
                *now,
                views(paths@),
                old(manager).queue@,
                final(manager).queue@,
                old(runs)@,
                final(runs)@,
            ),
{
    let k = match find_job(jobs, id) {
        Some(k) => k,
        None => {
            let mut text = owned("no cron job with id '");
            text.append(id);
            text.append("'");
            assert(forall|k: int| #[trigger] first_job(jobs@, id@, k) ==> false);
            return Err(text);
        },
    };
    proof {
        assert(has_job(jobs@, id@));
        assert forall|j: int| #[trigger] first_job(jobs@, id@, j) implies j == k by {
            if j < k {
                assert(jobs@[j].id@ != id@);
            } else if k < j {
                assert(jobs@[k as int].id@ != id@);
            }
        }
        assert(first_job(jobs@, id@, k as int));
    }
    let job = &jobs[k];
    let mut name = owned("cron job '");
    name.append(id);
    if !job.is_valid() {
        name.append(
            "' has an invalid config (needs exactly one of every/at and exactly one of command/prompt)",
        );
        return Err(name);
    }
    if !job.enabled {
        name.append("' is disabled");
        return Err(name);
    }
    if job.command.is_some() {
        if is_running(running, job.id.as_str()) {
            name.append("' is already running");
            return Err(name);
        }
        let mut reply = owned("started exec job '");
        reply.append(id);
        reply.append("'");
        return Ok(RunNow { reply, start: Some(k) });
    }
    match run_prompt_job(job, None, manager, runs, bits, now, paths) {
        Ok(queued_id) => {
            let mut reply = owned("queued prompt job '");
            reply.append(id);
            reply.append("' as scheduled item ");
            reply.append(queued_id.as_str());
            Ok(RunNow { reply, start: None })
        },
        Err(e) => Err(e),
    }
}

// ---------------------------------------------------------------------------
// Laws
// ---------------------------------------------------------------------------

/// What is reported as next due has not passed, is the next fire of one of the
/// jobs, and no job fires between now and then.
pub proof fn next_due_is_ahead(snaps: Seq<CronJobSnapshot>, now: Timestamp)
    ensures
        match soonest(snaps, now) {
            Some(t) => {
                &&& t.nanos >= now.nanos
                &&& exists|i: int| 0 <= i < snaps.len() && (#[trigger] snaps[i]).next_run == Some(t)
                &&& forall|i: int|
                    0 <= i < snaps.len() ==> ((#[trigger] snaps[i]).next_run matches Some(u) ==> {
                        u.nanos < now.nanos || u.nanos >= t.nanos
                    })
            },
            None => forall|i: int|
                0 <= i < snaps.len() ==> ((#[trigger] snaps[i]).next_run matches Some(u) ==> u.nanos
                    < now.nanos),
        },
    decreases snaps.len(),
{
    if snaps.len() > 0 {
        let rest = snaps.drop_last();
        next_due_is_ahead(rest, now);
        assert(forall|i: int| 0 <= i < rest.len() ==> #[trigger] snaps[i] == rest[i]);
        assert(snaps[snaps.len() - 1] == snaps.last());
        if let Some(t) = soonest(snaps, now) {
            if soonest(rest, now) == Some(t) {
                let i = choose|i: int| 0 <= i < rest.len() && (#[trigger] rest[i]).next_run == Some(t);
                assert(snaps[i].next_run == Some(t));
            }
        }
    }
}

/// Every job that a pass fires is due, well formed and enabled, and, while the
/// window is closed, keeps no quiet hours; and every such job fires, once, at
/// the slot it is due at.
pub proof fn exactly_the_due_jobs_fire(
    jobs: Seq<CronJobConfig>,
    timings: Seq<JobTiming>,
    now: Timestamp,
    window_open: bool,
)
    requires
        jobs.len() == timings.len(),
        jobs.len() <= usize::MAX,
    ensures
        forall|f: int|
            0 <= f < fired(jobs, timings, now, window_open).len() ==> {
                let fire = #[trigger] fired(jobs, timings, now, window_open)[f];
                &&& fire.job < jobs.len()
                &&& fires_now(jobs[fire.job as int], timings[fire.job as int], now, window_open)
                &&& timings[fire.job as int].next == Some(fire.slot)
                &&& fire.slot.nanos <= now.nanos
            },
        forall|a: int, b: int|
            0 <= a < b < fired(jobs, timings, now, window_open).len() ==> (#[trigger] fired(
                jobs,
                timings,
                now,
                window_open,
            )[a]).job < (#[trigger] fired(jobs, timings, now, window_open)[b]).job,
        forall|i: int|
            0 <= i < jobs.len() && #[trigger] fires_now(jobs[i], timings[i], now, window_open)
                ==> fired(jobs, timings, now, window_open).contains(
                (CronFire { job: i as usize, slot: timings[i].next->0 }),
            ),
    decreases jobs.len(),
{
    if jobs.len() > 0 {
        let j = jobs.drop_last();
        let t = timings.drop_last();
        exactly_the_due_jobs_fire(j, t, now, window_open);
        let rest = fired(j, t, now, window_open);
        let all = fired(jobs, timings, now, window_open);
        assert forall|i: int|
            0 <= i < jobs.len() && #[trigger] fires_now(
                jobs[i],
                timings[i],
                now,
                window_open,
            ) implies all.contains((CronFire { job: i as usize, slot: timings[i].next->0 })) by {
            let fire = CronFire { job: i as usize, slot: timings[i].next->0 };
            if i < j.len() {
                assert(fires_now(j[i], t[i], now, window_open));
                assert(rest.contains(fire));
                let p = rest.index_of(fire);
                assert(all[p] == fire);
            } else {
                assert(all[all.len() - 1] == fire);
            }
        }
    }
}

/// While the window is closed a job that keeps quiet hours neither fires nor,
/// being due, sets a deadline.
pub proof fn quiet_hours_hold_jobs_back(
    job: CronJobConfig,
    timing: JobTiming,
    now: Timestamp,
    fire_due: bool,
)
    requires
        job.respect_windows,
        timing.next matches Some(next) && next.nanos <= now.nanos,
    ensures
        !fires_now(job, timing, now, false),
        upcoming(job, timing, now, false, fire_due) is None,
{
}

/// A job that fires still sets a deadline: that of an interval job is one
/// interval after the slot it was due at, so that its cadence does not drift by
/// how late the pass came.
pub proof fn a_fired_job_keeps_its_cadence(
    job: CronJobConfig,
    timing: JobTiming,
    now: Timestamp,
    window_open: bool,
)
    requires
        fires_now(job, timing, now, window_open),
        job.every is Some,
        every_millis(job.every->0@) is Some,
        every_millis(job.every->0@)->0 > 0,
        timing.next->0.valid(),
        timing.next->0.reaches(every_millis(job.every->0@)->0 * NANOS_PER_MILLI),
        possible_fire(job, timing.next, timing.next->0, timing.following),
    ensures
        upcoming(job, timing, now, window_open, true) == Some(
            after_millis(timing.next->0, every_millis(job.every->0@)->0),
        ),
{
}

/// A deadline is the next fire of one of the jobs of its category, and none of
/// them fires before it.
pub proof fn deadlines_are_earliest(
    jobs: Seq<CronJobConfig>,
    timings: Seq<JobTiming>,
    now: Timestamp,
    window_open: bool,
    fire_due: bool,
    windowed: bool,
)
    requires
        jobs.len() == timings.len(),
    ensures
        forall|i: int|
            0 <= i < jobs.len() && (#[trigger] jobs[i]).respect_windows == windowed ==> {
                upcoming(jobs[i], timings[i], now, window_open, fire_due) matches Some(u) ==> {
                    deadline(jobs, timings, now, window_open, fire_due, windowed) matches Some(d)
                        && d.nanos <= u.nanos
                }
            },
        deadline(jobs, timings, now, window_open, fire_due, windowed) matches Some(d) ==> exists|
            i: int,
        |
            {
                &&& 0 <= i < jobs.len()
                &&& (#[trigger] jobs[i]).respect_windows == windowed
                &&& upcoming(jobs[i], timings[i], now, window_open, fire_due) == Some(d)
            },
    decreases jobs.len(),
{
    if jobs.len() > 0 {
        let j = jobs.drop_last();
        let t = timings.drop_last();
        deadlines_are_earliest(j, t, now, window_open, fire_due, windowed);
        assert(forall|i: int| 0 <= i < j.len() ==> #[trigger] jobs[i] == j[i] && timings[i] == t[i]);
        if let Some(d) = deadline(jobs, timings, now, window_open, fire_due, windowed) {
            if deadline(j, t, now, window_open, fire_due, windowed) == Some(d) {
                let i = choose|i: int|
                    {
                        &&& 0 <= i < j.len()
                        &&& (#[trigger] j[i]).respect_windows == windowed
                        &&& upcoming(j[i], t[i], now, window_open, fire_due) == Some(d)
                    };
                assert(jobs[i] == j[i]);
            } else {
                assert(jobs[jobs.len() - 1].respect_windows == windowed);
            }
        }
    }
}

/// A job is run on request exactly when it is well configured and enabled and no
/// run of it is under way: a command that still runs, or a prompt that still waits
/// in the queue, at whatever place. A command is started, a prompt is not.
pub proof fn jobs_run_on_request(
    jobs: Seq<CronJobConfig>,
    k: int,
    running: Set<Seq<char>>,
    bits: u32,
    queue_before: Seq<ScheduledItem>,
    r: Result<RunNow, String>,
)
    requires
        0 <= k < jobs.len() <= usize::MAX,
        ran_now(jobs, k, running, bits, queue_before, r),
    ensures
        r is Ok <==> {
            &&& jobs[k].valid()
            &&& jobs[k].enabled
            &&& jobs[k].command is Some ==> !running.contains(jobs[k].id@)
            &&& jobs[k].command is None ==> jobs[k].prompt is Some && forall|i: int|
                0 <= i < queue_before.len() ==> (#[trigger] queue_before[i]).created_by_session@
                    != "cron:"@ + jobs[k].id@
        },
        r matches Ok(run) ==> (run.start is Some <==> jobs[k].command is Some),
        r matches Ok(run) ==> run.start matches Some(s) ==> s == k,
{
}

/// A job that cannot run shows no next run; every other shows when it is due, and
/// each shows its own history.
pub proof fn idle_jobs_show_no_next_run(
    s: CronJobSnapshot,
    job: CronJobConfig,
    next: Option<Timestamp>,
    entry: CronJobState,
    running: bool,
)
    requires
        shows(s, job, next, entry, running),
    ensures
        s.next_run is Some ==> job.valid() && job.enabled && s.next_run == next,
        job.valid() && job.enabled ==> s.next_run == next,
        s.last_run == entry.last_run,
        s.last_status == entry.last_status,
        s.consecutive_failures == entry.consecutive_failures,
        s.running == running,
{
}

} // verus!
