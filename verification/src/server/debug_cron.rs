//! The `cron:` commands of the debug socket.

use crate::ambient::phrases::{format_minutes_human, minutes_text};
use crate::ambient::report::{minutes_to, minutes_until};
use crate::clock::{rfc3339, rfc3339_of};
use crate::cron::control::{CronJobSnapshot, RunNow};
use crate::cron::state::LastStatus;
use crate::text::{has_prefix, opt_view, owned, str_eq, strip_prefix, trim, trimmed};
use crate::time::Timestamp;
use vstd::prelude::*;

verus! {

/// The reference of the commands.
pub const CRON_HELP: &'static str =
    "Cron debug commands (cron: prefix):\n  cron:list      - Configured [[cron]] jobs: schedule, enabled, last run/status, next run\n  cron:run:<id>  - Run one job immediately, bypassing its schedule\n  cron:help      - Cron command reference";

/// How to ask for a run.
pub const CRON_RUN_USAGE: &'static str = "Usage: cron:run:<id>";

/// What a command asks for.
#[derive(Debug)]
pub enum CronCommand {
    /// It is not a cron command.
    NotMine,
    /// It is answered as it stands.
    Reply(String),
    List,
    Run { id: String },
}

/// What a command asks for. A malformed request is answered rather than failed,
/// so that the connection stays.
pub fn maybe_handle_cron_command(cmd: &str) -> (r: CronCommand)
    ensures
        if cmd@ == "cron:list"@ {
            r is List
        } else if has_prefix(cmd@, "cron:run:"@) {
            let id = trimmed(cmd@.skip("cron:run:"@.len() as int));
            if id.len() == 0 {
                r matches CronCommand::Reply(t) && t@ == CRON_RUN_USAGE@
            } else {
                r matches CronCommand::Run { id: i } && i@ == id
            }
        } else if cmd@ == "cron:help"@ {
            r matches CronCommand::Reply(t) && t@ == CRON_HELP@
        } else {
            r is NotMine
        },
{
    if str_eq(cmd, "cron:list") {
        return CronCommand::List;
    }
    if let Some(rest) = strip_prefix(cmd, "cron:run:") {
        assert(rest@ =~= cmd@.skip("cron:run:"@.len() as int));
        let id = trim(rest);
        if id.unicode_len() == 0 {
            return CronCommand::Reply(owned(CRON_RUN_USAGE));
        }
        return CronCommand::Run { id: owned(id) };
    }
    if str_eq(cmd, "cron:help") {
        return CronCommand::Reply(owned(CRON_HELP));
    }
    CronCommand::NotMine
}

/// The answer to a request to run a job: what came of it, or why nothing did.
pub fn run_reply(outcome: &Result<RunNow, String>) -> (r: String)
    ensures
        r@ == (match *outcome {
            Ok(run) => run.reply@,
            Err(e) => e@,
        }),
{
    match outcome {
        Ok(run) => run.reply.clone(),
        Err(e) => e.clone(),
    }
}

/// A job as listed.
#[derive(Debug)]
pub struct CronListEntry {
    pub id: String,
    pub schedule: String,
    pub enabled: bool,
    pub valid: bool,
    pub running: bool,
    pub last_run: Option<String>,
    pub last_status: Option<&'static str>,
    pub consecutive_failures: u32,
    pub next_run: Option<String>,
    pub next_run_in: Option<String>,
}

pub open spec fn outcome_word(s: LastStatus) -> Seq<char> {
    match s {
        LastStatus::Success => "success"@,
        LastStatus::Failure => "failure"@,
        LastStatus::Timeout => "timeout"@,
    }
}

/// `e` lists the job that `s` shows, at `now`.
pub open spec fn lists(e: CronListEntry, s: CronJobSnapshot, now: Timestamp) -> bool {
    &&& e.id@ == s.id@
    &&& e.schedule@ == s.schedule_description@
    &&& e.enabled == s.enabled
    &&& e.valid == s.valid
    &&& e.running == s.running
    &&& opt_view(e.last_run) == (match s.last_run {
        Some(t) => Some(rfc3339_of(t)),
        None => None,
    })
    &&& match (e.last_status, s.last_status) {
        (Some(w), Some(l)) => w@ == outcome_word(l),
        (None, None) => true,
        _ => false,
    }
    &&& e.consecutive_failures == s.consecutive_failures
    &&& opt_view(e.next_run) == (match s.next_run {
        Some(t) => Some(rfc3339_of(t)),
        None => None,
    })
    &&& opt_view(e.next_run_in) == (match s.next_run {
        Some(t) => Some(minutes_text(minutes_until(t, now) as nat)),
        None => None,
    })
}

/// Lists a job at `now`.
pub fn list_entry(s: &CronJobSnapshot, now: &Timestamp) -> (r: CronListEntry)
    requires
        now.valid(),
        s.last_run matches Some(t) ==> t.valid(),
        s.next_run matches Some(t) ==> t.valid(),
    ensures
        lists(r, *s, *now),
{
    CronListEntry {
        id: s.id.clone(),
        schedule: s.schedule_description.clone(),
        enabled: s.enabled,
        valid: s.valid,
        running: s.running,
        last_run: match &s.last_run {
            Some(t) => Some(rfc3339(t)),
            None => None,
        },
        last_status: match s.last_status {
            Some(LastStatus::Success) => Some("success"),
            Some(LastStatus::Failure) => Some("failure"),
            Some(LastStatus::Timeout) => Some("timeout"),
            None => None,
        },
        consecutive_failures: s.consecutive_failures,
        next_run: match &s.next_run {
            Some(t) => Some(rfc3339(t)),
            None => None,
        },
        next_run_in: match &s.next_run {
            Some(t) => Some(format_minutes_human(minutes_to(t, now))),
            None => None,
        },
    }
}

/// An entry of the list tells of the job's own snapshot; when it runs next is told
/// as an instant and as a span, or as neither.
pub proof fn entries_tell_of_their_jobs(e: CronListEntry, s: CronJobSnapshot, now: Timestamp)
    requires
        lists(e, s, now),
    ensures
        e.id@ == s.id@,
        e.schedule@ == s.schedule_description@,
        e.enabled == s.enabled,
        e.valid == s.valid,
        e.running == s.running,
        e.consecutive_failures == s.consecutive_failures,
        e.last_run is Some <==> s.last_run is Some,
        e.last_status is Some <==> s.last_status is Some,
        e.next_run is Some <==> s.next_run is Some,
        e.next_run_in is Some <==> s.next_run is Some,
        s.next_run matches Some(t) ==> e.next_run matches Some(x) && x@ == rfc3339_of(t),
        s.last_run matches Some(t) ==> e.last_run matches Some(x) && x@ == rfc3339_of(t),
{
}

} // verus!
