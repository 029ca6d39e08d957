//! Exec jobs: what a finished command amounts to, and what is logged of it.

use crate::ambient::paths::{below, join_path};
use crate::cron::state::LastStatus;
use crate::text::{has_prefix, opt_str_view, owned, strip_prefix};
use vstd::prelude::*;
use vstd::utf8::encode_utf8;

verus! {

/// A job's log is rotated once it reaches this size, keeping one previous file.
pub const LOG_ROTATE_BYTES: u64 = 2_097_152;

/// Outcome of running an exec job.
#[derive(Debug)]
pub struct ExecOutcome {
    pub exit_code: Option<i32>,
    pub timed_out: bool,
    pub duration_ms: u128,
    /// Set when the command could not even be parsed or started. Distinct from
    /// a non-zero exit, which is a successful run of a failing command.
    pub spawn_error: Option<String>,
}

impl ExecOutcome {
    /// The command ran to its end, in time, and exited with zero.
    pub open spec fn success(&self) -> bool {
        self.spawn_error is None && !self.timed_out && self.exit_code == Some(0i32)
    }

    pub fn succeeded(&self) -> (r: bool)
        ensures
            r == self.success(),
    {
        self.spawn_error.is_none() && !self.timed_out && match self.exit_code {
            Some(code) => code == 0,
            None => false,
        }
    }

    /// What is recorded of the run.
    pub open spec fn status_of(&self) -> LastStatus {
        if self.success() {
            LastStatus::Success
        } else if self.spawn_error is None && self.timed_out {
            LastStatus::Timeout
        } else {
            LastStatus::Failure
        }
    }

    /// What is recorded of the run.
    pub fn status(&self) -> (r: LastStatus)
        ensures
            r == self.status_of(),
    {
        if self.spawn_error.is_some() {
            LastStatus::Failure
        } else if self.timed_out {
            LastStatus::Timeout
        } else if self.succeeded() {
            LastStatus::Success
        } else {
            LastStatus::Failure
        }
    }

    /// The duration as it is recorded.
    pub open spec fn recorded_ms(&self) -> int {
        if self.duration_ms <= u64::MAX {
            self.duration_ms as int
        } else {
            u64::MAX as int
        }
    }

    /// The duration in milliseconds, at most what is recordable.
    pub fn millis(&self) -> (r: u64)
        ensures
            r == self.recorded_ms(),
    {
        if self.duration_ms <= u64::MAX as u128 {
            self.duration_ms as u64
        } else {
            u64::MAX
        }
    }
}

// ---------------------------------------------------------------------------
// Files
// ---------------------------------------------------------------------------

pub open spec fn cron_dir_of(home: Seq<char>) -> Seq<char> {
    below(home, "cron"@)
}

/// The directory of recurring jobs.
pub fn cron_dir(home: &str) -> (r: String)
    ensures
        r@ == cron_dir_of(home@),
{
    join_path(home, "cron")
}

/// The recorded run history.
pub fn state_path(home: &str) -> (r: String)
    ensures
        r@ == below(cron_dir_of(home@), "state.json"@),
{
    join_path(cron_dir(home).as_str(), "state.json")
}

pub open spec fn logs_dir_of(home: Seq<char>) -> Seq<char> {
    below(cron_dir_of(home), "logs"@)
}

/// The directory of the jobs' output.
pub fn logs_dir(home: &str) -> (r: String)
    ensures
        r@ == logs_dir_of(home@),
{
    join_path(cron_dir(home).as_str(), "logs")
}

/// The log of a job.
pub fn job_log_path(home: &str, job_id: &str) -> (r: String)
    ensures
        r@ == below(logs_dir_of(home@), job_id@ + ".log"@),
{
    let mut name = owned(job_id);
    name.append(".log");
    join_path(logs_dir(home).as_str(), name.as_str())
}

/// The id adds nothing to the file name of its log, which is then `.log`.
pub open spec fn adds_no_name(job_id: Seq<char>) -> bool {
    job_id.len() == 0 || job_id.last() == '/'
}

/// Where a job's log goes when it is rotated. A log whose whole name is `.log`
/// has no extension to replace.
pub fn rotated_log_path(home: &str, job_id: &str) -> (r: String)
    ensures
        r@ == below(
            logs_dir_of(home@),
            if adds_no_name(job_id@) {
                job_id@ + ".log"@ + ".log.1"@
            } else {
                job_id@ + ".log.1"@
            },
        ),
{
    let n = job_id.unicode_len();
    let mut name = owned(job_id);
    if n == 0 || job_id.get_char(n - 1) == '/' {
        name.append(".log");
    }
    name.append(".log.1");
    join_path(logs_dir(home).as_str(), name.as_str())
}

/// Whether a log of `len` bytes is due for rotation; `None` stands for a log
/// that is not there.
pub fn rotate_log_if_large(len: Option<u64>) -> (r: bool)
    ensures
        r == (len matches Some(n) && n >= LOG_ROTATE_BYTES),
{
    match len {
        Some(n) => n >= LOG_ROTATE_BYTES,
        None => false,
    }
}

/// The working directory that a configured one stands for.
pub open spec fn working_dir_of(dir: Seq<char>, home: Option<Seq<char>>) -> Seq<char> {
    match home {
        Some(h) if has_prefix(dir, "~/"@) => below(h, dir.skip("~/"@.len() as int)),
        _ => dir,
    }
}

/// Expands a leading `~/` of a job's working directory against the user's home.
pub fn expand_working_dir(working_dir: &str, home: Option<&str>) -> (r: String)
    ensures
        r@ == working_dir_of(working_dir@, opt_str_view(home)),
{
    if let Some(rest) = strip_prefix(working_dir, "~/") {
        if let Some(h) = home {
            return join_path(h, rest);
        }
    }
    owned(working_dir)
}

// ---------------------------------------------------------------------------
// Running
// ---------------------------------------------------------------------------

/// What became of a command.
#[derive(Debug)]
pub enum ExecEvent {
    /// The command line does not parse.
    Unparsable { error: String },
    /// The program could not be started.
    NotStarted { error: String },
    /// The process ended and its output was drained. There is no code when a
    /// signal ended it or waiting for it failed.
    Ended { exit_code: Option<i32>, stdout: Vec<u8>, stderr: Vec<u8> },
    /// The process was killed at its time limit; its output is lost.
    TimedOut,
}

/// Output to be logged.
#[derive(Debug)]
pub struct ExecOutput {
    pub stdout: Vec<u8>,
    pub stderr: Vec<u8>,
}

/// What a command amounts to: its outcome, and the output to log, which a
/// command that never started does not have.
pub open spec fn concluded(
    command: Seq<char>,
    event: ExecEvent,
    duration_ms: u128,
    outcome: ExecOutcome,
    output: Option<ExecOutput>,
) -> bool {
    &&& outcome.duration_ms == duration_ms
    &&& outcome.timed_out == (event is TimedOut)
    &&& match event {
        ExecEvent::Unparsable { error } => {
            &&& outcome.exit_code is None
            &&& outcome.spawn_error matches Some(e) && e@ == "failed to parse command: "@ + error@
            &&& output is None
        },
        ExecEvent::NotStarted { error } => {
            &&& outcome.exit_code is None
            &&& outcome.spawn_error matches Some(e) && e@ == "failed to start '"@ + command + "': "@
                + error@
            &&& output is None
        },
        ExecEvent::Ended { exit_code, stdout, stderr } => {
            &&& outcome.exit_code == exit_code
            &&& outcome.spawn_error is None
            &&& output matches Some(o) && o.stdout@ == stdout@ && o.stderr@ == stderr@
        },
        ExecEvent::TimedOut => {
            &&& outcome.exit_code is None
            &&& outcome.spawn_error is None
            &&& output matches Some(o) && o.stdout@.len() == 0 && o.stderr@.len() == 0
        },
    }
}

/// What the command of a job amounts to, and what of its output is logged.
pub fn conclude(command: &str, event: ExecEvent, duration_ms: u128) -> (r: (
    ExecOutcome,
    Option<ExecOutput>,
))
    ensures
        concluded(command@, event, duration_ms, r.0, r.1),
{
    match event {
        ExecEvent::Unparsable { error } => {
            let mut text = owned("failed to parse command: ");
            text.append(error.as_str());
            (
                ExecOutcome { exit_code: None, timed_out: false, duration_ms, spawn_error: Some(text) },
                None,
            )
        },
        ExecEvent::NotStarted { error } => {
            let mut text = owned("failed to start '");
            text.append(command);
            text.append("': ");
            text.append(error.as_str());
            (
                ExecOutcome { exit_code: None, timed_out: false, duration_ms, spawn_error: Some(text) },
                None,
            )
        },
        ExecEvent::Ended { exit_code, stdout, stderr } => (
            ExecOutcome { exit_code, timed_out: false, duration_ms, spawn_error: None },
            Some(ExecOutput { stdout, stderr }),
        ),
        ExecEvent::TimedOut => (
            ExecOutcome { exit_code: None, timed_out: true, duration_ms, spawn_error: None },
            Some(ExecOutput { stdout: Vec::new(), stderr: Vec::new() }),
        ),
    }
}

/// `bytes` followed by a line break, unless it ends in one.
pub open spec fn ended_line(bytes: Seq<u8>) -> Seq<u8> {
    if bytes.last() == 10 {
        bytes
    } else {
        bytes.push(10)
    }
}

/// The log entry of a run: a header, then the output and the error output that
/// there is, each closed by a line break, then a note when the run was killed.
pub open spec fn log_entry_of(
    stamp: Seq<char>,
    command: Seq<char>,
    stdout: Seq<u8>,
    stderr: Seq<u8>,
    timed_out: bool,
) -> Seq<u8> {
    let head = encode_utf8("=== "@ + stamp + " | "@ + command + " ===\n"@);
    let out = if stdout.len() == 0 {
        Seq::<u8>::empty()
    } else {
        ended_line(stdout)
    };
    let err = if stderr.len() == 0 {
        Seq::<u8>::empty()
    } else {
        encode_utf8("--- stderr ---\n"@) + ended_line(stderr)
    };
    let note = if timed_out {
        encode_utf8("*** killed: exceeded timeout ***\n"@)
    } else {
        Seq::<u8>::empty()
    };
    head + out + err + note
}

fn push_line(out: &mut Vec<u8>, bytes: &[u8])
    requires
        bytes@.len() > 0,
    ensures
        final(out)@ == old(out)@ + ended_line(bytes@),
{
    out.extend_from_slice(bytes);
    if bytes[bytes.len() - 1] != 10 {
        out.push(10);
        assert(out@ =~= old(out)@ + bytes@.push(10));
    }
}

/// The log entry of a run at the time that `stamp` spells.
pub fn write_log(
    stamp: &str,
    command: &str,
    stdout: &[u8],
    stderr: &[u8],
    timed_out: bool,
) -> (r: Vec<u8>)
    ensures
        r@ == log_entry_of(stamp@, command@, stdout@, stderr@, timed_out),
{
    let mut head = owned("=== ");
    head.append(stamp);
    head.append(" | ");
    head.append(command);
    head.append(" ===\n");
    let mut out: Vec<u8> = head.as_str().as_bytes_vec();
    if stdout.len() > 0 {
        push_line(&mut out, stdout);
    }
    if stderr.len() > 0 {
        out.extend_from_slice("--- stderr ---\n".as_bytes());
        push_line(&mut out, stderr);
    }
    if timed_out {
        out.extend_from_slice("*** killed: exceeded timeout ***\n".as_bytes());
    }
    assert(out@ =~= log_entry_of(stamp@, command@, stdout@, stderr@, timed_out));
    out
}

/// A run succeeded exactly when its command ended with code zero, timed out exactly
/// when it was stopped for taking too long, and failed otherwise.
pub proof fn runs_end_as_their_commands_did(
    command: Seq<char>,
    event: ExecEvent,
    duration_ms: u128,
    outcome: ExecOutcome,
    output: Option<ExecOutput>,
)
    requires
        concluded(command, event, duration_ms, outcome, output),
    ensures
        outcome.status_of() is Success <==> event is Ended && event->exit_code == Some(0i32),
        outcome.status_of() is Timeout <==> event is TimedOut,
        output is None <==> event is Unparsable || event is NotStarted,
        outcome.exit_code == (if event is Ended {
            event->exit_code
        } else {
            None
        }),
        duration_ms <= u64::MAX ==> outcome.recorded_ms() == duration_ms,
        outcome.recorded_ms() <= u64::MAX,
{
}

/// The log of a run holds what the command wrote: its output behind the heading,
/// its errors behind that and a heading of their own, each ended by a line break,
/// and nothing of what it did not write.
pub proof fn logs_hold_what_was_written(
    stamp: Seq<char>,
    command: Seq<char>,
    stdout: Seq<u8>,
    stderr: Seq<u8>,
    timed_out: bool,
)
    ensures
        ({
            let head = encode_utf8("=== "@ + stamp + " | "@ + command + " ===\n"@);
            let mark = encode_utf8("--- stderr ---\n"@);
            let note = encode_utf8("*** killed: exceeded timeout ***\n"@);
            let none = Seq::<u8>::empty();
            let line = seq![10u8];
            &&& log_entry_of(stamp, command, none, none, false) == head
            &&& log_entry_of(stamp, command, stdout, stderr, true) == log_entry_of(
                stamp,
                command,
                stdout,
                stderr,
                false,
            ) + note
            &&& log_entry_of(stamp, command, stdout + line, none, false) == head + stdout + line
            &&& stdout.len() > 0 && stdout.last() != 10 ==> log_entry_of(
                stamp,
                command,
                stdout,
                stderr,
                false,
            ) == log_entry_of(stamp, command, stdout + line, stderr, false)
            &&& log_entry_of(stamp, command, stdout, stderr + line, false) == log_entry_of(
                stamp,
                command,
                stdout,
                none,
                false,
            ) + mark + stderr + line
            &&& stderr.len() > 0 && stderr.last() != 10 ==> log_entry_of(
                stamp,
                command,
                stdout,
                stderr,
                false,
            ) == log_entry_of(stamp, command, stdout, stderr + line, false)
        }),
{
    let head = encode_utf8("=== "@ + stamp + " | "@ + command + " ===\n"@);
    let mark = encode_utf8("--- stderr ---\n"@);
    let none = Seq::<u8>::empty();
    let line = seq![10u8];
    assert(stdout + line =~= stdout.push(10));
    assert(stderr + line =~= stderr.push(10));
    assert(log_entry_of(stamp, command, none, none, false) =~= head);
    assert(log_entry_of(stamp, command, stdout + line, none, false) =~= head + stdout + line);
    assert(log_entry_of(stamp, command, stdout, stderr + line, false) =~= log_entry_of(
        stamp,
        command,
        stdout,
        none,
        false,
    ) + mark + stderr + line);
    assert(log_entry_of(stamp, command, stdout, stderr, true) =~= log_entry_of(
        stamp,
        command,
        stdout,
        stderr,
        false,
    ) + encode_utf8("*** killed: exceeded timeout ***\n"@));
}

} // verus!
