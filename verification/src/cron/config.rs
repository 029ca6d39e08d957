//! The configuration of one recurring job.

use vstd::prelude::*;

verus! {

/// How long an exec job may run when nothing else is configured.
pub const DEFAULT_TIMEOUT_SECS: u64 = 3600;

/// One `[[cron]]` table of the configuration.
#[derive(Debug, Clone)]
pub struct CronJobConfig {
    pub id: String,
    /// A fixed interval, such as `6h`.
    pub every: Option<String>,
    /// A wall-clock time, such as `daily 03:00`.
    pub at: Option<String>,
    pub command: Option<String>,
    pub prompt: Option<String>,
    pub target: Option<String>,
    pub working_dir: Option<String>,
    pub enabled: bool,
    /// Whether a fire that was missed is made up for.
    pub catch_up: bool,
    /// Whether the job keeps ambient's quiet hours.
    pub respect_windows: bool,
    pub timeout_secs: u64,
}

impl CronJobConfig {
    /// The job names exactly one schedule and exactly one thing to do.
    pub open spec fn valid(&self) -> bool {
        (self.every is Some) != (self.at is Some) && (self.command is Some) != (self.prompt is Some)
    }

    /// Whether the job names exactly one of `every`/`at` and exactly one of
    /// `command`/`prompt`.
    pub fn is_valid(&self) -> (r: bool)
        ensures
            r == self.valid(),
    {
        self.every.is_some() != self.at.is_some() && self.command.is_some() != self.prompt.is_some()
    }
}

impl Default for CronJobConfig {
    fn default() -> (r: CronJobConfig)
        ensures
            r.id@ == Seq::<char>::empty(),
            r.every is None && r.at is None && r.command is None && r.prompt is None,
            r.target is None && r.working_dir is None,
            r.enabled && r.catch_up && !r.respect_windows,
            r.timeout_secs == DEFAULT_TIMEOUT_SECS,
    {
        CronJobConfig {
            id: String::new(),
            every: None,
            at: None,
            command: None,
            prompt: None,
            target: None,
            working_dir: None,
            enabled: true,
            catch_up: true,
            respect_windows: false,
            timeout_secs: DEFAULT_TIMEOUT_SECS,
        }
    }
}

} // verus!
