//! How long to wait between cycles: the usage on record, and the bounds and
//! backoff that every interval goes through.

use crate::clock;
use crate::time::{Timestamp, MIN_SECS, NANOS_PER_MILLI, NANOS_PER_SEC};
use vstd::prelude::*;

verus! {

/// The log is saved whenever this many records are unsaved.
pub const SAVE_INTERVAL: usize = 10;

/// Records older than this are dropped when the log is saved.
pub const PRUNE_AGE_SECS: i64 = 86_400;

/// The window assumed when a provider does not say when it resets.
pub const DEFAULT_WINDOW_SECS: i64 = 3600;

/// The longest that backoff stretches an interval.
pub const MAX_BACKOFF: u32 = 64;

/// The longest representable duration, in nanoseconds.
pub const LONGEST_NANOS: u128 = 18_446_744_073_709_551_615_999_999_999;

// ---------------------------------------------------------------------------
// Usage
// ---------------------------------------------------------------------------

/// Who used the tokens.
#[derive(Debug, Clone, Copy, PartialEq, Eq, Structural)]
pub enum UsageSource {
    User,
    Ambient,
}

/// One call's usage.
#[derive(Debug, Clone)]
pub struct UsageRecord {
    pub timestamp: Timestamp,
    pub source: UsageSource,
    pub tokens_input: u32,
    pub tokens_output: u32,
    pub provider: String,
}

impl UsageRecord {
    pub open spec fn tokens(&self) -> nat {
        (self.tokens_input + self.tokens_output) as nat
    }

    pub fn total_tokens(&self) -> (r: u64)
        ensures
            r == self.tokens(),
    {
        self.tokens_input as u64 + self.tokens_output as u64
    }
}

/// A rolling record of usage.
#[derive(Debug)]
pub struct UsageLog {
    pub records: Vec<UsageRecord>,
    pub unsaved_count: usize,
}

/// The tokens that `source` used since `cutoff`.
pub open spec fn used_since(
    records: Seq<UsageRecord>,
    source: UsageSource,
    cutoff: Timestamp,
) -> nat
    decreases records.len(),
{
    if records.len() == 0 {
        0
    } else {
        let r = records.last();
        used_since(records.drop_last(), source, cutoff) + (if r.source == source && r.timestamp.nanos
            >= cutoff.nanos {
            r.tokens()
        } else {
            0
        })
    }
}

proof fn usage_grows(records: Seq<UsageRecord>, source: UsageSource, cutoff: Timestamp, n: int)
    requires
        0 <= n <= records.len(),
    ensures
        used_since(records.take(n), source, cutoff) <= used_since(records, source, cutoff),
    decreases records.len() - n,
{
    if n < records.len() {
        usage_grows(records, source, cutoff, n + 1);
        assert(records.take(n + 1).drop_last() =~= records.take(n));
    } else {
        assert(records.take(n) =~= records);
    }
}

/// The records that are not older than `cutoff`.
pub open spec fn kept(records: Seq<UsageRecord>, cutoff: Timestamp) -> Seq<UsageRecord> {
    records.filter(|r: UsageRecord| r.timestamp.nanos >= cutoff.nanos)
}

/// The newest `n` records of ambient usage, newest first: how many there are,
/// and the tokens they used.
pub open spec fn latest_ambient(records: Seq<UsageRecord>, n: nat) -> (nat, nat)
    decreases records.len(),
{
    if records.len() == 0 || n == 0 {
        (0, 0)
    } else if records.last().source == UsageSource::Ambient {
        let (count, sum) = latest_ambient(records.drop_last(), (n - 1) as nat);
        (count + 1, sum + records.last().tokens())
    } else {
        latest_ambient(records.drop_last(), n)
    }
}

/// When a window of the given length in nanoseconds that ends at `now` began. One
/// of more milliseconds than an `i64` holds counts as empty.
pub open spec fn window_start(now: Timestamp, window_nanos: u128) -> int {
    if window_nanos > i64::MAX * NANOS_PER_MILLI {
        now.nanos as int
    } else {
        now.nanos - window_nanos
    }
}

/// The window lies on the calendar.
pub open spec fn window_on_calendar(now: Timestamp, window_nanos: u128) -> bool {
    now.valid() && MIN_SECS * NANOS_PER_SEC <= window_start(now, window_nanos)
}

impl UsageLog {
    pub fn new(records: Vec<UsageRecord>) -> (r: UsageLog)
        ensures
            r.records == records,
            r.unsaved_count == 0,
    {
        UsageLog { records, unsaved_count: 0 }
    }

    /// Adds a record. Returns whether the log is to be saved now.
    pub fn record(&mut self, record: UsageRecord) -> (save: bool)
        requires
            old(self).unsaved_count < usize::MAX,
        ensures
            final(self).records@ == old(self).records@.push(record),
            final(self).unsaved_count == old(self).unsaved_count + 1,
            save == (final(self).unsaved_count >= SAVE_INTERVAL),
    {
        self.records.push(record);
        self.unsaved_count = self.unsaved_count + 1;
        self.unsaved_count >= SAVE_INTERVAL
    }

    /// Drops the records older than `cutoff`, in place.
    fn drop_before(&mut self, cutoff: &Timestamp)
        ensures
            final(self).records@ == kept(old(self).records@, *cutoff),
            final(self).unsaved_count == old(self).unsaved_count,
    {
        let mut rest: Vec<UsageRecord> = Vec::new();
        std::mem::swap(&mut rest, &mut self.records);
        let ghost all = rest@;
        let ghost f = |r: UsageRecord| r.timestamp.nanos >= cutoff.nanos;
        let mut out: Vec<UsageRecord> = Vec::new();
        proof {
            reveal(Seq::filter);
            assert(all.take(0) =~= Seq::<UsageRecord>::empty());
        }
        for r in it: rest
            invariant
                it.seq() == all,
                f == (|r: UsageRecord| r.timestamp.nanos >= cutoff.nanos),
                out@ == all.take(it.index() as int).filter(f),
        {
            proof {
                reveal(Seq::filter);
                let n = it.index() as int;
                assert(all.take(n + 1).drop_last() =~= all.take(n));
                assert(all.take(n + 1).last() == r);
            }
            if r.timestamp.nanos >= cutoff.nanos {
                out.push(r);
            }
        }
        assert(all.take(all.len() as int) =~= all);
        self.records = out;
    }

    /// Drops the records that are a day old at `now`.
    pub fn prune(&mut self, now: &Timestamp)
        requires
            now.valid(),
            now.reaches(-PRUNE_AGE_SECS * NANOS_PER_SEC),
        ensures
            final(self).records@ == kept(
                old(self).records@,
                Timestamp { nanos: (now.nanos - PRUNE_AGE_SECS * NANOS_PER_SEC) as i128 },
            ),
            final(self).unsaved_count == old(self).unsaved_count,
    {
        let cutoff = now.plus_secs(-PRUNE_AGE_SECS);
        self.drop_before(&cutoff);
    }

    /// Notes that the log was saved.
    pub fn saved(&mut self)
        ensures
            final(self).records == old(self).records,
            final(self).unsaved_count == 0,
    {
        self.unsaved_count = 0;
    }

    /// The tokens that a source used since `cutoff`; `None` when there are more
    /// than can be counted.
    pub fn total_tokens_since(&self, source: &UsageSource, cutoff: &Timestamp) -> (r: Option<u64>)
        ensures
            match r {
                Some(n) => n == used_since(self.records@, *source, *cutoff),
                None => used_since(self.records@, *source, *cutoff) > u64::MAX,
            },
    {
        let mut sum: u64 = 0;
        let mut i: usize = 0;
        assert(self.records@.take(0) =~= Seq::<UsageRecord>::empty());
        while i < self.records.len()
            invariant
                i <= self.records@.len(),
                sum == used_since(self.records@.take(i as int), *source, *cutoff),
            decreases self.records@.len() - i,
        {
            proof {
                assert(self.records@.take(i + 1).drop_last() =~= self.records@.take(i as int));
                usage_grows(self.records@, *source, *cutoff, i + 1);
            }
            if self.records[i].source == *source && self.records[i].timestamp.nanos >= cutoff.nanos {
                match sum.checked_add(self.records[i].total_tokens()) {
                    Some(s) => {
                        sum = s;
                    },
                    None => {
                        return None;
                    },
                }
            }
            i = i + 1;
        }
        assert(self.records@.take(self.records@.len() as int) =~= self.records@);
        Some(sum)
    }

    /// The tokens that a source used within a window that ends at `now`; `None`
    /// when there are more than can be counted.
    pub fn total_tokens_in_window_at(
        &self,
        source: &UsageSource,
        window_nanos: u128,
        now: &Timestamp,
    ) -> (r: Option<u64>)
        requires
            window_on_calendar(*now, window_nanos),
        ensures
            match r {
                Some(n) => n == used_since(
                    self.records@,
                    *source,
                    Timestamp { nanos: window_start(*now, window_nanos) as i128 },
                ),
                None => used_since(
                    self.records@,
                    *source,
                    Timestamp { nanos: window_start(*now, window_nanos) as i128 },
                ) > u64::MAX,
            },
    {
        let nanos: i128 = if window_nanos > i64::MAX as u128 * NANOS_PER_MILLI as u128 {
            now.nanos
        } else {
            now.nanos - window_nanos as i128
        };
        let cutoff = Timestamp { nanos };
        self.total_tokens_since(source, &cutoff)
    }

    /// The tokens that a source used within a window that ends at the clock's
    /// reading; `None` when the window leads off the calendar, or when there
    /// are more than can be counted.
    pub fn total_tokens_in_window(&self, source: &UsageSource, window_nanos: u128) -> (r: Option<
        u64,
    >)
        ensures
            exists|now: Timestamp|
                {
                    &&& #[trigger] now.valid()
                    &&& match r {
                        Some(n) => window_on_calendar(now, window_nanos) && n == used_since(
                            self.records@,
                            *source,
                            Timestamp { nanos: window_start(now, window_nanos) as i128 },
                        ),
                        None => !window_on_calendar(now, window_nanos) || used_since(
                            self.records@,
                            *source,
                            Timestamp { nanos: window_start(now, window_nanos) as i128 },
                        ) > u64::MAX,
                    }
                },
    {
        let now = clock::now();
        if window_nanos <= i64::MAX as u128 * NANOS_PER_MILLI as u128 && now.nanos
            - (window_nanos as i128) < MIN_SECS as i128 * NANOS_PER_SEC {
            return None;
        }
        self.total_tokens_in_window_at(source, window_nanos, &now)
    }

    /// How many of the newest `last_n` records of ambient usage there are, and
    /// the tokens they used, for the average of a cycle; `None` when there are
    /// more tokens than can be counted.
    pub fn recent_ambient_usage(&self, last_n: usize) -> (r: Option<(usize, u64)>)
        ensures
            match r {
                Some((count, sum)) => latest_ambient(self.records@, last_n as nat) == (
                    count as nat,
                    sum as nat,
                ),
                None => latest_ambient(self.records@, last_n as nat).1 > u64::MAX,
            },
    {
        let mut count: usize = 0;
        let mut sum: u64 = 0;
        let mut i: usize = self.records.len();
        let ghost goal = latest_ambient(self.records@, last_n as nat);
        assert(self.records@.take(self.records@.len() as int) =~= self.records@);
        while i > 0 && count < last_n
            invariant
                i <= self.records@.len(),
                count <= last_n,
                goal == latest_ambient(self.records@, last_n as nat),
                count + latest_ambient(self.records@.take(i as int), (last_n - count) as nat).0
                    == goal.0,
                sum + latest_ambient(self.records@.take(i as int), (last_n - count) as nat).1
                    == goal.1,
            decreases i,
        {
            assert(self.records@.take(i as int).drop_last() =~= self.records@.take(i - 1));
            assert(self.records@.take(i as int).last() == self.records@[i - 1]);
            i = i - 1;
            if self.records[i].source == UsageSource::Ambient {
                match sum.checked_add(self.records[i].total_tokens()) {
                    Some(s) => {
                        sum = s;
                    },
                    None => {
                        return None;
                    },
                }
                count = count + 1;
            }
        }
        Some((count, sum))
    }
}

// ---------------------------------------------------------------------------
// Intervals
// ---------------------------------------------------------------------------

/// The bounds of the interval between cycles.
#[derive(Debug, Clone, Copy, PartialEq, Eq, Structural)]
pub struct AmbientSchedulerConfig {
    pub min_interval_minutes: u32,
    pub max_interval_minutes: u32,
    pub pause_on_active_session: bool,
}

impl Default for AmbientSchedulerConfig {
    fn default() -> (r: AmbientSchedulerConfig)
        ensures
            r.min_interval_minutes == 5,
            r.max_interval_minutes == 120,
            r.pause_on_active_session,
    {
        AmbientSchedulerConfig {
            min_interval_minutes: 5,
            max_interval_minutes: 120,
            pause_on_active_session: true,
        }
    }
}

impl AmbientSchedulerConfig {
    /// The shortest interval, in nanoseconds.
    pub open spec fn floor(&self) -> int {
        self.min_interval_minutes * 60 * NANOS_PER_SEC
    }

    /// The longest interval, in nanoseconds.
    pub open spec fn ceiling(&self) -> int {
        self.max_interval_minutes * 60 * NANOS_PER_SEC
    }

    /// The bounds are in order.
    pub open spec fn valid(&self) -> bool {
        self.min_interval_minutes <= self.max_interval_minutes
    }
}

/// What a provider says of its rate limit.
#[derive(Debug, Clone, Copy, PartialEq, Eq, Structural)]
pub struct RateLimitInfo {
    pub limit_tokens: Option<u64>,
    pub remaining_tokens: Option<u64>,
    pub limit_requests: Option<u64>,
    pub remaining_requests: Option<u64>,
    pub reset_at: Option<Timestamp>,
}

/// What there is to pace by.
#[derive(Debug, Clone, Copy, PartialEq, Eq, Structural)]
pub enum PaceBasis {
    /// No room: wait as long as it takes.
    Ceiling,
    /// So many tokens, for so many seconds.
    Tokens { remaining: u64, window_secs: i64 },
    /// The share of a subscription that is left.
    Quota,
}

/// The seconds until a limit resets, as far as they are known.
pub open spec fn window_left(info: RateLimitInfo, now: Timestamp) -> int {
    match info.reset_at {
        Some(at) => {
            let secs = crate::time::truncated(at.nanos - now.nanos, NANOS_PER_SEC as int);
            if secs < 0 {
                0
            } else {
                secs
            }
        },
        None => DEFAULT_WINDOW_SECS as int,
    }
}

/// What to pace by: the provider's own limits when it states them, spent limits
/// included; else the subscription's quota when that is known; else nothing.
pub open spec fn basis_of(info: Option<RateLimitInfo>, quota_known: bool, now: Timestamp) -> PaceBasis {
    match info {
        Some(i) => {
            let remaining = match i.remaining_tokens {
                Some(n) => n,
                None => 0,
            };
            if remaining == 0 || window_left(i, now) == 0 {
                PaceBasis::Ceiling
            } else {
                PaceBasis::Tokens { remaining, window_secs: window_left(i, now) as i64 }
            }
        },
        None => if quota_known {
            PaceBasis::Quota
        } else {
            PaceBasis::Ceiling
        },
    }
}

/// What to pace by at `now`.
pub fn pace_basis(info: Option<&RateLimitInfo>, quota_known: bool, now: &Timestamp) -> (r: PaceBasis)
    requires
        now.valid(),
        info matches Some(i) ==> (i.reset_at matches Some(at) ==> at.valid()),
    ensures
        r == basis_of(
            match info {
                Some(i) => Some(*i),
                None => None,
            },
            quota_known,
            *now,
        ),
{
    let i = match info {
        Some(i) => i,
        None => {
            return if quota_known {
                PaceBasis::Quota
            } else {
                PaceBasis::Ceiling
            };
        },
    };
    let window_secs: i64 = match i.reset_at {
        Some(at) => {
            let secs: i64 = crate::time::secs_between(now, &at);
            if secs < 0 {
                0
            } else {
                secs
            }
        },
        None => DEFAULT_WINDOW_SECS,
    };
    let remaining: u64 = match i.remaining_tokens {
        Some(n) => n,
        None => 0,
    };
    if remaining == 0 || window_secs == 0 {
        PaceBasis::Ceiling
    } else {
        PaceBasis::Tokens { remaining, window_secs }
    }
}

/// Paces cycles.
#[derive(Debug, Clone, Copy, PartialEq, Eq, Structural)]
pub struct AdaptiveScheduler {
    pub config: AmbientSchedulerConfig,
    /// Doubles on every rate limit hit.
    pub backoff_multiplier: u32,
    /// Whether a user session is active.
    pub user_active: bool,
}

pub open spec fn clamped(x: int, lo: int, hi: int) -> int {
    if x < lo {
        lo
    } else if x > hi {
        hi
    } else {
        x
    }
}

/// An interval stretched by a multiplier, within what a duration can hold.
pub open spec fn stretched(nanos: int, multiplier: int) -> int {
    if nanos * multiplier > LONGEST_NANOS {
        LONGEST_NANOS as int
    } else {
        nanos * multiplier
    }
}

/// An interval after backoff, within the bounds.
pub open spec fn backed_off(config: AmbientSchedulerConfig, multiplier: int, nanos: int) -> int {
    clamped(stretched(nanos, multiplier), config.floor(), config.ceiling())
}

/// The interval between cycles for a pace that the budget allows, if it allows
/// any, which does not sleep past a refill.
pub open spec fn paced(
    config: AmbientSchedulerConfig,
    multiplier: int,
    pace: Option<u128>,
    until_reset: Option<u128>,
) -> int {
    match pace {
        None => backed_off(config, multiplier, config.ceiling()),
        Some(p) => {
            let wanted = match until_reset {
                Some(u) if u < p => u as int,
                _ => p as int,
            };
            backed_off(config, multiplier, clamped(wanted, config.floor(), config.ceiling()))
        },
    }
}

impl AdaptiveScheduler {
    pub open spec fn well_formed(&self) -> bool {
        self.config.valid() && 1 <= self.backoff_multiplier <= MAX_BACKOFF
    }

    pub fn new(config: AmbientSchedulerConfig) -> (r: AdaptiveScheduler)
        ensures
            r.config == config,
            r.backoff_multiplier == 1,
            !r.user_active,
    {
        AdaptiveScheduler { config, backoff_multiplier: 1, user_active: false }
    }

    /// Whether ambient should pause because a user is active.
    pub fn should_pause(&self) -> (r: bool)
        ensures
            r == (self.config.pause_on_active_session && self.user_active),
    {
        self.config.pause_on_active_session && self.user_active
    }

    pub fn set_user_active(&mut self, active: bool)
        ensures
            *final(self) == (AdaptiveScheduler { user_active: active, ..*old(self) }),
    {
        self.user_active = active;
    }

    /// Doubles the backoff, up to its limit.
    pub fn on_rate_limit_hit(&mut self)
        ensures
            final(self).config == old(self).config,
            final(self).user_active == old(self).user_active,
            final(self).backoff_multiplier == (if old(self).backoff_multiplier * 2 > MAX_BACKOFF {
                MAX_BACKOFF as int
            } else {
                old(self).backoff_multiplier * 2
            }),
    {
        self.backoff_multiplier = if self.backoff_multiplier > MAX_BACKOFF / 2 {
            MAX_BACKOFF
        } else {
            self.backoff_multiplier * 2
        };
    }

    /// Ends the backoff.
    pub fn on_successful_cycle(&mut self)
        ensures
            *final(self) == (AdaptiveScheduler { backoff_multiplier: 1, ..*old(self) }),
    {
        self.backoff_multiplier = 1;
    }

    /// An interval, in nanoseconds, after backoff, within the bounds.
    fn apply_backoff(&self, nanos: u128) -> (r: u128)
        requires
            self.well_formed(),
            nanos <= LONGEST_NANOS,
        ensures
            r == backed_off(self.config, self.backoff_multiplier as int, nanos as int),
    {
        let min: u128 = self.config.min_interval_minutes as u128 * 60_000_000_000;
        let max: u128 = self.config.max_interval_minutes as u128 * 60_000_000_000;
        assert(nanos * self.backoff_multiplier <= LONGEST_NANOS * 64) by (nonlinear_arith)
            requires
                nanos <= LONGEST_NANOS,
                self.backoff_multiplier <= 64,
        ;
        let product: u128 = nanos * self.backoff_multiplier as u128;
        let adjusted: u128 = if product > LONGEST_NANOS {
            LONGEST_NANOS
        } else {
            product
        };
        if adjusted < min {
            min
        } else if adjusted > max {
            max
        } else {
            adjusted
        }
    }

    /// The interval between cycles, in nanoseconds: that of the pace which the
    /// budget allows, if it allows any, but not past the time until the quota
    /// refills, if that is known; then stretched by the backoff; and always
    /// within the bounds.
    pub fn interval_for(&self, pace: Option<u128>, until_reset: Option<u128>) -> (r: u128)
        requires
            self.well_formed(),
        ensures
            r == paced(self.config, self.backoff_multiplier as int, pace, until_reset),
    {
        let min: u128 = self.config.min_interval_minutes as u128 * 60_000_000_000;
        let max: u128 = self.config.max_interval_minutes as u128 * 60_000_000_000;
        match pace {
            None => self.apply_backoff(max),
            Some(p) => {
                let wanted: u128 = match until_reset {
                    Some(u) => if u < p {
                        u
                    } else {
                        p
                    },
                    None => p,
                };
                let within: u128 = if wanted < min {
                    min
                } else if wanted > max {
                    max
                } else {
                    wanted
                };
                self.apply_backoff(within)
            },
        }
    }
}

// ---------------------------------------------------------------------------
// Laws
// ---------------------------------------------------------------------------

/// No reading breaches the configured bounds.
pub proof fn intervals_stay_within_bounds(
    config: AmbientSchedulerConfig,
    multiplier: int,
    pace: Option<u128>,
    until_reset: Option<u128>,
)
    requires
        config.valid(),
        multiplier >= 1,
    ensures
        config.floor() <= paced(config, multiplier, pace, until_reset) <= config.ceiling(),
{
}

/// A slower pace never means a shorter interval; a budget that allows no pace
/// at all means the longest.
pub proof fn less_budget_never_shortens_the_interval(
    config: AmbientSchedulerConfig,
    multiplier: int,
    faster: u128,
    slower: u128,
    until_reset: Option<u128>,
)
    requires
        config.valid(),
        multiplier >= 1,
        faster <= slower,
    ensures
        paced(config, multiplier, Some(faster), until_reset) <= paced(
            config,
            multiplier,
            Some(slower),
            until_reset,
        ),
        paced(config, multiplier, None, until_reset) == config.ceiling(),
{
    let wanted = |p: u128|
        match until_reset {
            Some(u) if u < p => u as int,
            _ => p as int,
        };
    let a = clamped(wanted(faster), config.floor(), config.ceiling());
    let b = clamped(wanted(slower), config.floor(), config.ceiling());
    assert(a <= b);
    assert(a * multiplier <= b * multiplier) by (nonlinear_arith)
        requires
            a <= b,
            multiplier >= 1,
    ;
    let c = config.ceiling();
    assert(c <= c * multiplier) by (nonlinear_arith)
        requires
            c >= 0,
            multiplier >= 1,
    ;
    assert(c <= LONGEST_NANOS);
}

/// Backoff never shortens an interval.
pub proof fn backoff_never_shortens_the_interval(
    config: AmbientSchedulerConfig,
    multiplier: int,
    more: int,
    pace: Option<u128>,
    until_reset: Option<u128>,
)
    requires
        config.valid(),
        1 <= multiplier <= more,
    ensures
        paced(config, multiplier, pace, until_reset) <= paced(config, more, pace, until_reset),
{
    let x = match pace {
        None => config.ceiling(),
        Some(p) => {
            let wanted = match until_reset {
                Some(u) if u < p => u as int,
                _ => p as int,
            };
            clamped(wanted, config.floor(), config.ceiling())
        },
    };
    assert(x * multiplier <= x * more) by (nonlinear_arith)
        requires
            x >= 0,
            multiplier <= more,
    ;
}

/// Pruning drops what is too old and nothing else, so that what a window covers
/// stays on record.
pub proof fn pruning_keeps_recent_usage(
    records: Seq<UsageRecord>,
    cutoff: Timestamp,
    source: UsageSource,
    since: Timestamp,
)
    requires
        since.nanos >= cutoff.nanos,
    ensures
        used_since(kept(records, cutoff), source, since) == used_since(records, source, since),
    decreases records.len(),
{
    reveal(Seq::filter);
    let f = |r: UsageRecord| r.timestamp.nanos >= cutoff.nanos;
    if records.len() > 0 {
        let rest = records.drop_last();
        pruning_keeps_recent_usage(rest, cutoff, source, since);
        if f(records.last()) {
            assert(kept(records, cutoff).drop_last() =~= kept(rest, cutoff));
        }
    }
}

/// Without backoff a pace within the bounds is kept as it is, unless a refill
/// comes first: then the interval is that of a pace which ends at the refill. A
/// budget that allows no pace gives the longest interval.
pub proof fn a_pace_within_bounds_is_kept(
    config: AmbientSchedulerConfig,
    multiplier: int,
    pace: u128,
    until_reset: u128,
)
    requires
        config.valid(),
        multiplier >= 1,
        config.max_interval_minutes * 60_000_000_000 <= LONGEST_NANOS,
    ensures
        paced(config, multiplier, None, Some(until_reset)) == config.max_interval_minutes
            * 60_000_000_000,
        paced(config, multiplier, None, None) == config.max_interval_minutes * 60_000_000_000,
        config.min_interval_minutes * 60_000_000_000 <= pace <= config.max_interval_minutes
            * 60_000_000_000 ==> paced(config, 1, Some(pace), None) == pace,
        until_reset >= pace ==> paced(config, multiplier, Some(pace), Some(until_reset)) == paced(
            config,
            multiplier,
            Some(pace),
            None,
        ),
        until_reset < pace ==> paced(config, multiplier, Some(pace), Some(until_reset)) == paced(
            config,
            multiplier,
            Some(until_reset),
            None,
        ),
{
    let top = config.ceiling();
    assert(top * multiplier >= top) by (nonlinear_arith)
        requires
            top >= 0,
            multiplier >= 1,
    ;
}

/// A cycle is paced by the provider's own limits whenever it states them: by the
/// tokens that are left and the whole seconds to the reset, and not at all when
/// either is spent. Only without such limits does the subscription's quota count.
pub proof fn stated_limits_go_first(
    info: RateLimitInfo,
    remaining: u64,
    reset_at: Timestamp,
    quota_known: bool,
    now: Timestamp,
)
    requires
        now.valid(),
        reset_at.valid(),
    ensures
        ({
            let stated = RateLimitInfo {
                remaining_tokens: Some(remaining),
                reset_at: Some(reset_at),
                ..info
            };
            match basis_of(Some(stated), quota_known, now) {
                PaceBasis::Tokens { remaining: n, window_secs } => {
                    &&& n == remaining > 0
                    &&& 0 < window_secs * 1_000_000_000 <= reset_at.nanos - now.nanos
                    &&& reset_at.nanos - now.nanos < (window_secs + 1) * 1_000_000_000
                },
                PaceBasis::Ceiling => remaining == 0 || reset_at.nanos - now.nanos < 1_000_000_000,
                PaceBasis::Quota => false,
            }
        }),
        basis_of(Some(RateLimitInfo { remaining_tokens: None, ..info }), quota_known, now)
            is Ceiling,
        basis_of(None, true, now) is Quota,
        basis_of(None, false, now) is Ceiling,
{
}

/// The tokens that a source used since a time are those of each of its records
/// from that time on, added up.
pub proof fn every_use_counts_once(
    records: Seq<UsageRecord>,
    r: UsageRecord,
    source: UsageSource,
    cutoff: Timestamp,
)
    ensures
        used_since(Seq::empty(), source, cutoff) == 0,
        used_since(records.push(r), source, cutoff) == used_since(records, source, cutoff) + (
        if r.source == source && r.timestamp.nanos >= cutoff.nanos {
            r.tokens() as int
        } else {
            0
        }),
{
    assert(records.push(r).drop_last() =~= records);
}

/// The average of a cycle is taken over the newest records of ambient usage alone,
/// as many as asked for.
pub proof fn the_newest_cycles_are_averaged(records: Seq<UsageRecord>, r: UsageRecord, n: nat)
    ensures
        latest_ambient(records, 0) == (0nat, 0nat),
        latest_ambient(Seq::empty(), n) == (0nat, 0nat),
        r.source == UsageSource::Ambient ==> {
            let (count, sum) = latest_ambient(records, n);
            latest_ambient(records.push(r), n + 1) == (count + 1, sum + r.tokens())
        },
        r.source != UsageSource::Ambient ==> latest_ambient(records.push(r), n) == latest_ambient(
            records,
            n,
        ),
{
    assert(records.push(r).drop_last() =~= records);
}

/// Backoff multiplies the interval, as far as the bounds allow.
pub proof fn backoff_multiplies(config: AmbientSchedulerConfig, multiplier: int, nanos: int)
    requires
        config.floor() <= nanos * multiplier <= config.ceiling(),
        nanos * multiplier <= LONGEST_NANOS,
    ensures
        backed_off(config, multiplier, nanos) == nanos * multiplier,
{
}

/// Usage counts back to the start of the window; a window too long for a clock has
/// no length.
pub proof fn usage_counts_back_to_the_start_of_the_window(now: Timestamp, window_nanos: u128)
    ensures
        window_nanos <= i64::MAX * 1_000_000 ==> window_start(now, window_nanos) + window_nanos
            == now.nanos,
        window_nanos > i64::MAX * 1_000_000 ==> window_start(now, window_nanos) == now.nanos,
{
}

/// A pace faster than the shortest interval counts as that, one slower than the
/// longest as that, and one between them is stretched by the backoff up to the
/// longest.
pub proof fn paces_are_brought_within_bounds(
    config: AmbientSchedulerConfig,
    multiplier: int,
    pace: u128,
)
    requires
        config.valid(),
        multiplier >= 1,
        config.max_interval_minutes * 60_000_000_000 * multiplier <= LONGEST_NANOS,
    ensures
        pace <= config.min_interval_minutes * 60_000_000_000 ==> paced(
            config,
            multiplier,
            Some(pace),
            None,
        ) == paced(
            config,
            multiplier,
            Some((config.min_interval_minutes * 60_000_000_000) as u128),
            None,
        ),
        pace >= config.max_interval_minutes * 60_000_000_000 ==> paced(
            config,
            multiplier,
            Some(pace),
            None,
        ) == config.max_interval_minutes * 60_000_000_000,
        config.min_interval_minutes * 60_000_000_000 <= pace <= config.max_interval_minutes
            * 60_000_000_000 ==> paced(config, multiplier, Some(pace), None) == (if pace * multiplier
            <= config.max_interval_minutes * 60_000_000_000 {
            pace * multiplier
        } else {
            config.max_interval_minutes * 60_000_000_000
        }),
{
    let max = config.max_interval_minutes * 60_000_000_000;
    assert(max <= max * multiplier) by (nonlinear_arith)
        requires
            max >= 0,
            multiplier >= 1,
    ;
    if pace <= max {
        assert(pace <= pace * multiplier <= max * multiplier) by (nonlinear_arith)
            requires
                0 <= pace <= max,
                multiplier >= 1,
        ;
    }
}

/// A use costs what went in and what came out.
pub proof fn input_and_output_both_cost(r: UsageRecord, more: UsageRecord)
    ensures
        r.tokens() == r.tokens_input + r.tokens_output,
        r.tokens_input <= more.tokens_input && r.tokens_output <= more.tokens_output ==> r.tokens()
            <= more.tokens(),
{
}

} // verus!
