//! How long ambient waits between cycles, and the usage that decides it.

use chrono::{DateTime, Duration as ChronoDuration, Utc};
use jcode_ambient::ambient::headroom::seconds_until_reset;
use jcode_ambient::ambient::scheduler::{
    pace_basis, AdaptiveScheduler, AmbientSchedulerConfig, PaceBasis, RateLimitInfo, UsageLog,
    UsageRecord, UsageSource,
};
use jcode_ambient::time::Timestamp;
use std::time::Duration;

fn at(t: DateTime<Utc>) -> Timestamp {
    Timestamp::from_parts(t.timestamp(), t.timestamp_subsec_nanos())
}

fn make_record(source: UsageSource, tokens: u32, mins_ago: i64) -> UsageRecord {
    UsageRecord {
        timestamp: at(Utc::now() - ChronoDuration::minutes(mins_ago)),
        source,
        tokens_input: tokens / 2,
        tokens_output: tokens / 2,
        provider: "test".to_string(),
    }
}

fn empty_log() -> UsageLog {
    UsageLog { records: Vec::new(), unsaved_count: 0 }
}

/// Share of the remaining quota that is held back for the user by default.
const RESERVE: f32 = 0.8;

struct SubscriptionHeadroom {
    remaining_fraction: f32,
    resets_at: Option<DateTime<Utc>>,
}

/// The average cost of the newest ambient cycles; unknown before the first.
fn avg_tokens_per_ambient_cycle(log: &UsageLog, last_n: usize) -> Option<f64> {
    match log.recent_ambient_usage(last_n) {
        Some((count, sum)) if count > 0 => Some(sum as f64 / count as f64),
        _ => None,
    }
}

/// The pace that a quota reading asks for, bounded by the scheduler.
fn headroom_interval(
    scheduler: &AdaptiveScheduler,
    reserve: f32,
    headroom: &SubscriptionHeadroom,
    now: DateTime<Utc>,
) -> Duration {
    let share = (1.0 - reserve as f64).clamp(0.0, 1.0);
    let usable = headroom.remaining_fraction as f64 * share;
    let pace = if headroom.remaining_fraction <= 0.0 || share <= 0.0 || usable <= 0.0 {
        None
    } else {
        let floor = scheduler.config.min_interval_minutes as f64 * 60.0;
        let reference = 1.0 - RESERVE as f64;
        Some(Duration::from_secs_f64((floor * (reference / usable)).max(0.0)).as_nanos())
    };
    let until = seconds_until_reset(headroom.resets_at.map(at), &at(now))
        .map(|s| s as u128 * 1_000_000_000);
    Duration::from_nanos(scheduler.interval_for(pace, until) as u64)
}

/// The interval for the headers and the quota reading at hand.
fn calculate_interval_with(
    scheduler: &AdaptiveScheduler,
    reserve: f32,
    log: &UsageLog,
    info: Option<&RateLimitInfo>,
    headroom: Option<SubscriptionHeadroom>,
) -> Duration {
    let now = Utc::now();
    match pace_basis(info, headroom.is_some(), &at(now)) {
        PaceBasis::Ceiling => Duration::from_nanos(scheduler.interval_for(None, None) as u64),
        PaceBasis::Quota => headroom_interval(scheduler, reserve, &headroom.unwrap(), now),
        PaceBasis::Tokens { remaining, window_secs } => {
            let used = log
                .total_tokens_in_window_at(&UsageSource::User, HOUR, &at(now))
                .unwrap();
            let rate = used as f64 / 60.0;
            let projected = rate * (window_secs as f64 / 60.0);
            let budget = (remaining as f64 - projected) * (1.0 - reserve as f64);
            let per_cycle = avg_tokens_per_ambient_cycle(log, 5).unwrap_or(10_000.0);
            let pace = if budget <= 0.0 {
                None
            } else {
                let secs = window_secs as f64 / (budget / per_cycle);
                Some(Duration::from_secs_f64(secs).as_nanos())
            };
            Duration::from_nanos(scheduler.interval_for(pace, None) as u64)
        }
    }
}

/// An hour, in nanoseconds.
const HOUR: u128 = 3_600_000_000_000;

fn config(min: u32, max: u32) -> AmbientSchedulerConfig {
    AmbientSchedulerConfig {
        min_interval_minutes: min,
        max_interval_minutes: max,
        ..AmbientSchedulerConfig::default()
    }
}

#[test]
fn test_usage_log_rate_per_minute() {
    let mut log = empty_log();

    // Add 3 user records in the last 30 minutes, 1000 tokens each.
    for i in 0..3 {
        log.records.push(make_record(UsageSource::User, 1000, i * 10));
    }

    let total = log.total_tokens_in_window(&UsageSource::User, HOUR).unwrap();
    let rate = total as f32 / 60.0;
    // 3000 tokens over 60 minutes = 50 tokens/min
    assert!((rate - 50.0).abs() < 1.0, "got {}", rate);
}

#[test]
fn test_total_tokens_in_window() {
    let mut log = empty_log();

    log.records.push(make_record(UsageSource::User, 500, 10));
    log.records.push(make_record(UsageSource::Ambient, 300, 5));
    log.records.push(make_record(UsageSource::User, 200, 2));

    let user_total = log.total_tokens_in_window(&UsageSource::User, HOUR);
    assert_eq!(user_total, Some(700));

    let ambient_total = log.total_tokens_in_window(&UsageSource::Ambient, HOUR);
    assert_eq!(ambient_total, Some(300));
}

#[test]
fn test_avg_tokens_per_ambient_cycle() {
    let mut log = empty_log();

    // No ambient records => None.
    assert!(avg_tokens_per_ambient_cycle(&log, 5).is_none());

    log.records.push(make_record(UsageSource::Ambient, 1000, 30));
    log.records.push(make_record(UsageSource::Ambient, 2000, 20));
    log.records.push(make_record(UsageSource::Ambient, 3000, 10));

    let avg = avg_tokens_per_ambient_cycle(&log, 5).unwrap();
    assert!((avg - 2000.0).abs() < 1.0, "got {}", avg);

    assert_eq!(log.recent_ambient_usage(2), Some((2, 5000)), "the newest cycles count");
}

#[test]
fn test_scheduler_no_rate_limit_returns_max() {
    let scheduler = AdaptiveScheduler::new(config(5, 120));
    // No headers AND no quota reading: the conservative ceiling.
    let interval = calculate_interval_with(&scheduler, RESERVE, &empty_log(), None, None);
    assert_eq!(interval, Duration::from_secs(120 * 60));
}

/// The wiring itself: a quota reading must reach the interval.
#[test]
fn a_quota_reading_reaches_the_interval_rather_than_the_ceiling() {
    let scheduler = AdaptiveScheduler::new(config(5, 120));

    let fresh = SubscriptionHeadroom {
        remaining_fraction: 1.0,
        resets_at: Some(Utc::now() + ChronoDuration::hours(5)),
    };
    let interval = calculate_interval_with(&scheduler, 0.8, &empty_log(), None, Some(fresh));

    assert_eq!(
        interval,
        Duration::from_secs(5 * 60),
        "a full window must pace at the floor, not the ceiling"
    );
    assert_ne!(interval, Duration::from_secs(120 * 60));
}

/// Different readings must yield different intervals, so the reading is
/// genuinely consumed rather than merely accepted and discarded.
#[test]
fn the_interval_tracks_the_quota_reading() {
    let scheduler = AdaptiveScheduler::new(config(5, 120));
    let window = ChronoDuration::hours(5);
    let reading = |remaining: f32| {
        calculate_interval_with(
            &scheduler,
            0.8,
            &empty_log(),
            None,
            Some(SubscriptionHeadroom {
                remaining_fraction: remaining,
                resets_at: Some(Utc::now() + window),
            }),
        )
    };

    let plenty = reading(1.0);
    let half = reading(0.5);
    let scarce = reading(0.1);

    assert!(
        plenty < half && half < scarce,
        "interval must lengthen as quota is consumed: {:?} {:?} {:?}",
        plenty,
        half,
        scarce
    );
}

/// Explicit rate-limit headers win over the quota reading.
#[test]
fn explicit_rate_limit_headers_take_precedence_over_quota() {
    let scheduler = AdaptiveScheduler::new(config(5, 120));

    // Headers say the window is spent; the quota reading says it is fresh.
    let info = RateLimitInfo {
        limit_tokens: Some(100_000),
        remaining_tokens: Some(0),
        limit_requests: None,
        remaining_requests: None,
        reset_at: Some(at(Utc::now() + ChronoDuration::hours(1))),
    };
    let fresh = SubscriptionHeadroom {
        remaining_fraction: 1.0,
        resets_at: Some(Utc::now() + ChronoDuration::hours(5)),
    };

    assert_eq!(
        calculate_interval_with(&scheduler, 0.8, &empty_log(), Some(&info), Some(fresh)),
        Duration::from_secs(120 * 60),
        "exhausted headers must back off despite a fresh quota reading"
    );
}

#[test]
fn test_scheduler_no_remaining_tokens_returns_max() {
    let scheduler = AdaptiveScheduler::new(AmbientSchedulerConfig::default());

    let info = RateLimitInfo {
        limit_tokens: Some(100_000),
        remaining_tokens: Some(0),
        limit_requests: None,
        remaining_requests: None,
        reset_at: Some(at(Utc::now() + ChronoDuration::hours(1))),
    };
    let interval = calculate_interval_with(&scheduler, RESERVE, &empty_log(), Some(&info), None);
    assert_eq!(interval, Duration::from_secs(120 * 60));
}

#[test]
fn test_scheduler_plenty_of_headroom() {
    let scheduler = AdaptiveScheduler::new(config(5, 120));

    let info = RateLimitInfo {
        limit_tokens: Some(1_000_000),
        remaining_tokens: Some(500_000),
        limit_requests: None,
        remaining_requests: None,
        reset_at: Some(at(Utc::now() + ChronoDuration::hours(1))),
    };

    let interval = calculate_interval_with(&scheduler, 0.8, &empty_log(), Some(&info), None);
    // With 500k remaining, 0 user rate, 20% for ambient = 100k budget.
    // Default 10k per cycle => 10 cycles in 60 min => 6 min per cycle.
    let mins = interval.as_secs() as f64 / 60.0;
    assert!((5.0..=10.0).contains(&mins), "expected 5-10 min, got {:.1}", mins);
}

#[test]
fn test_backoff_doubles() {
    let mut scheduler = AdaptiveScheduler::new(config(5, 120));

    let info = RateLimitInfo {
        limit_tokens: Some(1_000_000),
        remaining_tokens: Some(500_000),
        limit_requests: None,
        remaining_requests: None,
        reset_at: Some(at(Utc::now() + ChronoDuration::hours(1))),
    };

    let before = calculate_interval_with(&scheduler, RESERVE, &empty_log(), Some(&info), None);
    scheduler.on_rate_limit_hit();
    let after = calculate_interval_with(&scheduler, RESERVE, &empty_log(), Some(&info), None);

    // After one hit, interval should roughly double (clamped).
    assert!(
        after >= before,
        "after backoff should be >= before: {:?} vs {:?}",
        after,
        before
    );
}

#[test]
fn test_backoff_resets_on_success() {
    let mut scheduler = AdaptiveScheduler::new(AmbientSchedulerConfig::default());

    scheduler.on_rate_limit_hit();
    scheduler.on_rate_limit_hit();
    assert!(scheduler.backoff_multiplier > 1);

    scheduler.on_successful_cycle();
    assert_eq!(scheduler.backoff_multiplier, 1);
}

#[test]
fn test_should_pause() {
    let mut scheduler = AdaptiveScheduler::new(AmbientSchedulerConfig {
        pause_on_active_session: true,
        ..AmbientSchedulerConfig::default()
    });

    assert!(!scheduler.should_pause());
    scheduler.set_user_active(true);
    assert!(scheduler.should_pause());
    scheduler.set_user_active(false);
    assert!(!scheduler.should_pause());
}

#[test]
fn test_prune_removes_old_records() {
    let mut log = empty_log();

    // Record from 25 hours ago (should be pruned).
    log.records.push(UsageRecord {
        timestamp: at(Utc::now() - ChronoDuration::hours(25)),
        source: UsageSource::User,
        tokens_input: 100,
        tokens_output: 100,
        provider: "test".to_string(),
    });

    // Recent record (should survive).
    log.records.push(make_record(UsageSource::User, 200, 5));

    log.prune(&at(Utc::now()));
    assert_eq!(log.records.len(), 1);
    assert_eq!(log.records[0].total_tokens(), 200);
}

fn headroom_scheduler() -> AdaptiveScheduler {
    AdaptiveScheduler::new(config(5, 15))
}

fn headroom(remaining: f32, window: ChronoDuration) -> SubscriptionHeadroom {
    SubscriptionHeadroom { remaining_fraction: remaining, resets_at: Some(Utc::now() + window) }
}

#[test]
fn a_fresh_window_runs_at_the_configured_floor() {
    let scheduler = headroom_scheduler();
    let now = Utc::now();

    let interval =
        headroom_interval(&scheduler, 0.8, &headroom(1.0, ChronoDuration::hours(5)), now);

    assert_eq!(interval, Duration::from_secs(5 * 60));
}

#[test]
fn a_nearly_spent_window_backs_off_to_the_ceiling() {
    let scheduler = headroom_scheduler();
    let now = Utc::now();

    let interval =
        headroom_interval(&scheduler, 0.8, &headroom(0.02, ChronoDuration::hours(5)), now);

    assert_eq!(interval, Duration::from_secs(15 * 60));
}

#[test]
fn an_exhausted_window_backs_off_to_the_ceiling() {
    let scheduler = headroom_scheduler();
    let now = Utc::now();

    let interval =
        headroom_interval(&scheduler, 0.8, &headroom(0.0, ChronoDuration::hours(5)), now);

    assert_eq!(interval, Duration::from_secs(15 * 60));
}

#[test]
fn less_headroom_never_means_a_shorter_interval() {
    let scheduler = headroom_scheduler();
    let now = Utc::now();
    let window = ChronoDuration::hours(5);

    let mut previous = Duration::from_secs(0);
    for step in 0..=20 {
        let remaining = 1.0 - (step as f32 / 20.0);
        let interval = headroom_interval(&scheduler, 0.8, &headroom(remaining, window), now);
        assert!(
            interval >= previous,
            "interval shrank at remaining={}: {:?} < {:?}",
            remaining,
            interval,
            previous
        );
        previous = interval;
    }
}

#[test]
fn the_configured_ceiling_is_never_exceeded() {
    let scheduler = headroom_scheduler();
    let now = Utc::now();

    let interval =
        headroom_interval(&scheduler, 0.8, &headroom(0.001, ChronoDuration::days(7)), now);

    assert!(interval <= Duration::from_secs(15 * 60), "got {:?}", interval);
}

#[test]
fn an_unknown_reset_time_still_produces_a_bounded_interval() {
    let scheduler = headroom_scheduler();

    let interval = headroom_interval(
        &scheduler,
        0.8,
        &SubscriptionHeadroom { remaining_fraction: 0.5, resets_at: None },
        Utc::now(),
    );

    assert!(
        interval >= Duration::from_secs(5 * 60) && interval <= Duration::from_secs(15 * 60),
        "got {:?}",
        interval
    );
}

#[test]
fn a_lapsed_reset_falls_back_instead_of_collapsing_the_window() {
    let scheduler = headroom_scheduler();
    let now = Utc::now();

    let interval = headroom_interval(
        &scheduler,
        0.8,
        &SubscriptionHeadroom {
            remaining_fraction: 1.0,
            resets_at: Some(now - ChronoDuration::minutes(5)),
        },
        now,
    );

    assert_eq!(interval, Duration::from_secs(5 * 60));
}

#[test]
fn rate_limit_backoff_still_applies_to_headroom_intervals() {
    let mut scheduler = headroom_scheduler();
    let now = Utc::now();
    let fresh = headroom(1.0, ChronoDuration::hours(5));

    let before = headroom_interval(&scheduler, 0.8, &fresh, now);
    scheduler.on_rate_limit_hit();
    let after = headroom_interval(&scheduler, 0.8, &fresh, now);

    assert!(after > before, "{:?} should exceed {:?}", after, before);
}

#[test]
fn a_full_user_reserve_leaves_ambient_at_the_ceiling() {
    let scheduler = headroom_scheduler();

    let interval =
        headroom_interval(&scheduler, 1.0, &headroom(1.0, ChronoDuration::hours(5)), Utc::now());

    assert_eq!(interval, Duration::from_secs(15 * 60));
}

#[test]
fn backoff_is_capped() {
    let mut scheduler = headroom_scheduler();
    for _ in 0..20 {
        scheduler.on_rate_limit_hit();
    }
    assert_eq!(scheduler.backoff_multiplier, 64);
    let minutes = |n: u128| n * 60_000_000_000;
    assert_eq!(scheduler.interval_for(Some(minutes(5)), None), minutes(15));
}

#[test]
fn an_interval_is_paced_bounded_and_never_idles_past_a_refill() {
    let scheduler = headroom_scheduler();
    let minutes = |n: u128| n * 60_000_000_000;
    assert_eq!(scheduler.interval_for(Some(minutes(7)), None), minutes(7));
    assert_eq!(scheduler.interval_for(Some(minutes(10)), Some(minutes(6))), minutes(6));
    assert_eq!(scheduler.interval_for(Some(minutes(10)), Some(minutes(1))), minutes(5));
    assert_eq!(scheduler.interval_for(Some(0), None), minutes(5));
}

#[test]
fn headers_decide_the_basis_of_the_pace() {
    let now = Timestamp::from_parts(1_786_120_200, 0);
    assert_eq!(pace_basis(None, true, &now), PaceBasis::Quota);
    assert_eq!(pace_basis(None, false, &now), PaceBasis::Ceiling);
    let mut info = RateLimitInfo {
        limit_tokens: None,
        remaining_tokens: Some(500),
        limit_requests: None,
        remaining_requests: None,
        reset_at: None,
    };
    assert_eq!(
        pace_basis(Some(&info), false, &now),
        PaceBasis::Tokens { remaining: 500, window_secs: 3600 }
    );
    info.reset_at = Some(now.plus_secs(90));
    assert_eq!(
        pace_basis(Some(&info), true, &now),
        PaceBasis::Tokens { remaining: 500, window_secs: 90 }
    );
    info.reset_at = Some(now);
    assert_eq!(pace_basis(Some(&info), true, &now), PaceBasis::Ceiling);
}

#[test]
fn usage_is_saved_every_ten_records() {
    let mut log = UsageLog::new(Vec::new());
    for i in 1..=10 {
        let save = log.record(make_record(UsageSource::User, 10, 0));
        assert_eq!(save, i == 10);
    }
    log.saved();
    assert!(!log.record(make_record(UsageSource::User, 10, 0)));
    assert_eq!(log.records.len(), 11);
}

#[test]
fn a_usage_window_may_end_within_a_second() {
    let now = at(Utc::now());
    let mut log = empty_log();
    let mut used = make_record(UsageSource::User, 500, 0);
    used.timestamp = Timestamp { nanos: now.nanos - 1_500_000_000 };
    log.records.push(used);
    let total = |nanos: u128| log.total_tokens_in_window_at(&UsageSource::User, nanos, &now);
    assert_eq!(total(1_499_999_999), Some(0));
    assert_eq!(total(1_500_000_000), Some(500));
    // A window too long to be represented counts as empty.
    assert_eq!(total(std::time::Duration::MAX.as_nanos()), Some(0));
    assert_eq!(total(i64::MAX as u128 * 1_000_000 + 1), Some(0));
}
