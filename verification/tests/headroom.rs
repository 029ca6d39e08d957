//! Which quota window binds.

use chrono::{DateTime, Utc};
use jcode_ambient::ambient::headroom::{
    anthropic_snapshot_is_usable, binding_headroom, collect_windows, current_subscription_headroom,
    openai_snapshot_is_usable, parse_reset, seconds_until_reset, AnthropicSnapshot, OpenAiSnapshot,
    ProviderWindows, QuotaReading, WindowUtilization,
};
use jcode_ambient::time::Timestamp;

fn at(t: DateTime<Utc>) -> Timestamp {
    Timestamp::from_parts(t.timestamp(), t.timestamp_subsec_nanos())
}

/// The key of a reading: its place in the order of shares from none to all.
fn key(utilization: f32) -> Option<u32> {
    if utilization.is_finite() {
        Some((utilization.clamp(0.0, 1.0) + 0.0).to_bits())
    } else {
        None
    }
}

fn window(utilization: f32, resets_at: Option<DateTime<Utc>>) -> WindowUtilization {
    WindowUtilization { utilization: key(utilization), resets_at: resets_at.map(at) }
}

struct Headroom {
    remaining_fraction: f32,
    resets_at: Option<Timestamp>,
}

fn headroom_of(windows: Vec<WindowUtilization>) -> Option<Headroom> {
    binding_headroom(&windows).map(|w| Headroom {
        remaining_fraction: 1.0 - f32::from_bits(w.utilization.unwrap()),
        resets_at: w.resets_at,
    })
}

#[test]
fn no_reported_windows_is_no_information() {
    assert!(headroom_of(Vec::new()).is_none());
}

#[test]
fn the_most_consumed_window_binds() {
    let headroom = headroom_of(vec![window(0.10, None), window(0.90, None)]).unwrap();

    assert!(
        (headroom.remaining_fraction - 0.10).abs() < 1e-6,
        "expected the 90%-consumed window to bind, got {}",
        headroom.remaining_fraction
    );
}

#[test]
fn windows_from_either_provider_compete_on_equal_terms() {
    let anthropic_first = headroom_of(vec![window(0.20, None), window(0.75, None)]).unwrap();
    let openai_first = headroom_of(vec![window(0.75, None), window(0.20, None)]).unwrap();

    assert_eq!(anthropic_first.remaining_fraction, openai_first.remaining_fraction);
    assert_eq!(anthropic_first.resets_at, openai_first.resets_at);
}

#[test]
fn an_exhausted_window_leaves_no_headroom() {
    let headroom = headroom_of(vec![window(1.0, None)]).unwrap();

    assert_eq!(headroom.remaining_fraction, 0.0);
}

#[test]
fn out_of_range_utilization_is_clamped_not_trusted() {
    let over = headroom_of(vec![window(1.4, None)]).unwrap();
    let under = headroom_of(vec![window(-0.3, None)]).unwrap();

    assert_eq!(over.remaining_fraction, 0.0);
    assert_eq!(under.remaining_fraction, 1.0);
}

#[test]
fn a_non_finite_reading_is_discarded_rather_than_compared() {
    let headroom = headroom_of(vec![window(f32::NAN, None), window(0.5, None)]).unwrap();

    assert!((headroom.remaining_fraction - 0.5).abs() < 1e-6);
}

#[test]
fn only_non_finite_readings_are_no_information() {
    assert!(headroom_of(vec![window(f32::NAN, None)]).is_none());
}

#[test]
fn seconds_until_reset_reports_the_remaining_window() {
    let now = Utc::now();
    let resets_at = Some(at(now + chrono::Duration::minutes(30)));

    let secs = seconds_until_reset(resets_at, &at(now)).unwrap() as f64;
    assert!((secs - 1800.0).abs() < 2.0, "got {}", secs);
}

#[test]
fn a_lapsed_reset_is_unknown_not_zero() {
    let now = Utc::now();
    let resets_at = Some(at(now - chrono::Duration::minutes(5)));

    assert!(seconds_until_reset(resets_at, &at(now)).is_none());
}

#[test]
fn a_missing_reset_is_unknown() {
    assert!(seconds_until_reset(None, &at(Utc::now())).is_none());
}

#[test]
fn reset_timestamps_parse_in_both_shapes_providers_send() {
    let rfc3339 = parse_reset("2026-08-07T16:30:00+00:00").expect("rfc3339");
    let trailing_z = parse_reset("2026-08-07T16:30:00Z").expect("trailing Z");
    let fractional = parse_reset("2026-08-07T16:30:00.123Z").expect("fractional seconds");

    assert_eq!(rfc3339, trailing_z);
    assert_eq!(fractional.timestamp(), trailing_z.timestamp());
    assert_eq!(rfc3339.timestamp(), 1_786_120_200);
    assert_eq!(fractional.subsec_nanos(), 123_000_000);
}

#[test]
fn an_unparseable_reset_is_dropped_rather_than_defaulted() {
    assert!(parse_reset("not a timestamp").is_none());
    assert!(parse_reset("").is_none());
}

#[test]
fn the_binding_window_carries_its_own_reset_time() {
    let now = Utc::now();
    let soon = now + chrono::Duration::minutes(10);
    let later = now + chrono::Duration::hours(20);

    let headroom = headroom_of(vec![window(0.2, Some(later)), window(0.95, Some(soon))])
        .expect("a binding window");

    assert_eq!(headroom.resets_at, Some(at(soon)));
}

#[test]
fn an_errored_snapshot_is_no_information_not_full_headroom() {
    let errored: Vec<WindowUtilization> = Vec::new();
    assert!(
        headroom_of(errored).is_none(),
        "an errored fetch reports no windows, which must stay 'no information'"
    );

    let leaked = headroom_of(vec![window(0.0, None)]).unwrap();
    assert_eq!(
        leaked.remaining_fraction, 1.0,
        "zeroed utilization means a full window, which is why it must not leak"
    );
}

#[test]
fn an_errored_anthropic_snapshot_is_not_usable() {
    assert!(!anthropic_snapshot_is_usable(true, true, true, true));
}

#[test]
fn an_unfetched_anthropic_snapshot_is_not_usable() {
    assert!(!anthropic_snapshot_is_usable(false, false, true, true));
}

#[test]
fn an_anthropic_snapshot_without_any_reset_timestamp_is_not_usable() {
    assert!(!anthropic_snapshot_is_usable(true, false, false, false));
}

#[test]
fn one_anthropic_reset_timestamp_is_enough() {
    assert!(anthropic_snapshot_is_usable(true, false, true, false));
    assert!(anthropic_snapshot_is_usable(true, false, false, true));
}

#[test]
fn an_errored_openai_snapshot_is_not_usable() {
    assert!(!openai_snapshot_is_usable(true, true, false));
    assert!(!openai_snapshot_is_usable(true, true, true));
}

#[test]
fn an_openai_snapshot_without_limits_is_not_usable() {
    assert!(!openai_snapshot_is_usable(true, false, false));
}

#[test]
fn an_unfetched_openai_snapshot_is_not_usable() {
    assert!(!openai_snapshot_is_usable(false, false, true));
}

#[test]
fn a_clean_snapshot_from_either_provider_is_usable() {
    assert!(anthropic_snapshot_is_usable(true, false, true, true));
    assert!(openai_snapshot_is_usable(true, false, true));
}

fn provider(usable: bool, utilizations: &[f32]) -> ProviderWindows {
    ProviderWindows { usable, windows: utilizations.iter().map(|u| window(*u, None)).collect() }
}

#[test]
fn windows_from_both_providers_are_collected() {
    let collected = collect_windows(&provider(true, &[0.1, 0.2]), &provider(true, &[0.3, 0.4]));

    assert_eq!(collected.len(), 4, "every window from both providers counts");
}

#[test]
fn dropping_a_provider_loses_the_binding_constraint() {
    let anthropic = provider(true, &[0.10]);
    let openai = provider(true, &[0.95]);

    let both = headroom_of(collect_windows(&anthropic, &openai)).expect("a window");
    let anthropic_only =
        headroom_of(collect_windows(&anthropic, &provider(false, &[]))).expect("a window");

    assert!(
        (both.remaining_fraction - 0.05).abs() < 1e-6,
        "with both providers the 95%-spent window binds, got {}",
        both.remaining_fraction
    );
    assert!(
        (anthropic_only.remaining_fraction - 0.90).abs() < 1e-6,
        "dropping OpenAI wrongly reports 90% headroom, got {}",
        anthropic_only.remaining_fraction
    );
}

#[test]
fn an_unusable_provider_contributes_no_windows() {
    let collected = collect_windows(&provider(false, &[0.9]), &provider(true, &[0.2]));

    assert_eq!(collected.len(), 1);
    let share = f32::from_bits(collected[0].utilization.unwrap());
    assert!((share - 0.2).abs() < 1e-6);
}

#[test]
fn no_usable_provider_yields_no_windows() {
    assert!(collect_windows(&provider(false, &[0.9]), &provider(false, &[0.1])).is_empty());
    assert!(headroom_of(collect_windows(&provider(false, &[0.9]), &provider(false, &[0.1])))
        .is_none());
}

#[test]
fn snapshots_lead_to_the_binding_window() {
    let reading = |share: f32, reset: Option<&str>| QuotaReading {
        utilization: key(share),
        resets_at: reset.map(str::to_string),
    };
    let anthropic = AnthropicSnapshot {
        fetched: true,
        has_error: false,
        five_hour: reading(0.3, Some("2026-08-07T16:30:00Z")),
        seven_day: reading(0.6, Some("2026-08-09T16:30:00Z")),
    };
    let openai = OpenAiSnapshot {
        fetched: true,
        has_error: false,
        has_limits: true,
        five_hour: Some(reading(0.7, Some("2026-08-07T18:00:00Z"))),
        seven_day: None,
        spark: None,
    };
    let w = current_subscription_headroom(&anthropic, &openai).unwrap();
    assert_eq!(w.utilization, key(0.7));
    assert_eq!(w.resets_at, parse_reset("2026-08-07T18:00:00Z"));

    let silent = OpenAiSnapshot { has_error: true, ..openai };
    let w = current_subscription_headroom(&anthropic, &silent).unwrap();
    assert_eq!(w.utilization, key(0.6));
}
