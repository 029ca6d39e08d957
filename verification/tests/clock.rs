//! Instants, calendars and their texts.

use jcode_ambient::clock::{
    after_gap, day_strike, gap_query, instant_read, local_time, now, read_pattern, read_rfc3339,
    rfc3339, slot_instant, slots_from, strike_query, strikes_from, utc_minute, utc_stamp,
    wall_query, SLOT_DAYS,
};
use jcode_ambient::ordering::{sort_by_rank, top_by_rank};
use jcode_ambient::ambient::survey::StampedName;
use jcode_ambient::text::trim;
use jcode_ambient::time::{
    millis_between, secs_between, weekday_on, TimeOfDay, Timestamp, Weekday, END_SECS, MIN_SECS,
};

/// 2026-08-07T16:30:00Z.
const FRIDAY: i64 = 1_786_120_200;

#[test]
fn the_clock_reads_the_present() {
    let here = now();
    let there = chrono::Utc::now();
    assert!((here.timestamp() - there.timestamp()).abs() < 20);
    assert!(now().nanos >= here.nanos);
}

#[test]
fn an_instant_is_written_in_utc() {
    let t = Timestamp::from_parts(FRIDAY, 0);
    assert_eq!(rfc3339(&t), "2026-08-07T16:30:00+00:00");
    assert_eq!(
        rfc3339(&Timestamp::from_parts(FRIDAY, 123_000_000)),
        "2026-08-07T16:30:00.123+00:00"
    );
    assert_eq!(utc_minute(&t), "2026-08-07 16:30 UTC");
    assert_eq!(utc_stamp(&t), "20260807_163000");
}

#[test]
fn an_instant_is_read_back() {
    let t = Timestamp::from_parts(FRIDAY, 123_000_000);
    assert_eq!(read_rfc3339(&rfc3339(&t)), Some(t));
    assert_eq!(
        read_rfc3339("2026-08-07T18:30:00+02:00"),
        Some(Timestamp::from_parts(FRIDAY, 0))
    );
    assert_eq!(read_rfc3339("yesterday"), None);
    assert_eq!(
        read_pattern("2026-08-07 16:30:00", "%Y-%m-%d %H:%M:%S"),
        Some(Timestamp::from_parts(FRIDAY, 0))
    );
    assert_eq!(read_pattern("2026-08-07", "%Y-%m-%d %H:%M:%S"), None);
}

#[test]
fn instants_before_the_epoch_keep_their_parts() {
    let t = Timestamp::from_parts(-2, 500_000_000);
    assert_eq!(t.timestamp(), -2);
    assert_eq!(t.subsec_nanos(), 500_000_000);
    assert_eq!(secs_between(&t, &Timestamp::from_parts(0, 0)), 1);
    assert_eq!(millis_between(&t, &Timestamp::from_parts(0, 0)), 1500);
}

#[test]
fn the_epoch_was_a_thursday() {
    assert_eq!(weekday_on(0), Weekday::Thu);
    assert_eq!(weekday_on(FRIDAY.div_euclid(86_400)), Weekday::Fri);
    assert_eq!(weekday_on(-1), Weekday::Wed);
}

#[test]
fn local_time_agrees_with_the_calendar() {
    let t = Timestamp::from_parts(FRIDAY, 0);
    let here = chrono::DateTime::from_timestamp(FRIDAY, 0).unwrap().with_timezone(&chrono::Local);
    assert_eq!(local_time(t).wall_secs, here.naive_local().and_utc().timestamp());
    assert_eq!(local_time(t).instant, t);
}

#[test]
fn strikes_follow_one_another_by_a_day() {
    let nine = TimeOfDay::from_hms(9, 0, 0).unwrap();
    let strikes = strikes_from(Timestamp::from_parts(FRIDAY, 0), nine);
    assert!(strikes.len() >= 8);
    for pair in strikes.windows(2) {
        assert_eq!(pair[1].weekday, pair[0].weekday.succ());
    }
    for strike in &strikes {
        if let Some(instant) = strike.instant {
            assert_eq!(local_time(instant).wall_secs.rem_euclid(86_400), 9 * 3600);
        }
    }
}

#[test]
fn text_is_trimmed() {
    assert_eq!(trim("\t a b \n"), "a b");
}

fn stamped(names: &[&str]) -> Vec<StampedName> {
    names.iter().map(|n| StampedName { name: n.to_string() }).collect()
}

#[test]
fn ranking_orders_and_keeps_everything() {
    let ranked = sort_by_rank(stamped(&["a_1", "a_3", "a_2"]));
    let names: Vec<&str> = ranked.iter().map(|s| s.name.as_str()).collect();
    assert_eq!(names, vec!["a_3", "a_2", "a_1"]);
    let top = top_by_rank(stamped(&["a_1", "a_3", "a_2"]), 1);
    assert_eq!(top.len(), 1);
    assert_eq!(top[0].name, "a_3");
}

#[test]
fn a_leap_second_reads_as_the_nanosecond_before_it() {
    assert_eq!(instant_read(5, 7).nanos, 5_000_000_007);
    assert_eq!(instant_read(-1, 999_999_999).nanos, -1);
    assert_eq!(instant_read(5, 1_500_000_000).nanos, 5_999_999_999);
}

#[test]
fn the_first_instant_of_the_calendar_can_be_written() {
    let first = Timestamp::from_parts(MIN_SECS, 0);
    assert_eq!(rfc3339(&first), "-262143-01-01T00:00:00+00:00");
    assert_eq!(utc_minute(&first), "-262143-01-01 00:00 UTC");
    assert_eq!(utc_stamp(&first), "-2621430101_000000");
    let last = Timestamp::from_parts(END_SECS - 1, 0);
    assert_eq!(rfc3339(&last), "+262142-12-31T23:59:59+00:00");
}

#[test]
fn a_strike_is_asked_for_and_read_exactly() {
    let from = Timestamp::from_parts(FRIDAY, 5);
    assert_eq!(wall_query(from, 0), FRIDAY);
    assert_eq!(wall_query(from, 7), FRIDAY + 7 * 86_400);

    let time = TimeOfDay::from_hms(2, 30, 0).unwrap();
    let midnight = FRIDAY - (16 * 3600 + 30 * 60);
    assert_eq!(strike_query(FRIDAY, time), (Weekday::Fri, midnight + 9000));
    assert_eq!(strike_query(midnight, time), (Weekday::Fri, midnight + 9000));
    assert_eq!(strike_query(midnight - 1, time), (Weekday::Thu, midnight - 86_400 + 9000));

    let strike = day_strike(Weekday::Fri, Some(midnight));
    assert_eq!(strike.weekday, Weekday::Fri);
    assert_eq!(strike.instant, Some(Timestamp::from_parts(midnight, 0)));
    assert_eq!(day_strike(Weekday::Sat, None).instant, None);
}

#[test]
fn a_skipped_time_strikes_after_the_jump() {
    // New York, 2026-03-08: the clock goes from 02:00, five hours behind UTC,
    // to 03:00. 02:30 strikes at 07:30 UTC, when the clock shows 03:30.
    let utc = |h: u32, m: u32| {
        chrono::NaiveDate::from_ymd_opt(2026, 3, 8).unwrap().and_hms_opt(h, m, 0).unwrap()
            .and_utc().timestamp()
    };
    let shown = utc(2, 30);
    assert_eq!(gap_query(shown), shown - 86_400);
    let wall_before = gap_query(shown) - 5 * 3600;
    assert_eq!(after_gap(shown, wall_before), utc(7, 30));
    assert_eq!(slot_instant(shown, None, wall_before), utc(7, 30));
    assert_eq!(slot_instant(shown, Some(utc(6, 45)), wall_before), utc(6, 45));
}

#[test]
fn a_job_has_a_slot_on_every_date_ahead() {
    let from = Timestamp::from_parts(FRIDAY, 0);
    let slots = slots_from(from, TimeOfDay::from_hms(2, 30, 0).unwrap());
    assert_eq!(slots.len(), SLOT_DAYS);
    for pair in slots.windows(2) {
        assert_eq!(pair[0].weekday.succ(), pair[1].weekday);
        assert!(pair[0].instant.unwrap().nanos < pair[1].instant.unwrap().nanos);
    }
}
