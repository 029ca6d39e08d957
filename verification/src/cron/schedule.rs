//! Calendar math for recurring jobs: reading `every`/`at` and computing the
//! next fire time.

use crate::ambient::schedule_window::{
    days_named, first_strike, named_days_are_distinct, parse_days, parse_time, pick_strike, picked_strike_is_first,
    time_named,
};
use crate::clock::{
    day_number, plausible_slots, plausible_wall, searchable, shown_on, slots_after, slots_from,
    DayStrike, SLOT_DAYS,
};
use crate::cron::config::CronJobConfig;
use crate::numerals::{all_digits, dec, dec_digits, digits_value, parse_up_to, spelled, without_plus};
use crate::text::{
    all_ascii, ascii_lower, char_is_digit, chars_of, is_digit, is_space, lowercased, owned, space_halves,
    split_once_space, str_eq, to_lowercase, trim, trimmed,
};
use crate::time::{
    day_index, millis_between, truncated, weekday_of, TimeOfDay, Timestamp, Weekday, END_SECS, MIN_SECS, NANOS_PER_MILLI,
    NANOS_PER_SEC, SECS_PER_DAY,
};
use vstd::prelude::*;

verus! {

// ---------------------------------------------------------------------------
// The grammar
// ---------------------------------------------------------------------------

/// How many digits `s` starts with.
pub open spec fn digit_run(s: Seq<char>) -> nat
    decreases s.len(),
{
    if s.len() == 0 || !is_digit(s[0]) {
        0
    } else {
        1 + digit_run(s.drop_first())
    }
}

proof fn digit_run_digits(s: Seq<char>)
    ensures
        digit_run(s) <= s.len(),
        all_digits(s.take(digit_run(s) as int)),
    decreases s.len(),
{
    if s.len() > 0 && is_digit(s[0]) {
        let rest = s.drop_first();
        digit_run_digits(rest);
        let head = s.take(digit_run(s) as int);
        assert forall|i: int| 0 <= i < head.len() implies is_digit(#[trigger] head[i]) by {
            if i > 0 {
                assert(head[i] == rest.take(digit_run(rest) as int)[i - 1]);
            }
        }
    }
}

/// The milliseconds in a named unit of time.
pub open spec fn unit_millis(unit: Seq<char>) -> Option<int> {
    if unit == "s"@ || unit == "sec"@ || unit == "secs"@ || unit == "second"@ || unit == "seconds"@ {
        Some(1_000)
    } else if unit == "m"@ || unit == "min"@ || unit == "mins"@ || unit == "minute"@ || unit
        == "minutes"@ {
        Some(60_000)
    } else if unit == "h"@ || unit == "hr"@ || unit == "hrs"@ || unit == "hour"@ || unit == "hours"@ {
        Some(3_600_000)
    } else if unit == "d"@ || unit == "day"@ || unit == "days"@ {
        Some(86_400_000)
    } else {
        None
    }
}

fn millis_per_unit(unit: &str) -> (r: Option<i64>)
    ensures
        match r {
            Some(n) => unit_millis(unit@) == Some(n as int) && 0 < n <= 86_400_000,
            None => unit_millis(unit@) is None,
        },
{
    if str_eq(unit, "s") || str_eq(unit, "sec") || str_eq(unit, "secs") || str_eq(unit, "second")
        || str_eq(unit, "seconds") {
        Some(1_000)
    } else if str_eq(unit, "m") || str_eq(unit, "min") || str_eq(unit, "mins") || str_eq(
        unit,
        "minute",
    ) || str_eq(unit, "minutes") {
        Some(60_000)
    } else if str_eq(unit, "h") || str_eq(unit, "hr") || str_eq(unit, "hrs") || str_eq(unit, "hour")
        || str_eq(unit, "hours") {
        Some(3_600_000)
    } else if str_eq(unit, "d") || str_eq(unit, "day") || str_eq(unit, "days") {
        Some(86_400_000)
    } else {
        None
    }
}

/// The interval that an `every` spec names, in milliseconds: a positive number
/// followed by a unit, as far as an `i64` holds it.
pub open spec fn every_millis(spec: Seq<char>) -> Option<int> {
    let t = trimmed(spec);
    let n = digit_run(t) as int;
    if n == 0 || n == t.len() {
        None
    } else {
        match unit_millis(trimmed(t.skip(n))) {
            Some(unit) => {
                let millis = digits_value(t.take(n)) * unit;
                if 0 < millis <= i64::MAX {
                    Some(millis)
                } else {
                    None
                }
            },
            None => None,
        }
    }
}

/// Reads an `every` spec: a number followed by `s`/`m`/`h`/`d`. The interval is
/// in milliseconds.
pub fn parse_every(spec: &str) -> (r: Option<i64>)
    ensures
        match r {
            Some(n) => every_millis(spec@) == Some(n as int) && n > 0,
            None => every_millis(spec@) is None,
        },
{
    let t = trim(spec);
    let v = chars_of(t);
    let mut n: usize = 0;
    assert(t@.skip(0) =~= t@);
    while n < v.len() && char_is_digit(v[n])
        invariant
            v@ == t@,
            n <= v@.len(),
            digit_run(t@) == n + digit_run(t@.skip(n as int)),
        decreases v@.len() - n,
    {
        assert(t@.skip(n as int).drop_first() =~= t@.skip(n + 1));
        n = n + 1;
    }
    proof {
        digit_run_digits(t@);
    }
    if n == 0 || n == v.len() {
        return None;
    }
    let num = t.substring_char(0, n);
    let unit = trim(t.substring_char(n, v.len()));
    assert(num@ =~= t@.take(n as int));
    assert(t@.subrange(n as int, v@.len() as int) =~= t@.skip(n as int));
    assert(without_plus(num@) =~= num@) by {
        assert(is_digit(num@[0]));
    }
    let ghost value = digits_value(num@);
    assert(spelled(num@) == Some(value));
    let per = match millis_per_unit(unit) {
        Some(ms) => ms,
        None => return None,
    };
    let count: u64 = match parse_up_to(num, i64::MAX as u64) {
        Some(k) => k,
        None => {
            assert(value > i64::MAX);
            assert(value * per > i64::MAX) by (nonlinear_arith)
                requires
                    value > i64::MAX,
                    per >= 1,
            ;
            return None;
        },
    };
    if count == 0 {
        assert(value * per == 0) by (nonlinear_arith)
            requires
                value == 0,
        ;
        return None;
    }
    assert(value * per > 0) by (nonlinear_arith)
        requires
            value > 0,
            per > 0,
    ;
    (count as i64).checked_mul(per)
}

/// A parsed `at` schedule: fire at `time` on each of `days`.
#[derive(Debug, Clone, PartialEq, Eq)]
pub struct AtSchedule {
    pub days: Vec<Weekday>,
    pub time: TimeOfDay,
}

/// The days and time that a lowercase `at` spec without outer white space
/// names.
pub open spec fn at_named(low: Seq<char>) -> Option<(Seq<Weekday>, TimeOfDay)> {
    match space_halves(low) {
        None => None,
        Some((d, t)) => match (days_named(d), time_named(trimmed(t))) {
            (Some(days), Some(time)) => Some((days, time)),
            _ => None,
        },
    }
}

pub open spec fn opt_at_view(s: Option<AtSchedule>) -> Option<(Seq<Weekday>, TimeOfDay)> {
    match s {
        Some(a) => Some((a.days@, a.time)),
        None => None,
    }
}

/// Reads an `at` spec that is lowercase and trimmed already.
pub fn parse_lowercase_at(low: &str) -> (r: Option<AtSchedule>)
    ensures
        opt_at_view(r) == at_named(low@),
        r matches Some(a) ==> a.time.valid(),
{
    let (days_part, time_part) = match split_once_space(low) {
        Some(p) => p,
        None => return None,
    };
    let days = match parse_days(days_part) {
        Some(d) => d,
        None => return None,
    };
    match parse_time(trim(time_part)) {
        Some(time) => Some(AtSchedule { days, time }),
        None => None,
    }
}

/// Reads an `at` spec: `<days> HH:MM`, with the day grammar of the activity
/// windows.
pub fn parse_at(spec: &str) -> (r: Option<AtSchedule>)
    ensures
        opt_at_view(r) == at_named(lowercased(trimmed(spec@))),
        all_ascii(trimmed(spec@)) ==> opt_at_view(r) == at_named(ascii_lower(trimmed(spec@))),
        r matches Some(a) ==> a.time.valid(),
{
    let low = to_lowercase(trim(spec));
    parse_lowercase_at(low.as_str())
}

// ---------------------------------------------------------------------------
// Fixed intervals
// ---------------------------------------------------------------------------

/// The instant `millis` milliseconds after `t`.
pub open spec fn after_millis(t: Timestamp, millis: int) -> Timestamp {
    Timestamp { nanos: (t.nanos + millis * NANOS_PER_MILLI) as i128 }
}

/// The next slot of a fixed-interval job. A job without history is due now when
/// it catches up, one interval from now when it does not. A slot that was
/// missed is due as it stands when the job catches up; when it does not, every
/// slot up to `now` is passed over.
pub open spec fn every_slot(
    interval: int,
    last_run: Option<Timestamp>,
    now: Timestamp,
    catch_up: bool,
) -> Option<Timestamp> {
    if interval <= 0 {
        None
    } else {
        match last_run {
            None => if catch_up {
                Some(now)
            } else {
                Some(after_millis(now, interval))
            },
            Some(last) => {
                let due = after_millis(last, interval);
                if due.nanos > now.nanos || catch_up {
                    Some(due)
                } else {
                    let elapsed = truncated(now.nanos - last.nanos, NANOS_PER_MILLI as int);
                    Some(after_millis(last, interval * (elapsed / interval + 1)))
                }
            },
        }
    }
}

/// The slots that an interval leads to are on the calendar: the one after the
/// last run, and the one that is next.
pub open spec fn every_in_range(
    interval: int,
    last_run: Option<Timestamp>,
    now: Timestamp,
    catch_up: bool,
) -> bool {
    &&& now.valid()
    &&& last_run matches Some(last) ==> last.valid() && last.reaches(interval * NANOS_PER_MILLI)
    &&& every_slot(interval, last_run, now, catch_up) matches Some(t) ==> t.valid()
}

/// How long after `last` the first slot past `now` is, in milliseconds, when the
/// slot after `last` was missed.
fn millis_to_next_slot(last: &Timestamp, now: &Timestamp, interval_ms: i64) -> (r: i64)
    requires
        last.valid(),
        now.valid(),
        interval_ms > 0,
        last.nanos + interval_ms * NANOS_PER_MILLI <= now.nanos,
    ensures
        r == interval_ms * (truncated(now.nanos - last.nanos, NANOS_PER_MILLI as int)
            / interval_ms as int + 1),
        r * NANOS_PER_MILLI <= now.nanos - last.nanos + interval_ms * NANOS_PER_MILLI,
        r >= 0,
{
    let elapsed: i64 = millis_between(last, now);
    proof {
        passed_slots(*last, *now, interval_ms as int, elapsed as int);
    }
    let periods: i64 = elapsed / interval_ms + 1;
    assert(interval_ms * periods <= elapsed + interval_ms) by (nonlinear_arith)
        requires
            periods == elapsed as int / interval_ms as int + 1,
            interval_ms > 0,
            elapsed >= 0,
    ;
    assert(interval_ms * periods >= 0) by (nonlinear_arith)
        requires
            periods >= 0,
            interval_ms > 0,
    ;
    interval_ms * periods
}

/// The next fire time of a fixed-interval job.
pub fn next_fire_every(
    interval_ms: i64,
    last_run: Option<Timestamp>,
    now: Timestamp,
    catch_up: bool,
) -> (r: Option<Timestamp>)
    requires
        interval_ms > 0 ==> every_in_range(interval_ms as int, last_run, now, catch_up),
    ensures
        r == every_slot(interval_ms as int, last_run, now, catch_up),
        r matches Some(t) ==> t.valid(),
{
    if interval_ms <= 0 {
        return None;
    }
    match last_run {
        None => if catch_up {
            Some(now)
        } else {
            Some(now.plus_millis(interval_ms))
        },
        Some(last) => {
            let due = last.plus_millis(interval_ms);
            if due.nanos > now.nanos || catch_up {
                return Some(due);
            }
            let step: i64 = millis_to_next_slot(&last, &now, interval_ms);
            Some(last.plus_millis(step))
        },
    }
}

/// The first slot past `now` is more than `now` and at most one interval away.
proof fn passed_slots(last: Timestamp, now: Timestamp, interval: int, elapsed: int)
    requires
        interval > 0,
        last.nanos + interval * NANOS_PER_MILLI <= now.nanos,
        elapsed == truncated(now.nanos - last.nanos, NANOS_PER_MILLI as int),
    ensures
        elapsed >= interval,
        elapsed * NANOS_PER_MILLI <= now.nanos - last.nanos < (elapsed + 1) * NANOS_PER_MILLI,
        elapsed < interval * (elapsed / interval + 1) <= elapsed + interval,
{
    let q = elapsed / interval;
    vstd::arithmetic::div_mod::lemma_fundamental_div_mod(elapsed, interval);
    assert(interval * (q + 1) == interval * q + interval) by (nonlinear_arith);
}

/// A job that does not catch up is never due in the past: its next slot lies
/// after `now`, by at most one interval, and on the grid that its last run set.
pub proof fn skipped_slots_are_not_fired(
    interval: int,
    last: Timestamp,
    now: Timestamp,
)
    requires
        interval > 0,
        every_in_range(interval, Some(last), now, false),
        last.nanos <= now.nanos,
    ensures
        every_slot(interval, Some(last), now, false) matches Some(t) && {
            &&& now.nanos < t.nanos <= now.nanos + interval * NANOS_PER_MILLI
            &&& exists|k: int|
                k >= 1 && t.nanos == last.nanos + #[trigger] (k * interval) * NANOS_PER_MILLI
        },
{
    let due = after_millis(last, interval);
    if due.nanos > now.nanos {
        assert(1 * interval == interval);
        assert(due.nanos == last.nanos + (1 * interval) * NANOS_PER_MILLI);
    } else {
        let elapsed = truncated(now.nanos - last.nanos, NANOS_PER_MILLI as int);
        passed_slots(last, now, interval, elapsed);
        let k = elapsed / interval + 1;
        assert(interval * k == k * interval) by (nonlinear_arith);
        assert(k >= 1) by (nonlinear_arith)
            requires
                k == elapsed / interval + 1,
                elapsed >= 0,
                interval > 0,
        ;
        let t = after_millis(last, interval * k);
        assert(t.nanos == last.nanos + (k * interval) * NANOS_PER_MILLI);
    }
}

/// A job that catches up fires at the first slot it missed, one interval after
/// its last run, however long ago that was.
pub proof fn catching_up_fires_the_first_missed_slot(
    interval: int,
    last: Timestamp,
    now: Timestamp,
)
    requires
        interval > 0,
    ensures
        every_slot(interval, Some(last), now, true) == Some(after_millis(last, interval)),
{
}

/// A fixed-interval job without history is due at once when it catches up, and
/// one interval from now when it does not.
pub proof fn a_first_interval(interval: int, now: Timestamp)
    requires
        interval > 0,
        now.valid(),
        now.reaches(interval * NANOS_PER_MILLI),
    ensures
        every_slot(interval, None, now, true) == Some(now),
        every_slot(interval, None, now, false) matches Some(t) && t.nanos == now.nanos + interval
            * 1_000_000,
{
}

/// A fixed-interval job that has run keeps to the grid that its last run set. One
/// that catches up is due one interval after its last run, whatever the present
/// is. One that does not is due at the first point of the grid after its last run
/// that is still to come.
pub proof fn intervals_keep_to_the_grid(
    interval: int,
    last: Timestamp,
    now: Timestamp,
    catch_up: bool,
)
    requires
        interval > 0,
        every_in_range(interval, Some(last), now, catch_up),
    ensures
        every_slot(interval, Some(last), now, catch_up) matches Some(t) && {
            &&& catch_up ==> t.nanos == last.nanos + interval * 1_000_000
            &&& !catch_up ==> t.nanos > now.nanos
            &&& t.nanos == last.nanos + interval * 1_000_000 || t.nanos - interval * 1_000_000
                <= now.nanos
            &&& exists|k: int|
                k >= 1 && t.nanos == last.nanos + #[trigger] (k * interval) * 1_000_000
        },
{
    let due = after_millis(last, interval);
    assert(1 * interval == interval);
    assert(due.nanos == last.nanos + (1 * interval) * 1_000_000);
    if !catch_up && due.nanos <= now.nanos {
        skipped_slots_are_not_fired(interval, last, now);
    }
}

// ---------------------------------------------------------------------------
// Wall-clock times
// ---------------------------------------------------------------------------

/// The instant one second after `t`.
pub open spec fn second_after(t: Timestamp) -> Timestamp {
    Timestamp { nanos: (t.nanos + NANOS_PER_SEC) as i128 }
}

/// When the time of a wall-clock job strikes on the days ahead of the three
/// instants that matter: `now`, just after the last run, and just after `now`.
#[derive(Debug)]
pub struct AtStrikes {
    pub from_now: Vec<DayStrike>,
    pub after_last: Vec<DayStrike>,
    pub after_now: Vec<DayStrike>,
}

/// The next slot of a wall-clock job. A job without history waits for its next
/// occurrence. One with history is due at the first occurrence strictly after
/// its last run; when that was missed and the job does not catch up, it waits
/// for the first occurrence strictly after `now`.
pub open spec fn at_slot(
    days: Seq<Weekday>,
    last_run: Option<Timestamp>,
    now: Timestamp,
    catch_up: bool,
    from_now: Seq<DayStrike>,
    after_last: Seq<DayStrike>,
    after_now: Seq<DayStrike>,
) -> Option<Timestamp> {
    match last_run {
        None => first_strike(from_now, days, now),
        Some(last) => match first_strike(after_last, days, second_after(last)) {
            None => None,
            Some(t) => if t.nanos > now.nanos || catch_up {
                Some(t)
            } else {
                first_strike(after_now, days, second_after(now))
            },
        },
    }
}

/// The next fire time of a wall-clock job, given when its time strikes.
pub fn next_fire_at_with(
    spec: &AtSchedule,
    last_run: Option<Timestamp>,
    now: Timestamp,
    catch_up: bool,
    strikes: &AtStrikes,
) -> (r: Option<Timestamp>)
    requires
        now.valid() && now.reaches(NANOS_PER_SEC as int),
        last_run matches Some(last) ==> last.valid() && last.reaches(NANOS_PER_SEC as int),
    ensures
        r == at_slot(
            spec.days@,
            last_run,
            now,
            catch_up,
            strikes.from_now@,
            strikes.after_last@,
            strikes.after_now@,
        ),
{
    match last_run {
        None => pick_strike(&strikes.from_now, &spec.days, now),
        Some(last) => {
            match pick_strike(&strikes.after_last, &spec.days, last.plus_secs(1)) {
                None => None,
                Some(t) => {
                    if t.nanos > now.nanos || catch_up {
                        Some(t)
                    } else {
                        pick_strike(&strikes.after_now, &spec.days, now.plus_secs(1))
                    }
                },
            }
        },
    }
}

/// The searches of a wall-clock job stay on the calendar.
pub open spec fn at_in_range(last_run: Option<Timestamp>, now: Timestamp) -> bool {
    &&& searchable(now)
    &&& searchable(second_after(now))
    &&& last_run matches Some(last) ==> searchable(last) && searchable(second_after(last))
}

/// `t` is a next slot that the wall clock may give a job that fires at `time`
/// on `days`.
pub open spec fn possible_at_slot(
    days: Seq<Weekday>,
    time: TimeOfDay,
    last_run: Option<Timestamp>,
    now: Timestamp,
    catch_up: bool,
    t: Option<Timestamp>,
) -> bool {
    exists|a: Seq<DayStrike>, b: Seq<DayStrike>, c: Seq<DayStrike>|
        {
            &&& plausible_slots(a, now, time)
            &&& last_run matches Some(last) ==> plausible_slots(b, second_after(last), time)
            &&& plausible_slots(c, second_after(now), time)
            &&& t == #[trigger] at_slot(days, last_run, now, catch_up, a, b, c)
        }
}

/// The next fire time of a wall-clock job, evaluated in local time.
pub fn next_fire_at(
    spec: &AtSchedule,
    last_run: Option<Timestamp>,
    now: Timestamp,
    catch_up: bool,
) -> (r: Option<Timestamp>)
    requires
        spec.time.valid(),
        at_in_range(last_run, now),
    ensures
        possible_at_slot(spec.days@, spec.time, last_run, now, catch_up, r),
        spec.days@.len() > 0 ==> r is Some,
{
    let from_now = slots_from(now, spec.time);
    let after_last = match last_run {
        Some(last) => slots_from(last.plus_secs(1), spec.time),
        None => Vec::new(),
    };
    let after_now = slots_from(now.plus_secs(1), spec.time);
    let strikes = AtStrikes { from_now, after_last, after_now };
    let r = next_fire_at_with(spec, last_run, now, catch_up, &strikes);
    assert(r == at_slot(
        spec.days@,
        last_run,
        now,
        catch_up,
        strikes.from_now@,
        strikes.after_last@,
        strikes.after_now@,
    ));
    proof {
        if spec.days@.len() > 0 {
            listed_days_have_slots(spec.days@, spec.time, last_run, now, catch_up, r);
        }
    }
    r
}

/// A search finds a slot whenever one of the listed days in it strikes, and not
/// before its start.
pub proof fn a_strike_is_found(strikes: Seq<DayStrike>, days: Seq<Weekday>, from: Timestamp, k: int)
    requires
        0 <= k < strikes.len(),
        days.contains(strikes[k].weekday),
        strikes[k].instant matches Some(t) && t.nanos >= from.nanos,
    ensures
        first_strike(strikes, days, from) is Some,
{
    picked_strike_is_first(strikes, days, from);
}

/// Among the dates that a job's slot is looked for on, every day of the week
/// strikes at or after the start of the search.
pub proof fn every_day_strikes(
    strikes: Seq<DayStrike>,
    days: Seq<Weekday>,
    from: Timestamp,
    time: TimeOfDay,
)
    requires
        plausible_slots(strikes, from, time),
        days.len() > 0,
    ensures
        first_strike(strikes, days, from) is Some,
{
    let wall: int = choose|wall: int|
        plausible_wall(wall, from.secs()) && #[trigger] slots_after(strikes, wall, time);
    let day = days[0];
    let k: int = 3 + (day_index(day) - (day_number(wall) + 6)) % 7;
    let at: int = wall + k * SECS_PER_DAY;
    assert(strikes[k].instant is Some);
    assert(day_number(at) == day_number(wall) + k);
    assert(weekday_of(day_number(at)) == day);
    assert(days.contains(strikes[k].weekday));
    assert(shown_on(at, time) - SECS_PER_DAY > from.secs());
    a_strike_is_found(strikes, days, from, k);
}

/// A wall-clock job that lists a day always has a next slot, whatever the
/// machine's time zone does to its hour.
pub proof fn listed_days_have_slots(
    days: Seq<Weekday>,
    time: TimeOfDay,
    last_run: Option<Timestamp>,
    now: Timestamp,
    catch_up: bool,
    slot: Option<Timestamp>,
)
    requires
        days.len() > 0,
        possible_at_slot(days, time, last_run, now, catch_up, slot),
    ensures
        slot is Some,
{
    let (a, b, c) = choose|a: Seq<DayStrike>, b: Seq<DayStrike>, c: Seq<DayStrike>|
        {
            &&& plausible_slots(a, now, time)
            &&& last_run matches Some(last) ==> plausible_slots(b, second_after(last), time)
            &&& plausible_slots(c, second_after(now), time)
            &&& slot == #[trigger] at_slot(days, last_run, now, catch_up, a, b, c)
        };
    every_day_strikes(a, days, now, time);
    every_day_strikes(c, days, second_after(now), time);
    if let Some(last) = last_run {
        every_day_strikes(b, days, second_after(last), time);
    }
}

/// A wall-clock job waits for its hour. Without history it is never due before
/// `now`; with history it is due strictly after its last run; and one that does
/// not catch up is never due in the past.
pub proof fn wall_clock_jobs_wait(
    days: Seq<Weekday>,
    last_run: Option<Timestamp>,
    now: Timestamp,
    catch_up: bool,
    from_now: Seq<DayStrike>,
    after_last: Seq<DayStrike>,
    after_now: Seq<DayStrike>,
)
    requires
        now.valid(),
        last_run matches Some(last) ==> last.valid(),
    ensures
        at_slot(days, last_run, now, catch_up, from_now, after_last, after_now) matches Some(t)
            ==> {
            &&& last_run is None ==> t.nanos >= now.nanos
            &&& last_run matches Some(last) ==> t.nanos > last.nanos
            &&& last_run is Some && !catch_up ==> t.nanos > now.nanos
        },
{
    picked_strike_is_first(from_now, days, now);
    picked_strike_is_first(after_now, days, second_after(now));
    if let Some(last) = last_run {
        picked_strike_is_first(after_last, days, second_after(last));
    }
}

/// `t` is the first strike on a listed day that is not before `from_nanos`, in
/// the order of the dates; `None` when there is none.
pub open spec fn is_first_listed(
    t: Option<Timestamp>,
    strikes: Seq<DayStrike>,
    days: Seq<Weekday>,
    from_nanos: int,
) -> bool {
    match t {
        Some(t) => exists|k: int|
            {
                &&& 0 <= k < strikes.len()
                &&& (#[trigger] strikes[k]).instant == Some(t)
                &&& days.contains(strikes[k].weekday)
                &&& t.nanos >= from_nanos
                &&& forall|j: int|
                    0 <= j < k && days.contains((#[trigger] strikes[j]).weekday) ==> (
                    strikes[j].instant matches Some(u) ==> u.nanos < from_nanos)
            },
        None => forall|j: int|
            0 <= j < strikes.len() && days.contains((#[trigger] strikes[j]).weekday) ==> (
            strikes[j].instant matches Some(u) ==> u.nanos < from_nanos),
    }
}

/// A wall-clock job that has run and catches up is due at its first occurrence
/// after its last run, at least a second later, however long ago that was: the
/// present does not matter.
pub proof fn catching_up_ignores_the_present(
    days: Seq<Weekday>,
    last: Timestamp,
    after_last: Seq<DayStrike>,
    now: Timestamp,
    from_now: Seq<DayStrike>,
    after_now: Seq<DayStrike>,
    other_now: Timestamp,
    from_other: Seq<DayStrike>,
    after_other: Seq<DayStrike>,
)
    requires
        last.valid(),
    ensures
        is_first_listed(
            at_slot(days, Some(last), now, true, from_now, after_last, after_now),
            after_last,
            days,
            last.nanos + 1_000_000_000,
        ),
        at_slot(days, Some(last), now, true, from_now, after_last, after_now) == at_slot(
            days,
            Some(last),
            other_now,
            true,
            from_other,
            after_last,
            after_other,
        ),
{
    picked_strike_is_first(after_last, days, second_after(last));
}

/// A wall-clock job that has not run yet is due at its first occurrence from now
/// on, whether it catches up or not.
pub proof fn a_first_run_waits_for_its_hour(
    days: Seq<Weekday>,
    now: Timestamp,
    catch_up: bool,
    from_now: Seq<DayStrike>,
    after_last: Seq<DayStrike>,
    after_now: Seq<DayStrike>,
)
    ensures
        is_first_listed(
            at_slot(days, None, now, catch_up, from_now, after_last, after_now),
            from_now,
            days,
            now.nanos as int,
        ),
{
    picked_strike_is_first(from_now, days, now);
}

/// A wall-clock job that has run and does not catch up is due at its first
/// occurrence after its last run while that is still to come; once it has passed,
/// at the first occurrence at least a second from now.
pub proof fn a_missed_hour_is_passed_over(
    days: Seq<Weekday>,
    last: Timestamp,
    now: Timestamp,
    from_now: Seq<DayStrike>,
    after_last: Seq<DayStrike>,
    after_now: Seq<DayStrike>,
    first: Option<Timestamp>,
)
    requires
        last.valid(),
        now.valid(),
        is_first_listed(first, after_last, days, last.nanos + 1_000_000_000),
    ensures
        match first {
            None => at_slot(days, Some(last), now, false, from_now, after_last, after_now) is None,
            Some(t) if t.nanos > now.nanos => at_slot(
                days,
                Some(last),
                now,
                false,
                from_now,
                after_last,
                after_now,
            ) == Some(t),
            Some(_) => is_first_listed(
                at_slot(days, Some(last), now, false, from_now, after_last, after_now),
                after_now,
                days,
                now.nanos + 1_000_000_000,
            ),
        },
{
    picked_strike_is_first(after_last, days, second_after(last));
    picked_strike_is_first(after_now, days, second_after(now));
    let picked = first_strike(after_last, days, second_after(last));
    first_listed_is_unique(first, picked, after_last, days, last.nanos + 1_000_000_000);
}

proof fn first_listed_is_unique(
    s: Option<Timestamp>,
    t: Option<Timestamp>,
    strikes: Seq<DayStrike>,
    days: Seq<Weekday>,
    from_nanos: int,
)
    requires
        is_first_listed(s, strikes, days, from_nanos),
        is_first_listed(t, strikes, days, from_nanos),
    ensures
        s == t,
{
}

/// When `time` would strike on the dates ahead of `from` on a machine whose clock
/// shows UTC.
spec fn utc_slots(from: Timestamp, time: TimeOfDay) -> Seq<DayStrike> {
    Seq::new(
        SLOT_DAYS as nat,
        |k: int|
            DayStrike {
                weekday: weekday_of(day_number(from.secs() + k * SECS_PER_DAY)),
                instant: Some(
                    Timestamp {
                        nanos: (shown_on(from.secs() + k * SECS_PER_DAY, time) * NANOS_PER_SEC) as i128,
                    },
                ),
            },
    )
}

proof fn utc_slots_are_plausible(from: Timestamp, time: TimeOfDay)
    requires
        searchable(from),
        time.valid(),
    ensures
        plausible_slots(utc_slots(from, time), from, time),
{
    assert(plausible_wall(from.secs(), from.secs()));
    assert(slots_after(utc_slots(from, time), from.secs(), time));
}

/// A job that fires at a time of day, has run and catches up may be due at the
/// same instants whatever the present is: a machine that was off for long still
/// owes the first run it missed.
pub proof fn a_missed_run_is_owed_however_late(
    job: CronJobConfig,
    last: Timestamp,
    now: Timestamp,
    later: Timestamp,
    r: Option<Timestamp>,
)
    requires
        job.every is None,
        job.catch_up,
        at_in_range(Some(last), later),
        possible_fire(job, Some(last), now, r),
        job.at matches Some(at) ==> (at_named(lowercased(trimmed(at@))) matches Some((_, time))
            ==> time.valid()),
    ensures
        possible_fire(job, Some(last), later, r),
{
    if job.enabled {
        if let Some(at) = job.at {
            if let Some((days, time)) = at_named(lowercased(trimmed(at@))) {
                let (a, b, c) = choose|a: Seq<DayStrike>, b: Seq<DayStrike>, c: Seq<DayStrike>|
                    {
                        &&& plausible_slots(a, now, time)
                        &&& plausible_slots(b, second_after(last), time)
                        &&& plausible_slots(c, second_after(now), time)
                        &&& r == #[trigger] at_slot(days, Some(last), now, true, a, b, c)
                    };
                let d = utc_slots(later, time);
                let e = utc_slots(second_after(later), time);
                utc_slots_are_plausible(later, time);
                utc_slots_are_plausible(second_after(later), time);
                catching_up_ignores_the_present(days, last, b, now, a, c, later, d, e);
                assert(r == at_slot(days, Some(last), later, true, d, b, e));
            }
        }
    }
}

// ---------------------------------------------------------------------------
// Jobs
// ---------------------------------------------------------------------------

/// The slots of a job are on the calendar.
pub open spec fn job_in_range(job: CronJobConfig, last_run: Option<Timestamp>, now: Timestamp) -> bool {
    match job.every {
        Some(every) => every_millis(every@) matches Some(ms) ==> every_in_range(
            ms,
            last_run,
            now,
            job.catch_up,
        ),
        None => job.at is Some ==> at_in_range(last_run, now),
    }
}

/// Whether the search ahead of `from` stays on the calendar.
pub fn is_searchable(from: &Timestamp) -> (r: bool)
    ensures
        r == searchable(*from),
{
    if from.nanos < MIN_SECS as i128 * NANOS_PER_SEC || from.nanos >= END_SECS as i128
        * NANOS_PER_SEC {
        return false;
    }
    let secs: i64 = from.timestamp();
    secs - 3 * SECS_PER_DAY >= MIN_SECS + 2 * SECS_PER_DAY && secs + 11 * SECS_PER_DAY < END_SECS
        - 2 * SECS_PER_DAY
}

fn reaches_millis(t: &Timestamp, millis: i64) -> (r: bool)
    ensures
        r == (t.valid() && t.reaches(millis * NANOS_PER_MILLI)),
{
    if t.nanos < MIN_SECS as i128 * NANOS_PER_SEC || t.nanos >= END_SECS as i128 * NANOS_PER_SEC {
        return false;
    }
    let end: i128 = t.nanos + millis as i128 * NANOS_PER_MILLI;
    MIN_SECS as i128 * NANOS_PER_SEC <= end && end < END_SECS as i128 * NANOS_PER_SEC
}

/// Whether the slots that an interval leads to are on the calendar.
fn fits_every(interval_ms: i64, last_run: Option<Timestamp>, now: Timestamp, catch_up: bool) -> (r: bool)
    requires
        interval_ms > 0,
    ensures
        r == every_in_range(interval_ms as int, last_run, now, catch_up),
{
    match last_run {
        None => if catch_up {
            now.is_valid()
        } else {
            reaches_millis(&now, interval_ms)
        },
        Some(last) => {
            if !now.is_valid() || !reaches_millis(&last, interval_ms) {
                return false;
            }
            let due = last.plus_millis(interval_ms);
            if due.nanos > now.nanos || catch_up {
                return true;
            }
            let step: i64 = millis_to_next_slot(&last, &now, interval_ms);
            reaches_millis(&last, step)
        },
    }
}

/// Whether the slots of a job are on the calendar.
pub fn fits_calendar(job: &CronJobConfig, last_run: Option<Timestamp>, now: Timestamp) -> (r: bool)
    ensures
        r == job_in_range(*job, last_run, now),
{
    if let Some(every) = &job.every {
        return match parse_every(every.as_str()) {
            Some(ms) => fits_every(ms, last_run, now, job.catch_up),
            None => true,
        };
    }
    if job.at.is_none() {
        return true;
    }
    if !is_searchable(&now) || !is_searchable(&now.plus_secs(1)) {
        return false;
    }
    match last_run {
        Some(last) => is_searchable(&last) && is_searchable(&last.plus_secs(1)),
        None => true,
    }
}

/// `r` is a next fire time that `job` may have. A disabled job and one whose
/// schedule does not parse have none. An interval job has exactly one; that of
/// a wall-clock job is up to the machine's time zone.
pub open spec fn possible_fire(
    job: CronJobConfig,
    last_run: Option<Timestamp>,
    now: Timestamp,
    r: Option<Timestamp>,
) -> bool {
    if !job.enabled {
        r is None
    } else {
        match (job.every, job.at) {
            (Some(every), _) => match every_millis(every@) {
                Some(ms) => r == every_slot(ms, last_run, now, job.catch_up),
                None => r is None,
            },
            (None, Some(at)) => match at_named(lowercased(trimmed(at@))) {
                Some((days, time)) => possible_at_slot(
                    days,
                    time,
                    last_run,
                    now,
                    job.catch_up,
                    r,
                ),
                None => r is None,
            },
            (None, None) => r is None,
        }
    }
}

/// The schedule of `job` parses.
pub open spec fn schedule_parses(job: CronJobConfig) -> bool {
    match (job.every, job.at) {
        (Some(every), _) => every_millis(every@) is Some,
        (None, Some(at)) => at_named(lowercased(trimmed(at@))) is Some,
        (None, None) => false,
    }
}

/// An enabled job whose schedule parses always has a next fire time, and no
/// other job has one.
pub proof fn a_valid_schedule_fires(
    job: CronJobConfig,
    last_run: Option<Timestamp>,
    now: Timestamp,
    r: Option<Timestamp>,
)
    requires
        possible_fire(job, last_run, now, r),
    ensures
        r is Some <==> job.enabled && schedule_parses(job),
{
    if job.every is None {
        if let Some(at) = job.at {
            let low = lowercased(trimmed(at@));
            if let Some((days, time)) = at_named(low) {
                if let Some((d, _)) = space_halves(low) {
                    named_days_are_distinct(d);
                }
                if job.enabled {
                    listed_days_have_slots(days, time, last_run, now, job.catch_up, r);
                }
            }
        }
    }
}

/// The next fire time of `job`, or `None` when the job is disabled or its
/// schedule does not parse. A time at or before `now` means that the job is due.
pub fn next_fire(job: &CronJobConfig, last_run: Option<Timestamp>, now: Timestamp) -> (r: Option<
    Timestamp,
>)
    requires
        job.enabled ==> job_in_range(*job, last_run, now),
    ensures
        possible_fire(*job, last_run, now, r),
        r is None <==> !job.enabled || !schedule_parses(*job),
{
    let r = fire_of(job, last_run, now);
    proof {
        a_valid_schedule_fires(*job, last_run, now, r);
    }
    r
}

fn fire_of(job: &CronJobConfig, last_run: Option<Timestamp>, now: Timestamp) -> (r: Option<
    Timestamp,
>)
    requires
        job.enabled ==> job_in_range(*job, last_run, now),
    ensures
        possible_fire(*job, last_run, now, r),
{
    if !job.enabled {
        return None;
    }
    if let Some(every) = &job.every {
        return match parse_every(every.as_str()) {
            Some(interval) => next_fire_every(interval, last_run, now, job.catch_up),
            None => None,
        };
    }
    if let Some(at) = &job.at {
        return match parse_at(at.as_str()) {
            Some(spec) => next_fire_at(&spec, last_run, now, job.catch_up),
            None => None,
        };
    }
    None
}

/// The description of a job's schedule: the spec as it was configured.
pub open spec fn schedule_text(job: CronJobConfig) -> Seq<char> {
    match (job.every, job.at) {
        (Some(every), _) => "every "@ + every@,
        (None, Some(at)) => "at "@ + at@,
        (None, None) => "invalid (no every/at)"@,
    }
}

/// A short human description of a job's schedule.
pub fn describe_schedule(job: &CronJobConfig) -> (r: String)
    ensures
        r@ == schedule_text(*job),
{
    if let Some(every) = &job.every {
        let mut out = owned("every ");
        out.append(every.as_str());
        return out;
    }
    if let Some(at) = &job.at {
        let mut out = owned("at ");
        out.append(at.as_str());
        return out;
    }
    owned("invalid (no every/at)")
}

/// A number and a unit name that many units, with or without a space between them:
/// seconds, or minutes of sixty seconds, or hours of sixty minutes, or days of
/// twenty-four hours.
pub proof fn units_are_multiples(n: nat)
    requires
        n > 0,
    ensures
        n * 1_000 <= i64::MAX ==> every_millis(dec(n) + "s"@) == Some((n * 1_000) as int),
        n * 60_000 <= i64::MAX ==> every_millis(dec(n) + "m"@) == every_millis(dec(60 * n) + "s"@),
        n * 3_600_000 <= i64::MAX ==> every_millis(dec(n) + "h"@) == every_millis(
            dec(60 * n) + "m"@,
        ),
        n * 86_400_000 <= i64::MAX ==> every_millis(dec(n) + "d"@) == every_millis(
            dec(24 * n) + "h"@,
        ),
        every_millis(dec(n) + "s"@) == every_millis(dec(n) + " seconds"@),
        every_millis(dec(n) + "m"@) == every_millis(dec(n) + " minutes"@),
        every_millis(dec(n) + "h"@) == every_millis(dec(n) + " hours"@),
        every_millis(dec(n) + "d"@) == every_millis(dec(n) + " days"@),
{
    one_letter_units();
    spelled_out_units();
    assert(60_000 * n == 1_000 * (60 * n));
    assert(3_600_000 * n == 60_000 * (60 * n));
    assert(86_400_000 * n == 3_600_000 * (24 * n));
    reveal_strlit("s");
    reveal_strlit("m");
    reveal_strlit("h");
    reveal_strlit("d");
    number_and_unit(n, "s"@, "s"@);
    number_and_unit(n, "m"@, "m"@);
    number_and_unit(n, "h"@, "h"@);
    number_and_unit(n, "d"@, "d"@);
    number_and_unit(60 * n, "s"@, "s"@);
    number_and_unit(60 * n, "m"@, "m"@);
    number_and_unit(24 * n, "h"@, "h"@);
    reveal_strlit("seconds");
    reveal_strlit("minutes");
    reveal_strlit("hours");
    reveal_strlit("days");
    reveal_strlit(" seconds");
    reveal_strlit(" minutes");
    reveal_strlit(" hours");
    reveal_strlit(" days");
    assert(" seconds"@ =~= seq![' '] + "seconds"@);
    assert(" minutes"@ =~= seq![' '] + "minutes"@);
    assert(" hours"@ =~= seq![' '] + "hours"@);
    assert(" days"@ =~= seq![' '] + "days"@);
    number_and_unit(n, " seconds"@, "seconds"@);
    number_and_unit(n, " minutes"@, "minutes"@);
    number_and_unit(n, " hours"@, "hours"@);
    number_and_unit(n, " days"@, "days"@);
}

proof fn one_letter_units()
    ensures
        unit_millis("s"@) == Some(1_000int),
        unit_millis("m"@) == Some(60_000int),
        unit_millis("h"@) == Some(3_600_000int),
        unit_millis("d"@) == Some(86_400_000int),
{
    reveal_strlit("s");
    reveal_strlit("sec");
    reveal_strlit("secs");
    reveal_strlit("second");
    reveal_strlit("seconds");
    reveal_strlit("m");
    reveal_strlit("min");
    reveal_strlit("mins");
    reveal_strlit("minute");
    reveal_strlit("minutes");
    reveal_strlit("h");
    reveal_strlit("hr");
    reveal_strlit("hrs");
    reveal_strlit("hour");
    reveal_strlit("hours");
    reveal_strlit("d");
    assert("s"@[0] != "m"@[0] && "s"@[0] != "h"@[0] && "s"@[0] != "d"@[0]);
    assert("m"@[0] != "h"@[0] && "m"@[0] != "d"@[0] && "h"@[0] != "d"@[0]);
}

proof fn spelled_out_units()
    ensures
        unit_millis("seconds"@) == Some(1_000int),
        unit_millis("minutes"@) == Some(60_000int),
        unit_millis("hours"@) == Some(3_600_000int),
        unit_millis("days"@) == Some(86_400_000int),
{
    reveal_strlit("s");
    reveal_strlit("sec");
    reveal_strlit("secs");
    reveal_strlit("second");
    reveal_strlit("seconds");
    reveal_strlit("m");
    reveal_strlit("min");
    reveal_strlit("mins");
    reveal_strlit("minute");
    reveal_strlit("minutes");
    reveal_strlit("h");
    reveal_strlit("hr");
    reveal_strlit("hrs");
    reveal_strlit("hour");
    reveal_strlit("hours");
    reveal_strlit("d");
    reveal_strlit("day");
    reveal_strlit("days");
    assert("seconds"@[0] != "minutes"@[0]);
    assert("hours"@.len() == 5);
    assert("second"@.len() == 6 && "minute"@.len() == 6);
    assert("secs"@.len() == 4 && "mins"@.len() == 4);
    assert("secs"@[0] != "days"@[0] && "mins"@[0] != "days"@[0] && "hour"@[0] != "days"@[0]);
}

proof fn number_and_unit(n: nat, tail: Seq<char>, unit: Seq<char>)
    requires
        n > 0,
        unit.len() > 0,
        !is_space(unit[0]),
        !is_space(unit.last()),
        tail == unit || tail == seq![' '] + unit,
        !is_digit(tail[0]),
    ensures
        every_millis(dec(n) + tail) == (match unit_millis(unit) {
            Some(u) => if 0 < n * u <= i64::MAX {
                Some(n * u)
            } else {
                None
            },
            None => None,
        }),
{
    dec_digits(n);
    let t = dec(n) + tail;
    let m = dec(n).len() as int;
    assert(is_digit(dec(n)[0]));
    assert(t[0] == dec(n)[0]);
    assert(t.last() == unit.last());
    assert(trimmed(t) == t) by {
        assert(!is_space(t[0]) && !is_space(t.last()));
    }
    run_of_digits(t, m);
    assert(t.take(m) =~= dec(n));
    assert(t.skip(m) =~= tail);
    assert(trimmed(unit) == unit);
    assert(trimmed(seq![' '] + unit) == unit) by {
        assert((seq![' '] + unit).drop_first() =~= unit);
        reveal_with_fuel(crate::text::trim_start, 2);
    }
}

proof fn run_of_digits(t: Seq<char>, m: int)
    requires
        0 <= m < t.len(),
        forall|i: int| 0 <= i < m ==> is_digit(#[trigger] t[i]),
        !is_digit(t[m]),
    ensures
        digit_run(t) == m,
    decreases m,
{
    if m > 0 {
        assert(is_digit(t[0]));
        assert forall|i: int| 0 <= i < m - 1 implies is_digit(#[trigger] t.drop_first()[i]) by {
            assert(t.drop_first()[i] == t[i + 1]);
        }
        run_of_digits(t.drop_first(), m - 1);
    }
}

/// A wall-clock spec is read as it is written: its days, a space, and the time. One
/// that is only days or only a time is none.
pub proof fn specs_are_read_as_written(days: Seq<char>, time: Seq<char>)
    requires
        forall|i: int| 0 <= i < days.len() ==> !is_space(#[trigger] days[i]),
        trimmed(time) == time,
    ensures
        at_named(days) is None,
        at_named(days + " "@ + time) is Some <==> days_named(days) is Some && time_named(time) is Some,
        at_named(days + " "@ + time) matches Some((ds, t)) ==> Some(ds) == days_named(days) && Some(t)
            == time_named(time),
{
    reveal_strlit(" ");
    let whole = days + " "@ + time;
    assert(forall|i: int| 0 <= i < days.len() ==> #[trigger] whole[i] == days[i]);
    assert(whole[days.len() as int] == ' ');
    crate::text::before_space_unique(days, days.len() as int);
    crate::text::before_space_unique(whole, days.len() as int);
    assert(whole.take(days.len() as int) =~= days);
    assert(whole.skip(days.len() + 1int) =~= time);
}

} // verus!
