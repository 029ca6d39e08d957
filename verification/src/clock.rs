//! The clock, the machine's time zone and the timestamp notation, all of them
//! taken from chrono.

use crate::time::{
    LocalTime, TimeOfDay, Timestamp, Weekday, date_of, weekday_of, weekday_on, END_SECS, MIN_SECS,
    NANOS_PER_SEC, SECS_PER_DAY,
};
use chrono::TimeZone;
use vstd::prelude::*;

verus! {

/// Reads the clock through `chrono::Utc::now`: seconds since the epoch and
/// nanoseconds below the second. Nothing is claimed of the reading but that it
/// lies on chrono's calendar, as every `DateTime` does. During a leap second
/// chrono counts the nanoseconds on past a billion.
#[verifier::external_body]
fn clock_reading() -> (r: (i64, u32))
    ensures
        MIN_SECS <= r.0 < END_SECS,
        r.1 < 2_000_000_000,
{
    let now = chrono::Utc::now();
    (now.timestamp(), now.timestamp_subsec_nanos())
}

/// The current instant: what [`instant_read`] makes of the clock's reading.
pub fn now() -> (r: Timestamp)
    ensures
        r.valid(),
{
    let (secs, nanos) = clock_reading();
    instant_read(secs, nanos)
}

/// The instant that a reading of the clock denotes. A leap second reads as the
/// last nanosecond before it.
pub fn instant_read(secs: i64, nanos: u32) -> (r: Timestamp)
    ensures
        r.nanos == secs * NANOS_PER_SEC + (if nanos < NANOS_PER_SEC {
            nanos as int
        } else {
            NANOS_PER_SEC - 1
        }),
        MIN_SECS <= secs < END_SECS ==> r.valid(),
{
    if nanos < 1_000_000_000 {
        Timestamp::from_parts(secs, nanos)
    } else {
        Timestamp::from_parts(secs, 999_999_999)
    }
}

/// The seconds far enough inside the calendar that no time-zone offset leads
/// off it.
pub open spec fn inside_calendar(secs: int) -> bool {
    MIN_SECS + 2 * SECS_PER_DAY <= secs < END_SECS - 2 * SECS_PER_DAY
}

/// What the machine's wall clock shows at an instant, through
/// `DateTime::with_timezone` with `chrono::Local`: the seconds since the epoch
/// that a UTC clock showing the same date and time would have counted. An
/// offset from UTC is less than a day. Which offset holds is up to the
/// machine's time zone, so nothing more is claimed.
#[verifier::external_body]
fn wall_secs_at(secs: i64) -> (r: i64)
    requires
        inside_calendar(secs as int),
    ensures
        secs - SECS_PER_DAY < r < secs + SECS_PER_DAY,
{
    let utc = chrono::DateTime::from_timestamp(secs, 0).unwrap();
    utc.with_timezone(&chrono::Local).naive_local().and_utc().timestamp()
}

/// The instant at which the machine's wall clock shows the given seconds,
/// through `chrono::Local.from_local_datetime(..).latest()`: one of the two when
/// the clock is set back over them, `None` when it is set forward over them. The
/// instant is less than a day away from the same reading in UTC. Which offset
/// holds is up to the machine's time zone, so nothing more is claimed.
#[verifier::external_body]
fn latest_instant_showing(wall_secs: i64) -> (r: Option<i64>)
    requires
        inside_calendar(wall_secs as int),
    ensures
        r matches Some(s) ==> wall_secs - SECS_PER_DAY < s < wall_secs + SECS_PER_DAY,
{
    let naive = chrono::DateTime::from_timestamp(wall_secs, 0).unwrap().naive_utc();
    chrono::Local.from_local_datetime(&naive).latest().map(|d| d.timestamp())
}

/// What the wall clock shows at `instant`.
pub fn local_time(instant: Timestamp) -> (r: LocalTime)
    requires
        instant.valid(),
        inside_calendar(instant.secs()),
    ensures
        r.instant == instant,
        r.valid(),
{
    LocalTime { instant, wall_secs: wall_secs_at(instant.timestamp()) }
}

/// A local date and the instant at which a given time of day strikes on it,
/// `None` when the clock skips that time.
#[derive(Clone, Copy, Debug, PartialEq, Eq, Structural)]
pub struct DayStrike {
    pub weekday: Weekday,
    pub instant: Option<Timestamp>,
}

/// How many days ahead the opening of a window is looked for: a full week and
/// the day that a wrap reaches into.
pub const HORIZON_DAYS: usize = 8;

/// How many dates ahead the slot of a job is looked for. The wall clock at the
/// start of the search is less than a day off UTC, and a strike less than a day
/// off its date and time read as UTC: so from the third date after the start on
/// no strike is before the start, and the seven dates from there on are a week.
pub const SLOT_DAYS: usize = 10;

/// The date that wall-clock seconds fall on.
pub open spec fn day_number(wall_secs: int) -> int {
    wall_secs / SECS_PER_DAY as int
}

/// The wall-clock seconds of `time` on the date that `wall` falls on.
pub open spec fn shown_on(wall: int, time: TimeOfDay) -> int {
    day_number(wall) * SECS_PER_DAY + time.secs
}

/// The wall clock may show `wall` at `secs`: the two are less than a day apart.
pub open spec fn plausible_wall(wall: int, secs: int) -> bool {
    secs - SECS_PER_DAY < wall < secs + SECS_PER_DAY
}

/// `s` holds what may happen to `time` on the date that `wall` falls on: a
/// strike is within a day of that date and time read as UTC.
pub open spec fn plausible_strike(s: DayStrike, wall: int, time: TimeOfDay) -> bool {
    &&& s.weekday == weekday_of(day_number(wall))
    &&& s.instant matches Some(t) ==> {
        &&& t.valid()
        &&& (shown_on(wall, time) - SECS_PER_DAY) * NANOS_PER_SEC < t.nanos < (shown_on(wall, time)
            + SECS_PER_DAY) * NANOS_PER_SEC
    }
}

/// `s` holds what may happen to `time` on the date that the wall clock shows at
/// `secs`.
pub open spec fn plausible_strike_at(s: DayStrike, secs: int, time: TimeOfDay) -> bool {
    exists|wall: int| plausible_wall(wall, secs) && #[trigger] plausible_strike(s, wall, time)
}

/// `strikes` holds what the wall clock may do with `time` on the dates that it
/// shows at `from` and at every full day after it.
pub open spec fn plausible_strikes(strikes: Seq<DayStrike>, from: Timestamp, time: TimeOfDay) -> bool {
    &&& strikes.len() == HORIZON_DAYS
    &&& forall|k: int|
        0 <= k < strikes.len() ==> plausible_strike_at(
            #[trigger] strikes[k],
            from.secs() + k * SECS_PER_DAY,
            time,
        )
}

/// `strikes` holds an instant at which `time` may strike on each of the dates
/// from the one that `wall` falls on, one date after the other.
pub open spec fn slots_after(strikes: Seq<DayStrike>, wall: int, time: TimeOfDay) -> bool {
    &&& strikes.len() == SLOT_DAYS
    &&& forall|k: int|
        0 <= k < strikes.len() ==> plausible_strike(
            #[trigger] strikes[k],
            wall + k * SECS_PER_DAY,
            time,
        ) && strikes[k].instant is Some
}

/// `strikes` holds an instant at which `time` may strike on each of the dates
/// from that of `from` onward.
pub open spec fn plausible_slots(strikes: Seq<DayStrike>, from: Timestamp, time: TimeOfDay) -> bool {
    exists|wall: int| plausible_wall(wall, from.secs()) && #[trigger] slots_after(strikes, wall, time)
}

/// The search ahead of `from` stays on the calendar.
pub open spec fn searchable(from: Timestamp) -> bool {
    &&& from.valid()
    &&& inside_calendar(from.secs() - 3 * SECS_PER_DAY)
    &&& inside_calendar(from.secs() + 11 * SECS_PER_DAY)
}

/// The instant whose wall clock gives the date `k` days into a window's search.
pub fn wall_query(from: Timestamp, k: usize) -> (r: i64)
    requires
        from.valid(),
        k < HORIZON_DAYS,
        inside_calendar(from.secs() + 11 * SECS_PER_DAY),
    ensures
        r == from.secs() + k * SECS_PER_DAY,
{
    from.timestamp() + k as i64 * SECS_PER_DAY
}

/// What is asked about the date that `wall_secs` falls on: its day of the week,
/// and the seconds that the wall clock shows when `time` strikes on it.
pub fn strike_query(wall_secs: i64, time: TimeOfDay) -> (r: (Weekday, i64))
    requires
        time.valid(),
        inside_calendar(wall_secs as int),
    ensures
        r.0 == weekday_of(day_number(wall_secs as int)),
        r.1 == shown_on(wall_secs as int, time),
{
    let day: i64 = date_of(wall_secs);
    (weekday_on(day), day * SECS_PER_DAY + time.secs as i64)
}

/// What becomes of the answer: the instant that shows the time, if there is one.
pub fn day_strike(weekday: Weekday, found: Option<i64>) -> (r: DayStrike)
    ensures
        r.weekday == weekday,
        match found {
            Some(s) => r.instant matches Some(t) && t.nanos == s * NANOS_PER_SEC,
            None => r.instant is None,
        },
{
    let instant = match found {
        Some(s) => Some(Timestamp { nanos: s as i128 * NANOS_PER_SEC as i128 }),
        None => None,
    };
    DayStrike { weekday, instant }
}

/// The instant that is asked about when the wall clock never shows `shown`: a
/// day before `shown` read as UTC. The clock is never a day or more ahead of
/// UTC, so this is before the jump that skips `shown`.
pub fn gap_query(shown: i64) -> (r: i64)
    requires
        MIN_SECS + SECS_PER_DAY <= shown,
    ensures
        r == shown - SECS_PER_DAY,
{
    shown - SECS_PER_DAY
}

/// The instant that stands for a time which the wall clock skips: the one that
/// would have shown it without the jump. It is as long after the jump as the
/// time is past the jump's start. `wall_before` is what the clock shows at
/// [`gap_query`].
pub fn after_gap(shown: i64, wall_before: i64) -> (r: i64)
    requires
        MIN_SECS + SECS_PER_DAY <= shown < END_SECS,
        plausible_wall(wall_before as int, shown - SECS_PER_DAY),
    ensures
        r == shown - (wall_before - (shown - SECS_PER_DAY)),
{
    shown - (wall_before - gap_query(shown))
}

/// The instant that a date is given for a job: the one that shows the time, or
/// the one that stands for it when none does.
pub fn slot_instant(shown: i64, found: Option<i64>, wall_before: i64) -> (r: i64)
    requires
        MIN_SECS + SECS_PER_DAY <= shown < END_SECS,
        plausible_wall(wall_before as int, shown - SECS_PER_DAY),
    ensures
        r == (match found {
            Some(s) => s as int,
            None => shown - (wall_before - (shown - SECS_PER_DAY)),
        }),
{
    match found {
        Some(s) => s,
        None => after_gap(shown, wall_before),
    }
}

/// When `time` strikes on the dates that the wall clock shows at `from` and at
/// every full day after it. On a date on which the clock skips it, it does not.
pub fn strikes_from(from: Timestamp, time: TimeOfDay) -> (r: Vec<DayStrike>)
    requires
        searchable(from),
        time.valid(),
    ensures
        plausible_strikes(r@, from, time),
{
    let mut out: Vec<DayStrike> = Vec::new();
    let mut k: usize = 0;
    while k < HORIZON_DAYS
        invariant
            k <= HORIZON_DAYS,
            searchable(from),
            time.valid(),
            out@.len() == k,
            forall|j: int|
                0 <= j < k ==> plausible_strike_at(
                    #[trigger] out@[j],
                    from.secs() + j * SECS_PER_DAY,
                    time,
                ),
        decreases HORIZON_DAYS - k,
    {
        let wall: i64 = wall_secs_at(wall_query(from, k));
        let (weekday, shown) = strike_query(wall, time);
        let strike = day_strike(weekday, latest_instant_showing(shown));
        assert(plausible_strike(strike, wall as int, time));
        out.push(strike);
        k = k + 1;
    }
    out
}

/// When `time` strikes on the local dates from that of `from` onward. On a date
/// on which the clock skips it, it strikes when it would have without the jump.
pub fn slots_from(from: Timestamp, time: TimeOfDay) -> (r: Vec<DayStrike>)
    requires
        searchable(from),
        time.valid(),
    ensures
        plausible_slots(r@, from, time),
{
    let start: i64 = local_time(from).wall_secs;
    let mut out: Vec<DayStrike> = Vec::new();
    let mut k: usize = 0;
    while k < SLOT_DAYS
        invariant
            k <= SLOT_DAYS,
            searchable(from),
            time.valid(),
            plausible_wall(start as int, from.secs()),
            out@.len() == k,
            forall|j: int|
                0 <= j < k ==> plausible_strike(
                    #[trigger] out@[j],
                    start + j * SECS_PER_DAY,
                    time,
                ) && out@[j].instant is Some,
        decreases SLOT_DAYS - k,
    {
        let wall: i64 = start + k as i64 * SECS_PER_DAY;
        let (weekday, shown) = strike_query(wall, time);
        let wall_before: i64 = wall_secs_at(gap_query(shown));
        let instant: i64 = slot_instant(shown, latest_instant_showing(shown), wall_before);
        out.push(day_strike(weekday, Some(instant)));
        k = k + 1;
    }
    assert(slots_after(out@, start as int, time));
    out
}

// ---------------------------------------------------------------------------
// Timestamp notation
// ---------------------------------------------------------------------------

/// The instant that an RFC 3339 text denotes, as seconds and nanoseconds since
/// the epoch; `None` when the text is not RFC 3339.
pub uninterp spec fn rfc3339_parts(s: Seq<char>) -> Option<(i64, u32)>;

/// `chrono::DateTime::parse_from_rfc3339`. Its result is a function of the text
/// alone and lies on chrono's calendar.
#[verifier::external_body]
fn parse_rfc3339(s: &str) -> (r: Option<(i64, u32)>)
    ensures
        r == rfc3339_parts(s@),
        r matches Some(p) ==> MIN_SECS <= p.0 < END_SECS && p.1 < 2_000_000_000,
{
    let parsed = chrono::DateTime::parse_from_rfc3339(s).ok();
    parsed.map(|t| (t.timestamp(), t.timestamp_subsec_nanos()))
}

/// The instant that a text without an offset denotes under a `strftime`
/// pattern, read as UTC; `None` when the text does not fit the pattern.
pub uninterp spec fn pattern_parts(s: Seq<char>, pattern: Seq<char>) -> Option<(i64, u32)>;

/// `chrono::NaiveDateTime::parse_from_str`. Its result is a function of the
/// text and the pattern alone and lies on chrono's calendar.
#[verifier::external_body]
fn parse_pattern(s: &str, pattern: &str) -> (r: Option<(i64, u32)>)
    ensures
        r == pattern_parts(s@, pattern@),
        r matches Some(p) ==> MIN_SECS <= p.0 < END_SECS && p.1 < 2_000_000_000,
{
    let parsed = chrono::NaiveDateTime::parse_from_str(s, pattern).ok();
    parsed.map(|t| (t.and_utc().timestamp(), t.and_utc().timestamp_subsec_nanos()))
}

/// The RFC 3339 text of an instant given as seconds and nanoseconds since the
/// epoch.
pub uninterp spec fn rfc3339_text(secs: i64, nanos: u32) -> Seq<char>;

/// `chrono::DateTime::to_rfc3339` of a UTC instant. Its result is a function of
/// the instant alone.
#[verifier::external_body]
fn render_rfc3339(secs: i64, nanos: u32) -> (r: String)
    requires
        MIN_SECS <= secs < END_SECS,
        nanos < 1_000_000_000,
    ensures
        r@ == rfc3339_text(secs, nanos),
{
    chrono::DateTime::from_timestamp(secs, nanos).unwrap().to_rfc3339()
}

/// The RFC 3339 text of an instant.
pub open spec fn rfc3339_of(t: Timestamp) -> Seq<char> {
    rfc3339_text(t.secs() as i64, (t.nanos as int % NANOS_PER_SEC as int) as u32)
}

/// The RFC 3339 text of an instant.
pub fn rfc3339(t: &Timestamp) -> (r: String)
    requires
        t.valid(),
    ensures
        r@ == rfc3339_of(*t),
{
    render_rfc3339(t.timestamp(), t.subsec_nanos())
}

/// The notation of a UTC date and minute.
pub const UTC_MINUTE_PATTERN: &'static str = "%Y-%m-%d %H:%M UTC";

/// The notation of a UTC date and second in names.
pub const UTC_STAMP_PATTERN: &'static str = "%Y%m%d_%H%M%S";

/// A UTC second in the notation of a `strftime` pattern.
pub uninterp spec fn utc_text(secs: i64, pattern: Seq<char>) -> Seq<char>;

/// `chrono::DateTime::format` of a UTC instant, rendered. Its result is a
/// function of the instant and the pattern alone.
#[verifier::external_body]
fn render_utc(secs: i64, pattern: &str) -> (r: String)
    requires
        MIN_SECS <= secs < END_SECS,
        pattern@ == UTC_MINUTE_PATTERN@ || pattern@ == UTC_STAMP_PATTERN@,
    ensures
        r@ == utc_text(secs, pattern@),
{
    chrono::DateTime::from_timestamp(secs, 0).unwrap().format(pattern).to_string()
}

/// The UTC date and minute of an instant.
pub open spec fn utc_minute_of(t: Timestamp) -> Seq<char> {
    utc_text(t.secs() as i64, UTC_MINUTE_PATTERN@)
}

/// The UTC date and minute of an instant.
pub fn utc_minute(t: &Timestamp) -> (r: String)
    requires
        t.valid(),
    ensures
        r@ == utc_minute_of(*t),
{
    render_utc(t.timestamp(), UTC_MINUTE_PATTERN)
}

/// The UTC date and second of an instant, as it stands in names.
pub open spec fn utc_stamp_of(t: Timestamp) -> Seq<char> {
    utc_text(t.secs() as i64, UTC_STAMP_PATTERN@)
}

/// The UTC date and second of an instant, as it stands in names.
pub fn utc_stamp(t: &Timestamp) -> (r: String)
    requires
        t.valid(),
    ensures
        r@ == utc_stamp_of(*t),
{
    render_utc(t.timestamp(), UTC_STAMP_PATTERN)
}

/// The instant that seconds and nanoseconds since the epoch denote. Within a
/// leap second the nanoseconds run on past a billion, into the next second.
pub open spec fn instant_of(parts: Option<(i64, u32)>) -> Option<Timestamp> {
    match parts {
        Some(p) => Some(Timestamp { nanos: (p.0 * NANOS_PER_SEC + p.1) as i128 }),
        None => None,
    }
}

/// Reads an RFC 3339 text.
pub fn read_rfc3339(s: &str) -> (r: Option<Timestamp>)
    ensures
        r == instant_of(rfc3339_parts(s@)),
{
    match parse_rfc3339(s) {
        Some((secs, nanos)) => Some(Timestamp::from_parts(secs, nanos)),
        None => None,
    }
}

/// Reads a text without an offset under a `strftime` pattern, as UTC.
pub fn read_pattern(s: &str, pattern: &str) -> (r: Option<Timestamp>)
    ensures
        r == instant_of(pattern_parts(s@, pattern@)),
{
    match parse_pattern(s, pattern) {
        Some((secs, nanos)) => Some(Timestamp::from_parts(secs, nanos)),
        None => None,
    }
}

} // verus!
