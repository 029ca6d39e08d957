//! Time-of-week windows constraining when ambient may run.
//!
//! Windows are *allowed* ranges. An empty list means unrestricted; once there
//! is one, every time outside all of them is quiet time. A window is a
//! statement about the wall clock, so it is evaluated on local time.

use crate::clock::{
    plausible_strikes, searchable, strikes_from, DayStrike,
};
use crate::numerals::{all_digits, dec, dec2, digits_value, parse_u32, push_dec2, spelled_up_to};
use crate::text::{
    all_ascii, ascii_lower, before_first_unique, halves, is_digit, is_space, join, joined, lowercased, pieces, space_halves, split,
    split_once, split_once_space, str_eq, to_lowercase, trim, trimmed, views,
};
use crate::time::{
    day_at, day_index, day_name, date_of, earlier, earlier_of, weekday_of, weekday_on, LocalTime, TimeOfDay,
    Timestamp, Weekday, SECS_PER_DAY,
};
use vstd::prelude::*;

verus! {

/// A parsed window: a set of weekdays plus a daily time range.
#[derive(Debug, Clone, PartialEq, Eq)]
pub struct ScheduleWindow {
    /// Days this window applies to. Never empty after parsing.
    pub days: Vec<Weekday>,
    /// Inclusive start time-of-day.
    pub start: TimeOfDay,
    /// Exclusive end time-of-day. When `end <= start` the window wraps past
    /// midnight onto the following day.
    pub end: TimeOfDay,
}

/// What a window says.
pub struct WindowView {
    pub days: Seq<Weekday>,
    pub start: TimeOfDay,
    pub end: TimeOfDay,
}

impl View for ScheduleWindow {
    type V = WindowView;

    open spec fn view(&self) -> WindowView {
        WindowView { days: self.days@, start: self.start, end: self.end }
    }
}

impl WindowView {
    /// The window runs past midnight.
    pub open spec fn wraps(self) -> bool {
        self.end.secs <= self.start.secs
    }

    /// The wall-clock second `s` of a day of the week falls inside the window.
    /// The small hours of a window that runs past midnight belong to the day
    /// it opened on.
    pub open spec fn covers(self, day: Weekday, s: int) -> bool {
        if self.wraps() {
            ||| s >= self.start.secs && self.days.contains(day)
            ||| s < self.end.secs && self.days.contains(day_at(day_index(day) - 1))
        } else {
            self.days.contains(day) && self.start.secs <= s < self.end.secs
        }
    }

    /// The wall clock shows a time inside the window.
    pub open spec fn contains(self, dt: LocalTime) -> bool {
        self.covers(dt.weekday(), dt.second_of_day())
    }

    pub open spec fn well_formed(self) -> bool {
        self.days.len() > 0 && self.days.no_duplicates() && self.start.valid() && self.end.valid()
    }
}

/// Whether `days` lists `day`.
pub fn lists_day(days: &Vec<Weekday>, day: Weekday) -> (r: bool)
    ensures
        r == days@.contains(day),
{
    let mut i: usize = 0;
    while i < days.len()
        invariant
            i <= days@.len(),
            forall|j: int| 0 <= j < i ==> days@[j] != day,
        decreases days@.len() - i,
    {
        if days[i] == day {
            assert(days@[i as int] == day);
            return true;
        }
        i = i + 1;
    }
    false
}

/// The instant at which a time of day first strikes on one of `days`, not
/// before `from`, looking through the days in order.
pub open spec fn first_strike(
    strikes: Seq<DayStrike>,
    days: Seq<Weekday>,
    from: Timestamp,
) -> Option<Timestamp>
    decreases strikes.len(),
{
    if strikes.len() == 0 {
        None
    } else {
        match strikes[0].instant {
            Some(t) if days.contains(strikes[0].weekday) && t.nanos >= from.nanos => Some(t),
            _ => first_strike(strikes.drop_first(), days, from),
        }
    }
}

/// The first strike on one of `days` that is not before `from`.
pub fn pick_strike(strikes: &Vec<DayStrike>, days: &Vec<Weekday>, from: Timestamp) -> (r: Option<
    Timestamp,
>)
    ensures
        r == first_strike(strikes@, days@, from),
{
    let mut i: usize = 0;
    assert(strikes@.skip(0) =~= strikes@);
    while i < strikes.len()
        invariant
            i <= strikes@.len(),
            first_strike(strikes@, days@, from) == first_strike(
                strikes@.skip(i as int),
                days@,
                from,
            ),
        decreases strikes@.len() - i,
    {
        let s = strikes[i];
        assert(strikes@.skip(i as int)[0] == s);
        assert(strikes@.skip(i as int).drop_first() =~= strikes@.skip(i + 1));
        if lists_day(days, s.weekday) {
            if let Some(t) = s.instant {
                if t.nanos >= from.nanos {
                    return Some(t);
                }
            }
        }
        i = i + 1;
    }
    None
}

/// A strike that is picked lies on one of the days, and not before `from`; and
/// every earlier day of the search was passed over for a reason.
pub proof fn picked_strike_is_first(strikes: Seq<DayStrike>, days: Seq<Weekday>, from: Timestamp)
    ensures
        match first_strike(strikes, days, from) {
            Some(t) => exists|k: int|
                0 <= k < strikes.len() && (#[trigger] strikes[k]).instant == Some(t)
                    && days.contains(strikes[k].weekday) && t.nanos >= from.nanos && (forall|j: int|
                    0 <= j < k && days.contains((#[trigger] strikes[j]).weekday) ==> {
                        strikes[j].instant matches Some(u) ==> u.nanos < from.nanos
                    }),
            None => forall|j: int|
                0 <= j < strikes.len() && days.contains((#[trigger] strikes[j]).weekday) ==> {
                    strikes[j].instant matches Some(u) ==> u.nanos < from.nanos
                },
        },
    decreases strikes.len(),
{
    if strikes.len() > 0 {
        let rest = strikes.drop_first();
        picked_strike_is_first(rest, days, from);
        assert(forall|j: int| 0 < j < strikes.len() ==> #[trigger] strikes[j] == rest[j - 1]);
        match strikes[0].instant {
            Some(t) if days.contains(strikes[0].weekday) && t.nanos >= from.nanos => {},
            _ => {
                if let Some(t) = first_strike(strikes, days, from) {
                    let k = choose|k: int|
                        0 <= k < rest.len() && (#[trigger] rest[k]).instant == Some(t)
                            && days.contains(rest[k].weekday) && t.nanos >= from.nanos && (forall|
                            j: int,
                        |
                            0 <= j < k && days.contains((#[trigger] rest[j]).weekday) ==> {
                                rest[j].instant matches Some(u) ==> u.nanos < from.nanos
                            });
                    assert(strikes[k + 1] == rest[k]);
                    assert forall|j: int|
                        0 <= j < k + 1 && days.contains((#[trigger] strikes[j]).weekday) implies {
                        strikes[j].instant matches Some(u) ==> u.nanos < from.nanos
                    } by {
                        if j > 0 {
                            assert(strikes[j] == rest[j - 1]);
                        }
                    }
                }
            },
        }
    }
}

/// The next instant at or after `from` inside the window, given when its start
/// strikes on the days ahead.
pub open spec fn opening(w: WindowView, from: LocalTime, strikes: Seq<DayStrike>) -> Option<Timestamp> {
    if w.contains(from) {
        Some(from.instant)
    } else {
        first_strike(strikes, w.days, from.instant)
    }
}

impl ScheduleWindow {
    /// Whether this window wraps past midnight.
    pub fn wraps(&self) -> (r: bool)
        ensures
            r == self@.wraps(),
    {
        self.end.secs <= self.start.secs
    }

    /// Whether `dt` falls inside this window.
    pub fn contains(&self, dt: &LocalTime) -> (r: bool)
        ensures
            r == self@.contains(*dt),
    {
        let date: i64 = date_of(dt.wall_secs);
        let day = weekday_on(date);
        let s: i64 = (dt.wall_secs as i128 - date as i128 * SECS_PER_DAY as i128) as i64;
        if self.wraps() {
            if s >= self.start.secs as i64 && lists_day(&self.days, day) {
                return true;
            }
            if s < self.end.secs as i64 && lists_day(&self.days, day.pred()) {
                return true;
            }
            false
        } else {
            lists_day(&self.days, day) && s >= self.start.secs as i64 && s < self.end.secs as i64
        }
    }

    /// The next instant at or after `from` inside this window, given when its
    /// start strikes on the days ahead.
    pub fn next_open_with(&self, from: &LocalTime, strikes: &Vec<DayStrike>) -> (r: Option<
        Timestamp,
    >)
        ensures
            r == opening(self@, *from, strikes@),
    {
        if self.contains(from) {
            Some(from.instant)
        } else {
            pick_strike(strikes, &self.days, from.instant)
        }
    }

    /// The next instant at or after `from` inside this window.
    pub fn next_open(&self, from: &LocalTime) -> (r: Option<Timestamp>)
        requires
            searchable(from.instant),
            self.start.valid(),
        ensures
            exists|strikes: Seq<DayStrike>|
                #[trigger] plausible_strikes(
                    strikes,
                    from.instant,
                    self.start,
                ) && r == opening(self@, *from, strikes),
    {
        let strikes = strikes_from(from.instant, self.start);
        self.next_open_with(from, &strikes)
    }
}

/// The start of a window, on one of its days, is inside the window.
pub proof fn opening_is_inside(w: WindowView, day: Weekday)
    requires
        w.days.contains(day),
    ensures
        w.covers(day, w.start.secs as int),
{
}

// ---------------------------------------------------------------------------
// The grammar
// ---------------------------------------------------------------------------

/// The day that a trimmed name denotes.
pub open spec fn day_named(s: Seq<char>) -> Option<Weekday> {
    let t = trimmed(s);
    if t == "mon"@ || t == "monday"@ {
        Some(Weekday::Mon)
    } else if t == "tue"@ || t == "tues"@ || t == "tuesday"@ {
        Some(Weekday::Tue)
    } else if t == "wed"@ || t == "weds"@ || t == "wednesday"@ {
        Some(Weekday::Wed)
    } else if t == "thu"@ || t == "thur"@ || t == "thurs"@ || t == "thursday"@ {
        Some(Weekday::Thu)
    } else if t == "fri"@ || t == "friday"@ {
        Some(Weekday::Fri)
    } else if t == "sat"@ || t == "saturday"@ {
        Some(Weekday::Sat)
    } else if t == "sun"@ || t == "sunday"@ {
        Some(Weekday::Sun)
    } else {
        None
    }
}

/// Reads the name of a day.
pub fn parse_day(s: &str) -> (r: Option<Weekday>)
    ensures
        r == day_named(s@),
{
    let t = trim(s);
    if str_eq(t, "mon") || str_eq(t, "monday") {
        Some(Weekday::Mon)
    } else if str_eq(t, "tue") || str_eq(t, "tues") || str_eq(t, "tuesday") {
        Some(Weekday::Tue)
    } else if str_eq(t, "wed") || str_eq(t, "weds") || str_eq(t, "wednesday") {
        Some(Weekday::Wed)
    } else if str_eq(t, "thu") || str_eq(t, "thur") || str_eq(t, "thurs") || str_eq(
        t,
        "thursday",
    ) {
        Some(Weekday::Thu)
    } else if str_eq(t, "fri") || str_eq(t, "friday") {
        Some(Weekday::Fri)
    } else if str_eq(t, "sat") || str_eq(t, "saturday") {
        Some(Weekday::Sat)
    } else if str_eq(t, "sun") || str_eq(t, "sunday") {
        Some(Weekday::Sun)
    } else {
        None
    }
}

/// The time of day that `HH:MM` denotes. `24:00` is the last second of the
/// day.
pub open spec fn time_named(s: Seq<char>) -> Option<TimeOfDay> {
    match halves(trimmed(s), ':') {
        None => None,
        Some((h, m)) => match (
            spelled_up_to(trimmed(h), u32::MAX as nat),
            spelled_up_to(trimmed(m), u32::MAX as nat),
        ) {
            (Some(h), Some(m)) => if h == 24 && m == 0 {
                Some(TimeOfDay { secs: 86_399 })
            } else if h < 24 && m < 60 {
                Some(TimeOfDay { secs: (h * 3600 + m * 60) as u32 })
            } else {
                None
            },
            _ => None,
        },
    }
}

/// Reads a time of day.
pub fn parse_time(s: &str) -> (r: Option<TimeOfDay>)
    ensures
        r == time_named(s@),
        r matches Some(t) ==> t.valid(),
{
    let (h, m) = match split_once(trim(s), ':') {
        Some(p) => p,
        None => return None,
    };
    let h: u32 = match parse_u32(trim(h)) {
        Some(n) => n,
        None => return None,
    };
    let m: u32 = match parse_u32(trim(m)) {
        Some(n) => n,
        None => return None,
    };
    if h == 24 && m == 0 {
        return TimeOfDay::from_hms(23, 59, 59);
    }
    TimeOfDay::from_hms(h, m, 0)
}

/// `days` with `d` at its end, unless it is listed already.
pub open spec fn with_day(days: Seq<Weekday>, d: Weekday) -> Seq<Weekday> {
    if days.contains(d) {
        days
    } else {
        days.push(d)
    }
}

/// `days` with `d` and the `more` days that follow it.
pub open spec fn with_run(days: Seq<Weekday>, d: Weekday, more: nat) -> Seq<Weekday>
    decreases more,
{
    if more == 0 {
        with_day(days, d)
    } else {
        with_run(with_day(days, d), day_at(day_index(d) + 1), (more - 1) as nat)
    }
}

/// How many days after `from` the next `to` is.
pub open spec fn days_until(from: Weekday, to: Weekday) -> nat {
    ((day_index(to) - day_index(from)) % 7) as nat
}

/// `days` with the day or the range of days that `part` names. A range runs
/// forward and may wrap the week.
pub open spec fn with_part(days: Seq<Weekday>, part: Seq<char>) -> Option<Seq<Weekday>> {
    match halves(trimmed(part), '-') {
        Some((a, b)) => match (day_named(a), day_named(b)) {
            (Some(from), Some(to)) => Some(with_run(days, from, days_until(from, to))),
            _ => None,
        },
        None => match day_named(trimmed(part)) {
            Some(d) => Some(with_day(days, d)),
            None => None,
        },
    }
}

/// The days that a list of parts names, in order of mention.
pub open spec fn days_of_parts(parts: Seq<Seq<char>>) -> Option<Seq<Weekday>>
    decreases parts.len(),
{
    if parts.len() == 0 {
        Some(Seq::empty())
    } else {
        match days_of_parts(parts.drop_last()) {
            Some(days) => with_part(days, parts.last()),
            None => None,
        }
    }
}

/// The whole week, Monday first.
pub open spec fn whole_week() -> Seq<Weekday> {
    seq![
        Weekday::Mon,
        Weekday::Tue,
        Weekday::Wed,
        Weekday::Thu,
        Weekday::Fri,
        Weekday::Sat,
        Weekday::Sun,
    ]
}

/// The days that a day spec names.
pub open spec fn days_named(s: Seq<char>) -> Option<Seq<Weekday>> {
    let t = trimmed(s);
    if t == "daily"@ || t == "everyday"@ || t == "all"@ {
        Some(whole_week())
    } else if t == "weekdays"@ {
        Some(whole_week().take(5))
    } else if t == "weekends"@ {
        Some(whole_week().skip(5))
    } else {
        match days_of_parts(pieces(t, ',')) {
            Some(days) if days.len() > 0 => Some(days),
            _ => None,
        }
    }
}

fn add_day(days: &mut Vec<Weekday>, d: Weekday)
    ensures
        final(days)@ == with_day(old(days)@, d),
{
    if !lists_day(days, d) {
        days.push(d);
    }
}

fn add_run(days: &mut Vec<Weekday>, from: Weekday, to: Weekday)
    ensures
        final(days)@ == with_run(old(days)@, from, days_until(from, to)),
{
    let mut d = from;
    let ghost start = days@;
    while d != to
        invariant
            with_run(days@, d, days_until(d, to)) == with_run(start, from, days_until(from, to)),
        decreases days_until(d, to),
    {
        add_day(days, d);
        d = d.succ();
    }
    add_day(days, d);
}

/// Reads a day spec: `mon`, `mon-fri`, `mon,wed,fri`, `weekdays`, `weekends`,
/// `daily`.
pub fn parse_days(s: &str) -> (r: Option<Vec<Weekday>>)
    ensures
        match r {
            Some(days) => days_named(s@) == Some(days@),
            None => days_named(s@) is None,
        },
{
    let t = trim(s);
    if str_eq(t, "daily") || str_eq(t, "everyday") || str_eq(t, "all") {
        let week = vec![
            Weekday::Mon,
            Weekday::Tue,
            Weekday::Wed,
            Weekday::Thu,
            Weekday::Fri,
            Weekday::Sat,
            Weekday::Sun,
        ];
        assert(week@ =~= whole_week());
        return Some(week);
    }
    if str_eq(t, "weekdays") {
        let week = vec![Weekday::Mon, Weekday::Tue, Weekday::Wed, Weekday::Thu, Weekday::Fri];
        assert(week@ =~= whole_week().take(5));
        return Some(week);
    }
    if str_eq(t, "weekends") {
        let week = vec![Weekday::Sat, Weekday::Sun];
        assert(week@ =~= whole_week().skip(5));
        return Some(week);
    }
    let parts = split(t, ',');
    let ghost names = pieces(t@, ',');
    let mut days: Vec<Weekday> = Vec::new();
    let mut i: usize = 0;
    assert(names.take(0) =~= Seq::<Seq<char>>::empty());
    while i < parts.len()
        invariant
            i <= parts@.len(),
            views(parts@) == names,
            names == pieces(t@, ','),
            days_of_parts(names.take(i as int)) == Some(days@),
            t@ == trimmed(s@),
            t@ != "daily"@ && t@ != "everyday"@ && t@ != "all"@ && t@ != "weekdays"@ && t@
                != "weekends"@,
        decreases parts@.len() - i,
    {
        assert(names.take(i + 1).drop_last() =~= names.take(i as int));
        assert(names.take(i + 1).last() == parts@[i as int]@);
        let ghost before = days@;
        let part = trim(parts[i].as_str());
        let mut failed = false;
        match split_once(part, '-') {
            Some((a, b)) => {
                match (parse_day(a), parse_day(b)) {
                    (Some(from), Some(to)) => add_run(&mut days, from, to),
                    _ => {
                        failed = true;
                    },
                }
            },
            None => {
                match parse_day(part) {
                    Some(d) => add_day(&mut days, d),
                    None => {
                        failed = true;
                    },
                }
            },
        }
        if failed {
            assert(days_of_parts(names.take(i + 1)) is None);
            proof {
                failed_prefix(names, i + 1);
            }
            return None;
        }
        i = i + 1;
    }
    assert(names.take(names.len() as int) =~= names);
    if days.len() == 0 {
        None
    } else {
        Some(days)
    }
}

proof fn failed_prefix(parts: Seq<Seq<char>>, k: int)
    requires
        0 <= k <= parts.len(),
        days_of_parts(parts.take(k)) is None,
    ensures
        days_of_parts(parts) is None,
    decreases parts.len(),
{
    if k == parts.len() {
        assert(parts.take(k) =~= parts);
    } else {
        assert(parts.drop_last().take(k) =~= parts.take(k));
        failed_prefix(parts.drop_last(), k);
    }
}

/// A day spec that parses names at least one day and none of them twice.
pub proof fn named_days_are_distinct(s: Seq<char>)
    ensures
        days_named(s) matches Some(days) ==> days.len() > 0 && days.no_duplicates(),
{
    parts_are_distinct(pieces(trimmed(s), ','));
    assert(whole_week().no_duplicates());
}

proof fn parts_are_distinct(parts: Seq<Seq<char>>)
    ensures
        days_of_parts(parts) matches Some(days) ==> days.no_duplicates(),
    decreases parts.len(),
{
    if parts.len() > 0 {
        parts_are_distinct(parts.drop_last());
        if let Some(days) = days_of_parts(parts.drop_last()) {
            match halves(trimmed(parts.last()), '-') {
                Some((a, b)) => {
                    if let (Some(from), Some(to)) = (day_named(a), day_named(b)) {
                        run_keeps_distinct(days, from, days_until(from, to));
                    }
                },
                None => {},
            }
        }
    }
}

proof fn run_keeps_distinct(days: Seq<Weekday>, d: Weekday, more: nat)
    requires
        days.no_duplicates(),
    ensures
        with_run(days, d, more).no_duplicates(),
    decreases more,
{
    if more > 0 {
        run_keeps_distinct(with_day(days, d), day_at(day_index(d) + 1), (more - 1) as nat);
    }
}

/// The window that a lowercase spec without outer white space denotes:
/// `<days> <start>-<end>`.
pub open spec fn window_named(low: Seq<char>) -> Option<WindowView> {
    match space_halves(low) {
        None => None,
        Some((d, t)) => match (days_named(d), halves(trimmed(t), '-')) {
            (Some(days), Some((a, b))) => match (time_named(a), time_named(b)) {
                (Some(start), Some(end)) => Some(WindowView { days, start, end }),
                _ => None,
            },
            _ => None,
        },
    }
}

pub open spec fn opt_window_view(w: Option<ScheduleWindow>) -> Option<WindowView> {
    match w {
        Some(x) => Some(x@),
        None => None,
    }
}

/// Reads a window from a spec that is lowercase and trimmed already.
pub fn parse_lowercase_window(low: &str) -> (r: Option<ScheduleWindow>)
    ensures
        opt_window_view(r) == window_named(low@),
        r matches Some(w) ==> w@.well_formed(),
{
    let (days_part, time_part) = match split_once_space(low) {
        Some(p) => p,
        None => return None,
    };
    let days = match parse_days(days_part) {
        Some(d) => d,
        None => return None,
    };
    proof {
        named_days_are_distinct(days_part@);
    }
    let (start_s, end_s) = match split_once(trim(time_part), '-') {
        Some(p) => p,
        None => return None,
    };
    let start = match parse_time(start_s) {
        Some(t) => t,
        None => return None,
    };
    let end = match parse_time(end_s) {
        Some(t) => t,
        None => return None,
    };
    Some(ScheduleWindow { days, start, end })
}

/// Parses a single window spec, e.g. `mon-fri 09:00-19:00`, in any letter case.
/// `None` for anything unparseable.
pub fn parse_window(spec: &str) -> (r: Option<ScheduleWindow>)
    ensures
        opt_window_view(r) == window_named(lowercased(trimmed(spec@))),
        all_ascii(trimmed(spec@)) ==> opt_window_view(r) == window_named(
            ascii_lower(trimmed(spec@)),
        ),
        r matches Some(w) ==> w@.well_formed(),
{
    let low = to_lowercase(trim(spec));
    parse_lowercase_window(low.as_str())
}

// ---------------------------------------------------------------------------
// Evaluation
// ---------------------------------------------------------------------------

/// The outcome of checking the clock against the configured windows.
#[derive(Debug, Clone, Copy, PartialEq, Eq, Structural)]
pub enum WindowState {
    /// No windows configured, or now is inside one.
    Open,
    /// Outside every window. Carries the next opening instant when one is
    /// known, so the caller can sleep exactly that long instead of polling.
    Closed { next_open: Option<Timestamp> },
}

impl WindowState {
    pub fn is_open(&self) -> (r: bool)
        ensures
            r == (*self is Open),
    {
        matches!(self, WindowState::Open)
    }

    /// The next opening instant, when known and currently closed.
    pub fn next_open_at(&self) -> (r: Option<Timestamp>)
        ensures
            r == (match *self {
                WindowState::Open => None::<Timestamp>,
                WindowState::Closed { next_open } => next_open,
            }),
    {
        match self {
            WindowState::Open => None,
            WindowState::Closed { next_open } => *next_open,
        }
    }
}

/// Ambient may run: there is no window, or one of them contains `now`.
pub open spec fn allowed(windows: Seq<ScheduleWindow>, now: LocalTime) -> bool {
    windows.len() == 0 || exists|i: int|
        0 <= i < windows.len() && (#[trigger] windows[i])@.contains(now)
}

/// Ambient may run under windows that say `ws`.
pub open spec fn allowed_by(ws: Seq<WindowView>, now: LocalTime) -> bool {
    ws.len() == 0 || exists|i: int| 0 <= i < ws.len() && (#[trigger] ws[i]).contains(now)
}

/// Whether time is allowed depends on what the windows say alone.
pub proof fn allowed_by_views(windows: Seq<ScheduleWindow>, now: LocalTime)
    ensures
        allowed(windows, now) == allowed_by(window_views(windows), now),
{
    let ws = window_views(windows);
    if allowed(windows, now) && windows.len() > 0 {
        let i = choose|i: int| 0 <= i < windows.len() && (#[trigger] windows[i])@.contains(now);
        assert(ws[i].contains(now));
    }
    if allowed_by(ws, now) && ws.len() > 0 {
        let i = choose|i: int| 0 <= i < ws.len() && (#[trigger] ws[i]).contains(now);
        assert(windows[i]@.contains(now));
    }
}

/// The earliest opening among the windows, given for each of them when its
/// start strikes on the days ahead.
pub open spec fn earliest_opening(
    windows: Seq<ScheduleWindow>,
    now: LocalTime,
    strikes: Seq<Seq<DayStrike>>,
) -> Option<Timestamp>
    decreases windows.len(),
{
    if windows.len() == 0 {
        None
    } else {
        earlier(
            earliest_opening(windows.drop_last(), now, strikes),
            opening(windows.last()@, now, strikes[windows.len() - 1]),
        )
    }
}

/// The state of the windows at `now`.
pub open spec fn state_of(
    windows: Seq<ScheduleWindow>,
    now: LocalTime,
    strikes: Seq<Seq<DayStrike>>,
) -> WindowState {
    if allowed(windows, now) {
        WindowState::Open
    } else {
        WindowState::Closed { next_open: earliest_opening(windows, now, strikes) }
    }
}

/// The strikes of a list of windows.
pub open spec fn strike_views(s: Seq<Vec<DayStrike>>) -> Seq<Seq<DayStrike>> {
    s.map_values(|v: Vec<DayStrike>| v@)
}

/// Whether one of the windows contains `now`, or there is none.
pub fn window_allows(windows: &Vec<ScheduleWindow>, now: &LocalTime) -> (r: bool)
    ensures
        r == allowed(windows@, *now),
{
    if windows.len() == 0 {
        return true;
    }
    let mut i: usize = 0;
    while i < windows.len()
        invariant
            i <= windows@.len(),
            windows@.len() > 0,
            forall|j: int| 0 <= j < i ==> !(#[trigger] windows@[j])@.contains(*now),
        decreases windows@.len() - i,
    {
        if windows[i].contains(now) {
            assert(windows@[i as int]@.contains(*now));
            return true;
        }
        i = i + 1;
    }
    false
}

/// Evaluates `now` against the windows, given for each of them when its start
/// strikes on the days ahead.
pub fn evaluate_with(
    windows: &Vec<ScheduleWindow>,
    now: &LocalTime,
    strikes: &Vec<Vec<DayStrike>>,
) -> (r: WindowState)
    requires
        strikes@.len() == windows@.len(),
    ensures
        r == state_of(windows@, *now, strike_views(strikes@)),
{
    if window_allows(windows, now) {
        return WindowState::Open;
    }
    let ghost all = strike_views(strikes@);
    let mut best: Option<Timestamp> = None;
    let mut i: usize = 0;
    while i < windows.len()
        invariant
            i <= windows@.len(),
            strikes@.len() == windows@.len(),
            all == strike_views(strikes@),
            best == earliest_opening(windows@.take(i as int), *now, all),
        decreases windows@.len() - i,
    {
        assert(windows@.take(i + 1).drop_last() =~= windows@.take(i as int));
        assert(windows@.take(i + 1).last() == windows@[i as int]);
        assert(all[i as int] == strikes@[i as int]@);
        best = earlier_of(best, windows[i].next_open_with(now, &strikes[i]));
        i = i + 1;
    }
    assert(windows@.take(windows@.len() as int) =~= windows@);
    WindowState::Closed { next_open: best }
}

/// `strikes` holds what the wall clock may do with the start of each window.
pub open spec fn plausible_for(
    windows: Seq<ScheduleWindow>,
    now: LocalTime,
    strikes: Seq<Seq<DayStrike>>,
) -> bool {
    &&& strikes.len() == windows.len()
    &&& forall|i: int|
        0 <= i < windows.len() ==> plausible_strikes(
            #[trigger] strikes[i],
            now.instant,
            windows[i].start,
        )
}

/// Evaluates `now` against the configured windows. An empty list means
/// unrestricted.
pub fn evaluate(windows: &Vec<ScheduleWindow>, now: &LocalTime) -> (r: WindowState)
    requires
        searchable(now.instant),
        forall|i: int| 0 <= i < windows@.len() ==> (#[trigger] windows@[i]).start.valid(),
    ensures
        r is Open <==> allowed(windows@, *now),
        exists|strikes: Seq<Seq<DayStrike>>| #[trigger]
            plausible_for(windows@, *now, strikes) && r == state_of(windows@, *now, strikes),
{
    let mut strikes: Vec<Vec<DayStrike>> = Vec::new();
    let mut i: usize = 0;
    while i < windows.len()
        invariant
            i <= windows@.len(),
            strikes@.len() == i,
            searchable(now.instant),
            forall|j: int| 0 <= j < windows@.len() ==> (#[trigger] windows@[j]).start.valid(),
            forall|j: int|
                0 <= j < i ==> plausible_strikes(
                    (#[trigger] strikes@[j])@,
                    now.instant,
                    windows@[j].start,
                ),
        decreases windows@.len() - i,
    {
        assert(windows@[i as int].start.valid());
        strikes.push(strikes_from(now.instant, windows[i].start));
        i = i + 1;
    }
    assert(plausible_for(windows@, *now, strike_views(strikes@))) by {
        assert forall|j: int| 0 <= j < windows@.len() implies plausible_strikes(
            #[trigger] strike_views(strikes@)[j],
            now.instant,
            windows@[j].start,
        ) by {
            assert(strike_views(strikes@)[j] == strikes@[j]@);
        }
    }
    evaluate_with(windows, now, &strikes)
}

/// A time is inside a window exactly when an occurrence of the window covers it:
/// one that opened at the window's start on a listed day, and has not yet run for
/// the time from the window's start to its end, round the clock. A window whose
/// start is its end runs for a whole day. So the small hours of a window that
/// runs past midnight are inside only when the day before is listed.
pub proof fn inside_means_an_occurrence_is_running(w: WindowView, dt: LocalTime)
    requires
        w.start.valid(),
        w.end.valid(),
    ensures
        w.contains(dt) <==> exists|d: int|
            {
                &&& w.days.contains(#[trigger] weekday_of(d))
                &&& d * 86_400 + w.start.secs <= dt.wall_secs
                &&& dt.wall_secs < d * 86_400 + w.start.secs + (if w.end.secs == w.start.secs {
                    86_400
                } else {
                    (w.end.secs - w.start.secs) % 86_400
                })
            },
{
    let wall: int = dt.wall_secs as int;
    let today: int = wall / 86_400;
    let len: int = if w.end.secs == w.start.secs {
        86_400
    } else {
        (w.end.secs - w.start.secs) % 86_400
    };
    assert(wall == today * 86_400 + dt.second_of_day());
    assert(weekday_of(today) == dt.weekday());
    assert(weekday_of(today - 1) == day_at(day_index(dt.weekday()) - 1));
    if w.contains(dt) {
        if w.days.contains(weekday_of(today)) && dt.second_of_day() >= w.start.secs {
            assert(today * 86_400 + w.start.secs <= wall < today * 86_400 + w.start.secs + len);
        } else {
            assert(w.days.contains(weekday_of(today - 1)));
            assert((today - 1) * 86_400 + w.start.secs <= wall < (today - 1) * 86_400
                + w.start.secs + len);
        }
    }
    assert forall|d: int|
        w.days.contains(#[trigger] weekday_of(d)) && d * 86_400 + w.start.secs <= wall && wall < d
            * 86_400 + w.start.secs + len implies w.contains(dt) by {
        assert(d == today || d == today - 1);
    }
}

/// An open state means that there is no window, or that an occurrence of one of
/// them is running; and a closed state means the opposite.
pub proof fn open_means_an_occurrence_is_running(
    windows: Seq<ScheduleWindow>,
    now: LocalTime,
    strikes: Seq<Seq<DayStrike>>,
)
    requires
        forall|i: int|
            0 <= i < windows.len() ==> (#[trigger] windows[i]).start.valid()
                && windows[i].end.valid(),
    ensures
        state_of(windows, now, strikes) is Open <==> windows.len() == 0 || exists|i: int, d: int|
            {
                &&& 0 <= i < windows.len()
                &&& (#[trigger] windows[i]).days@.contains(#[trigger] weekday_of(d))
                &&& d * 86_400 + windows[i].start.secs <= now.wall_secs
                &&& now.wall_secs < d * 86_400 + windows[i].start.secs + (
                if windows[i].end.secs == windows[i].start.secs {
                    86_400
                } else {
                    (windows[i].end.secs - windows[i].start.secs) % 86_400
                })
            },
{
    assert forall|i: int| 0 <= i < windows.len() implies ((#[trigger] windows[i])@.contains(now)
        <==> exists|d: int|
        {
            &&& windows[i]@.days.contains(#[trigger] weekday_of(d))
            &&& d * 86_400 + windows[i].start.secs <= now.wall_secs
            &&& now.wall_secs < d * 86_400 + windows[i].start.secs + (if windows[i].end.secs
                == windows[i].start.secs {
                86_400
            } else {
                (windows[i].end.secs - windows[i].start.secs) % 86_400
            })
        }) by {
        inside_means_an_occurrence_is_running(windows[i]@, now);
    }
}

/// A window that is closed next opens when its start strikes on one of its days:
/// at the first such strike that is not in the past, and not at all when the
/// search holds none.
pub proof fn a_closed_window_opens_at_its_start(
    w: WindowView,
    from: LocalTime,
    strikes: Seq<DayStrike>,
)
    ensures
        w.contains(from) ==> opening(w, from, strikes) == Some(from.instant),
        !w.contains(from) ==> match opening(w, from, strikes) {
            Some(t) => exists|k: int|
                {
                    &&& 0 <= k < strikes.len()
                    &&& (#[trigger] strikes[k]).instant == Some(t)
                    &&& w.days.contains(strikes[k].weekday)
                    &&& t.nanos >= from.instant.nanos
                    &&& forall|j: int|
                        0 <= j < k && w.days.contains((#[trigger] strikes[j]).weekday) ==> (
                        strikes[j].instant matches Some(u) ==> u.nanos < from.instant.nanos)
                },
            None => forall|j: int|
                0 <= j < strikes.len() && w.days.contains((#[trigger] strikes[j]).weekday) ==> (
                strikes[j].instant matches Some(u) ==> u.nanos < from.instant.nanos),
        },
{
    picked_strike_is_first(strikes, w.days, from.instant);
}

/// A closed state names the soonest opening: it is the opening of one of the
/// windows, no window opens before it, and it is not in the past.
pub proof fn next_open_is_soonest(
    windows: Seq<ScheduleWindow>,
    now: LocalTime,
    strikes: Seq<Seq<DayStrike>>,
)
    requires
        strikes.len() == windows.len(),
    ensures
        forall|i: int|
            0 <= i < windows.len() ==> {
                (#[trigger] opening(windows[i]@, now, strikes[i])) matches Some(t) ==> {
                    earliest_opening(windows, now, strikes) matches Some(e) && now.instant.nanos
                        <= e.nanos <= t.nanos
                }
            },
        earliest_opening(windows, now, strikes) matches Some(e) ==> exists|i: int|
            0 <= i < windows.len() && #[trigger] opening(windows[i]@, now, strikes[i]) == Some(e),
    decreases windows.len(),
{
    if windows.len() > 0 {
        let head = windows.drop_last();
        let last = windows.len() - 1;
        earliest_opening_ignores_tail(head, now, strikes.drop_last(), strikes);
        next_open_is_soonest(head, now, strikes.drop_last());
        picked_strike_is_first(strikes[last], windows[last]@.days, now.instant);
        assert forall|i: int| 0 <= i < windows.len() implies {
            (#[trigger] opening(windows[i]@, now, strikes[i])) matches Some(t) ==> {
                earliest_opening(windows, now, strikes) matches Some(e) && now.instant.nanos
                    <= e.nanos <= t.nanos
            }
        } by {
            if i < last {
                assert(opening(head[i]@, now, strikes.drop_last()[i]) == opening(
                    windows[i]@,
                    now,
                    strikes[i],
                ));
            }
        }
        if let Some(e) = earliest_opening(windows, now, strikes) {
            if opening(windows[last]@, now, strikes[last]) != Some(e) {
                let i = choose|i: int|
                    0 <= i < head.len() && #[trigger] opening(
                        head[i]@,
                        now,
                        strikes.drop_last()[i],
                    ) == Some(e);
                assert(opening(windows[i]@, now, strikes[i]) == Some(e));
            }
        }
    }
}

proof fn earliest_opening_ignores_tail(
    windows: Seq<ScheduleWindow>,
    now: LocalTime,
    a: Seq<Seq<DayStrike>>,
    b: Seq<Seq<DayStrike>>,
)
    requires
        windows.len() <= a.len(),
        windows.len() <= b.len(),
        forall|i: int| 0 <= i < windows.len() ==> #[trigger] a[i] == b[i],
    ensures
        earliest_opening(windows, now, a) == earliest_opening(windows, now, b),
    decreases windows.len(),
{
    if windows.len() > 0 {
        assert(a[windows.len() - 1] == b[windows.len() - 1]);
        earliest_opening_ignores_tail(windows.drop_last(), now, a, b);
    }
}

/// Adding a window never takes allowed time away from a list that has one.
pub proof fn windows_unite(
    windows: Seq<ScheduleWindow>,
    more: ScheduleWindow,
    now: LocalTime,
)
    requires
        windows.len() > 0,
    ensures
        allowed(windows.push(more), now) <==> allowed(windows, now) || more@.contains(now),
{
    let all = windows.push(more);
    if allowed(windows, now) {
        let i = choose|i: int|
            0 <= i < windows.len() && (#[trigger] windows[i])@.contains(now);
        assert(all[i]@.contains(now));
    }
    if more@.contains(now) {
        assert(all[windows.len() as int]@.contains(now));
    }
    if allowed(all, now) {
        let i = choose|i: int| 0 <= i < all.len() && (#[trigger] all[i])@.contains(now);
        if i < windows.len() {
            assert(windows[i]@.contains(now));
        }
    }
}

/// The specs of `specs` that parse, in order.
pub open spec fn good_specs(specs: Seq<Seq<char>>) -> Seq<WindowView>
    decreases specs.len(),
{
    if specs.len() == 0 {
        Seq::empty()
    } else {
        match window_named(lowercased(trimmed(specs.last()))) {
            Some(w) => good_specs(specs.drop_last()).push(w),
            None => good_specs(specs.drop_last()),
        }
    }
}

/// The specs of `specs` that do not parse, in order.
pub open spec fn bad_specs(specs: Seq<Seq<char>>) -> Seq<Seq<char>> {
    specs.filter(|s: Seq<char>| window_named(lowercased(trimmed(s))) is None)
}

pub open spec fn window_views(s: Seq<ScheduleWindow>) -> Seq<WindowView> {
    s.map_values(|w: ScheduleWindow| w@)
}

/// Parses every spec, returning the valid windows and the rejected specs.
pub fn parse_windows(specs: &Vec<String>) -> (r: (Vec<ScheduleWindow>, Vec<String>))
    ensures
        window_views(r.0@) == good_specs(views(specs@)),
        views(r.1@) == bad_specs(views(specs@)),
        forall|i: int| 0 <= i < r.0@.len() ==> (#[trigger] r.0@[i])@.well_formed(),
{
    let mut ok: Vec<ScheduleWindow> = Vec::new();
    let mut bad: Vec<String> = Vec::new();
    let ghost all = views(specs@);
    let ghost fails = |s: Seq<char>| window_named(lowercased(trimmed(s))) is None;
    let mut i: usize = 0;
    assert(all.take(0) =~= Seq::<Seq<char>>::empty());
    assert(window_views(ok@) =~= Seq::<WindowView>::empty());
    reveal(Seq::filter);
    assert(views(bad@) =~= all.take(0).filter(fails));
    while i < specs.len()
        invariant
            i <= specs@.len(),
            all == views(specs@),
            fails == (|s: Seq<char>| window_named(lowercased(trimmed(s))) is None),
            window_views(ok@) == good_specs(all.take(i as int)),
            views(bad@) == all.take(i as int).filter(fails),
            forall|j: int| 0 <= j < ok@.len() ==> (#[trigger] ok@[j])@.well_formed(),
        decreases specs@.len() - i,
    {
        reveal(Seq::filter);
        assert(all.take(i + 1).drop_last() =~= all.take(i as int));
        assert(all.take(i + 1).last() == specs@[i as int]@);
        match parse_window(specs[i].as_str()) {
            Some(w) => {
                let ghost was = ok@;
                ok.push(w);
                assert(window_views(ok@) =~= window_views(was).push(w@));
            },
            None => {
                let ghost was = bad@;
                bad.push(specs[i].clone());
                assert(views(bad@) =~= views(was).push(specs@[i as int]@));
            },
        }
        i = i + 1;
    }
    assert(all.take(all.len() as int) =~= all);
    (ok, bad)
}

/// Every spec is accounted for: it either became a window or is reported.
pub proof fn no_spec_is_dropped(specs: Seq<Seq<char>>)
    ensures
        good_specs(specs).len() + bad_specs(specs).len() == specs.len(),
    decreases specs.len(),
{
    reveal(Seq::filter);
    if specs.len() > 0 {
        no_spec_is_dropped(specs.drop_last());
    }
}

/// Seconds to sleep until the next window opens, clamped to `[1, max]`.
pub open spec fn sleep_until(now: Timestamp, next_open: Option<Timestamp>, max: u64) -> int {
    match next_open {
        Some(open) => {
            let gap = open.secs() - now.secs();
            let secs = if gap < 1 {
                1
            } else {
                gap
            };
            if secs < max {
                secs
            } else {
                max as int
            }
        },
        None => max as int,
    }
}

/// Seconds to sleep until the next window opens, clamped to `[1, max]`.
pub fn sleep_secs_until_open(now: &Timestamp, next_open: Option<Timestamp>, max: u64) -> (r: u64)
    requires
        now.valid(),
        next_open matches Some(t) ==> t.valid(),
    ensures
        r == sleep_until(*now, next_open, max),
        max >= 1 ==> 1 <= r <= max,
{
    match next_open {
        Some(open) => {
            let gap: i64 = open.timestamp() - now.timestamp();
            let secs: u64 = if gap < 1 {
                1
            } else {
                gap as u64
            };
            if secs < max {
                secs
            } else {
                max
            }
        },
        None => max,
    }
}

// ---------------------------------------------------------------------------
// Description
// ---------------------------------------------------------------------------

/// The names of the days, in order.
pub open spec fn day_names(days: Seq<Weekday>) -> Seq<Seq<char>> {
    days.map_values(|d: Weekday| day_name(d))
}

/// `HH:MM`.
pub open spec fn clock_text(t: TimeOfDay) -> Seq<char> {
    dec2((t.secs / 3600) as nat) + ":"@ + dec2((t.secs / 60 % 60) as nat)
}

/// `<days> <start>-<end>`.
pub open spec fn window_text(w: WindowView) -> Seq<char> {
    joined(day_names(w.days), ","@) + " "@ + clock_text(w.start) + "-"@ + clock_text(w.end)
}

/// The description of a list of windows.
pub open spec fn description(windows: Seq<WindowView>) -> Seq<char> {
    if windows.len() == 0 {
        "unrestricted"@
    } else {
        joined(windows.map_values(|w: WindowView| window_text(w)), "; "@)
    }
}

fn push_clock(out: &mut String, t: TimeOfDay)
    ensures
        final(out)@ == old(out)@ + clock_text(t),
{
    push_dec2(out, t.hour() as u64);
    out.append(":");
    push_dec2(out, t.minute() as u64);
    assert(out@ =~= old(out)@ + clock_text(t));
}

fn window_string(w: &ScheduleWindow) -> (r: String)
    ensures
        r@ == window_text(w@),
{
    let mut names: Vec<String> = Vec::new();
    let mut i: usize = 0;
    while i < w.days.len()
        invariant
            i <= w.days@.len(),
            names@.len() == i,
            forall|j: int| 0 <= j < i ==> (#[trigger] names@[j])@ == day_name(w.days@[j]),
        decreases w.days@.len() - i,
    {
        names.push(w.days[i].short_name().to_owned());
        i = i + 1;
    }
    assert(views(names@) =~= day_names(w.days@));
    let mut out = join(&names, ",");
    out.append(" ");
    push_clock(&mut out, w.start);
    out.append("-");
    push_clock(&mut out, w.end);
    out
}

/// Human-readable summary of the configured windows, for status output.
pub fn describe(windows: &Vec<ScheduleWindow>) -> (r: String)
    ensures
        r@ == description(window_views(windows@)),
{
    if windows.len() == 0 {
        return "unrestricted".to_owned();
    }
    let mut parts: Vec<String> = Vec::new();
    let mut i: usize = 0;
    while i < windows.len()
        invariant
            i <= windows@.len(),
            parts@.len() == i,
            forall|j: int| 0 <= j < i ==> (#[trigger] parts@[j])@ == window_text(windows@[j]@),
        decreases windows@.len() - i,
    {
        parts.push(window_string(&windows[i]));
        i = i + 1;
    }
    assert(views(parts@) =~= window_views(windows@).map_values(|w: WindowView| window_text(w)));
    join(&parts, "; ")
}

/// A closed window is slept through to its opening, in whole seconds and for one
/// at least, but never for longer than the limit; when no opening is known, for
/// the limit.
pub proof fn a_closed_window_is_slept_through(now: Timestamp, open: Timestamp, max: u64)
    requires
        max >= 1,
    ensures
        sleep_until(now, None, max) == max,
        1 <= sleep_until(now, Some(open), max) <= max,
        sleep_until(now, Some(open), max) == max || sleep_until(now, Some(open), max) == 1
            || sleep_until(now, Some(open), max) == open.secs() - now.secs(),
        1 <= open.secs() - now.secs() <= max ==> sleep_until(now, Some(open), max) == open.secs()
            - now.secs(),
        open.secs() - now.secs() > max ==> sleep_until(now, Some(open), max) == max,
{
}

/// A range of days names every day from its first to its last, forward through
/// the week and round its end, and no other.
pub proof fn a_range_names_the_days_it_spans(
    days: Seq<Weekday>,
    from: Weekday,
    to: Weekday,
    d: Weekday,
)
    ensures
        with_run(days, from, days_until(from, to)).contains(d) <==> days.contains(d) || (day_index(d)
            - day_index(from)) % 7 <= (day_index(to) - day_index(from)) % 7,
{
    run_names(days, from, days_until(from, to), d);
}

proof fn run_names(days: Seq<Weekday>, from: Weekday, more: nat, d: Weekday)
    requires
        more < 7,
    ensures
        with_run(days, from, more).contains(d) <==> days.contains(d) || (day_index(d) - day_index(
            from,
        )) % 7 <= more,
    decreases more,
{
    vstd::seq_lib::lemma_seq_contains_after_push(days, from, d);
    assert((day_index(d) - day_index(from)) % 7 == 0 <==> d == from);
    if more > 0 {
        let next = day_at(day_index(from) + 1);
        run_names(with_day(days, from), next, (more - 1) as nat, d);
        assert(day_index(next) == (day_index(from) + 1) % 7);
    }
}

/// A list of days names exactly the days that one of its parts names.
pub proof fn a_list_names_what_its_parts_name(parts: Seq<Seq<char>>, d: Weekday)
    requires
        days_of_parts(parts) is Some,
    ensures
        days_of_parts(parts)->0.contains(d) <==> exists|k: int|
            0 <= k < parts.len() && (match halves(trimmed(#[trigger] parts[k]), '-') {
                Some((a, b)) => day_named(a) is Some && day_named(b) is Some && (day_index(d)
                    - day_index(day_named(a)->0)) % 7 <= (day_index(day_named(b)->0) - day_index(
                    day_named(a)->0,
                )) % 7,
                None => day_named(trimmed(parts[k])) == Some(d),
            }),
    decreases parts.len(),
{
    if parts.len() > 0 {
        let head = parts.drop_last();
        let last = parts.last();
        a_list_names_what_its_parts_name(head, d);
        let days = days_of_parts(head)->0;
        assert(forall|k: int| 0 <= k < head.len() ==> #[trigger] head[k] == parts[k]);
        assert(forall|k: int| 0 <= k < head.len() ==> #[trigger] parts[k] == head[k]);
        assert(parts[parts.len() - 1] == last);
        match halves(trimmed(last), '-') {
            Some((a, b)) => {
                a_range_names_the_days_it_spans(days, day_named(a)->0, day_named(b)->0, d);
            },
            None => {
                vstd::seq_lib::lemma_seq_contains_after_push(
                    days,
                    day_named(trimmed(last))->0,
                    d,
                );
            },
        }
    }
}

/// A time is read as it is written: hours and minutes of a day, and 24:00 as the
/// day's last second.
pub proof fn times_are_read_as_written(h: nat, m: nat)
    ensures
        h < 24 && m < 60 ==> time_named(dec(h) + ":"@ + dec(m)) == Some(
            TimeOfDay { secs: (h * 3600 + m * 60) as u32 },
        ),
        h < 24 && m < 60 ==> time_named(dec2(h) + ":"@ + dec2(m)) == Some(
            TimeOfDay { secs: (h * 3600 + m * 60) as u32 },
        ),
        h > 24 || m >= 60 || (h == 24 && m > 0) ==> time_named(dec(h) + ":"@ + dec(m)) is None,
        time_named(dec(24) + ":"@ + dec(0)) == Some(TimeOfDay { secs: 86_399 }),
{
    clock_halves(dec(h), dec(m), h, m);
    clock_halves(dec(24), dec(0), 24, 0);
    two_digits_read(h);
    two_digits_read(m);
    crate::numerals::dec_digits(h);
    crate::numerals::dec_digits(m);
    crate::numerals::dec_digits(24);
    crate::numerals::dec_digits(0);
    clock_halves(dec2(h), dec2(m), h, m);
}

/// Reading the text of a time gives the time back, to the minute.
pub proof fn times_survive_being_written(t: TimeOfDay)
    requires
        t.secs < 86_400,
    ensures
        time_named(clock_text(t)) == Some(TimeOfDay { secs: (t.secs / 60 * 60) as u32 }),
{
    let h = (t.secs / 3600) as nat;
    let m = (t.secs / 60 % 60) as nat;
    times_are_read_as_written(h, m);
    assert(h * 3600 + m * 60 == t.secs / 60 * 60);
}

proof fn two_digits_read(n: nat)
    ensures
        all_digits(dec2(n)),
        dec2(n).len() > 0,
        digits_value(dec2(n)) == n,
{
    crate::numerals::dec_digits(n);
    if n < 10 {
        let s = dec2(n);
        assert(s.drop_last() =~= seq!['0']);
        assert(seq!['0'].drop_last() =~= Seq::<char>::empty());
        assert(digits_value(Seq::<char>::empty()) == 0);
        assert(digits_value(seq!['0']) == 0);
        assert(dec(n).drop_last() =~= Seq::<char>::empty());
        assert(dec(n).last() == s.last());
    }
}

proof fn clock_halves(a: Seq<char>, b: Seq<char>, h: nat, m: nat)
    ensures
        all_digits(a) && a.len() > 0 && digits_value(a) == h && all_digits(b) && b.len() > 0
            && digits_value(b) == m ==> time_named(a + ":"@ + b) == (if h == 24 && m == 0 {
            Some(TimeOfDay { secs: 86_399 })
        } else if h < 24 && m < 60 {
            Some(TimeOfDay { secs: (h * 3600 + m * 60) as u32 })
        } else {
            None
        }),
{
    if all_digits(a) && a.len() > 0 && digits_value(a) == h && all_digits(b) && b.len() > 0
        && digits_value(b) == m {
        reveal_strlit(":");
        let t = a + ":"@ + b;
        assert(is_digit(a[0]) && is_digit(a.last()) && is_digit(b[0]) && is_digit(b.last()));
        assert(t[0] == a[0] && t.last() == b.last());
        assert(trimmed(t) == t);
        assert(trimmed(a) == a);
        assert(trimmed(b) == b);
        assert forall|i: int| 0 <= i < a.len() implies t[i] != ':' by {
            assert(is_digit(a[i]));
        }
        before_first_unique(t, ':', a.len() as int);
        assert(t.take(a.len() as int) =~= a);
        assert(t.skip(a.len() + 1int) =~= b);
    }
}

/// A window is read as it is written: its days, and behind a space the times that
/// it opens and closes at.
pub proof fn windows_are_read_as_written(days: Seq<char>, from: Seq<char>, until: Seq<char>)
    requires
        forall|i: int| 0 <= i < days.len() ==> !is_space(#[trigger] days[i]),
        forall|i: int| 0 <= i < from.len() ==> (#[trigger] from[i]) != '-',
        from.len() > 0 && !is_space(from[0]),
        until.len() > 0 && !is_space(until.last()),
        days_named(days) is Some,
        time_named(from) is Some,
        time_named(until) is Some,
    ensures
        window_named(days + " "@ + from + "-"@ + until) == Some(
            WindowView {
                days: days_named(days)->0,
                start: time_named(from)->0,
                end: time_named(until)->0,
            },
        ),
{
    reveal_strlit(" ");
    reveal_strlit("-");
    let times = from + "-"@ + until;
    let whole = days + " "@ + from + "-"@ + until;
    assert(whole =~= days + " "@ + times);
    assert(forall|i: int| 0 <= i < days.len() ==> #[trigger] whole[i] == days[i]);
    assert(whole[days.len() as int] == ' ');
    crate::text::before_space_unique(whole, days.len() as int);
    assert(whole.take(days.len() as int) =~= days);
    assert(whole.skip(days.len() + 1int) =~= times);
    assert(times[0] == from[0]);
    assert(times.last() == until.last());
    assert(trimmed(times) == times);
    assert(forall|i: int| 0 <= i < from.len() ==> #[trigger] times[i] == from[i]);
    assert(times[from.len() as int] == '-');
    before_first_unique(times, '-', from.len() as int);
    assert(times.take(from.len() as int) =~= from);
    assert(times.skip(from.len() + 1int) =~= until);
}

/// Every day is read by the name that it is shown under.
pub proof fn days_survive_being_written(d: Weekday)
    ensures
        day_named(ascii_lower(day_name(d))) == Some(d),
{
    reveal_strlit("Mon");
    reveal_strlit("Tue");
    reveal_strlit("Wed");
    reveal_strlit("Thu");
    reveal_strlit("Fri");
    reveal_strlit("Sat");
    reveal_strlit("Sun");
    reveal_strlit("mon");
    reveal_strlit("tue");
    reveal_strlit("wed");
    reveal_strlit("thu");
    reveal_strlit("fri");
    reveal_strlit("sat");
    reveal_strlit("sun");
    let t = ascii_lower(day_name(d));
    assert(t.len() == 3);
    assert(!is_space(t[0]) && !is_space(t.last()));
    assert(trimmed(t) == t);
    match d {
        Weekday::Mon => assert(t =~= "mon"@),
        Weekday::Tue => assert(t =~= "tue"@),
        Weekday::Wed => assert(t =~= "wed"@),
        Weekday::Thu => assert(t =~= "thu"@),
        Weekday::Fri => assert(t =~= "fri"@),
        Weekday::Sat => assert(t =~= "sat"@),
        Weekday::Sun => assert(t =~= "sun"@),
    }
    longer_names();
    assert("mon"@[0] == 'm' && "tue"@[0] == 't' && "wed"@[0] == 'w' && "thu"@[1] == 'h');
    assert("fri"@[0] == 'f' && "sat"@[1] == 'a' && "sun"@[1] == 'u' && "tue"@[1] == 'u');
}

proof fn longer_names()
    ensures
        "monday"@.len() > 3 && "tues"@.len() > 3 && "tuesday"@.len() > 3 && "weds"@.len() > 3,
        "wednesday"@.len() > 3 && "thur"@.len() > 3 && "thurs"@.len() > 3 && "thursday"@.len() > 3,
        "friday"@.len() > 3 && "saturday"@.len() > 3 && "sunday"@.len() > 3,
{
    reveal_strlit("monday");
    reveal_strlit("tues");
    reveal_strlit("tuesday");
    reveal_strlit("weds");
    reveal_strlit("wednesday");
    reveal_strlit("thur");
    reveal_strlit("thurs");
    reveal_strlit("thursday");
    reveal_strlit("friday");
    reveal_strlit("saturday");
    reveal_strlit("sunday");
}

/// The words for several days name what they say: the working week, the two days
/// at its end, or all seven.
pub proof fn words_name_their_days(d: Weekday)
    ensures
        days_named("weekdays"@) matches Some(ds) && (ds.contains(d) <==> day_index(d) < 5),
        days_named("weekends"@) matches Some(ds) && (ds.contains(d) <==> day_index(d) >= 5),
        days_named("daily"@) matches Some(ds) && ds.contains(d),
{
    reveal_strlit("daily");
    reveal_strlit("everyday");
    reveal_strlit("all");
    reveal_strlit("weekdays");
    reveal_strlit("weekends");
    assert(trimmed("daily"@) == "daily"@) by {
        assert(!is_space("daily"@[0]) && !is_space("daily"@.last()));
    }
    assert(trimmed("weekdays"@) == "weekdays"@) by {
        assert(!is_space("weekdays"@[0]) && !is_space("weekdays"@.last()));
    }
    assert(trimmed("weekends"@) == "weekends"@) by {
        assert(!is_space("weekends"@[0]) && !is_space("weekends"@.last()));
    }
    assert("weekdays"@[4] != "everyday"@[4] && "weekends"@[4] != "everyday"@[4]);
    assert("weekdays"@[4] != "weekends"@[4]);
    let week = whole_week();
    let k = day_index(d);
    assert(week[k] == d);
    assert(forall|i: int| 0 <= i < 7 ==> day_index(#[trigger] week[i]) == i);
    if k < 5 {
        assert(week.take(5)[k] == d);
    } else {
        assert(week.skip(5)[k - 5] == d);
    }
    assert(forall|i: int| 0 <= i < 5 ==> #[trigger] week.take(5)[i] == week[i]);
    assert(forall|i: int| 0 <= i < 2 ==> #[trigger] week.skip(5)[i] == week[i + 5]);
}

} // verus!
