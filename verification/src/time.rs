//! Instants, wall-clock time and the clock.

use vstd::prelude::*;

verus! {

pub const NANOS_PER_SEC: i128 = 1_000_000_000;

pub const NANOS_PER_MILLI: i128 = 1_000_000;

pub const SECS_PER_DAY: i64 = 86_400;

/// The first second of the calendar, in seconds since the Unix epoch.
pub const MIN_SECS: i64 = -8_334_601_228_800;

/// The first second past the calendar, in seconds since the Unix epoch.
pub const END_SECS: i64 = 8_210_266_876_800;

/// An instant, in nanoseconds since the Unix epoch.
#[derive(Clone, Copy, Debug, PartialEq, Eq, PartialOrd, Ord, Structural)]
pub struct Timestamp {
    pub nanos: i128,
}

/// The quotient of `a` by a positive `d`, rounded down.
pub fn floor_div(a: i128, d: i128) -> (q: i128)
    requires
        0 < d < 0x1_0000_0000_0000_0000,
        -0x1_0000_0000_0000_0000_0000_0000 < a < 0x1_0000_0000_0000_0000_0000_0000,
    ensures
        q == a as int / d as int,
{
    if a >= 0 {
        a / d
    } else {
        let m: i128 = -a;
        let up: i128 = (m + (d - 1)) / d;
        proof {
            let q = -(up as int);
            assert(m + (d - 1) == d * up + (m + (d - 1)) % (d as int)) by {
                vstd::arithmetic::div_mod::lemma_fundamental_div_mod((m + (d - 1)) as int, d as int);
            }
            let r: int = a - d * q;
            assert(0 <= r < d) by (nonlinear_arith)
                requires
                    r == a - d * q,
                    q == -up,
                    m == -a,
                    m + (d - 1) == d * up + (m + (d - 1)) % (d as int),
                    0 <= (m + (d - 1)) % (d as int) < d,
            ;
            vstd::arithmetic::div_mod::lemma_fundamental_div_mod_converse(a as int, d as int, q, r);
        }
        -up
    }
}

impl Timestamp {
    /// The instant lies on the calendar.
    pub open spec fn valid(self) -> bool {
        MIN_SECS * NANOS_PER_SEC <= self.nanos < END_SECS * NANOS_PER_SEC
    }

    /// Whole seconds since the epoch, rounded down.
    pub open spec fn secs(self) -> int {
        self.nanos as int / NANOS_PER_SEC as int
    }

    /// The instant `secs` seconds and `nanos` nanoseconds after the epoch.
    pub fn from_parts(secs: i64, nanos: u32) -> (r: Timestamp)
        ensures
            r.nanos == secs * NANOS_PER_SEC + nanos,
            MIN_SECS <= secs < END_SECS && nanos < NANOS_PER_SEC ==> r.valid(),
    {
        Timestamp { nanos: secs as i128 * NANOS_PER_SEC + nanos as i128 }
    }

    /// Whole seconds since the epoch, rounded down.
    pub fn timestamp(&self) -> (r: i64)
        requires
            self.valid(),
        ensures
            r == self.secs(),
    {
        floor_div(self.nanos, NANOS_PER_SEC) as i64
    }

    /// The part of the instant below a second.
    pub fn subsec_nanos(&self) -> (r: u32)
        requires
            self.valid(),
        ensures
            r == self.nanos as int % NANOS_PER_SEC as int,
            r < NANOS_PER_SEC,
            self.secs() * NANOS_PER_SEC + r == self.nanos,
    {
        let q: i128 = floor_div(self.nanos, NANOS_PER_SEC);
        proof {
            vstd::arithmetic::div_mod::lemma_fundamental_div_mod(self.nanos as int, NANOS_PER_SEC as int);
        }
        (self.nanos - q * NANOS_PER_SEC) as u32
    }

    /// Whether the instant is on the calendar.
    pub fn is_valid(&self) -> (r: bool)
        ensures
            r == self.valid(),
    {
        MIN_SECS as i128 * NANOS_PER_SEC <= self.nanos && self.nanos < END_SECS as i128
            * NANOS_PER_SEC
    }

    /// Whether `self` is earlier than `other`.
    pub fn before(&self, other: &Timestamp) -> (r: bool)
        ensures
            r == (self.nanos < other.nanos),
    {
        self.nanos < other.nanos
    }

    /// Whether the calendar still holds the instant `nanos` nanoseconds later.
    pub open spec fn reaches(self, nanos: int) -> bool {
        MIN_SECS * NANOS_PER_SEC <= self.nanos + nanos < END_SECS * NANOS_PER_SEC
    }

    /// The instant `nanos` nanoseconds later.
    pub fn plus_nanos(&self, nanos: i128) -> (r: Timestamp)
        requires
            self.reaches(nanos as int),
        ensures
            r.nanos == self.nanos + nanos,
            r.valid(),
    {
        Timestamp { nanos: self.nanos + nanos }
    }

    /// The instant `secs` seconds later.
    pub fn plus_secs(&self, secs: i64) -> (r: Timestamp)
        requires
            self.reaches(secs * NANOS_PER_SEC),
        ensures
            r.nanos == self.nanos + secs * NANOS_PER_SEC,
            r.valid(),
    {
        self.plus_nanos(secs as i128 * NANOS_PER_SEC)
    }

    /// The instant `millis` milliseconds later.
    pub fn plus_millis(&self, millis: i64) -> (r: Timestamp)
        requires
            self.reaches(millis * NANOS_PER_MILLI),
        ensures
            r.nanos == self.nanos + millis * NANOS_PER_MILLI,
            r.valid(),
    {
        self.plus_nanos(millis as i128 * NANOS_PER_MILLI)
    }
}

/// An integer quotient that drops the fraction, whatever the sign.
pub open spec fn truncated(a: int, d: int) -> int {
    if a >= 0 {
        a / d
    } else {
        -((-a) / d)
    }
}

/// Whole units of `d` nanoseconds from `from` to `to`, fraction dropped.
fn whole_units(from: &Timestamp, to: &Timestamp, d: i128) -> (r: i64)
    requires
        from.valid(),
        to.valid(),
        d >= NANOS_PER_MILLI,
    ensures
        r == truncated(to.nanos - from.nanos, d as int),
{
    let diff: i128 = to.nanos - from.nanos;
    let span: i128 = if diff >= 0 {
        diff
    } else {
        -diff
    };
    let q: i128 = span / d;
    assert(0 <= q <= span / NANOS_PER_MILLI) by (nonlinear_arith)
        requires
            q == span as int / d as int,
            d >= NANOS_PER_MILLI,
            NANOS_PER_MILLI == 1_000_000,
            span >= 0,
    ;
    if diff >= 0 {
        q as i64
    } else {
        -(q as i64)
    }
}

/// Whole seconds from `from` to `to`, fraction dropped.
pub fn secs_between(from: &Timestamp, to: &Timestamp) -> (r: i64)
    requires
        from.valid(),
        to.valid(),
    ensures
        r == truncated(to.nanos - from.nanos, NANOS_PER_SEC as int),
{
    whole_units(from, to, NANOS_PER_SEC)
}

/// Whole milliseconds from `from` to `to`, fraction dropped.
pub fn millis_between(from: &Timestamp, to: &Timestamp) -> (r: i64)
    requires
        from.valid(),
        to.valid(),
    ensures
        r == truncated(to.nanos - from.nanos, NANOS_PER_MILLI as int),
{
    whole_units(from, to, NANOS_PER_MILLI)
}

/// The earlier of two optional instants; an absent one does not count.
pub open spec fn earlier(a: Option<Timestamp>, b: Option<Timestamp>) -> Option<Timestamp> {
    match (a, b) {
        (Some(x), Some(y)) => if y.nanos < x.nanos {
            Some(y)
        } else {
            Some(x)
        },
        (Some(x), None) => Some(x),
        (None, y) => y,
    }
}

/// The earlier of two optional instants; an absent one does not count.
pub fn earlier_of(a: Option<Timestamp>, b: Option<Timestamp>) -> (r: Option<Timestamp>)
    ensures
        r == earlier(a, b),
{
    match (a, b) {
        (Some(x), Some(y)) => if y.nanos < x.nanos {
            Some(y)
        } else {
            Some(x)
        },
        (Some(x), None) => Some(x),
        (None, y) => y,
    }
}

// ---------------------------------------------------------------------------
// Days of the week and times of day
// ---------------------------------------------------------------------------

#[derive(Clone, Copy, Debug, PartialEq, Eq, Hash, Structural)]
pub enum Weekday {
    Mon,
    Tue,
    Wed,
    Thu,
    Fri,
    Sat,
    Sun,
}

/// The position of a day in the week, Monday first.
pub open spec fn day_index(d: Weekday) -> int {
    match d {
        Weekday::Mon => 0,
        Weekday::Tue => 1,
        Weekday::Wed => 2,
        Weekday::Thu => 3,
        Weekday::Fri => 4,
        Weekday::Sat => 5,
        Weekday::Sun => 6,
    }
}

/// The day at a position of the week, Monday first, wrapping around.
pub open spec fn day_at(i: int) -> Weekday {
    let k = i % 7;
    if k == 0 {
        Weekday::Mon
    } else if k == 1 {
        Weekday::Tue
    } else if k == 2 {
        Weekday::Wed
    } else if k == 3 {
        Weekday::Thu
    } else if k == 4 {
        Weekday::Fri
    } else if k == 5 {
        Weekday::Sat
    } else {
        Weekday::Sun
    }
}

impl Weekday {
    /// The day after.
    pub fn succ(&self) -> (r: Weekday)
        ensures
            r == day_at(day_index(*self) + 1),
    {
        match self {
            Weekday::Mon => Weekday::Tue,
            Weekday::Tue => Weekday::Wed,
            Weekday::Wed => Weekday::Thu,
            Weekday::Thu => Weekday::Fri,
            Weekday::Fri => Weekday::Sat,
            Weekday::Sat => Weekday::Sun,
            Weekday::Sun => Weekday::Mon,
        }
    }

    /// The day before.
    pub fn pred(&self) -> (r: Weekday)
        ensures
            r == day_at(day_index(*self) - 1),
    {
        match self {
            Weekday::Mon => Weekday::Sun,
            Weekday::Tue => Weekday::Mon,
            Weekday::Wed => Weekday::Tue,
            Weekday::Thu => Weekday::Wed,
            Weekday::Fri => Weekday::Thu,
            Weekday::Sat => Weekday::Fri,
            Weekday::Sun => Weekday::Sat,
        }
    }

    /// The three-letter name of the day.
    pub fn short_name(&self) -> (r: &'static str)
        ensures
            r@ == day_name(*self),
    {
        match self {
            Weekday::Mon => "Mon",
            Weekday::Tue => "Tue",
            Weekday::Wed => "Wed",
            Weekday::Thu => "Thu",
            Weekday::Fri => "Fri",
            Weekday::Sat => "Sat",
            Weekday::Sun => "Sun",
        }
    }
}

pub open spec fn day_name(d: Weekday) -> Seq<char> {
    match d {
        Weekday::Mon => "Mon"@,
        Weekday::Tue => "Tue"@,
        Weekday::Wed => "Wed"@,
        Weekday::Thu => "Thu"@,
        Weekday::Fri => "Fri"@,
        Weekday::Sat => "Sat"@,
        Weekday::Sun => "Sun"@,
    }
}

/// A time of day, in whole seconds since midnight.
#[derive(Clone, Copy, Debug, PartialEq, Eq, Structural)]
pub struct TimeOfDay {
    pub secs: u32,
}

impl TimeOfDay {
    pub open spec fn valid(self) -> bool {
        self.secs < SECS_PER_DAY
    }

    /// The time `h:m:s`, or `None` when one of the parts is out of range.
    pub fn from_hms(h: u32, m: u32, s: u32) -> (r: Option<TimeOfDay>)
        ensures
            match r {
                Some(t) => h < 24 && m < 60 && s < 60 && t.secs == h * 3600 + m * 60 + s
                    && t.valid(),
                None => h >= 24 || m >= 60 || s >= 60,
            },
    {
        if h < 24 && m < 60 && s < 60 {
            Some(TimeOfDay { secs: h * 3600 + m * 60 + s })
        } else {
            None
        }
    }

    pub fn hour(&self) -> (r: u32)
        ensures
            r == self.secs / 3600,
    {
        self.secs / 3600
    }

    pub fn minute(&self) -> (r: u32)
        ensures
            r == self.secs / 60 % 60,
    {
        self.secs / 60 % 60
    }
}

/// An instant together with what the wall clock shows at it: the seconds a
/// clock that ran on UTC would have counted when showing the same date and
/// time.
#[derive(Clone, Copy, Debug, PartialEq, Eq, Structural)]
pub struct LocalTime {
    pub instant: Timestamp,
    pub wall_secs: i64,
}

impl LocalTime {
    /// The wall clock is less than a day away from UTC.
    pub open spec fn valid(self) -> bool {
        &&& self.instant.valid()
        &&& self.instant.secs() - SECS_PER_DAY < self.wall_secs < self.instant.secs() + SECS_PER_DAY
    }

    /// The local date, in days since 1970-01-01.
    pub open spec fn day(self) -> int {
        self.wall_secs as int / SECS_PER_DAY as int
    }

    /// The local day of the week.
    pub open spec fn weekday(self) -> Weekday {
        weekday_of(self.day())
    }

    /// Seconds since local midnight.
    pub open spec fn second_of_day(self) -> int {
        self.wall_secs as int % SECS_PER_DAY as int
    }
}

/// The day of the week of a date given in days since 1970-01-01, a Thursday.
pub open spec fn weekday_of(day: int) -> Weekday {
    day_at(day + 3)
}

/// The date that wall-clock seconds fall on, in days since 1970-01-01.
pub fn date_of(wall_secs: i64) -> (r: i64)
    ensures
        r == wall_secs as int / SECS_PER_DAY as int,
{
    floor_div(wall_secs as i128, SECS_PER_DAY as i128) as i64
}

/// The day of the week of a date given in days since 1970-01-01.
pub fn weekday_on(day: i64) -> (r: Weekday)
    requires
        -0x1000_0000_0000_0000 < day < 0x1000_0000_0000_0000,
    ensures
        r == weekday_of(day as int),
{
    let week: i128 = floor_div(day as i128 + 3, 7);
    let k: i128 = day as i128 + 3 - week * 7;
    if k == 0 {
        Weekday::Mon
    } else if k == 1 {
        Weekday::Tue
    } else if k == 2 {
        Weekday::Wed
    } else if k == 3 {
        Weekday::Thu
    } else if k == 4 {
        Weekday::Fri
    } else if k == 5 {
        Weekday::Sat
    } else {
        Weekday::Sun
    }
}

// ---------------------------------------------------------------------------
// Laws
// ---------------------------------------------------------------------------

/// The earlier of two instants is one of them and behind neither; an absent one
/// does not count, and the order of the two does not matter.
pub proof fn the_earlier_is_behind_neither(a: Timestamp, b: Timestamp)
    ensures
        earlier(Some(a), Some(b)) == Some(a) || earlier(Some(a), Some(b)) == Some(b),
        earlier(Some(a), Some(b))->0.nanos <= a.nanos,
        earlier(Some(a), Some(b))->0.nanos <= b.nanos,
        earlier(Some(a), None) == Some(a),
        earlier(None, Some(a)) == Some(a),
        earlier(None, None) is None,
        earlier(Some(a), Some(b)) == earlier(Some(b), Some(a)),
{
}

/// A span is told in whole units: the fraction is dropped, in both directions
/// alike.
pub proof fn fractions_are_dropped(a: int, d: int)
    requires
        d > 0,
    ensures
        a >= 0 ==> truncated(a, d) * d <= a < (truncated(a, d) + 1) * d,
        truncated(-a, d) == -truncated(a, d),
{
    assert(a >= 0 ==> a / d * d <= a < (a / d + 1) * d) by (nonlinear_arith)
        requires
            d > 0,
    ;
    assert(0int / d == 0) by (nonlinear_arith)
        requires
            d > 0,
    ;
}

/// The days of the week follow one another, and come round after seven; their
/// positions tell them apart.
pub proof fn days_follow_one_another(day: int, d: Weekday)
    ensures
        day_index(weekday_of(day + 1)) == (day_index(weekday_of(day)) + 1) % 7,
        weekday_of(day + 7) == weekday_of(day),
        day_at(day_index(d)) == d,
        0 <= day_index(d) < 7,
        day_index(weekday_of(day)) == (day + 3) % 7,
{
}

} // verus!
