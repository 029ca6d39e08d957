//! Subscription headroom: how much of the current provider quota window is
//! left, and when it resets.
//!
//! A share of a window is carried as an integer that orders as the share does;
//! a reading that is not a number is absent.

use crate::clock::{instant_of, pattern_parts, read_pattern, read_rfc3339, rfc3339_parts};
use crate::time::{secs_between, truncated, Timestamp, NANOS_PER_SEC};
use vstd::prelude::*;

verus! {

/// The notation of reset times without an offset that some responses use.
pub const NAIVE_RESET_PATTERN: &'static str = "%Y-%m-%dT%H:%M:%S%.fZ";

/// The instant a provider's reset time denotes: RFC 3339, or else the notation
/// without an offset, read as UTC.
pub open spec fn reset_instant(s: Seq<char>) -> Option<Timestamp> {
    match rfc3339_parts(s) {
        Some(p) => instant_of(Some(p)),
        None => instant_of(pattern_parts(s, NAIVE_RESET_PATTERN@)),
    }
}

/// Reads a provider's reset time.
pub fn parse_reset(timestamp: &str) -> (r: Option<Timestamp>)
    ensures
        r == reset_instant(timestamp@),
{
    let first = read_rfc3339(timestamp);
    if first.is_some() {
        return first;
    }
    read_pattern(timestamp, NAIVE_RESET_PATTERN)
}

/// Seconds until a reset, or `None` when it is unknown. A reset in the past
/// means that the reading is stale, so it is unknown too.
pub open spec fn secs_until_reset(resets_at: Option<Timestamp>, now: Timestamp) -> Option<int> {
    match resets_at {
        Some(reset) => {
            let secs = truncated(reset.nanos - now.nanos, NANOS_PER_SEC as int);
            if secs > 0 {
                Some(secs)
            } else {
                None
            }
        },
        None => None,
    }
}

/// Seconds until a reset, or `None` when it is unknown.
pub fn seconds_until_reset(resets_at: Option<Timestamp>, now: &Timestamp) -> (r: Option<i64>)
    requires
        now.valid(),
        resets_at matches Some(t) ==> t.valid(),
    ensures
        match r {
            Some(s) => secs_until_reset(resets_at, *now) == Some(s as int),
            None => secs_until_reset(resets_at, *now) is None,
        },
{
    match resets_at {
        Some(reset) => {
            let secs: i64 = secs_between(now, &reset);
            if secs > 0 {
                Some(secs)
            } else {
                None
            }
        },
        None => None,
    }
}

/// One window's utilization, as reported by a provider.
#[derive(Debug, Clone, Copy, PartialEq, Eq, Structural)]
pub struct WindowUtilization {
    /// Share of the window consumed; `None` when the reading is not a number.
    pub utilization: Option<u32>,
    pub resets_at: Option<Timestamp>,
}

/// The window at `k` binds: it has a reading, none is higher, and none behind
/// it is as high.
pub open spec fn binds(windows: Seq<WindowUtilization>, k: int) -> bool {
    &&& 0 <= k < windows.len()
    &&& windows[k].utilization is Some
    &&& forall|i: int|
        0 <= i < windows.len() ==> ((#[trigger] windows[i]).utilization matches Some(u) ==> if i
            <= k {
            u <= windows[k].utilization->0
        } else {
            u < windows[k].utilization->0
        })
}

/// No window has a reading.
pub open spec fn no_reading(windows: Seq<WindowUtilization>) -> bool {
    forall|i: int| 0 <= i < windows.len() ==> (#[trigger] windows[i]).utilization is None
}

/// The binding constraint across every reported window: the most consumed one.
/// `None` when no window has a reading, which is no information.
pub fn binding_headroom(windows: &Vec<WindowUtilization>) -> (r: Option<WindowUtilization>)
    ensures
        match r {
            Some(w) => exists|k: int| #[trigger] binds(windows@, k) && windows@[k] == w,
            None => no_reading(windows@),
        },
{
    let mut best: Option<usize> = None;
    let mut i: usize = 0;
    while i < windows.len()
        invariant
            i <= windows@.len(),
            match best {
                Some(k) => k < i && binds(windows@.take(i as int), k as int),
                None => no_reading(windows@.take(i as int)),
            },
        decreases windows@.len() - i,
    {
        let ghost seen = windows@.take(i as int);
        let ghost more = windows@.take(i + 1);
        assert(forall|j: int| 0 <= j < i ==> #[trigger] more[j] == seen[j]);
        assert(more[i as int] == windows@[i as int]);
        if let Some(u) = windows[i].utilization {
            match best {
                Some(k) => {
                    if let Some(v) = windows[k].utilization {
                        if u >= v {
                            best = Some(i);
                        }
                    }
                },
                None => {
                    best = Some(i);
                },
            }
        }
        i = i + 1;
    }
    assert(windows@.take(windows@.len() as int) =~= windows@);
    match best {
        Some(k) => Some(windows[k]),
        None => None,
    }
}

/// The most consumed share does not depend on the order the windows were
/// collected in.
pub proof fn order_does_not_matter(
    a: Seq<WindowUtilization>,
    b: Seq<WindowUtilization>,
    i: int,
    j: int,
)
    requires
        binds(a, i),
        binds(b, j),
        forall|w: WindowUtilization| a.contains(w) <==> b.contains(w),
    ensures
        a[i].utilization == b[j].utilization,
{
    assert(a.contains(a[i]));
    assert(b.contains(b[j]));
    let p = b.index_of(a[i]);
    let q = a.index_of(b[j]);
    assert(b[p] == a[i]);
    assert(a[q] == b[j]);
}

/// Whether an Anthropic usage snapshot carries a reading worth acting on. A
/// failed fetch leaves every share at zero, like a fresh window, so a reset
/// time is asked for too.
pub fn anthropic_snapshot_is_usable(
    fetched: bool,
    has_error: bool,
    has_five_hour_reset: bool,
    has_seven_day_reset: bool,
) -> (r: bool)
    ensures
        r == (fetched && !has_error && (has_five_hour_reset || has_seven_day_reset)),
{
    fetched && !has_error && (has_five_hour_reset || has_seven_day_reset)
}

/// Whether an OpenAI usage snapshot carries a reading worth acting on.
pub fn openai_snapshot_is_usable(fetched: bool, has_error: bool, has_limits: bool) -> (r: bool)
    ensures
        r == (fetched && !has_error && has_limits),
{
    fetched && !has_error && has_limits
}

/// A provider's reported quota windows.
#[derive(Debug, Clone)]
pub struct ProviderWindows {
    /// Whether this provider's snapshot is usable at all.
    pub usable: bool,
    pub windows: Vec<WindowUtilization>,
}

/// The windows of a provider that count.
pub open spec fn counted(p: ProviderWindows) -> Seq<WindowUtilization> {
    if p.usable {
        p.windows@
    } else {
        Seq::empty()
    }
}

fn add_counted(out: &mut Vec<WindowUtilization>, p: &ProviderWindows)
    ensures
        final(out)@ == old(out)@ + counted(*p),
{
    if p.usable {
        let mut i: usize = 0;
        while i < p.windows.len()
            invariant
                i <= p.windows@.len(),
                out@ == old(out)@ + p.windows@.take(i as int),
            decreases p.windows@.len() - i,
        {
            out.push(p.windows[i]);
            assert(p.windows@.take(i + 1) =~= p.windows@.take(i as int).push(p.windows@[i as int]));
            i = i + 1;
        }
        assert(p.windows@.take(p.windows@.len() as int) =~= p.windows@);
    }
    assert(out@ =~= old(out)@ + counted(*p));
}

/// Every window that counts, across both providers.
pub fn collect_windows(anthropic: &ProviderWindows, openai: &ProviderWindows) -> (r: Vec<
    WindowUtilization,
>)
    ensures
        r@ == counted(*anthropic) + counted(*openai),
{
    let mut out: Vec<WindowUtilization> = Vec::new();
    add_counted(&mut out, anthropic);
    add_counted(&mut out, openai);
    assert(out@ =~= counted(*anthropic) + counted(*openai));
    out
}

/// What a usage meter last reported of one window.
#[derive(Debug, Clone)]
pub struct QuotaReading {
    pub utilization: Option<u32>,
    pub resets_at: Option<String>,
}

/// What the Anthropic usage meter last reported.
#[derive(Debug, Clone)]
pub struct AnthropicSnapshot {
    pub fetched: bool,
    pub has_error: bool,
    pub five_hour: QuotaReading,
    pub seven_day: QuotaReading,
}

/// What the OpenAI usage meter last reported. An absent window is absent.
#[derive(Debug, Clone)]
pub struct OpenAiSnapshot {
    pub fetched: bool,
    pub has_error: bool,
    pub has_limits: bool,
    pub five_hour: Option<QuotaReading>,
    pub seven_day: Option<QuotaReading>,
    pub spark: Option<QuotaReading>,
}

/// The window that a reading describes.
pub open spec fn window_of(q: QuotaReading) -> WindowUtilization {
    WindowUtilization {
        utilization: q.utilization,
        resets_at: match q.resets_at {
            Some(s) => reset_instant(s@),
            None => None,
        },
    }
}

/// The windows that an optional reading describes.
pub open spec fn windows_of(q: Option<QuotaReading>) -> Seq<WindowUtilization> {
    match q {
        Some(r) => seq![window_of(r)],
        None => Seq::empty(),
    }
}

/// Every window that the two meters let count.
pub open spec fn metered(a: AnthropicSnapshot, o: OpenAiSnapshot) -> Seq<WindowUtilization> {
    (if a.fetched && !a.has_error && (a.five_hour.resets_at is Some || a.seven_day.resets_at is Some) {
        seq![window_of(a.five_hour), window_of(a.seven_day)]
    } else {
        Seq::empty()
    }) + (if o.fetched && !o.has_error && o.has_limits {
        windows_of(o.five_hour) + windows_of(o.seven_day) + windows_of(o.spark)
    } else {
        Seq::empty()
    })
}

fn read_window(q: &QuotaReading) -> (r: WindowUtilization)
    ensures
        r == window_of(*q),
{
    WindowUtilization {
        utilization: q.utilization,
        resets_at: match &q.resets_at {
            Some(s) => parse_reset(s.as_str()),
            None => None,
        },
    }
}

fn add_reading(out: &mut Vec<WindowUtilization>, q: &Option<QuotaReading>)
    ensures
        final(out)@ == old(out)@ + windows_of(*q),
{
    if let Some(r) = q {
        out.push(read_window(r));
    }
    assert(out@ =~= old(out)@ + windows_of(*q));
}

/// The binding window across the user's subscriptions, or `None` when neither
/// provider has usable quota data.
pub fn current_subscription_headroom(anthropic: &AnthropicSnapshot, openai: &OpenAiSnapshot) -> (r: Option<
    WindowUtilization,
>)
    ensures
        match r {
            Some(w) => exists|k: int| #[trigger]
                binds(metered(*anthropic, *openai), k) && metered(*anthropic, *openai)[k] == w,
            None => no_reading(metered(*anthropic, *openai)),
        },
{
    let a = ProviderWindows {
        usable: anthropic_snapshot_is_usable(
            anthropic.fetched,
            anthropic.has_error,
            anthropic.five_hour.resets_at.is_some(),
            anthropic.seven_day.resets_at.is_some(),
        ),
        windows: vec![read_window(&anthropic.five_hour), read_window(&anthropic.seven_day)],
    };
    let mut windows: Vec<WindowUtilization> = Vec::new();
    add_reading(&mut windows, &openai.five_hour);
    add_reading(&mut windows, &openai.seven_day);
    add_reading(&mut windows, &openai.spark);
    let o = ProviderWindows {
        usable: openai_snapshot_is_usable(openai.fetched, openai.has_error, openai.has_limits),
        windows,
    };
    let all = collect_windows(&a, &o);
    assert(a.windows@ =~= seq![window_of(anthropic.five_hour), window_of(anthropic.seven_day)]);
    assert(o.windows@ =~= windows_of(openai.five_hour) + windows_of(openai.seven_day) + windows_of(
        openai.spark,
    ));
    assert(all@ == metered(*anthropic, *openai));
    binding_headroom(&all)
}

/// A meter that failed, or was never read, is no information: with no other
/// meter no window counts, whatever its readings hold.
pub proof fn a_broken_meter_is_no_information(a: AnthropicSnapshot, o: OpenAiSnapshot)
    requires
        !a.fetched || a.has_error || (a.five_hour.resets_at is None && a.seven_day.resets_at is None),
        !o.fetched || o.has_error || !o.has_limits,
    ensures
        metered(a, o).len() == 0,
{
}

/// The seconds until a reset are known exactly when it is at least a second ahead,
/// and are whole seconds, rounded down.
pub proof fn resets_ahead_are_known(reset: Timestamp, now: Timestamp)
    ensures
        secs_until_reset(None, now) is None,
        match secs_until_reset(Some(reset), now) {
            Some(s) => s > 0 && s * 1_000_000_000 <= reset.nanos - now.nanos < (s + 1)
                * 1_000_000_000,
            None => reset.nanos - now.nanos < 1_000_000_000,
        },
{
}

/// A window counts exactly when its provider's meter is usable and reports it,
/// with the reading that the meter gave.
pub proof fn usable_meters_count(a: AnthropicSnapshot, o: OpenAiSnapshot, w: WindowUtilization)
    ensures
        metered(a, o).contains(w) <==> {
            ||| a.fetched && !a.has_error && (a.five_hour.resets_at is Some
                || a.seven_day.resets_at is Some) && (w == window_of(a.five_hour) || w == window_of(
                a.seven_day,
            ))
            ||| o.fetched && !o.has_error && o.has_limits && ((o.five_hour is Some && w
                == window_of(o.five_hour->0)) || (o.seven_day is Some && w == window_of(
                o.seven_day->0,
            )) || (o.spark is Some && w == window_of(o.spark->0)))
        },
        window_of(a.five_hour).utilization == a.five_hour.utilization,
{
    let x = if a.fetched && !a.has_error && (a.five_hour.resets_at is Some || a.seven_day.resets_at
        is Some) {
        seq![window_of(a.five_hour), window_of(a.seven_day)]
    } else {
        Seq::empty()
    };
    let p = windows_of(o.five_hour);
    let q = windows_of(o.seven_day);
    let r = windows_of(o.spark);
    let y = if o.fetched && !o.has_error && o.has_limits {
        p + q + r
    } else {
        Seq::empty()
    };
    assert(metered(a, o) == x + y);
    sum_contains(x, y, w);
    sum_contains(p + q, r, w);
    sum_contains(p, q, w);
    if x.len() > 0 {
        assert(x[0] == window_of(a.five_hour) && x[1] == window_of(a.seven_day));
    }
    one_contains(o.five_hour, w);
    one_contains(o.seven_day, w);
    one_contains(o.spark, w);
}

proof fn one_contains(q: Option<QuotaReading>, w: WindowUtilization)
    ensures
        windows_of(q).contains(w) <==> q is Some && w == window_of(q->0),
{
    if let Some(r) = q {
        assert(windows_of(q)[0] == window_of(r));
    }
}

proof fn sum_contains(a: Seq<WindowUtilization>, b: Seq<WindowUtilization>, w: WindowUtilization)
    ensures
        (a + b).contains(w) <==> a.contains(w) || b.contains(w),
{
    if a.contains(w) {
        let i = a.index_of(w);
        assert((a + b)[i] == w);
    }
    if b.contains(w) {
        let i = b.index_of(w);
        assert((a + b)[a.len() + i] == w);
    }
}

/// The fullest window binds: none with a reading is fuller, and of equally full
/// ones the last binds. One binds whenever there is a reading.
pub proof fn the_fullest_window_binds(windows: Seq<WindowUtilization>, k: int, i: int)
    requires
        0 <= i < windows.len(),
        windows[i].utilization is Some,
    ensures
        binds(windows, k) ==> windows[k].utilization is Some && windows[i].utilization->0
            <= windows[k].utilization->0,
        binds(windows, k) && windows[i].utilization == windows[k].utilization ==> i <= k,
        exists|j: int| binds(windows, j),
    decreases windows.len(),
{
    let rest = windows.drop_last();
    let last = windows.len() - 1;
    if exists|j: int| 0 <= j < rest.len() && (#[trigger] rest[j]).utilization is Some {
        let j = choose|j: int| 0 <= j < rest.len() && (#[trigger] rest[j]).utilization is Some;
        the_fullest_window_binds(rest, k, j);
        let b = choose|b: int| binds(rest, b);
        assert(forall|p: int| 0 <= p < rest.len() ==> #[trigger] windows[p] == rest[p]);
        assert(rest[b] == windows[b]);
        match windows[last].utilization {
            Some(u) if u >= rest[b].utilization->0 => {
                assert forall|p: int| 0 <= p < windows.len() implies ((
                #[trigger] windows[p]).utilization matches Some(v) ==> v <= u) by {
                    if p < last {
                        assert(rest[p] == windows[p]);
                    }
                }
                assert(binds(windows, last));
            },
            _ => {
                assert forall|p: int| 0 <= p < windows.len() implies ((
                #[trigger] windows[p]).utilization matches Some(v) ==> if p <= b {
                    v <= windows[b].utilization->0
                } else {
                    v < windows[b].utilization->0
                }) by {
                    if p < last {
                        assert(rest[p] == windows[p]);
                    }
                }
                assert(binds(windows, b));
            },
        }
    } else {
        if i < last {
            assert(rest[i] == windows[i]);
        }
        assert forall|p: int| 0 <= p < windows.len() implies ((
        #[trigger] windows[p]).utilization matches Some(v) ==> v <= windows[last].utilization->0) by {
            if p < last {
                assert(rest[p] == windows[p]);
            }
        }
        assert(binds(windows, last));
    }
}

} // verus!
