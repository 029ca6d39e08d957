//! Short human-readable renderings.

use crate::ambient::types::ScheduledItem;
use crate::numerals::{dec, numeral_ends_at_its_unit, push_dec};
use crate::text::{join, joined, owned, views};
use vstd::prelude::*;

verus! {

/// A span of time in the one or two units that matter; a negative span is none.
pub open spec fn rough(secs: int) -> Seq<char> {
    let s = if secs < 0 {
        0
    } else {
        secs as nat
    };
    if s < 60 {
        dec(s) + "s"@
    } else if s < 3600 {
        dec(s / 60) + "m"@
    } else if s < 86_400 {
        if s % 3600 / 60 > 0 {
            dec(s / 3600) + "h "@ + dec(s % 3600 / 60) + "m"@
        } else {
            dec(s / 3600) + "h"@
        }
    } else {
        dec(s / 86_400) + "d"@
    }
}

/// Renders a span of seconds roughly.
pub fn format_duration_rough(secs: i64) -> (r: String)
    ensures
        r@ == rough(secs as int),
{
    let s: u64 = if secs < 0 {
        0
    } else {
        secs as u64
    };
    let mut out = String::new();
    if s < 60 {
        push_dec(&mut out, s);
        assert(out@ =~= dec(s as nat));
        out.append("s");
    } else if s < 3600 {
        push_dec(&mut out, s / 60);
        assert(out@ =~= dec((s / 60) as nat));
        out.append("m");
    } else if s < 86_400 {
        push_dec(&mut out, s / 3600);
        assert(out@ =~= dec((s / 3600) as nat));
        let m: u64 = s % 3600 / 60;
        if m > 0 {
            out.append("h ");
            push_dec(&mut out, m);
            out.append("m");
        } else {
            out.append("h");
        }
    } else {
        push_dec(&mut out, s / 86_400);
        assert(out@ =~= dec((s / 86_400) as nat));
        out.append("d");
    }
    out
}

/// A number of minutes in the one or two units that matter.
pub open spec fn minutes_text(mins: nat) -> Seq<char> {
    if mins < 60 {
        dec(mins) + "m"@
    } else if mins < 1440 {
        if mins % 60 > 0 {
            dec(mins / 60) + "h "@ + dec(mins % 60) + "m"@
        } else {
            dec(mins / 60) + "h"@
        }
    } else if mins % 1440 / 60 > 0 {
        dec(mins / 1440) + "d "@ + dec(mins % 1440 / 60) + "h"@
    } else {
        dec(mins / 1440) + "d"@
    }
}

/// Renders a number of minutes: `5m`, `1h 30m`, `1d 1h`.
pub fn format_minutes_human(mins: u32) -> (r: String)
    ensures
        r@ == minutes_text(mins as nat),
{
    let mut out = String::new();
    if mins < 60 {
        push_dec(&mut out, mins as u64);
        assert(out@ =~= dec(mins as nat));
        out.append("m");
    } else if mins < 1440 {
        push_dec(&mut out, (mins / 60) as u64);
        assert(out@ =~= dec((mins / 60) as nat));
        let m: u32 = mins % 60;
        if m > 0 {
            out.append("h ");
            push_dec(&mut out, m as u64);
            out.append("m");
        } else {
            out.append("h");
        }
    } else {
        push_dec(&mut out, (mins / 1440) as u64);
        assert(out@ =~= dec((mins / 1440) as nat));
        let h: u32 = mins % 1440 / 60;
        if h > 0 {
            out.append("d ");
            push_dec(&mut out, h as u64);
            out.append("h");
        } else {
            out.append("d");
        }
    }
    out
}

/// The minutes that a rendering shows: all of them below a day, whole hours from
/// a day on.
pub open spec fn shown_minutes(mins: nat) -> nat {
    if mins < 1440 {
        mins
    } else {
        (mins - mins % 60) as nat
    }
}

/// What a rendering says behind its first number.
spec fn minutes_tail(mins: nat) -> Seq<char> {
    if mins < 60 {
        "m"@
    } else if mins < 1440 {
        if mins % 60 > 0 {
            "h "@ + (dec(mins % 60) + "m"@)
        } else {
            "h"@
        }
    } else if mins % 1440 / 60 > 0 {
        "d "@ + (dec(mins % 1440 / 60) + "h"@)
    } else {
        "d"@
    }
}

spec fn minutes_head(mins: nat) -> nat {
    if mins < 60 {
        mins
    } else if mins < 1440 {
        mins / 60
    } else {
        mins / 1440
    }
}

proof fn minutes_parts(mins: nat)
    ensures
        minutes_text(mins) == dec(minutes_head(mins)) + minutes_tail(mins),
        minutes_tail(mins).len() > 0,
        mins < 60 ==> minutes_tail(mins)[0] == 'm',
        60 <= mins < 1440 ==> minutes_tail(mins)[0] == 'h',
        1440 <= mins ==> minutes_tail(mins)[0] == 'd',
        minutes_tail(mins).len() > 1 ==> minutes_tail(mins).skip(2) == dec(
            if mins < 1440 {
                mins % 60
            } else {
                mins % 1440 / 60
            },
        ) + (if mins < 1440 {
            "m"@
        } else {
            "h"@
        }),
        minutes_tail(mins).len() > 1 <==> (if mins < 60 {
            false
        } else if mins < 1440 {
            mins % 60 > 0
        } else {
            mins % 1440 / 60 > 0
        }),
{
    reveal_strlit("m");
    reveal_strlit("h");
    reveal_strlit("d");
    reveal_strlit("h ");
    reveal_strlit("d ");
    assert(minutes_text(mins) =~= dec(minutes_head(mins)) + minutes_tail(mins));
    if minutes_tail(mins).len() > 1 {
        if mins < 1440 {
            assert(minutes_tail(mins).skip(2) =~= dec(mins % 60) + "m"@);
        } else {
            assert(minutes_tail(mins).skip(2) =~= dec(mins % 1440 / 60) + "h"@);
        }
    }
}

/// A rendering tells durations apart. Below a day no two are rendered alike; from
/// a day on the minutes past the hour are dropped, and nothing else is.
pub proof fn renderings_tell_durations_apart(a: nat, b: nat)
    ensures
        minutes_text(a) == minutes_text(b) <==> shown_minutes(a) == shown_minutes(b),
        minutes_text(shown_minutes(a)) == minutes_text(a),
{
    let c = shown_minutes(a);
    assert(c >= 1440 ==> c / 1440 == a / 1440 && c % 1440 / 60 == a % 1440 / 60);
    let d = shown_minutes(b);
    assert(d >= 1440 ==> d / 1440 == b / 1440 && d % 1440 / 60 == b % 1440 / 60);
    minutes_parts(a);
    minutes_parts(b);
    if minutes_text(a) == minutes_text(b) {
        reveal_strlit("m");
        reveal_strlit("h");
        numeral_ends_at_its_unit(minutes_head(a), minutes_head(b), minutes_tail(a), minutes_tail(b));
        if minutes_tail(a).len() > 1 {
            if a < 1440 {
                numeral_ends_at_its_unit(a % 60, b % 60, "m"@, "m"@);
            } else {
                numeral_ends_at_its_unit(a % 1440 / 60, b % 1440 / 60, "h"@, "h"@);
            }
        }
    }
}

/// The smaller unit is left out when there is none of it.
pub proof fn zero_units_are_left_out(mins: nat)
    ensures
        60 <= mins < 1440 && mins % 60 == 0 ==> minutes_text(mins) == dec(mins / 60) + "h"@,
        1440 <= mins && mins % 1440 < 60 ==> minutes_text(mins) == dec(mins / 1440) + "d"@,
{
}

/// The lines of a reminder that is delivered into a session.
pub open spec fn reminder_lines(item: ScheduledItem) -> Seq<Seq<char>> {
    let task = match item.task_description {
        Some(t) => t@,
        None => item.context@,
    };
    seq![
        "[Scheduled task]"@,
        "A scheduled task for this session is now due."@,
        Seq::<char>::empty(),
        "Task: "@ + task,
    ] + (match item.working_dir {
        Some(d) => seq!["Working directory: "@ + d@],
        None => Seq::empty(),
    }) + (if item.relevant_files@.len() > 0 {
        seq!["Relevant files: "@ + joined(views(item.relevant_files@), ", "@)]
    } else {
        Seq::empty()
    }) + (match item.git_branch {
        Some(b) => seq!["Branch: "@ + b@],
        None => Seq::empty(),
    }) + (match item.additional_context {
        Some(c) => seq![Seq::<char>::empty(), c@],
        None => Seq::empty(),
    })
}

fn labelled(label: &str, text: &str) -> (r: String)
    ensures
        r@ == label@ + text@,
{
    let mut out = owned(label);
    out.append(text);
    out
}

fn add_line(lines: &mut Vec<String>, line: String)
    ensures
        views(final(lines)@) == views(old(lines)@) + seq![line@],
{
    lines.push(line);
    assert(views(lines@) =~= views(old(lines)@) + seq![line@]);
}

/// The reminder of a scheduled task, as delivered into a session.
pub fn format_scheduled_session_message(item: &ScheduledItem) -> (r: String)
    ensures
        r@ == joined(reminder_lines(*item), "\n"@),
{
    let task: &str = match &item.task_description {
        Some(t) => t.as_str(),
        None => item.context.as_str(),
    };
    let mut lines: Vec<String> = Vec::new();
    lines.push(owned("[Scheduled task]"));
    lines.push(owned("A scheduled task for this session is now due."));
    lines.push(String::new());
    lines.push(labelled("Task: ", task));
    let ghost a = seq![
        "[Scheduled task]"@,
        "A scheduled task for this session is now due."@,
        Seq::<char>::empty(),
        "Task: "@ + task@,
    ];
    assert(views(lines@) =~= a);
    let ghost none = Seq::<Seq<char>>::empty();
    assert(a + none =~= a);
    if let Some(dir) = &item.working_dir {
        add_line(&mut lines, labelled("Working directory: ", dir.as_str()));
    }
    let ghost b = views(lines@);
    assert(b + none =~= b);
    if item.relevant_files.len() > 0 {
        let files = join(&item.relevant_files, ", ");
        add_line(&mut lines, labelled("Relevant files: ", files.as_str()));
    }
    let ghost c = views(lines@);
    assert(c + none =~= c);
    if let Some(branch) = &item.git_branch {
        add_line(&mut lines, labelled("Branch: ", branch.as_str()));
    }
    let ghost d = views(lines@);
    assert(d + none =~= d);
    if let Some(ctx) = &item.additional_context {
        add_line(&mut lines, String::new());
        add_line(&mut lines, ctx.clone());
        assert(views(lines@) =~= d + seq![Seq::<char>::empty(), ctx@]);
    }
    assert(views(lines@) == reminder_lines(*item));
    join(&lines, "\n")
}

/// A span is told in whole units, rounded down: seconds below a minute, minutes
/// below an hour, hours with the minutes over below a day, and days beyond.
pub proof fn spans_are_rounded_down(k: nat, m: nat, r: nat)
    requires
        r < 60,
    ensures
        rough(r as int) == dec(r) + "s"@,
        1 <= k < 60 ==> rough((60 * k + r) as int) == dec(k) + "m"@,
        1 <= k < 24 && 1 <= m < 60 ==> rough((3600 * k + 60 * m + r) as int) == dec(k) + "h "@ + dec(
            m,
        ) + "m"@,
        1 <= k < 24 ==> rough((3600 * k + r) as int) == dec(k) + "h"@,
        1 <= k && m < 1440 ==> rough((86_400 * k + 60 * m + r) as int) == dec(k) + "d"@,
{
    assert(1 <= k < 60 ==> (60 * k + r) / 60 == k);
    assert(1 <= k < 24 && 1 <= m < 60 ==> (3600 * k + 60 * m + r) / 3600 == k && (3600 * k + 60 * m
        + r) % 3600 / 60 == m);
    assert(1 <= k < 24 ==> (3600 * k + r) / 3600 == k && (3600 * k + r) % 3600 / 60 == 0);
    assert(1 <= k && m < 1440 ==> (86_400 * k + 60 * m + r) / 86_400 == k);
}

/// A span that has not begun reads as none.
pub proof fn no_span_is_negative(secs: int)
    requires
        secs <= 0,
    ensures
        rough(secs) == rough(0),
{
}

/// A reminder names the task by its description, or else by its context, and tells
/// where, on which files and on which branch it is to be done exactly when the item
/// says so.
pub proof fn reminders_tell_the_task(item: ScheduledItem)
    ensures
        ({
            let lines = reminder_lines(item);
            let dir: int = if item.working_dir is Some {
                1
            } else {
                0
            };
            let files: int = if item.relevant_files@.len() > 0 {
                1
            } else {
                0
            };
            let branch: int = if item.git_branch is Some {
                1
            } else {
                0
            };
            &&& lines[3] == "Task: "@ + (if item.task_description is Some {
                item.task_description->0@
            } else {
                item.context@
            })
            &&& item.working_dir matches Some(d) ==> lines[4] == "Working directory: "@ + d@
            &&& item.relevant_files@.len() > 0 ==> lines[4 + dir] == "Relevant files: "@ + joined(
                views(item.relevant_files@),
                ", "@,
            )
            &&& item.git_branch matches Some(b) ==> lines[4 + dir + files] == "Branch: "@ + b@
            &&& item.additional_context matches Some(c) ==> lines[4 + dir + files + branch].len() == 0
                && lines[5 + dir + files + branch] == c@
            &&& lines.len() == 4 + dir + files + branch + (if item.additional_context is Some {
                2int
            } else {
                0
            })
        }),
{
}

} // verus!
