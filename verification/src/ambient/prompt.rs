//! The system prompt of an ambient cycle.
//!
//! Each passage is described by a function from the text before it to the text
//! behind it, and appended by the function of the same purpose.

use crate::ambient::activity::{
    count_views, rank_activity, ranking, session_dirs, RecentSessionInfo,
};
use crate::ambient::gates::AMBIENT_TODO_GUIDANCE;
use crate::ambient::phrases::{format_duration_rough, rough};
use crate::ambient::projects::{
    belongs, configured_project_priority, final_segment, last_segment, owner_index,
    owner_index_is_first, paths_match, paths_of, priority_rank, project_views, rank_of, ProjectView,
    ResolvedProject,
};
use crate::ambient::prompt_text::{
    AVOIDANCE_NOTE, DIRECTIVES_NOTE, DIRECT_NOTE, DIRECT_PROJECTS, FORK_PROJECTS, GITHUB_A, GITHUB_B,
    GITHUB_C, HELD_BACK_NOTE, IDLE_PRIORITY_NOTE, INSTRUCTIONS, INTRO, MESSAGING, OTHER_PROJECTS,
    PERMISSIONS, PRIORITY_NOTE, PROACTIVE_OFF, PROACTIVE_ON, PROJECT_INSTRUCTIONS,
    PROJECT_MEMORY_NOTE, PULL_REQUESTS, SKILLS_INTRO, SKILLS_NOTE, STANDING_INSTRUCTIONS, WALK_INTRO,
    WALK_NOTE, WORKING_DIR_NOTE,
};
use crate::ambient::types::{AmbientState, Priority, ScheduleTarget, ScheduledItem};
use crate::clock::{utc_minute, utc_minute_of};
use crate::numerals::{dec, push_dec};
use crate::text::{
    ends_with_char, join, joined, opt_view, owned, pieces, pieces_nonempty, split, str_eq, trim,
    trimmed, views,
};
use crate::time::{secs_between, truncated, Timestamp, NANOS_PER_SEC};
use vstd::prelude::*;

verus! {

/// Health stats for the memory graph.
#[derive(Debug, Clone)]
pub struct MemoryGraphHealth {
    pub total: usize,
    pub active: usize,
    pub inactive: usize,
    pub low_confidence: usize,
    pub contradictions: usize,
    pub missing_embeddings: usize,
    pub duplicate_candidates: usize,
    pub last_consolidation: Option<Timestamp>,
    /// Per-project breakdown.
    pub projects: Vec<ProjectGraphHealth>,
}

impl Default for MemoryGraphHealth {
    fn default() -> (r: MemoryGraphHealth)
        ensures
            r.total == 0 && r.active == 0 && r.inactive == 0 && r.low_confidence == 0,
            r.contradictions == 0 && r.missing_embeddings == 0 && r.duplicate_candidates == 0,
            r.last_consolidation is None,
            r.projects@.len() == 0,
    {
        MemoryGraphHealth {
            total: 0,
            active: 0,
            inactive: 0,
            low_confidence: 0,
            contradictions: 0,
            missing_embeddings: 0,
            duplicate_candidates: 0,
            last_consolidation: None,
            projects: Vec::new(),
        }
    }
}

/// Health of a single per-project memory graph.
#[derive(Debug, Clone)]
pub struct ProjectGraphHealth {
    /// Project directory, when it is known.
    pub working_dir: Option<String>,
    /// Graph file stem, always available.
    pub graph_id: String,
    pub total: usize,
    pub active: usize,
    pub low_confidence: usize,
    pub missing_embeddings: usize,
}

/// Resource budget info.
#[derive(Debug, Clone)]
pub struct ResourceBudget {
    pub provider: String,
    pub tokens_remaining_desc: String,
    pub window_resets_desc: String,
    pub user_usage_rate_desc: String,
    pub cycle_budget_desc: String,
}

impl Default for ResourceBudget {
    fn default() -> (r: ResourceBudget)
        ensures
            r.provider@.len() == 0 && r.tokens_remaining_desc@.len() == 0,
            r.window_resets_desc@.len() == 0 && r.user_usage_rate_desc@.len() == 0,
            r.cycle_budget_desc@.len() == 0,
    {
        ResourceBudget {
            provider: String::new(),
            tokens_remaining_desc: String::new(),
            window_resets_desc: String::new(),
            user_usage_rate_desc: String::new(),
            cycle_budget_desc: String::new(),
        }
    }
}

/// An instruction the user sent in reply to a notification.
#[derive(Debug, Clone)]
pub struct UserDirective {
    pub in_reply_to_cycle: String,
    pub text: String,
    pub received_at: Timestamp,
}

/// An installed skill.
#[derive(Debug, Clone)]
pub struct SkillInfo {
    pub name: String,
    pub description: String,
}

/// The issue tracker through which the user is reached.
#[derive(Debug, Clone)]
pub struct IssueTracker {
    pub repo: String,
    pub label: String,
}

/// What the configuration and the user's files contribute to the prompt.
#[derive(Debug)]
pub struct PromptSettings {
    pub now: Timestamp,
    /// Projects that may be worked on now, highest priority first.
    pub projects: Vec<ResolvedProject>,
    /// Projects held back by their own schedule.
    pub held_back: Vec<ResolvedProject>,
    /// The single review repository of the configuration.
    pub pr_repo: String,
    pub github: Option<IssueTracker>,
    pub proactive_work: bool,
    pub auto_approve_permissions: bool,
    pub directives: Vec<UserDirective>,
    pub user_instructions: Option<String>,
    /// For each of the directories that `instruction_dirs` lists, the text of
    /// its own instructions file.
    pub instruction_files: Vec<Option<String>>,
    pub skills: Vec<SkillInfo>,
}

/// How long ago `from` was.
pub open spec fn ago(from: Timestamp, now: Timestamp) -> Seq<char> {
    rough(truncated(now.nanos - from.nanos, NANOS_PER_SEC as int))
}

fn push_ago(out: &mut String, from: &Timestamp, now: &Timestamp)
    requires
        from.valid(),
        now.valid(),
    ensures
        final(out)@ == old(out)@ + ago(*from, *now),
{
    out.append(format_duration_rough(secs_between(from, now)).as_str());
}

fn push_labelled(out: &mut String, label: &str, text: &str)
    ensures
        final(out)@ == old(out)@ + label@ + text@ + "\n"@,
{
    out.append(label);
    out.append(text);
    out.append("\n");
}

fn push_count(out: &mut String, label: &str, n: usize)
    ensures
        final(out)@ == old(out)@ + label@ + dec(n as nat) + "\n"@,
{
    out.append(label);
    push_dec(out, n as u64);
    out.append("\n");
}

// ---------------------------------------------------------------------------
// Current state
// ---------------------------------------------------------------------------

pub open spec fn with_state(
    t: Seq<char>,
    state: AmbientState,
    active_user_sessions: nat,
    now: Timestamp,
) -> Seq<char> {
    let t = t + "## Current State\n"@;
    let t = match state.last_run {
        Some(last) => t + "- Last ambient cycle: "@ + utc_minute_of(last) + " ("@ + ago(last, now)
            + " ago)\n"@,
        None => t + "- Last ambient cycle: never (first run)\n"@,
    };
    let t = if active_user_sessions > 0 {
        t + "- Active user sessions: "@ + dec(active_user_sessions) + "\n"@
    } else {
        t + "- Active user sessions: none\n"@
    };
    t + "- Total cycles completed: "@ + dec(state.total_cycles as nat) + "\n"@ + "\n"@
}

fn push_state(out: &mut String, state: &AmbientState, active_user_sessions: usize, now: &Timestamp)
    requires
        now.valid(),
        state.last_run matches Some(t) ==> t.valid(),
    ensures
        final(out)@ == with_state(old(out)@, *state, active_user_sessions as nat, *now),
{
    out.append("## Current State\n");
    match &state.last_run {
        Some(last) => {
            out.append("- Last ambient cycle: ");
            out.append(utc_minute(last).as_str());
            out.append(" (");
            push_ago(out, last, now);
            out.append(" ago)\n");
        },
        None => out.append("- Last ambient cycle: never (first run)\n"),
    }
    if active_user_sessions > 0 {
        push_count(out, "- Active user sessions: ", active_user_sessions);
    } else {
        out.append("- Active user sessions: none\n");
    }
    out.append("- Total cycles completed: ");
    push_dec(out, state.total_cycles);
    out.append("\n");
    out.append("\n");
}

// ---------------------------------------------------------------------------
// Scheduled queue
// ---------------------------------------------------------------------------

/// `s` without the carriage return it may end in.
pub open spec fn without_cr(s: Seq<char>) -> Seq<char> {
    if s.len() > 0 && s.last() == '\r' {
        s.drop_last()
    } else {
        s
    }
}

/// The lines of a text, without their line endings. The last line needs none.
pub open spec fn text_lines(s: Seq<char>) -> Seq<Seq<char>> {
    let ps = pieces(s, '\n');
    let ended = ps.drop_last().map_values(|l: Seq<char>| without_cr(l));
    if ps.last().len() == 0 {
        ended
    } else {
        ended.push(ps.last())
    }
}

/// The lines of a text.
pub fn lines_of(s: &str) -> (r: Vec<String>)
    ensures
        views(r@) == text_lines(s@),
{
    let ps = split(s, '\n');
    let ghost all = pieces(s@, '\n');
    proof {
        pieces_nonempty(s@, '\n');
    }
    let mut out: Vec<String> = Vec::new();
    let mut i: usize = 0;
    while i < ps.len() - 1
        invariant
            all == pieces(s@, '\n'),
            views(ps@) == all,
            ps@.len() > 0,
            i < ps@.len(),
            out@.len() == i,
            forall|j: int| 0 <= j < i ==> (#[trigger] out@[j])@ == without_cr(all[j]),
        decreases ps@.len() - i,
    {
        let line = ps[i].as_str();
        assert(line@ == all[i as int]);
        if ends_with_char(line, '\r') {
            let n = line.unicode_len();
            let cut = line.substring_char(0, n - 1);
            assert(cut@ =~= line@.drop_last());
            out.push(owned(cut));
        } else {
            out.push(owned(line));
        }
        i = i + 1;
    }
    let ghost ended = all.drop_last().map_values(|l: Seq<char>| without_cr(l));
    assert(views(out@) =~= ended);
    let last = ps[i].as_str();
    assert(last@ == all.last());
    if !last.is_empty() {
        let ghost was = out@;
        out.push(owned(last));
        assert(views(out@) =~= views(was).push(last@));
    }
    out
}

pub open spec fn with_lines(t: Seq<char>, lines: Seq<Seq<char>>) -> Seq<char>
    decreases lines.len(),
{
    if lines.len() == 0 {
        t
    } else {
        with_lines(t, lines.drop_last()) + "  "@ + lines.last() + "\n"@
    }
}

pub open spec fn with_item(t: Seq<char>, item: ScheduledItem, now: Timestamp) -> Seq<char> {
    let t = t + "- ["@ + item.id@ + "] "@ + item.context@ + " (scheduled "@ + ago(item.created_at, now)
        + " ago, priority: "@ + (match item.priority {
        Priority::Low => "low"@,
        Priority::Normal => "normal"@,
        Priority::High => "HIGH"@,
    }) + ")\n"@;
    let t = match item.target {
        ScheduleTarget::Ambient => t,
        ScheduleTarget::Session { session_id } => t + "  Target session: "@ + session_id@ + "\n"@,
        ScheduleTarget::Spawn { parent_session_id } => t + "  Spawn from session: "@
            + parent_session_id@ + "\n"@,
    };
    let t = match item.working_dir {
        Some(dir) => t + "  Working dir: "@ + dir@ + "\n"@,
        None => t,
    };
    let t = match item.task_description {
        Some(desc) => t + "  Details: "@ + desc@ + "\n"@,
        None => t,
    };
    let t = if item.relevant_files@.len() > 0 {
        t + "  Files: "@ + joined(views(item.relevant_files@), ", "@) + "\n"@
    } else {
        t
    };
    let t = match item.git_branch {
        Some(branch) => t + "  Branch: "@ + branch@ + "\n"@,
        None => t,
    };
    match item.additional_context {
        Some(ctx) => with_lines(t, text_lines(ctx@)),
        None => t,
    }
}

fn push_lines(out: &mut String, text: &str)
    ensures
        final(out)@ == with_lines(old(out)@, text_lines(text@)),
{
    let lines = lines_of(text);
    let ghost all = text_lines(text@);
    let mut i: usize = 0;
    assert(all.take(0) =~= Seq::<Seq<char>>::empty());
    while i < lines.len()
        invariant
            i <= lines@.len(),
            views(lines@) == all,
            out@ == with_lines(old(out)@, all.take(i as int)),
        decreases lines@.len() - i,
    {
        assert(all.take(i + 1).drop_last() =~= all.take(i as int));
        assert(all.take(i + 1).last() == lines@[i as int]@);
        push_labelled(out, "  ", lines[i].as_str());
        i = i + 1;
    }
    assert(all.take(all.len() as int) =~= all);
}

fn push_item(out: &mut String, item: &ScheduledItem, now: &Timestamp)
    requires
        now.valid(),
        item.created_at.valid(),
    ensures
        final(out)@ == with_item(old(out)@, *item, *now),
{
    out.append("- [");
    out.append(item.id.as_str());
    out.append("] ");
    out.append(item.context.as_str());
    out.append(" (scheduled ");
    push_ago(out, &item.created_at, now);
    out.append(" ago, priority: ");
    out.append(
        match item.priority {
            Priority::Low => "low",
            Priority::Normal => "normal",
            Priority::High => "HIGH",
        },
    );
    out.append(")\n");
    match &item.target {
        ScheduleTarget::Ambient => {},
        ScheduleTarget::Session { session_id } => push_labelled(
            out,
            "  Target session: ",
            session_id.as_str(),
        ),
        ScheduleTarget::Spawn { parent_session_id } => push_labelled(
            out,
            "  Spawn from session: ",
            parent_session_id.as_str(),
        ),
    }
    if let Some(dir) = &item.working_dir {
        push_labelled(out, "  Working dir: ", dir.as_str());
    }
    if let Some(desc) = &item.task_description {
        push_labelled(out, "  Details: ", desc.as_str());
    }
    if item.relevant_files.len() > 0 {
        push_labelled(out, "  Files: ", join(&item.relevant_files, ", ").as_str());
    }
    if let Some(branch) = &item.git_branch {
        push_labelled(out, "  Branch: ", branch.as_str());
    }
    if let Some(ctx) = &item.additional_context {
        push_lines(out, ctx.as_str());
    }
}

pub open spec fn with_items(t: Seq<char>, items: Seq<ScheduledItem>, now: Timestamp) -> Seq<char>
    decreases items.len(),
{
    if items.len() == 0 {
        t
    } else {
        with_item(with_items(t, items.drop_last(), now), items.last(), now)
    }
}

pub open spec fn with_queue(t: Seq<char>, queue: Seq<ScheduledItem>, now: Timestamp) -> Seq<char> {
    let t = t + "## Scheduled Queue\n"@;
    let t = if queue.len() == 0 {
        t + "Empty -- do general ambient work.\n"@
    } else {
        with_items(t, queue, now)
    };
    t + "\n"@
}

fn push_queue(out: &mut String, queue: &Vec<ScheduledItem>, now: &Timestamp)
    requires
        now.valid(),
        forall|i: int| 0 <= i < queue@.len() ==> (#[trigger] queue@[i]).created_at.valid(),
    ensures
        final(out)@ == with_queue(old(out)@, queue@, *now),
{
    out.append("## Scheduled Queue\n");
    let ghost start = out@;
    if queue.len() == 0 {
        out.append("Empty -- do general ambient work.\n");
    } else {
        let mut i: usize = 0;
        assert(queue@.take(0) =~= Seq::<ScheduledItem>::empty());
        while i < queue.len()
            invariant
                i <= queue@.len(),
                now.valid(),
                forall|j: int| 0 <= j < queue@.len() ==> (#[trigger] queue@[j]).created_at.valid(),
                out@ == with_items(start, queue@.take(i as int), *now),
            decreases queue@.len() - i,
        {
            assert(queue@.take(i + 1).drop_last() =~= queue@.take(i as int));
            assert(queue@.take(i + 1).last() == queue@[i as int]);
            push_item(out, &queue[i], now);
            i = i + 1;
        }
        assert(queue@.take(queue@.len() as int) =~= queue@);
    }
    out.append("\n");
}

// ---------------------------------------------------------------------------
// Recent sessions
// ---------------------------------------------------------------------------

pub open spec fn or_else(s: Option<String>, other: Seq<char>) -> Seq<char> {
    match s {
        Some(x) => x@,
        None => other,
    }
}

pub open spec fn with_session(t: Seq<char>, s: RecentSessionInfo) -> Seq<char> {
    t + "- "@ + s.id@ + " | "@ + s.status@ + " | "@ + rough(s.duration_secs as int) + " | "@ + or_else(
        s.topic,
        "(no title)"@,
    ) + " | project: "@ + or_else(s.working_dir, "(no project)"@) + " | extraction: "@
        + s.extraction_status@ + "\n"@
}

pub open spec fn with_session_list(t: Seq<char>, sessions: Seq<RecentSessionInfo>) -> Seq<char>
    decreases sessions.len(),
{
    if sessions.len() == 0 {
        t
    } else {
        with_session(with_session_list(t, sessions.drop_last()), sessions.last())
    }
}

pub open spec fn with_sessions(t: Seq<char>, sessions: Seq<RecentSessionInfo>) -> Seq<char> {
    let t = t + "## Recent Sessions (since last cycle)\n"@;
    let t = if sessions.len() == 0 {
        t + "No sessions since last cycle.\n"@
    } else {
        with_session_list(t, sessions)
    };
    t + "\n"@
}

fn text_or<'a>(s: &'a Option<String>, other: &'a str) -> (r: &'a str)
    ensures
        r@ == or_else(*s, other@),
{
    match s {
        Some(x) => x.as_str(),
        None => other,
    }
}

fn push_session(out: &mut String, s: &RecentSessionInfo)
    ensures
        final(out)@ == with_session(old(out)@, *s),
{
    out.append("- ");
    out.append(s.id.as_str());
    out.append(" | ");
    out.append(s.status.as_str());
    out.append(" | ");
    out.append(format_duration_rough(s.duration_secs).as_str());
    out.append(" | ");
    out.append(text_or(&s.topic, "(no title)"));
    out.append(" | project: ");
    out.append(text_or(&s.working_dir, "(no project)"));
    out.append(" | extraction: ");
    out.append(s.extraction_status.as_str());
    out.append("\n");
}

fn push_sessions(out: &mut String, sessions: &Vec<RecentSessionInfo>)
    ensures
        final(out)@ == with_sessions(old(out)@, sessions@),
{
    out.append("## Recent Sessions (since last cycle)\n");
    let ghost start = out@;
    if sessions.len() == 0 {
        out.append("No sessions since last cycle.\n");
    } else {
        let mut i: usize = 0;
        assert(sessions@.take(0) =~= Seq::<RecentSessionInfo>::empty());
        while i < sessions.len()
            invariant
                i <= sessions@.len(),
                out@ == with_session_list(start, sessions@.take(i as int)),
            decreases sessions@.len() - i,
        {
            assert(sessions@.take(i + 1).drop_last() =~= sessions@.take(i as int));
            assert(sessions@.take(i + 1).last() == sessions@[i as int]);
            push_session(out, &sessions[i]);
            i = i + 1;
        }
        assert(sessions@.take(sessions@.len() as int) =~= sessions@);
    }
    out.append("\n");
}

// ---------------------------------------------------------------------------
// Projects seen recently
// ---------------------------------------------------------------------------

pub open spec fn with_dir(
    t: Seq<char>,
    priority: Seq<Seq<char>>,
    entry: (Seq<char>, nat),
) -> Seq<char> {
    let t = t + "- "@ + entry.0 + " ("@ + dec(entry.1) + " session(s))"@;
    let t = if rank_of(priority, entry.0) < usize::MAX {
        t + " [priority]"@
    } else {
        t
    };
    t + "\n"@
}

pub open spec fn with_dirs(
    t: Seq<char>,
    priority: Seq<Seq<char>>,
    entries: Seq<(Seq<char>, nat)>,
) -> Seq<char>
    decreases entries.len(),
{
    if entries.len() == 0 {
        t
    } else {
        with_dir(with_dirs(t, priority, entries.drop_last()), priority, entries.last())
    }
}

/// One of the entries is a priority project.
pub open spec fn any_prioritized(priority: Seq<Seq<char>>, entries: Seq<(Seq<char>, nat)>) -> bool {
    exists|i: int| 0 <= i < entries.len() && rank_of(priority, (#[trigger] entries[i]).0) < usize::MAX
}

/// Session counts answer where the user has been; the priority list says what
/// matters, so it comes first.
pub open spec fn with_active_projects(
    t: Seq<char>,
    sessions: Seq<RecentSessionInfo>,
    priority: Seq<Seq<char>>,
) -> Seq<char> {
    let entries = ranking(session_dirs(sessions), priority);
    if entries.len() == 0 {
        t
    } else {
        let t = with_dirs(t + "## Projects Active Recently\n"@, priority, entries);
        let t = if any_prioritized(priority, entries) {
            t + PRIORITY_NOTE@
        } else {
            t
        };
        t + WORKING_DIR_NOTE@ + "\n"@
    }
}

fn push_active_projects(
    out: &mut String,
    sessions: &Vec<RecentSessionInfo>,
    priority: &Vec<String>,
)
    ensures
        final(out)@ == with_active_projects(old(out)@, sessions@, views(priority@)),
{
    let ranked = rank_activity(sessions, priority);
    let ghost entries = count_views(ranked@);
    let ghost pr = views(priority@);
    if ranked.len() == 0 {
        return;
    }
    out.append("## Projects Active Recently\n");
    let ghost start = out@;
    let mut any = false;
    let mut i: usize = 0;
    assert(entries.take(0) =~= Seq::<(Seq<char>, nat)>::empty());
    while i < ranked.len()
        invariant
            i <= ranked@.len(),
            entries == count_views(ranked@),
            pr == views(priority@),
            out@ == with_dirs(start, pr, entries.take(i as int)),
            any == any_prioritized(pr, entries.take(i as int)),
        decreases ranked@.len() - i,
    {
        let ghost seen = entries.take(i as int);
        let ghost more = entries.take(i + 1);
        assert(more.drop_last() =~= seen);
        assert(more.last() == (ranked@[i as int].dir@, ranked@[i as int].count as nat));
        assert(forall|j: int| 0 <= j < i ==> #[trigger] more[j] == seen[j]);
        assert(forall|j: int| 0 <= j < i ==> #[trigger] seen[j] == more[j]);
        assert(more[i as int] == more.last());
        let c = &ranked[i];
        let rank: usize = priority_rank(priority, c.dir.as_str());
        out.append("- ");
        out.append(c.dir.as_str());
        out.append(" (");
        push_dec(out, c.count as u64);
        out.append(" session(s))");
        if rank < usize::MAX {
            out.append(" [priority]");
            any = true;
        }
        out.append("\n");
        i = i + 1;
    }
    assert(entries.take(entries.len() as int) =~= entries);
    if any {
        out.append(PRIORITY_NOTE);
    }
    out.append(WORKING_DIR_NOTE);
    out.append("\n");
}

/// One of the directories belongs to the project.
pub open spec fn has_dir_in(dirs: Seq<Seq<char>>, project: Seq<char>) -> bool {
    exists|i: int| 0 <= i < dirs.len() && belongs(#[trigger] dirs[i], project)
}

/// The priority projects none of the directories belongs to.
pub open spec fn idle_projects(dirs: Seq<Seq<char>>, priority: Seq<Seq<char>>) -> Seq<Seq<char>> {
    priority.filter(|p: Seq<char>| !has_dir_in(dirs, p))
}

pub open spec fn with_bullets(t: Seq<char>, entries: Seq<Seq<char>>) -> Seq<char>
    decreases entries.len(),
{
    if entries.len() == 0 {
        t
    } else {
        with_bullets(t, entries.drop_last()) + "- "@ + entries.last() + "\n"@
    }
}

fn push_bullets(out: &mut String, entries: &Vec<String>)
    ensures
        final(out)@ == with_bullets(old(out)@, views(entries@)),
{
    let ghost all = views(entries@);
    let mut i: usize = 0;
    assert(all.take(0) =~= Seq::<Seq<char>>::empty());
    while i < entries.len()
        invariant
            i <= entries@.len(),
            all == views(entries@),
            out@ == with_bullets(old(out)@, all.take(i as int)),
        decreases entries@.len() - i,
    {
        assert(all.take(i + 1).drop_last() =~= all.take(i as int));
        assert(all.take(i + 1).last() == entries@[i as int]@);
        push_labelled(out, "- ", entries[i].as_str());
        i = i + 1;
    }
    assert(all.take(all.len() as int) =~= all);
}

/// Whether one of the sessions ran in the project.
fn ran_in(sessions: &Vec<RecentSessionInfo>, project: &str) -> (r: bool)
    ensures
        r == has_dir_in(session_dirs(sessions@), project@),
{
    let mut i: usize = 0;
    assert(sessions@.take(0) =~= Seq::<RecentSessionInfo>::empty());
    let mut found = false;
    while i < sessions.len()
        invariant
            i <= sessions@.len(),
            found == has_dir_in(session_dirs(sessions@.take(i as int)), project@),
        decreases sessions@.len() - i,
    {
        let ghost seen = session_dirs(sessions@.take(i as int));
        let ghost more = session_dirs(sessions@.take(i + 1));
        assert(sessions@.take(i + 1).drop_last() =~= sessions@.take(i as int));
        assert(sessions@.take(i + 1).last() == sessions@[i as int]);
        assert(forall|j: int| 0 <= j < seen.len() ==> #[trigger] seen[j] == more[j]);
        if let Some(dir) = &sessions[i].working_dir {
            assert(more[seen.len() as int] == dir@);
            if paths_match(dir.as_str(), project) {
                found = true;
            }
        }
        i = i + 1;
    }
    assert(sessions@.take(sessions@.len() as int) =~= sessions@);
    found
}

/// A priority project without recent sessions is the one being neglected, so it
/// is named too.
pub open spec fn with_idle_projects(
    t: Seq<char>,
    sessions: Seq<RecentSessionInfo>,
    priority: Seq<Seq<char>>,
) -> Seq<char> {
    let idle = idle_projects(session_dirs(sessions), priority);
    if idle.len() == 0 {
        t
    } else {
        with_bullets(t + "## Priority Projects With No Recent Sessions\n"@, idle)
            + IDLE_PRIORITY_NOTE@
    }
}

fn push_idle_projects(out: &mut String, sessions: &Vec<RecentSessionInfo>, priority: &Vec<String>)
    ensures
        final(out)@ == with_idle_projects(old(out)@, sessions@, views(priority@)),
{
    let ghost all = views(priority@);
    let ghost dirs = session_dirs(sessions@);
    let ghost f = |p: Seq<char>| !has_dir_in(dirs, p);
    let mut idle: Vec<String> = Vec::new();
    let mut i: usize = 0;
    proof {
        reveal(Seq::filter);
        assert(all.take(0) =~= Seq::<Seq<char>>::empty());
        assert(views(idle@) =~= all.take(0).filter(f));
    }
    while i < priority.len()
        invariant
            i <= priority@.len(),
            all == views(priority@),
            dirs == session_dirs(sessions@),
            f == (|p: Seq<char>| !has_dir_in(dirs, p)),
            views(idle@) == all.take(i as int).filter(f),
        decreases priority@.len() - i,
    {
        proof {
            reveal(Seq::filter);
            assert(all.take(i + 1).drop_last() =~= all.take(i as int));
            assert(all.take(i + 1).last() == priority@[i as int]@);
        }
        if !ran_in(sessions, priority[i].as_str()) {
            let ghost was = idle@;
            idle.push(priority[i].clone());
            assert(views(idle@) =~= views(was).push(priority@[i as int]@));
        }
        i = i + 1;
    }
    assert(all.take(all.len() as int) =~= all);
    if idle.len() > 0 {
        out.append("## Priority Projects With No Recent Sessions\n");
        push_bullets(out, &idle);
        out.append(IDLE_PRIORITY_NOTE);
    }
}

// ---------------------------------------------------------------------------
// Memory graph health
// ---------------------------------------------------------------------------

pub open spec fn with_graph(t: Seq<char>, p: ProjectGraphHealth) -> Seq<char> {
    t + "  - "@ + or_else(p.working_dir, p.graph_id@) + ": "@ + dec(p.total as nat) + " memories ("@
        + dec(p.active as nat) + " active, "@ + dec(p.low_confidence as nat) + " low confidence, "@
        + dec(p.missing_embeddings as nat) + " without embeddings)\n"@
}

pub open spec fn with_graphs(t: Seq<char>, ps: Seq<ProjectGraphHealth>) -> Seq<char>
    decreases ps.len(),
{
    if ps.len() == 0 {
        t
    } else {
        with_graph(with_graphs(t, ps.drop_last()), ps.last())
    }
}

/// The figures of the memory graph.
pub open spec fn with_figures(t: Seq<char>, h: MemoryGraphHealth, now: Timestamp) -> Seq<char> {
    let t = t + "## Memory Graph Health\n"@ + "- Total memories: "@ + dec(h.total as nat) + " ("@ + dec(
        h.active as nat,
    ) + " active, "@ + dec(h.inactive as nat) + " inactive)\n"@;
    let t = t + "- Memories with confidence < 0.1: "@ + dec(h.low_confidence as nat) + "\n"@;
    let t = t + "- Unresolved contradictions: "@ + dec(h.contradictions as nat) + "\n"@;
    let t = t + "- Memories without embeddings: "@ + dec(h.missing_embeddings as nat) + "\n"@;
    let t = if h.duplicate_candidates > 0 {
        t + "- Duplicate candidates (similarity > 0.95): "@ + dec(h.duplicate_candidates as nat) + "\n"@
    } else {
        t + "- Duplicate candidates: run embedding scan to detect\n"@
    };
    match h.last_consolidation {
        Some(ts) => t + "- Last consolidation: "@ + ago(ts, now) + " ago\n"@,
        None => t + "- Last consolidation: never\n"@,
    }
}

pub open spec fn with_memory(t: Seq<char>, h: MemoryGraphHealth, now: Timestamp) -> Seq<char> {
    let t = with_figures(t, h, now);
    let t = if h.projects@.len() > 0 {
        with_graphs(t + "- Per-project memory graphs:\n"@, h.projects@) + PROJECT_MEMORY_NOTE@
    } else {
        t
    };
    t + AVOIDANCE_NOTE@ + "\n"@
}

fn push_graph(out: &mut String, p: &ProjectGraphHealth)
    ensures
        final(out)@ == with_graph(old(out)@, *p),
{
    out.append("  - ");
    out.append(text_or(&p.working_dir, p.graph_id.as_str()));
    out.append(": ");
    push_dec(out, p.total as u64);
    out.append(" memories (");
    push_dec(out, p.active as u64);
    out.append(" active, ");
    push_dec(out, p.low_confidence as u64);
    out.append(" low confidence, ");
    push_dec(out, p.missing_embeddings as u64);
    out.append(" without embeddings)\n");
}

fn push_memory(out: &mut String, h: &MemoryGraphHealth, now: &Timestamp)
    requires
        now.valid(),
        h.last_consolidation matches Some(t) ==> t.valid(),
    ensures
        final(out)@ == with_memory(old(out)@, *h, *now),
{
    out.append("## Memory Graph Health\n");
    out.append("- Total memories: ");
    push_dec(out, h.total as u64);
    out.append(" (");
    push_dec(out, h.active as u64);
    out.append(" active, ");
    push_dec(out, h.inactive as u64);
    out.append(" inactive)\n");
    push_count(out, "- Memories with confidence < 0.1: ", h.low_confidence);
    push_count(out, "- Unresolved contradictions: ", h.contradictions);
    push_count(out, "- Memories without embeddings: ", h.missing_embeddings);
    if h.duplicate_candidates > 0 {
        push_count(out, "- Duplicate candidates (similarity > 0.95): ", h.duplicate_candidates);
    } else {
        out.append("- Duplicate candidates: run embedding scan to detect\n");
    }
    match &h.last_consolidation {
        Some(ts) => {
            out.append("- Last consolidation: ");
            push_ago(out, ts, now);
            out.append(" ago\n");
        },
        None => out.append("- Last consolidation: never\n"),
    }
    if h.projects.len() > 0 {
        out.append("- Per-project memory graphs:\n");
        let ghost start = out@;
        let mut i: usize = 0;
        assert(h.projects@.take(0) =~= Seq::<ProjectGraphHealth>::empty());
        while i < h.projects.len()
            invariant
                i <= h.projects@.len(),
                out@ == with_graphs(start, h.projects@.take(i as int)),
            decreases h.projects@.len() - i,
        {
            assert(h.projects@.take(i + 1).drop_last() =~= h.projects@.take(i as int));
            assert(h.projects@.take(i + 1).last() == h.projects@[i as int]);
            push_graph(out, &h.projects[i]);
            i = i + 1;
        }
        assert(h.projects@.take(h.projects@.len() as int) =~= h.projects@);
        out.append(PROJECT_MEMORY_NOTE);
    }
    out.append(AVOIDANCE_NOTE);
    out.append("\n");
}

// ---------------------------------------------------------------------------
// Feedback, budget, directives
// ---------------------------------------------------------------------------

pub open spec fn with_feedback(t: Seq<char>, feedback: Seq<Seq<char>>) -> Seq<char> {
    let t = t + "## User Feedback History\n"@;
    let t = if feedback.len() == 0 {
        t + "No feedback memories found about ambient mode yet.\n"@
    } else {
        with_bullets(t, feedback)
    };
    t + "\n"@
}

fn push_feedback(out: &mut String, feedback: &Vec<String>)
    ensures
        final(out)@ == with_feedback(old(out)@, views(feedback@)),
{
    out.append("## User Feedback History\n");
    if feedback.len() == 0 {
        out.append("No feedback memories found about ambient mode yet.\n");
    } else {
        push_bullets(out, feedback);
    }
    out.append("\n");
}

pub open spec fn with_budget(t: Seq<char>, b: ResourceBudget) -> Seq<char> {
    let t = t + "## Resource Budget\n"@;
    let t = t + "- Provider: "@ + b.provider@ + "\n"@;
    let t = t + "- Tokens remaining in window: "@ + b.tokens_remaining_desc@ + "\n"@;
    let t = t + "- Window resets: "@ + b.window_resets_desc@ + "\n"@;
    let t = t + "- User usage rate: "@ + b.user_usage_rate_desc@ + "\n"@;
    let t = t + "- Budget for this cycle: "@ + b.cycle_budget_desc@ + "\n"@;
    t + "\n"@
}

fn push_budget(out: &mut String, b: &ResourceBudget)
    ensures
        final(out)@ == with_budget(old(out)@, *b),
{
    out.append("## Resource Budget\n");
    push_labelled(out, "- Provider: ", b.provider.as_str());
    push_labelled(out, "- Tokens remaining in window: ", b.tokens_remaining_desc.as_str());
    push_labelled(out, "- Window resets: ", b.window_resets_desc.as_str());
    push_labelled(out, "- User usage rate: ", b.user_usage_rate_desc.as_str());
    push_labelled(out, "- Budget for this cycle: ", b.cycle_budget_desc.as_str());
    out.append("\n");
}

pub open spec fn with_directive(t: Seq<char>, d: UserDirective, now: Timestamp) -> Seq<char> {
    t + "- [reply to cycle "@ + d.in_reply_to_cycle@ + "] ("@ + ago(d.received_at, now) + " ago): "@
        + d.text@ + "\n"@
}

pub open spec fn with_directive_list(
    t: Seq<char>,
    ds: Seq<UserDirective>,
    now: Timestamp,
) -> Seq<char>
    decreases ds.len(),
{
    if ds.len() == 0 {
        t
    } else {
        with_directive(with_directive_list(t, ds.drop_last(), now), ds.last(), now)
    }
}

pub open spec fn with_directives(t: Seq<char>, ds: Seq<UserDirective>, now: Timestamp) -> Seq<char> {
    if ds.len() == 0 {
        t
    } else {
        with_directive_list(
            t + "## User Directives (from replies)\n"@ + DIRECTIVES_NOTE@,
            ds,
            now,
        ) + "\n"@
    }
}

fn push_directives(out: &mut String, ds: &Vec<UserDirective>, now: &Timestamp)
    requires
        now.valid(),
        forall|i: int| 0 <= i < ds@.len() ==> (#[trigger] ds@[i]).received_at.valid(),
    ensures
        final(out)@ == with_directives(old(out)@, ds@, *now),
{
    if ds.len() == 0 {
        return;
    }
    out.append("## User Directives (from replies)\n");
    out.append(DIRECTIVES_NOTE);
    let ghost start = out@;
    let mut i: usize = 0;
    assert(ds@.take(0) =~= Seq::<UserDirective>::empty());
    while i < ds.len()
        invariant
            i <= ds@.len(),
            now.valid(),
            forall|j: int| 0 <= j < ds@.len() ==> (#[trigger] ds@[j]).received_at.valid(),
            out@ == with_directive_list(start, ds@.take(i as int), *now),
        decreases ds@.len() - i,
    {
        assert(ds@.take(i + 1).drop_last() =~= ds@.take(i as int));
        assert(ds@.take(i + 1).last() == ds@[i as int]);
        let d = &ds[i];
        out.append("- [reply to cycle ");
        out.append(d.in_reply_to_cycle.as_str());
        out.append("] (");
        push_ago(out, &d.received_at, now);
        out.append(" ago): ");
        out.append(d.text.as_str());
        out.append("\n");
        i = i + 1;
    }
    assert(ds@.take(ds@.len() as int) =~= ds@);
    out.append("\n");
}

// ---------------------------------------------------------------------------
// Instructions and issue tracker
// ---------------------------------------------------------------------------

pub open spec fn with_instructions(t: Seq<char>) -> Seq<char> {
    t + INSTRUCTIONS@ + AMBIENT_TODO_GUIDANCE@ + "\n"@ + MESSAGING@
}

pub open spec fn with_issue_tracker(t: Seq<char>, github: Option<IssueTracker>) -> Seq<char> {
    match github {
        Some(g) => t + GITHUB_A@ + g.repo@ + GITHUB_B@ + g.label@ + GITHUB_C@,
        None => t,
    }
}

fn push_instructions(out: &mut String, github: &Option<IssueTracker>)
    ensures
        final(out)@ == with_issue_tracker(with_instructions(old(out)@), *github),
{
    out.append(INSTRUCTIONS);
    out.append(AMBIENT_TODO_GUIDANCE);
    out.append("\n");
    out.append(MESSAGING);
    if let Some(g) = github {
        out.append(GITHUB_A);
        out.append(g.repo.as_str());
        out.append(GITHUB_B);
        out.append(g.label.as_str());
        out.append(GITHUB_C);
    }
}

// ---------------------------------------------------------------------------
// Pull requests
// ---------------------------------------------------------------------------

/// One of the projects is worked on through a fork.
pub open spec fn any_forked(ps: Seq<ProjectView>) -> bool {
    exists|i: int| 0 <= i < ps.len() && (#[trigger] ps[i]).pr_repo.len() > 0
}

/// One of the projects is pushed to directly.
pub open spec fn any_direct(ps: Seq<ProjectView>) -> bool {
    exists|i: int| 0 <= i < ps.len() && (#[trigger] ps[i]).pr_repo.len() == 0
}

/// One of the projects has the review repository `repo`.
pub open spec fn any_with_repo(ps: Seq<ProjectView>, repo: Seq<char>) -> bool {
    exists|i: int| 0 <= i < ps.len() && (#[trigger] ps[i]).pr_repo == repo
}

pub open spec fn with_fork_lines(t: Seq<char>, ps: Seq<ProjectView>) -> Seq<char>
    decreases ps.len(),
{
    if ps.len() == 0 {
        t
    } else {
        let t = with_fork_lines(t, ps.drop_last());
        let p = ps.last();
        if p.pr_repo.len() > 0 {
            t + "- `"@ + p.path + "`: push the branch to the fork remote for `"@ + p.pr_repo
                + "` (check `git remote -v`; it is usually not `origin`), then `gh pr create --repo "@
                + p.pr_repo + " --fill`.\n"@
        } else {
            t
        }
    }
}

pub open spec fn with_direct_lines(t: Seq<char>, ps: Seq<ProjectView>) -> Seq<char>
    decreases ps.len(),
{
    if ps.len() == 0 {
        t
    } else {
        let t = with_direct_lines(t, ps.drop_last());
        let p = ps.last();
        if p.pr_repo.len() == 0 {
            t + "- `"@ + p.path
                + "`: push the branch to `origin` and open the PR with a plain `gh pr create --fill` from that working directory.\n"@
        } else {
            t
        }
    }
}

/// Where branches and pull requests go. `repo` is the single review repository
/// of the configuration, trimmed; it speaks for the repository it names alone.
pub open spec fn with_pull_requests(t: Seq<char>, ps: Seq<ProjectView>, repo: Seq<char>) -> Seq<char> {
    if ps.len() == 0 && repo.len() == 0 {
        t
    } else {
        let t = t + PULL_REQUESTS@;
        let t = if any_forked(ps) {
            with_fork_lines(t + FORK_PROJECTS@, ps)
        } else {
            t
        };
        let t = if any_direct(ps) {
            with_direct_lines(t + DIRECT_PROJECTS@, ps) + DIRECT_NOTE@
        } else {
            t
        };
        let t = if repo.len() > 0 && !any_with_repo(ps, repo) {
            t + "\nFor work in the `"@ + last_segment(repo) + "` repository, open pull requests against `"@
                + repo + "` with `gh pr create --repo "@ + repo
                + " --fill`; never against its upstream.\n"@
        } else {
            t
        };
        t + OTHER_PROJECTS@
    }
}

fn push_fork_lines(out: &mut String, projects: &Vec<ResolvedProject>)
    ensures
        final(out)@ == with_fork_lines(old(out)@, project_views(projects@)),
{
    let ghost all = project_views(projects@);
    let mut i: usize = 0;
    assert(all.take(0) =~= Seq::<ProjectView>::empty());
    while i < projects.len()
        invariant
            i <= projects@.len(),
            all == project_views(projects@),
            out@ == with_fork_lines(old(out)@, all.take(i as int)),
        decreases projects@.len() - i,
    {
        assert(all.take(i + 1).drop_last() =~= all.take(i as int));
        assert(all.take(i + 1).last() == projects@[i as int]@);
        let p = &projects[i];
        if !p.pr_repo.as_str().is_empty() {
            out.append("- `");
            out.append(p.path.as_str());
            out.append("`: push the branch to the fork remote for `");
            out.append(p.pr_repo.as_str());
            out.append(
                "` (check `git remote -v`; it is usually not `origin`), then `gh pr create --repo ",
            );
            out.append(p.pr_repo.as_str());
            out.append(" --fill`.\n");
        }
        i = i + 1;
    }
    assert(all.take(all.len() as int) =~= all);
}

fn push_direct_lines(out: &mut String, projects: &Vec<ResolvedProject>)
    ensures
        final(out)@ == with_direct_lines(old(out)@, project_views(projects@)),
{
    let ghost all = project_views(projects@);
    let mut i: usize = 0;
    assert(all.take(0) =~= Seq::<ProjectView>::empty());
    while i < projects.len()
        invariant
            i <= projects@.len(),
            all == project_views(projects@),
            out@ == with_direct_lines(old(out)@, all.take(i as int)),
        decreases projects@.len() - i,
    {
        assert(all.take(i + 1).drop_last() =~= all.take(i as int));
        assert(all.take(i + 1).last() == projects@[i as int]@);
        let p = &projects[i];
        if p.pr_repo.as_str().is_empty() {
            out.append("- `");
            out.append(p.path.as_str());
            out.append(
                "`: push the branch to `origin` and open the PR with a plain `gh pr create --fill` from that working directory.\n",
            );
        }
        i = i + 1;
    }
    assert(all.take(all.len() as int) =~= all);
}

fn push_pull_requests(out: &mut String, projects: &Vec<ResolvedProject>, repo: &str)
    ensures
        final(out)@ == with_pull_requests(old(out)@, project_views(projects@), repo@),
{
    if projects.len() == 0 && repo.is_empty() {
        return;
    }
    let ghost ps = project_views(projects@);
    let mut forked = false;
    let mut direct = false;
    let mut named = false;
    let mut i: usize = 0;
    while i < projects.len()
        invariant
            i <= projects@.len(),
            ps == project_views(projects@),
            forked == any_forked(ps.take(i as int)),
            direct == any_direct(ps.take(i as int)),
            named == any_with_repo(ps.take(i as int), repo@),
        decreases projects@.len() - i,
    {
        let ghost seen = ps.take(i as int);
        let ghost more = ps.take(i + 1);
        assert(forall|j: int| 0 <= j < i ==> #[trigger] more[j] == seen[j]);
        assert(forall|j: int| 0 <= j < i ==> #[trigger] seen[j] == more[j]);
        assert(more[i as int] == projects@[i as int]@);
        let r = projects[i].pr_repo.as_str();
        if r.is_empty() {
            direct = true;
        } else {
            forked = true;
        }
        if str_eq(r, repo) {
            named = true;
        }
        i = i + 1;
    }
    assert(ps.take(ps.len() as int) =~= ps);
    out.append(PULL_REQUESTS);
    if forked {
        out.append(FORK_PROJECTS);
        push_fork_lines(out, projects);
    }
    if direct {
        out.append(DIRECT_PROJECTS);
        push_direct_lines(out, projects);
        out.append(DIRECT_NOTE);
    }
    if !repo.is_empty() && !named {
        out.append("\nFor work in the `");
        out.append(final_segment(repo).as_str());
        out.append("` repository, open pull requests against `");
        out.append(repo);
        out.append("` with `gh pr create --repo ");
        out.append(repo);
        out.append(" --fill`; never against its upstream.\n");
    }
    out.append(OTHER_PROJECTS);
}

// ---------------------------------------------------------------------------
// Proactive work and the priority list
// ---------------------------------------------------------------------------

pub open spec fn with_proactive(t: Seq<char>, proactive: bool) -> Seq<char> {
    if proactive {
        t + PROACTIVE_ON@
    } else {
        t + PROACTIVE_OFF@
    }
}

pub open spec fn with_numbered(t: Seq<char>, paths: Seq<Seq<char>>) -> Seq<char>
    decreases paths.len(),
{
    if paths.len() == 0 {
        t
    } else {
        with_numbered(t, paths.drop_last()) + dec(paths.len()) + ". "@ + paths.last() + "\n"@
    }
}

pub open spec fn with_held_back_lines(t: Seq<char>, ps: Seq<ProjectView>) -> Seq<char>
    decreases ps.len(),
{
    if ps.len() == 0 {
        t
    } else {
        with_held_back_lines(t, ps.drop_last()) + "- "@ + ps.last().path + " (allowed: "@ + joined(
            ps.last().active_windows,
            ", "@,
        ) + ")\n"@
    }
}

/// The priority list is an order to walk, in cycles that may look for work.
pub open spec fn with_walk(
    t: Seq<char>,
    proactive: bool,
    ps: Seq<ProjectView>,
    held: Seq<ProjectView>,
) -> Seq<char> {
    if proactive && ps.len() > 0 {
        let t = with_numbered(t + WALK_INTRO@, paths_of(ps)) + WALK_NOTE@;
        if held.len() > 0 {
            with_held_back_lines(t + HELD_BACK_NOTE@, held) + "\n"@
        } else {
            t
        }
    } else {
        t
    }
}

fn push_walk(
    out: &mut String,
    proactive: bool,
    projects: &Vec<ResolvedProject>,
    held: &Vec<ResolvedProject>,
)
    ensures
        final(out)@ == with_walk(
            old(out)@,
            proactive,
            project_views(projects@),
            project_views(held@),
        ),
{
    if !proactive || projects.len() == 0 {
        return;
    }
    out.append(WALK_INTRO);
    let ghost start = out@;
    let ghost paths = paths_of(project_views(projects@));
    let mut i: usize = 0;
    assert(paths.take(0) =~= Seq::<Seq<char>>::empty());
    while i < projects.len()
        invariant
            i <= projects@.len(),
            paths == paths_of(project_views(projects@)),
            out@ == with_numbered(start, paths.take(i as int)),
        decreases projects@.len() - i,
    {
        assert(paths.take(i + 1).drop_last() =~= paths.take(i as int));
        assert(paths.take(i + 1).last() == projects@[i as int].path@);
        push_dec(out, i as u64 + 1);
        out.append(". ");
        out.append(projects[i].path.as_str());
        out.append("\n");
        i = i + 1;
    }
    assert(paths.take(paths.len() as int) =~= paths);
    out.append(WALK_NOTE);
    if held.len() > 0 {
        out.append(HELD_BACK_NOTE);
        let ghost start = out@;
        let ghost all = project_views(held@);
        let mut i: usize = 0;
        assert(all.take(0) =~= Seq::<ProjectView>::empty());
        while i < held.len()
            invariant
                i <= held@.len(),
                all == project_views(held@),
                out@ == with_held_back_lines(start, all.take(i as int)),
            decreases held@.len() - i,
        {
            assert(all.take(i + 1).drop_last() =~= all.take(i as int));
            assert(all.take(i + 1).last() == held@[i as int]@);
            out.append("- ");
            out.append(held[i].path.as_str());
            out.append(" (allowed: ");
            out.append(join(&held[i].active_windows, ", ").as_str());
            out.append(")\n");
            i = i + 1;
        }
        assert(all.take(all.len() as int) =~= all);
        out.append("\n");
    }
}

pub open spec fn with_permissions(t: Seq<char>, auto_approve: bool) -> Seq<char> {
    if auto_approve {
        t + PERMISSIONS@
    } else {
        t
    }
}

pub open spec fn with_standing(t: Seq<char>, instructions: Option<String>) -> Seq<char> {
    match instructions {
        Some(text) => t + STANDING_INSTRUCTIONS@ + trimmed(text@) + "\n\n"@,
        None => t,
    }
}

// ---------------------------------------------------------------------------
// Per-project instructions
// ---------------------------------------------------------------------------

/// The project root that `dir` belongs to, or `dir` itself when it belongs to
/// none of the projects.
pub open spec fn root_of(paths: Seq<Seq<char>>, dir: Seq<char>) -> Seq<char> {
    let k = owner_index(paths, dir);
    if k < paths.len() {
        paths[k as int]
    } else {
        dir
    }
}

/// The roots of the directories, each once, in order of first mention.
pub open spec fn roots(paths: Seq<Seq<char>>, dirs: Seq<Seq<char>>) -> Seq<Seq<char>>
    decreases dirs.len(),
{
    if dirs.len() == 0 {
        Seq::empty()
    } else {
        let rest = roots(paths, dirs.drop_last());
        let r = root_of(paths, dirs.last());
        if rest.contains(r) {
            rest
        } else {
            rest.push(r)
        }
    }
}

/// `dirs` and the projects that none of them belongs to.
pub open spec fn with_unseen(dirs: Seq<Seq<char>>, paths: Seq<Seq<char>>) -> Seq<Seq<char>>
    decreases paths.len(),
{
    if paths.len() == 0 {
        dirs
    } else {
        let rest = with_unseen(dirs, paths.drop_last());
        if has_dir_in(rest, paths.last()) {
            rest
        } else {
            rest.push(paths.last())
        }
    }
}

/// The directories whose instructions the prompt carries: the roots of those
/// seen recently, then the other projects that may be worked on.
pub open spec fn instructed_dirs(
    sessions: Seq<RecentSessionInfo>,
    paths: Seq<Seq<char>>,
) -> Seq<Seq<char>> {
    with_unseen(roots(paths, session_dirs(sessions)), paths)
}

fn lists_text(v: &Vec<String>, s: &str) -> (r: bool)
    ensures
        r == views(v@).contains(s@),
{
    let mut i: usize = 0;
    while i < v.len()
        invariant
            i <= v@.len(),
            forall|j: int| 0 <= j < i ==> (#[trigger] v@[j])@ != s@,
        decreases v@.len() - i,
    {
        if str_eq(v[i].as_str(), s) {
            assert(views(v@)[i as int] == s@);
            return true;
        }
        i = i + 1;
    }
    proof {
        if views(v@).contains(s@) {
            let k = views(v@).index_of(s@);
            assert(v@[k]@ == s@);
        }
    }
    false
}

fn one_belongs(dirs: &Vec<String>, project: &str) -> (r: bool)
    ensures
        r == has_dir_in(views(dirs@), project@),
{
    let ghost all = views(dirs@);
    let mut i: usize = 0;
    while i < dirs.len()
        invariant
            i <= dirs@.len(),
            all == views(dirs@),
            forall|j: int| 0 <= j < i ==> !belongs(#[trigger] all[j], project@),
        decreases dirs@.len() - i,
    {
        assert(all[i as int] == dirs@[i as int]@);
        if paths_match(dirs[i].as_str(), project) {
            return true;
        }
        i = i + 1;
    }
    false
}

/// The directories whose instructions the prompt carries.
pub fn instruction_dirs(sessions: &Vec<RecentSessionInfo>, projects: &Vec<ResolvedProject>) -> (r: Vec<
    String,
>)
    ensures
        views(r@) == instructed_dirs(sessions@, paths_of(project_views(projects@))),
{
    let paths = configured_project_priority(projects);
    let ghost ps = paths_of(project_views(projects@));
    let mut out: Vec<String> = Vec::new();
    let mut i: usize = 0;
    assert(sessions@.take(0) =~= Seq::<RecentSessionInfo>::empty());
    assert(views(out@) =~= Seq::<Seq<char>>::empty());
    while i < sessions.len()
        invariant
            i <= sessions@.len(),
            views(paths@) == ps,
            views(out@) == roots(ps, session_dirs(sessions@.take(i as int))),
        decreases sessions@.len() - i,
    {
        let ghost seen = session_dirs(sessions@.take(i as int));
        assert(sessions@.take(i + 1).drop_last() =~= sessions@.take(i as int));
        assert(sessions@.take(i + 1).last() == sessions@[i as int]);
        if let Some(dir) = &sessions[i].working_dir {
            assert(seen.push(dir@).drop_last() =~= seen);
            let k: usize = priority_rank(&paths, dir.as_str());
            proof {
                owner_index_is_first(ps, dir@);
            }
            let root = if k < paths.len() {
                paths[k].clone()
            } else {
                dir.clone()
            };
            assert(root@ == root_of(ps, dir@));
            if !lists_text(&out, root.as_str()) {
                let ghost was = out@;
                let ghost r = root@;
                out.push(root);
                assert(views(out@) =~= views(was).push(r));
            }
        }
        i = i + 1;
    }
    assert(sessions@.take(sessions@.len() as int) =~= sessions@);
    let ghost start = views(out@);
    let mut i: usize = 0;
    assert(ps.take(0) =~= Seq::<Seq<char>>::empty());
    while i < paths.len()
        invariant
            i <= paths@.len(),
            views(paths@) == ps,
            views(out@) == with_unseen(start, ps.take(i as int)),
        decreases paths@.len() - i,
    {
        assert(ps.take(i + 1).drop_last() =~= ps.take(i as int));
        assert(ps.take(i + 1).last() == paths@[i as int]@);
        if !one_belongs(&out, paths[i].as_str()) {
            let ghost was = out@;
            out.push(paths[i].clone());
            assert(views(out@) =~= views(was).push(paths@[i as int]@));
        }
        i = i + 1;
    }
    assert(ps.take(ps.len() as int) =~= ps);
    out
}

/// The instructions for a directory: those that the configuration declares for
/// the project it belongs to, or else those of its own file.
pub open spec fn instructions_for(
    ps: Seq<ProjectView>,
    dir: Seq<char>,
    file: Option<Seq<char>>,
) -> Option<Seq<char>> {
    let k = owner_index(paths_of(ps), dir);
    if k < ps.len() && ps[k as int].instructions.len() > 0 {
        Some(ps[k as int].instructions)
    } else {
        file
    }
}

pub open spec fn with_project_notes(
    t: Seq<char>,
    ps: Seq<ProjectView>,
    dirs: Seq<Seq<char>>,
    files: Seq<Option<Seq<char>>>,
) -> Seq<char>
    decreases dirs.len(),
{
    if dirs.len() == 0 {
        t
    } else {
        let n = dirs.len() - 1;
        let t = with_project_notes(t, ps, dirs.drop_last(), files);
        let file = if n < files.len() {
            files[n]
        } else {
            None
        };
        match instructions_for(ps, dirs.last(), file) {
            Some(text) => t + "### "@ + dirs.last() + "\n"@ + trimmed(text) + "\n\n"@,
            None => t,
        }
    }
}

/// One of the directories has instructions.
pub open spec fn any_notes(
    ps: Seq<ProjectView>,
    dirs: Seq<Seq<char>>,
    files: Seq<Option<Seq<char>>>,
) -> bool
    decreases dirs.len(),
{
    if dirs.len() == 0 {
        false
    } else {
        let n = dirs.len() - 1;
        let file = if n < files.len() {
            files[n]
        } else {
            None
        };
        any_notes(ps, dirs.drop_last(), files) || instructions_for(ps, dirs.last(), file) is Some
    }
}

/// What the user wrote for specific projects.
pub open spec fn with_project_instructions(
    t: Seq<char>,
    sessions: Seq<RecentSessionInfo>,
    ps: Seq<ProjectView>,
    files: Seq<Option<Seq<char>>>,
) -> Seq<char> {
    let dirs = instructed_dirs(sessions, paths_of(ps));
    if any_notes(ps, dirs, files) {
        with_project_notes(t + PROJECT_INSTRUCTIONS@, ps, dirs, files)
    } else {
        t
    }
}

/// The instructions for the directory at position `n` of the list.
fn find_instructions<'a>(
    projects: &'a Vec<ResolvedProject>,
    paths: &Vec<String>,
    dir: &str,
    files: &'a Vec<Option<String>>,
    n: usize,
) -> (r: Option<&'a str>)
    requires
        views(paths@) == paths_of(project_views(projects@)),
    ensures
        crate::text::opt_str_view(r) == instructions_for(
            project_views(projects@),
            dir@,
            if n < files@.len() {
                opt_view(files@[n as int])
            } else {
                None
            },
        ),
{
    let k: usize = priority_rank(paths, dir);
    let ghost ps = project_views(projects@);
    proof {
        owner_index_is_first(paths_of(ps), dir@);
        assert(views(paths@).len() == projects@.len());
    }
    if k < projects.len() {
        assert(ps[k as int] == projects@[k as int]@);
        let text = projects[k].instructions.as_str();
        if !text.is_empty() {
            return Some(text);
        }
    }
    if n < files.len() {
        match &files[n] {
            Some(s) => Some(s.as_str()),
            None => None,
        }
    } else {
        None
    }
}

fn push_project_instructions(
    out: &mut String,
    sessions: &Vec<RecentSessionInfo>,
    projects: &Vec<ResolvedProject>,
    files: &Vec<Option<String>>,
)
    ensures
        final(out)@ == with_project_instructions(
            old(out)@,
            sessions@,
            project_views(projects@),
            crate::ambient::projects::opt_views(files@),
        ),
{
    let dirs = instruction_dirs(sessions, projects);
    let paths = configured_project_priority(projects);
    let ghost ps = project_views(projects@);
    let ghost all = views(dirs@);
    let ghost fs = crate::ambient::projects::opt_views(files@);
    let mut any = false;
    let mut i: usize = 0;
    assert(all.take(0) =~= Seq::<Seq<char>>::empty());
    while i < dirs.len()
        invariant
            i <= dirs@.len(),
            all == views(dirs@),
            ps == project_views(projects@),
            fs == crate::ambient::projects::opt_views(files@),
            views(paths@) == paths_of(ps),
            any == any_notes(ps, all.take(i as int), fs),
        decreases dirs@.len() - i,
    {
        assert(all.take(i + 1).drop_last() =~= all.take(i as int));
        assert(all.take(i + 1).last() == dirs@[i as int]@);
        if find_instructions(projects, &paths, dirs[i].as_str(), files, i).is_some() {
            any = true;
        }
        i = i + 1;
    }
    assert(all.take(all.len() as int) =~= all);
    if !any {
        return;
    }
    out.append(PROJECT_INSTRUCTIONS);
    let ghost start = out@;
    let mut i: usize = 0;
    while i < dirs.len()
        invariant
            i <= dirs@.len(),
            all == views(dirs@),
            ps == project_views(projects@),
            fs == crate::ambient::projects::opt_views(files@),
            views(paths@) == paths_of(ps),
            out@ == with_project_notes(start, ps, all.take(i as int), fs),
        decreases dirs@.len() - i,
    {
        assert(all.take(i + 1).drop_last() =~= all.take(i as int));
        assert(all.take(i + 1).last() == dirs@[i as int]@);
        if let Some(text) = find_instructions(projects, &paths, dirs[i].as_str(), files, i) {
            out.append("### ");
            out.append(dirs[i].as_str());
            out.append("\n");
            out.append(trim(text));
            out.append("\n\n");
        }
        i = i + 1;
    }
    assert(all.take(all.len() as int) =~= all);
}

// ---------------------------------------------------------------------------
// Skills
// ---------------------------------------------------------------------------

pub open spec fn with_skill_lines(t: Seq<char>, skills: Seq<SkillInfo>) -> Seq<char>
    decreases skills.len(),
{
    if skills.len() == 0 {
        t
    } else {
        with_skill_lines(t, skills.drop_last()) + "- `/"@ + skills.last().name@ + " ` - "@
            + skills.last().description@ + "\n"@
    }
}

/// The installed skills and how to load one. Nothing when none is installed.
pub open spec fn with_skills(t: Seq<char>, skills: Seq<SkillInfo>) -> Seq<char> {
    if skills.len() == 0 {
        t
    } else {
        with_skill_lines(t + SKILLS_INTRO@, skills) + SKILLS_NOTE@
    }
}

/// Appends the catalogue of installed skills.
pub fn append_available_skills(out: &mut String, skills: &Vec<SkillInfo>)
    ensures
        final(out)@ == with_skills(old(out)@, skills@),
{
    if skills.len() == 0 {
        return;
    }
    out.append(SKILLS_INTRO);
    let ghost start = out@;
    let mut i: usize = 0;
    assert(skills@.take(0) =~= Seq::<SkillInfo>::empty());
    while i < skills.len()
        invariant
            i <= skills@.len(),
            out@ == with_skill_lines(start, skills@.take(i as int)),
        decreases skills@.len() - i,
    {
        assert(skills@.take(i + 1).drop_last() =~= skills@.take(i as int));
        assert(skills@.take(i + 1).last() == skills@[i as int]);
        out.append("- `/");
        out.append(skills[i].name.as_str());
        out.append(" ` - ");
        out.append(skills[i].description.as_str());
        out.append("\n");
        i = i + 1;
    }
    assert(skills@.take(skills@.len() as int) =~= skills@);
    out.append(SKILLS_NOTE);
}

// ---------------------------------------------------------------------------
// The prompt
// ---------------------------------------------------------------------------

/// The system prompt of a cycle.
pub open spec fn prompt_of(
    state: AmbientState,
    queue: Seq<ScheduledItem>,
    health: MemoryGraphHealth,
    sessions: Seq<RecentSessionInfo>,
    feedback: Seq<Seq<char>>,
    budget: ResourceBudget,
    active_user_sessions: nat,
    s: PromptSettings,
) -> Seq<char> {
    let ps = project_views(s.projects@);
    let priority = paths_of(ps);
    let t = INTRO@;
    let t = with_state(t, state, active_user_sessions, s.now);
    let t = with_queue(t, queue, s.now);
    let t = with_sessions(t, sessions);
    let t = with_active_projects(t, sessions, priority);
    let t = with_idle_projects(t, sessions, priority);
    let t = with_memory(t, health, s.now);
    let t = with_feedback(t, feedback);
    let t = with_budget(t, budget);
    let t = with_directives(t, s.directives@, s.now);
    let t = with_instructions(t);
    let t = with_issue_tracker(t, s.github);
    let t = with_pull_requests(t, ps, trimmed(s.pr_repo@));
    let t = with_proactive(t, s.proactive_work);
    let t = with_walk(t, s.proactive_work, ps, project_views(s.held_back@));
    let t = with_permissions(t, s.auto_approve_permissions);
    let t = with_standing(t, s.user_instructions);
    let t = with_project_instructions(
        t,
        sessions,
        ps,
        crate::ambient::projects::opt_views(s.instruction_files@),
    );
    with_skills(t, s.skills@)
}

/// The instants in the inputs of a prompt are on the calendar.
pub open spec fn prompt_in_range(
    state: AmbientState,
    queue: Seq<ScheduledItem>,
    health: MemoryGraphHealth,
    s: PromptSettings,
) -> bool {
    &&& s.now.valid()
    &&& state.last_run matches Some(t) ==> t.valid()
    &&& forall|i: int| 0 <= i < queue.len() ==> (#[trigger] queue[i]).created_at.valid()
    &&& health.last_consolidation matches Some(t) ==> t.valid()
    &&& forall|i: int|
        0 <= i < s.directives@.len() ==> (#[trigger] s.directives@[i]).received_at.valid()
}

/// Builds the system prompt of an ambient cycle.
pub fn build_ambient_system_prompt(
    state: &AmbientState,
    queue: &Vec<ScheduledItem>,
    graph_health: &MemoryGraphHealth,
    recent_sessions: &Vec<RecentSessionInfo>,
    feedback_memories: &Vec<String>,
    budget: &ResourceBudget,
    active_user_sessions: usize,
    settings: &PromptSettings,
) -> (r: String)
    requires
        prompt_in_range(*state, queue@, *graph_health, *settings),
    ensures
        r@ == prompt_of(
            *state,
            queue@,
            *graph_health,
            recent_sessions@,
            views(feedback_memories@),
            *budget,
            active_user_sessions as nat,
            *settings,
        ),
{
    let priority = configured_project_priority(&settings.projects);
    let mut out = owned(INTRO);
    push_state(&mut out, state, active_user_sessions, &settings.now);
    push_queue(&mut out, queue, &settings.now);
    push_sessions(&mut out, recent_sessions);
    push_active_projects(&mut out, recent_sessions, &priority);
    push_idle_projects(&mut out, recent_sessions, &priority);
    push_memory(&mut out, graph_health, &settings.now);
    push_feedback(&mut out, feedback_memories);
    push_budget(&mut out, budget);
    push_directives(&mut out, &settings.directives, &settings.now);
    push_instructions(&mut out, &settings.github);
    push_pull_requests(&mut out, &settings.projects, trim(settings.pr_repo.as_str()));
    if settings.proactive_work {
        out.append(PROACTIVE_ON);
    } else {
        out.append(PROACTIVE_OFF);
    }
    push_walk(&mut out, settings.proactive_work, &settings.projects, &settings.held_back);
    if settings.auto_approve_permissions {
        out.append(PERMISSIONS);
    }
    if let Some(text) = &settings.user_instructions {
        out.append(STANDING_INSTRUCTIONS);
        out.append(trim(text.as_str()));
        out.append("\n\n");
    }
    push_project_instructions(
        &mut out,
        recent_sessions,
        &settings.projects,
        &settings.instruction_files,
    );
    append_available_skills(&mut out, &settings.skills);
    out
}

} // verus!
