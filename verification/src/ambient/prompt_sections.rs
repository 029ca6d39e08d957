//! Laws of the system prompt: every section says what its inputs say, and says
//! it whatever the other sections hold.

use crate::ambient::activity::{ranking, session_dirs, RecentSessionInfo};
use crate::ambient::gates::AMBIENT_TODO_GUIDANCE;
use crate::ambient::phrases::rough;
use crate::ambient::projects::{
    belongs, opt_views, owner_index_is_first, paths_of, project_views, rank_of, ProjectView,
};
use crate::ambient::prompt::{
    ago, any_notes, instructed_dirs, instructions_for, prompt_of, text_lines, with_active_projects, with_budget, with_bullets, with_direct_lines,
    with_directive_list, with_directives, with_dirs, with_feedback, with_figures, with_fork_lines,
    with_graphs, with_held_back_lines, with_idle_projects, with_instructions, with_issue_tracker,
    with_item, with_items, with_lines, with_memory, with_numbered, with_permissions,
    with_proactive, with_project_instructions, with_project_notes, with_pull_requests, with_queue,
    with_session_list, with_sessions, with_skill_lines, with_skills, with_standing, with_state,
    with_walk, IssueTracker, MemoryGraphHealth, ProjectGraphHealth, PromptSettings, ResourceBudget,
    SkillInfo, UserDirective,
};
use crate::ambient::prompt_text::{
    AVOIDANCE_NOTE, DIRECTIVES_NOTE, GITHUB_A, GITHUB_B, GITHUB_C, HELD_BACK_NOTE, INSTRUCTIONS,
    INTRO, MESSAGING, PERMISSIONS, PROACTIVE_OFF, PROACTIVE_ON, PROJECT_MEMORY_NOTE, SKILLS_INTRO,
    SKILLS_NOTE, STANDING_INSTRUCTIONS, WALK_INTRO, WALK_NOTE,
};
use crate::ambient::types::{AmbientState, Priority, ScheduleTarget, ScheduledItem};
use crate::clock::utc_minute_of;
use crate::numerals::dec;
use crate::text::{has_part, joined, trimmed, views};
use crate::time::Timestamp;
use vstd::prelude::*;

verus! {

/// What a prompt is made from.
pub struct PromptInputs {
    pub state: AmbientState,
    pub queue: Seq<ScheduledItem>,
    pub health: MemoryGraphHealth,
    pub sessions: Seq<RecentSessionInfo>,
    pub feedback: Seq<Seq<char>>,
    pub budget: ResourceBudget,
    pub active: nat,
    pub settings: PromptSettings,
}

/// The prompt for the inputs.
pub open spec fn prompt_for(i: PromptInputs) -> Seq<char> {
    prompt_of(i.state, i.queue, i.health, i.sessions, i.feedback, i.budget, i.active, i.settings)
}

/// The texts, one after the other.
pub open spec fn run_of(texts: Seq<Seq<char>>) -> Seq<char>
    decreases texts.len(),
{
    if texts.len() == 0 {
        Seq::empty()
    } else {
        run_of(texts.drop_last()) + texts.last()
    }
}

/// How many sections a prompt has, its opening included.
pub const SECTIONS: u8 = 19;

/// A section of the prompt, on its own.
pub open spec fn section(i: PromptInputs, k: int) -> Seq<char> {
    let none = Seq::<char>::empty();
    let s = i.settings;
    let ps = project_views(s.projects@);
    let priority = paths_of(ps);
    if k == 0 {
        INTRO@
    } else if k == 1 {
        with_state(none, i.state, i.active, s.now)
    } else if k == 2 {
        with_queue(none, i.queue, s.now)
    } else if k == 3 {
        with_sessions(none, i.sessions)
    } else if k == 4 {
        with_active_projects(none, i.sessions, priority)
    } else if k == 5 {
        with_idle_projects(none, i.sessions, priority)
    } else if k == 6 {
        with_memory(none, i.health, s.now)
    } else if k == 7 {
        with_feedback(none, i.feedback)
    } else if k == 8 {
        with_budget(none, i.budget)
    } else if k == 9 {
        with_directives(none, s.directives@, s.now)
    } else if k == 10 {
        with_instructions(none)
    } else if k == 11 {
        with_issue_tracker(none, s.github)
    } else if k == 12 {
        with_pull_requests(none, ps, trimmed(s.pr_repo@))
    } else if k == 13 {
        with_proactive(none, s.proactive_work)
    } else if k == 14 {
        with_walk(none, s.proactive_work, ps, project_views(s.held_back@))
    } else if k == 15 {
        with_permissions(none, s.auto_approve_permissions)
    } else if k == 16 {
        with_standing(none, s.user_instructions)
    } else if k == 17 {
        with_project_instructions(none, i.sessions, ps, opt_views(s.instruction_files@))
    } else {
        with_skills(none, s.skills@)
    }
}

/// The sections from `a` up to `b`, one after the other.
pub open spec fn span(i: PromptInputs, a: int, b: int) -> Seq<char>
    decreases b - a,
{
    if a >= b {
        Seq::empty()
    } else {
        span(i, a, b - 1) + section(i, b - 1)
    }
}

/// What stands before a section.
pub open spec fn before(i: PromptInputs, k: int) -> Seq<char> {
    span(i, 0, k)
}

/// What stands behind a section.
pub open spec fn behind(i: PromptInputs, k: int) -> Seq<char> {
    span(i, k + 1, SECTIONS as int)
}

// ---------------------------------------------------------------------------
// Sections do not depend on what stands before them
// ---------------------------------------------------------------------------

/// `u` is `t` with `v` appended.
spec fn adds(t: Seq<char>, u: Seq<char>, v: Seq<char>) -> bool {
    u == t + v
}

broadcast proof fn adds_grows(t: Seq<char>, u: Seq<char>, v: Seq<char>, s: Seq<char>)
    requires
        adds(t, u, v),
    ensures
        #[trigger] adds(t, u + s, v + s),
{
    assert(u + s =~= t + (v + s));
}

proof fn adds_nothing(t: Seq<char>)
    ensures
        adds(t, t, Seq::<char>::empty()),
{
    assert(t =~= t + Seq::<char>::empty());
}

proof fn state_adds(t: Seq<char>, state: AmbientState, active: nat, now: Timestamp)
    ensures
        adds(t, with_state(t, state, active, now), with_state(Seq::empty(), state, active, now)),
{
    broadcast use adds_grows;

    adds_nothing(t);
}

proof fn lines_add(t: Seq<char>, u: Seq<char>, v: Seq<char>, lines: Seq<Seq<char>>)
    requires
        adds(t, u, v),
    ensures
        adds(t, with_lines(u, lines), with_lines(v, lines)),
    decreases lines.len(),
{
    broadcast use adds_grows;

    if lines.len() > 0 {
        lines_add(t, u, v, lines.drop_last());
    }
}

proof fn item_adds(t: Seq<char>, u: Seq<char>, v: Seq<char>, item: ScheduledItem, now: Timestamp)
    requires
        adds(t, u, v),
    ensures
        adds(t, with_item(u, item, now), with_item(v, item, now)),
{
    broadcast use adds_grows;

    let plain = ScheduledItem { additional_context: None, ..item };
    let x = with_item(u, plain, now);
    let y = with_item(v, plain, now);
    assert(adds(t, x, y));
    if let Some(ctx) = item.additional_context {
        lines_add(t, x, y, text_lines(ctx@));
        assert(with_item(u, item, now) == with_lines(x, text_lines(ctx@)));
        assert(with_item(v, item, now) == with_lines(y, text_lines(ctx@)));
    } else {
        assert(with_item(u, item, now) == x);
        assert(with_item(v, item, now) == y);
    }
}

proof fn items_add(t: Seq<char>, u: Seq<char>, v: Seq<char>, items: Seq<ScheduledItem>, now: Timestamp)
    requires
        adds(t, u, v),
    ensures
        adds(t, with_items(u, items, now), with_items(v, items, now)),
    decreases items.len(),
{
    if items.len() > 0 {
        items_add(t, u, v, items.drop_last(), now);
        item_adds(
            t,
            with_items(u, items.drop_last(), now),
            with_items(v, items.drop_last(), now),
            items.last(),
            now,
        );
    }
}

proof fn queue_adds(t: Seq<char>, queue: Seq<ScheduledItem>, now: Timestamp)
    ensures
        adds(t, with_queue(t, queue, now), with_queue(Seq::empty(), queue, now)),
{
    broadcast use adds_grows;

    adds_nothing(t);
    items_add(
        t,
        t + "## Scheduled Queue\n"@,
        Seq::<char>::empty() + "## Scheduled Queue\n"@,
        queue,
        now,
    );
}

proof fn session_list_adds(t: Seq<char>, u: Seq<char>, v: Seq<char>, ss: Seq<RecentSessionInfo>)
    requires
        adds(t, u, v),
    ensures
        adds(t, with_session_list(u, ss), with_session_list(v, ss)),
    decreases ss.len(),
{
    broadcast use adds_grows;

    if ss.len() > 0 {
        session_list_adds(t, u, v, ss.drop_last());
    }
}

proof fn sessions_add(t: Seq<char>, ss: Seq<RecentSessionInfo>)
    ensures
        adds(t, with_sessions(t, ss), with_sessions(Seq::empty(), ss)),
{
    broadcast use adds_grows;

    adds_nothing(t);
    session_list_adds(
        t,
        t + "## Recent Sessions (since last cycle)\n"@,
        Seq::<char>::empty() + "## Recent Sessions (since last cycle)\n"@,
        ss,
    );
}

proof fn dirs_add(
    t: Seq<char>,
    u: Seq<char>,
    v: Seq<char>,
    priority: Seq<Seq<char>>,
    es: Seq<(Seq<char>, nat)>,
)
    requires
        adds(t, u, v),
    ensures
        adds(t, with_dirs(u, priority, es), with_dirs(v, priority, es)),
    decreases es.len(),
{
    broadcast use adds_grows;

    if es.len() > 0 {
        dirs_add(t, u, v, priority, es.drop_last());
    }
}

proof fn bullets_add(t: Seq<char>, u: Seq<char>, v: Seq<char>, es: Seq<Seq<char>>)
    requires
        adds(t, u, v),
    ensures
        adds(t, with_bullets(u, es), with_bullets(v, es)),
    decreases es.len(),
{
    broadcast use adds_grows;

    if es.len() > 0 {
        bullets_add(t, u, v, es.drop_last());
    }
}

proof fn projects_add(t: Seq<char>, ss: Seq<RecentSessionInfo>, priority: Seq<Seq<char>>)
    ensures
        adds(
            t,
            with_active_projects(t, ss, priority),
            with_active_projects(Seq::empty(), ss, priority),
        ),
        adds(
            t,
            with_idle_projects(t, ss, priority),
            with_idle_projects(Seq::empty(), ss, priority),
        ),
{
    broadcast use adds_grows;

    adds_nothing(t);
    let none = Seq::<char>::empty();
    let a = "## Projects Active Recently\n"@;
    let b = "## Priority Projects With No Recent Sessions\n"@;
    dirs_add(t, t + a, none + a, priority, ranking(session_dirs(ss), priority));
    bullets_add(
        t,
        t + b,
        none + b,
        crate::ambient::prompt::idle_projects(session_dirs(ss), priority),
    );
}

proof fn graphs_add(t: Seq<char>, u: Seq<char>, v: Seq<char>, ps: Seq<ProjectGraphHealth>)
    requires
        adds(t, u, v),
    ensures
        adds(t, with_graphs(u, ps), with_graphs(v, ps)),
    decreases ps.len(),
{
    broadcast use adds_grows;

    if ps.len() > 0 {
        graphs_add(t, u, v, ps.drop_last());
    }
}

proof fn memory_adds(t: Seq<char>, h: MemoryGraphHealth, now: Timestamp)
    ensures
        adds(t, with_memory(t, h, now), with_memory(Seq::empty(), h, now)),
{
    broadcast use adds_grows;

    adds_nothing(t);
    let u = with_figures(t, h, now);
    let v = with_figures(Seq::empty(), h, now);
    assert(adds(t, u, v));
    graphs_add(
        t,
        u + "- Per-project memory graphs:\n"@,
        v + "- Per-project memory graphs:\n"@,
        h.projects@,
    );
}

proof fn feedback_adds(t: Seq<char>, feedback: Seq<Seq<char>>)
    ensures
        adds(t, with_feedback(t, feedback), with_feedback(Seq::empty(), feedback)),
{
    broadcast use adds_grows;

    adds_nothing(t);
    let h = "## User Feedback History\n"@;
    bullets_add(t, t + h, Seq::<char>::empty() + h, feedback);
}

proof fn budget_adds(t: Seq<char>, b: ResourceBudget)
    ensures
        adds(t, with_budget(t, b), with_budget(Seq::empty(), b)),
{
    broadcast use adds_grows;

    adds_nothing(t);
}

proof fn directive_list_adds(
    t: Seq<char>,
    u: Seq<char>,
    v: Seq<char>,
    ds: Seq<UserDirective>,
    now: Timestamp,
)
    requires
        adds(t, u, v),
    ensures
        adds(t, with_directive_list(u, ds, now), with_directive_list(v, ds, now)),
    decreases ds.len(),
{
    broadcast use adds_grows;

    if ds.len() > 0 {
        directive_list_adds(t, u, v, ds.drop_last(), now);
    }
}

proof fn directives_add(t: Seq<char>, ds: Seq<UserDirective>, now: Timestamp)
    ensures
        adds(t, with_directives(t, ds, now), with_directives(Seq::empty(), ds, now)),
{
    broadcast use adds_grows;

    adds_nothing(t);
    let h = "## User Directives (from replies)\n"@;
    directive_list_adds(
        t,
        t + h + DIRECTIVES_NOTE@,
        Seq::<char>::empty() + h + DIRECTIVES_NOTE@,
        ds,
        now,
    );
}

proof fn instructions_add(t: Seq<char>, github: Option<IssueTracker>)
    ensures
        adds(t, with_instructions(t), with_instructions(Seq::empty())),
        adds(t, with_issue_tracker(t, github), with_issue_tracker(Seq::empty(), github)),
{
    broadcast use adds_grows;

    adds_nothing(t);
}

proof fn fork_lines_add(t: Seq<char>, u: Seq<char>, v: Seq<char>, ps: Seq<ProjectView>)
    requires
        adds(t, u, v),
    ensures
        adds(t, with_fork_lines(u, ps), with_fork_lines(v, ps)),
        adds(t, with_direct_lines(u, ps), with_direct_lines(v, ps)),
    decreases ps.len(),
{
    broadcast use adds_grows;

    if ps.len() > 0 {
        fork_lines_add(t, u, v, ps.drop_last());
    }
}

proof fn pull_requests_add(t: Seq<char>, ps: Seq<ProjectView>, repo: Seq<char>)
    ensures
        adds(t, with_pull_requests(t, ps, repo), with_pull_requests(Seq::empty(), ps, repo)),
{
    broadcast use adds_grows;

    adds_nothing(t);
    let u = t + crate::ambient::prompt_text::PULL_REQUESTS@;
    let v = Seq::<char>::empty() + crate::ambient::prompt_text::PULL_REQUESTS@;
    assert(adds(t, u, v));
    let f = crate::ambient::prompt_text::FORK_PROJECTS@;
    fork_lines_add(t, u + f, v + f, ps);
    let u2 = if crate::ambient::prompt::any_forked(ps) {
        with_fork_lines(u + f, ps)
    } else {
        u
    };
    let v2 = if crate::ambient::prompt::any_forked(ps) {
        with_fork_lines(v + f, ps)
    } else {
        v
    };
    assert(adds(t, u2, v2));
    let d = crate::ambient::prompt_text::DIRECT_PROJECTS@;
    fork_lines_add(t, u2 + d, v2 + d, ps);
}

proof fn numbered_adds(t: Seq<char>, u: Seq<char>, v: Seq<char>, paths: Seq<Seq<char>>)
    requires
        adds(t, u, v),
    ensures
        adds(t, with_numbered(u, paths), with_numbered(v, paths)),
    decreases paths.len(),
{
    broadcast use adds_grows;

    if paths.len() > 0 {
        numbered_adds(t, u, v, paths.drop_last());
    }
}

proof fn held_back_adds(t: Seq<char>, u: Seq<char>, v: Seq<char>, ps: Seq<ProjectView>)
    requires
        adds(t, u, v),
    ensures
        adds(t, with_held_back_lines(u, ps), with_held_back_lines(v, ps)),
    decreases ps.len(),
{
    broadcast use adds_grows;

    if ps.len() > 0 {
        held_back_adds(t, u, v, ps.drop_last());
    }
}

proof fn walk_adds(t: Seq<char>, on: bool, ps: Seq<ProjectView>, held: Seq<ProjectView>)
    ensures
        adds(t, with_walk(t, on, ps, held), with_walk(Seq::empty(), on, ps, held)),
        adds(t, with_proactive(t, on), with_proactive(Seq::empty(), on)),
{
    broadcast use adds_grows;

    adds_nothing(t);
    let u = t + WALK_INTRO@;
    let v = Seq::<char>::empty() + WALK_INTRO@;
    assert(adds(t, u, v));
    numbered_adds(t, u, v, paths_of(ps));
    let u2 = with_numbered(u, paths_of(ps)) + WALK_NOTE@;
    let v2 = with_numbered(v, paths_of(ps)) + WALK_NOTE@;
    assert(adds(t, u2, v2));
    held_back_adds(t, u2 + HELD_BACK_NOTE@, v2 + HELD_BACK_NOTE@, held);
}

proof fn project_notes_add(
    t: Seq<char>,
    u: Seq<char>,
    v: Seq<char>,
    ps: Seq<ProjectView>,
    dirs: Seq<Seq<char>>,
    files: Seq<Option<Seq<char>>>,
)
    requires
        adds(t, u, v),
    ensures
        adds(t, with_project_notes(u, ps, dirs, files), with_project_notes(v, ps, dirs, files)),
    decreases dirs.len(),
{
    broadcast use adds_grows;

    if dirs.len() > 0 {
        project_notes_add(t, u, v, ps, dirs.drop_last(), files);
    }
}

proof fn skill_lines_add(t: Seq<char>, u: Seq<char>, v: Seq<char>, skills: Seq<SkillInfo>)
    requires
        adds(t, u, v),
    ensures
        adds(t, with_skill_lines(u, skills), with_skill_lines(v, skills)),
    decreases skills.len(),
{
    broadcast use adds_grows;

    if skills.len() > 0 {
        skill_lines_add(t, u, v, skills.drop_last());
    }
}

proof fn closing_adds(
    t: Seq<char>,
    auto_approve: bool,
    instructions: Option<String>,
    ss: Seq<RecentSessionInfo>,
    ps: Seq<ProjectView>,
    files: Seq<Option<Seq<char>>>,
    skills: Seq<SkillInfo>,
)
    ensures
        adds(t, with_permissions(t, auto_approve), with_permissions(Seq::empty(), auto_approve)),
        adds(t, with_standing(t, instructions), with_standing(Seq::empty(), instructions)),
        adds(
            t,
            with_project_instructions(t, ss, ps, files),
            with_project_instructions(Seq::empty(), ss, ps, files),
        ),
        adds(t, with_skills(t, skills), with_skills(Seq::empty(), skills)),
{
    broadcast use adds_grows;

    adds_nothing(t);
    let none = Seq::<char>::empty();
    let n = crate::ambient::prompt_text::PROJECT_INSTRUCTIONS@;
    project_notes_add(
        t,
        t + n,
        none + n,
        ps,
        crate::ambient::prompt::instructed_dirs(ss, paths_of(ps)),
        files,
    );
    skill_lines_add(t, t + SKILLS_INTRO@, none + SKILLS_INTRO@, skills);
}

/// A prompt is its sections, one after the other.
pub proof fn a_prompt_is_its_sections(i: PromptInputs)
    ensures
        prompt_for(i) == span(i, 0, SECTIONS as int),
{
    reveal_with_fuel(span, 20);
    let s = i.settings;
    let ps = project_views(s.projects@);
    let priority = paths_of(ps);
    let held = project_views(s.held_back@);
    let files = opt_views(s.instruction_files@);
    let t0 = INTRO@;
    assert(span(i, 0, 1) =~= t0);
    let t1 = with_state(t0, i.state, i.active, s.now);
    state_adds(t0, i.state, i.active, s.now);
    let t2 = with_queue(t1, i.queue, s.now);
    queue_adds(t1, i.queue, s.now);
    let t3 = with_sessions(t2, i.sessions);
    sessions_add(t2, i.sessions);
    let t4 = with_active_projects(t3, i.sessions, priority);
    projects_add(t3, i.sessions, priority);
    let t5 = with_idle_projects(t4, i.sessions, priority);
    projects_add(t4, i.sessions, priority);
    let t6 = with_memory(t5, i.health, s.now);
    memory_adds(t5, i.health, s.now);
    let t7 = with_feedback(t6, i.feedback);
    feedback_adds(t6, i.feedback);
    let t8 = with_budget(t7, i.budget);
    budget_adds(t7, i.budget);
    let t9 = with_directives(t8, s.directives@, s.now);
    directives_add(t8, s.directives@, s.now);
    let t10 = with_instructions(t9);
    instructions_add(t9, s.github);
    let t11 = with_issue_tracker(t10, s.github);
    instructions_add(t10, s.github);
    let t12 = with_pull_requests(t11, ps, trimmed(s.pr_repo@));
    pull_requests_add(t11, ps, trimmed(s.pr_repo@));
    let t13 = with_proactive(t12, s.proactive_work);
    walk_adds(t12, s.proactive_work, ps, held);
    let t14 = with_walk(t13, s.proactive_work, ps, held);
    walk_adds(t13, s.proactive_work, ps, held);
    let t15 = with_permissions(t14, s.auto_approve_permissions);
    closing_adds(t14, s.auto_approve_permissions, None, i.sessions, ps, files, s.skills@);
    let t16 = with_standing(t15, s.user_instructions);
    closing_adds(t15, false, s.user_instructions, i.sessions, ps, files, s.skills@);
    let t17 = with_project_instructions(t16, i.sessions, ps, files);
    closing_adds(t16, false, None, i.sessions, ps, files, s.skills@);
    let t18 = with_skills(t17, s.skills@);
    closing_adds(t17, false, None, i.sessions, ps, files, s.skills@);
    assert(span(i, 0, 2) == t1);
    assert(span(i, 0, 3) == t2);
    assert(span(i, 0, 4) == t3);
    assert(span(i, 0, 5) == t4);
    assert(span(i, 0, 6) == t5);
    assert(span(i, 0, 7) == t6);
    assert(span(i, 0, 8) == t7);
    assert(span(i, 0, 9) == t8);
    assert(span(i, 0, 10) == t9);
    assert(span(i, 0, 11) == t10);
    assert(span(i, 0, 12) == t11);
    assert(span(i, 0, 13) == t12);
    assert(span(i, 0, 14) == t13);
    assert(span(i, 0, 15) == t14);
    assert(span(i, 0, 16) == t15);
    assert(span(i, 0, 17) == t16);
    assert(span(i, 0, 18) == t17);
    assert(span(i, 0, 19) == t18);
    assert(t18 == prompt_for(i));
}

proof fn span_splits(i: PromptInputs, a: int, k: int, b: int)
    requires
        a <= k <= b,
    ensures
        span(i, a, b) == span(i, a, k) + span(i, k, b),
    decreases b - k,
{
    if k == b {
        assert(span(i, a, b) =~= span(i, a, k) + span(i, k, b));
    } else {
        span_splits(i, a, k, b - 1);
        assert(span(i, a, b) =~= span(i, a, k) + span(i, k, b));
    }
}

proof fn spans_agree(i: PromptInputs, j: PromptInputs, a: int, b: int)
    requires
        forall|k: int| a <= k < b ==> #[trigger] section(i, k) == section(j, k),
    ensures
        span(i, a, b) == span(j, a, b),
    decreases b - a,
{
    if a < b {
        spans_agree(i, j, a, b - 1);
        assert(section(i, b - 1) == section(j, b - 1));
    }
}

/// Inputs that agree on every section but one give prompts that agree around it.
proof fn one_section_changes(i: PromptInputs, j: PromptInputs, k: int)
    requires
        0 <= k < SECTIONS,
        forall|m: int| 0 <= m < SECTIONS && m != k ==> #[trigger] section(i, m) == section(j, m),
    ensures
        prompt_for(j) == before(i, k) + section(j, k) + behind(i, k),
{
    a_prompt_is_its_sections(j);
    span_splits(j, 0, k, SECTIONS as int);
    span_splits(j, k, k + 1, SECTIONS as int);
    spans_agree(i, j, 0, k);
    spans_agree(i, j, k + 1, SECTIONS as int);
    reveal_with_fuel(span, 2);
    assert(span(j, k, k + 1) =~= section(j, k));
    assert(prompt_for(j) =~= before(i, k) + section(j, k) + behind(i, k));
}

proof fn middle_is_part(a: Seq<char>, m: Seq<char>, b: Seq<char>, part: Seq<char>)
    requires
        has_part(m, part),
    ensures
        has_part(a + m + b, part),
{
    let i = choose|i: int|
        0 <= i && i + part.len() <= m.len() && part == #[trigger] m.subrange(i, i + part.len());
    let t = a + m + b;
    let k: int = a.len() + i;
    assert(t.subrange(k, k + part.len()) =~= m.subrange(i, i + part.len()));
}

proof fn placed(a: Seq<char>, part: Seq<char>, b: Seq<char>)
    ensures
        has_part(a + part + b, part),
{
    assert(part =~= part.subrange(0, 0int + part.len()));
    assert(has_part(part, part));
    middle_is_part(a, part, b, part);
}

// ---------------------------------------------------------------------------
// What the sections say
// ---------------------------------------------------------------------------

proof fn three_at_once(t: Seq<char>, a: Seq<char>, b: Seq<char>, c: Seq<char>)
    ensures
        t + a + b + c == t + (a + b + c),
{
    assert(t + a + b + c =~= t + (a + b + c));
}

proof fn part_survives(t: Seq<char>, more: Seq<char>, part: Seq<char>)
    requires
        has_part(t, part),
    ensures
        has_part(t + more, part),
{
    middle_is_part(Seq::empty(), t, more, part);
    assert(Seq::<char>::empty() + t =~= t);
}

proof fn part_at_end(t: Seq<char>, part: Seq<char>)
    ensures
        has_part(t + part, part),
{
    placed(t, part, Seq::empty());
    assert(t + part + Seq::<char>::empty() =~= t + part);
}

proof fn five_lines(
    h: Seq<char>,
    a: Seq<char>,
    b: Seq<char>,
    c: Seq<char>,
    d: Seq<char>,
    e: Seq<char>,
    z: Seq<char>,
)
    ensures
        has_part(h + a + b + c + d + e + z, a),
        has_part(h + a + b + c + d + e + z, b),
        has_part(h + a + b + c + d + e + z, c),
        has_part(h + a + b + c + d + e + z, d),
        has_part(h + a + b + c + d + e + z, e),
{
    part_at_end(h, a);
    part_survives(h + a, b, a);
    part_at_end(h + a, b);
    let t = h + a + b;
    part_survives(t, c, a);
    part_survives(t, c, b);
    part_at_end(t, c);
    let t = t + c;
    part_survives(t, d, a);
    part_survives(t, d, b);
    part_survives(t, d, c);
    part_at_end(t, d);
    let t = t + d;
    part_survives(t, e, a);
    part_survives(t, e, b);
    part_survives(t, e, c);
    part_survives(t, e, d);
    part_at_end(t, e);
    let t = t + e;
    part_survives(t, z, a);
    part_survives(t, z, b);
    part_survives(t, z, c);
    part_survives(t, z, d);
    part_survives(t, z, e);
}

/// The budget section tells each of the five figures of the budget under its own
/// label, and the rest of the prompt does not depend on the budget.
pub proof fn the_budget_is_told(i: PromptInputs, b: ResourceBudget)
    ensures
        prompt_for(PromptInputs { budget: b, ..i }) == before(i, 8) + (
        "## Resource Budget\n"@ + "- Provider: "@ + b.provider@ + "\n"@
            + "- Tokens remaining in window: "@ + b.tokens_remaining_desc@ + "\n"@
            + "- Window resets: "@ + b.window_resets_desc@ + "\n"@ + "- User usage rate: "@
            + b.user_usage_rate_desc@ + "\n"@ + "- Budget for this cycle: "@ + b.cycle_budget_desc@
            + "\n"@ + "\n"@) + behind(i, 8),
        has_part(prompt_for(i), "- Provider: "@ + i.budget.provider@ + "\n"@),
        has_part(
            prompt_for(i),
            "- Tokens remaining in window: "@ + i.budget.tokens_remaining_desc@ + "\n"@,
        ),
        has_part(prompt_for(i), "- Window resets: "@ + i.budget.window_resets_desc@ + "\n"@),
        has_part(prompt_for(i), "- User usage rate: "@ + i.budget.user_usage_rate_desc@ + "\n"@),
        has_part(prompt_for(i), "- Budget for this cycle: "@ + i.budget.cycle_budget_desc@ + "\n"@),
{
    let j = PromptInputs { budget: b, ..i };
    one_section_changes(i, j, 8);
    one_section_changes(i, i, 8);
    assert(Seq::<char>::empty() + "## Resource Budget\n"@ =~= "## Resource Budget\n"@);
    let c = i.budget;
    let h = "## Resource Budget\n"@;
    let p1 = "- Provider: "@ + c.provider@ + "\n"@;
    let p2 = "- Tokens remaining in window: "@ + c.tokens_remaining_desc@ + "\n"@;
    let p3 = "- Window resets: "@ + c.window_resets_desc@ + "\n"@;
    let p4 = "- User usage rate: "@ + c.user_usage_rate_desc@ + "\n"@;
    let p5 = "- Budget for this cycle: "@ + c.cycle_budget_desc@ + "\n"@;
    three_at_once(h, "- Provider: "@, c.provider@, "\n"@);
    let t = h + p1;
    three_at_once(t, "- Tokens remaining in window: "@, c.tokens_remaining_desc@, "\n"@);
    let t = t + p2;
    three_at_once(t, "- Window resets: "@, c.window_resets_desc@, "\n"@);
    let t = t + p3;
    three_at_once(t, "- User usage rate: "@, c.user_usage_rate_desc@, "\n"@);
    let t = t + p4;
    three_at_once(t, "- Budget for this cycle: "@, c.cycle_budget_desc@, "\n"@);
    assert(section(i, 8) == h + p1 + p2 + p3 + p4 + p5 + "\n"@);
    five_lines(h, p1, p2, p3, p4, p5, "\n"@);
    middle_is_part(before(i, 8), section(i, 8), behind(i, 8), p1);
    middle_is_part(before(i, 8), section(i, 8), behind(i, 8), p2);
    middle_is_part(before(i, 8), section(i, 8), behind(i, 8), p3);
    middle_is_part(before(i, 8), section(i, 8), behind(i, 8), p4);
    middle_is_part(before(i, 8), section(i, 8), behind(i, 8), p5);
}

/// The state section tells when the last cycle ran, how many users are active and
/// how many cycles were completed; nothing else in the prompt depends on these.
pub proof fn the_state_is_told(i: PromptInputs, state: AmbientState, active: nat)
    ensures
        prompt_for(PromptInputs { state, active, ..i }) == before(i, 1) + ("## Current State\n"@ + (
        match state.last_run {
            Some(last) => "- Last ambient cycle: "@ + utc_minute_of(last) + " ("@ + ago(
                last,
                i.settings.now,
            ) + " ago)\n"@,
            None => "- Last ambient cycle: never (first run)\n"@,
        }) + (if active > 0 {
            "- Active user sessions: "@ + dec(active) + "\n"@
        } else {
            "- Active user sessions: none\n"@
        }) + "- Total cycles completed: "@ + dec(state.total_cycles as nat) + "\n"@ + "\n"@)
            + behind(i, 1),
{
    broadcast use adds_grows;

    let j = PromptInputs { state, active, ..i };
    one_section_changes(i, j, 1);
    let h = "## Current State\n"@;
    assert(Seq::<char>::empty() + h =~= h);
    let label = "- Last ambient cycle: "@;
    let a = match state.last_run {
        Some(last) => label + utc_minute_of(last) + " ("@ + ago(last, i.settings.now) + " ago)\n"@,
        None => "- Last ambient cycle: never (first run)\n"@,
    };
    assert(adds(h, h + label, label));
    if let Some(last) = state.last_run {
        assert(adds(
            h,
            h + label + utc_minute_of(last) + " ("@ + ago(last, i.settings.now) + " ago)\n"@,
            a,
        ));
    }
    let t = h + a;
    three_at_once(t, "- Active user sessions: "@, dec(active), "\n"@);
}

proof fn bullets_run(u: Seq<char>, es: Seq<Seq<char>>, f: spec_fn(Seq<char>) -> Seq<char>)
    requires
        forall|e: Seq<char>| #[trigger] f(e) == "- "@ + e + "\n"@,
    ensures
        with_bullets(u, es) == u + run_of(es.map_values(f)),
    decreases es.len(),
{
    let all = es.map_values(f);
    if es.len() == 0 {
        assert(u =~= u + run_of(all));
    } else {
        bullets_run(u, es.drop_last(), f);
        assert(all.drop_last() =~= es.drop_last().map_values(f));
        assert(all.last() == f(es.last()));
        assert(with_bullets(u, es) =~= u + run_of(all));
    }
}

/// The feedback section lists every memory, in order, one on a line; nothing else
/// in the prompt depends on them.
pub proof fn the_feedback_is_told(i: PromptInputs, feedback: Seq<Seq<char>>)
    ensures
        prompt_for(PromptInputs { feedback, ..i }) == before(i, 7) + ("## User Feedback History\n"@ + (
        if feedback.len() == 0 {
            "No feedback memories found about ambient mode yet.\n"@
        } else {
            run_of(feedback.map_values(|e: Seq<char>| "- "@ + e + "\n"@))
        }) + "\n"@) + behind(i, 7),
{
    let j = PromptInputs { feedback, ..i };
    one_section_changes(i, j, 7);
    let h = "## User Feedback History\n"@;
    assert(Seq::<char>::empty() + h =~= h);
    bullets_run(h, feedback, |e: Seq<char>| "- "@ + e + "\n"@);
}

proof fn session_list_run(
    u: Seq<char>,
    ss: Seq<RecentSessionInfo>,
    f: spec_fn(RecentSessionInfo) -> Seq<char>,
)
    requires
        forall|t: Seq<char>, s: RecentSessionInfo|
            #[trigger] crate::ambient::prompt::with_session(t, s) == t + f(s),
    ensures
        with_session_list(u, ss) == u + run_of(ss.map_values(f)),
    decreases ss.len(),
{
    let all = ss.map_values(f);
    if ss.len() == 0 {
        assert(u =~= u + run_of(all));
    } else {
        session_list_run(u, ss.drop_last(), f);
        assert(all.drop_last() =~= ss.drop_last().map_values(f));
        assert(all.last() == f(ss.last()));
        assert(with_session_list(u, ss) =~= u + run_of(all));
    }
}

/// The prompt lists every recent session, in order, with what is known of it.
pub proof fn the_sessions_are_told(i: PromptInputs)
    ensures
        has_part(
            prompt_for(i),
            "## Recent Sessions (since last cycle)\n"@ + (if i.sessions.len() == 0 {
                "No sessions since last cycle.\n"@
            } else {
                run_of(
                    i.sessions.map_values(
                        |s: RecentSessionInfo|
                            "- "@ + s.id@ + " | "@ + s.status@ + " | "@ + rough(
                                s.duration_secs as int,
                            ) + " | "@ + (match s.topic {
                                Some(topic) => topic@,
                                None => "(no title)"@,
                            }) + " | project: "@ + (match s.working_dir {
                                Some(dir) => dir@,
                                None => "(no project)"@,
                            }) + " | extraction: "@ + s.extraction_status@ + "\n"@,
                    ),
                )
            }) + "\n"@,
        ),
{
    broadcast use adds_grows;

    let f = |s: RecentSessionInfo|
        "- "@ + s.id@ + " | "@ + s.status@ + " | "@ + rough(s.duration_secs as int) + " | "@ + (
        match s.topic {
            Some(topic) => topic@,
            None => "(no title)"@,
        }) + " | project: "@ + (match s.working_dir {
            Some(dir) => dir@,
            None => "(no project)"@,
        }) + " | extraction: "@ + s.extraction_status@ + "\n"@;
    assert forall|t: Seq<char>, s: RecentSessionInfo|
        #[trigger] crate::ambient::prompt::with_session(t, s) == t + f(s) by {
        assert(adds(t, t + "- "@, "- "@));
        assert(adds(t, crate::ambient::prompt::with_session(t, s), f(s)));
    }
    let h = "## Recent Sessions (since last cycle)\n"@;
    assert(Seq::<char>::empty() + h =~= h);
    session_list_run(h, i.sessions, f);
    one_section_changes(i, i, 3);
    placed(before(i, 3), section(i, 3), behind(i, 3));
}

proof fn directive_list_run(
    u: Seq<char>,
    ds: Seq<UserDirective>,
    now: Timestamp,
    f: spec_fn(UserDirective) -> Seq<char>,
)
    requires
        forall|t: Seq<char>, d: UserDirective|
            #[trigger] crate::ambient::prompt::with_directive(t, d, now) == t + f(d),
    ensures
        with_directive_list(u, ds, now) == u + run_of(ds.map_values(f)),
    decreases ds.len(),
{
    let all = ds.map_values(f);
    if ds.len() == 0 {
        assert(u =~= u + run_of(all));
    } else {
        directive_list_run(u, ds.drop_last(), now, f);
        assert(all.drop_last() =~= ds.drop_last().map_values(f));
        assert(all.last() == f(ds.last()));
        assert(with_directive_list(u, ds, now) =~= u + run_of(all));
    }
}

/// The prompt lists every directive, in order, with the cycle it answers and its
/// age, and says nothing of directives when there is none. Nothing else in the
/// prompt depends on them.
pub proof fn the_directives_are_told(i: PromptInputs, ds: Vec<UserDirective>)
    ensures
        prompt_for(
            PromptInputs { settings: PromptSettings { directives: ds, ..i.settings }, ..i },
        ) == before(i, 9) + (if ds@.len() == 0 {
            Seq::<char>::empty()
        } else {
            "## User Directives (from replies)\n"@ + DIRECTIVES_NOTE@ + run_of(
                ds@.map_values(
                    |d: UserDirective|
                        "- [reply to cycle "@ + d.in_reply_to_cycle@ + "] ("@ + ago(
                            d.received_at,
                            i.settings.now,
                        ) + " ago): "@ + d.text@ + "\n"@,
                ),
            ) + "\n"@
        }) + behind(i, 9),
{
    broadcast use adds_grows;

    let j = PromptInputs { settings: PromptSettings { directives: ds, ..i.settings }, ..i };
    one_section_changes(i, j, 9);
    let now = i.settings.now;
    let f = |d: UserDirective|
        "- [reply to cycle "@ + d.in_reply_to_cycle@ + "] ("@ + ago(d.received_at, now) + " ago): "@
            + d.text@ + "\n"@;
    assert forall|t: Seq<char>, d: UserDirective|
        #[trigger] crate::ambient::prompt::with_directive(t, d, now) == t + f(d) by {
        assert(adds(t, t + "- [reply to cycle "@, "- [reply to cycle "@));
        assert(adds(t, crate::ambient::prompt::with_directive(t, d, now), f(d)));
    }
    let h = "## User Directives (from replies)\n"@;
    assert(Seq::<char>::empty() + h =~= h);
    directive_list_run(h + DIRECTIVES_NOTE@, ds@, now, f);
    assert(ds@.map_values(f) =~= ds@.map_values(
        |d: UserDirective|
            "- [reply to cycle "@ + d.in_reply_to_cycle@ + "] ("@ + ago(
                d.received_at,
                i.settings.now,
            ) + " ago): "@ + d.text@ + "\n"@,
    ));
}

/// The issue tracker is named, with its repository and its label, when there is
/// one, and nothing is said of it when there is none.
pub proof fn the_issue_tracker_is_told(i: PromptInputs, github: Option<IssueTracker>)
    ensures
        prompt_for(PromptInputs { settings: PromptSettings { github, ..i.settings }, ..i })
            == before(i, 11) + (match github {
            Some(g) => GITHUB_A@ + g.repo@ + GITHUB_B@ + g.label@ + GITHUB_C@,
            None => Seq::<char>::empty(),
        }) + behind(i, 11),
{
    let j = PromptInputs { settings: PromptSettings { github, ..i.settings }, ..i };
    one_section_changes(i, j, 11);
    assert(Seq::<char>::empty() + GITHUB_A@ =~= GITHUB_A@);
}

/// Permissions are said to be granted exactly when they are, and nothing else in
/// the prompt depends on it.
pub proof fn granted_permissions_are_told(i: PromptInputs, granted: bool)
    ensures
        prompt_for(
            PromptInputs {
                settings: PromptSettings { auto_approve_permissions: granted, ..i.settings },
                ..i
            },
        ) == before(i, 15) + (if granted {
            PERMISSIONS@
        } else {
            Seq::<char>::empty()
        }) + behind(i, 15),
{
    let j = PromptInputs {
        settings: PromptSettings { auto_approve_permissions: granted, ..i.settings },
        ..i
    };
    one_section_changes(i, j, 15);
    assert(Seq::<char>::empty() + PERMISSIONS@ =~= PERMISSIONS@);
}

/// The user's standing instructions are carried as they are, without the white
/// space around them, and nothing else in the prompt depends on them.
pub proof fn standing_instructions_are_told(i: PromptInputs, text: Option<String>)
    ensures
        prompt_for(
            PromptInputs {
                settings: PromptSettings { user_instructions: text, ..i.settings },
                ..i
            },
        ) == before(i, 16) + (match text {
            Some(text) => STANDING_INSTRUCTIONS@ + trimmed(text@) + "\n\n"@,
            None => Seq::<char>::empty(),
        }) + behind(i, 16),
{
    let j = PromptInputs {
        settings: PromptSettings { user_instructions: text, ..i.settings },
        ..i
    };
    one_section_changes(i, j, 16);
    assert(Seq::<char>::empty() + STANDING_INSTRUCTIONS@ =~= STANDING_INSTRUCTIONS@);
}

proof fn skill_lines_run(u: Seq<char>, skills: Seq<SkillInfo>, f: spec_fn(SkillInfo) -> Seq<char>)
    requires
        forall|s: SkillInfo| #[trigger]
            f(s) == "- `/"@ + s.name@ + " ` - "@ + s.description@ + "\n"@,
    ensures
        with_skill_lines(u, skills) == u + run_of(skills.map_values(f)),
    decreases skills.len(),
{
    let all = skills.map_values(f);
    if skills.len() == 0 {
        assert(u =~= u + run_of(all));
    } else {
        skill_lines_run(u, skills.drop_last(), f);
        assert(all.drop_last() =~= skills.drop_last().map_values(f));
        assert(all.last() == f(skills.last()));
        assert(with_skill_lines(u, skills) =~= u + run_of(all));
    }
}

/// The prompt ends with every installed skill, in order, by its name and
/// description, and says nothing of skills when none is installed.
pub proof fn the_skills_are_told(i: PromptInputs, skills: Vec<SkillInfo>)
    ensures
        prompt_for(PromptInputs { settings: PromptSettings { skills, ..i.settings }, ..i })
            == before(i, 18) + (if skills@.len() == 0 {
            Seq::<char>::empty()
        } else {
            SKILLS_INTRO@ + run_of(
                skills@.map_values(
                    |s: SkillInfo| "- `/"@ + s.name@ + " ` - "@ + s.description@ + "\n"@,
                ),
            ) + SKILLS_NOTE@
        }),
{
    let j = PromptInputs { settings: PromptSettings { skills, ..i.settings }, ..i };
    one_section_changes(i, j, 18);
    assert(Seq::<char>::empty() + SKILLS_INTRO@ =~= SKILLS_INTRO@);
    skill_lines_run(
        SKILLS_INTRO@,
        skills@,
        |s: SkillInfo| "- `/"@ + s.name@ + " ` - "@ + s.description@ + "\n"@,
    );
    reveal_with_fuel(span, 2);
    assert(before(i, 18) + section(j, 18) + behind(i, 18) =~= before(i, 18) + section(j, 18));
}

proof fn adds_line(
    t: Seq<char>,
    u: Seq<char>,
    v: Seq<char>,
    a: Seq<char>,
    b: Seq<char>,
    c: Seq<char>,
)
    requires
        adds(t, u, v),
    ensures
        adds(t, u + a + b + c, v + (a + b + c)),
        adds(t, u, v + Seq::<char>::empty()),
{
    assert(u + a + b + c =~= t + (v + (a + b + c)));
    assert(v + Seq::<char>::empty() =~= v);
}

proof fn lines_run(u: Seq<char>, lines: Seq<Seq<char>>, f: spec_fn(Seq<char>) -> Seq<char>)
    requires
        forall|e: Seq<char>| #[trigger] f(e) == "  "@ + e + "\n"@,
    ensures
        with_lines(u, lines) == u + run_of(lines.map_values(f)),
    decreases lines.len(),
{
    let all = lines.map_values(f);
    if lines.len() == 0 {
        assert(u =~= u + run_of(all));
    } else {
        lines_run(u, lines.drop_last(), f);
        assert(all.drop_last() =~= lines.drop_last().map_values(f));
        assert(all.last() == f(lines.last()));
        assert(with_lines(u, lines) =~= u + run_of(all));
    }
}

spec fn item_head(item: ScheduledItem, now: Timestamp) -> Seq<char> {
    "- ["@ + item.id@ + "] "@ + item.context@ + " (scheduled "@ + ago(item.created_at, now)
        + " ago, priority: "@ + (match item.priority {
        Priority::Low => "low"@,
        Priority::Normal => "normal"@,
        Priority::High => "HIGH"@,
    }) + ")\n"@
}

spec fn item_target(item: ScheduledItem) -> Seq<char> {
    match item.target {
        ScheduleTarget::Ambient => Seq::<char>::empty(),
        ScheduleTarget::Session { session_id } => "  Target session: "@ + session_id@ + "\n"@,
        ScheduleTarget::Spawn { parent_session_id } => "  Spawn from session: "@
            + parent_session_id@ + "\n"@,
    }
}

spec fn labelled(label: Seq<char>, text: Option<String>) -> Seq<char> {
    match text {
        Some(text) => label + text@ + "\n"@,
        None => Seq::<char>::empty(),
    }
}

spec fn item_files(item: ScheduledItem) -> Seq<char> {
    if item.relevant_files@.len() > 0 {
        "  Files: "@ + joined(views(item.relevant_files@), ", "@) + "\n"@
    } else {
        Seq::<char>::empty()
    }
}

spec fn item_context(item: ScheduledItem) -> Seq<char> {
    match item.additional_context {
        Some(ctx) => run_of(text_lines(ctx@).map_values(|l: Seq<char>| "  "@ + l + "\n"@)),
        None => Seq::<char>::empty(),
    }
}

spec fn item_text(item: ScheduledItem, now: Timestamp) -> Seq<char> {
    item_head(item, now) + item_target(item) + labelled("  Working dir: "@, item.working_dir)
        + labelled("  Details: "@, item.task_description) + item_files(item) + labelled(
        "  Branch: "@,
        item.git_branch,
    ) + item_context(item)
}

proof fn item_is_its_text(t: Seq<char>, item: ScheduledItem, now: Timestamp)
    ensures
        with_item(t, item, now) == t + item_text(item, now),
{
    let head = item_head(item, now);
    let u0 = t + "- ["@ + item.id@ + "] "@ + item.context@ + " (scheduled "@ + ago(
        item.created_at,
        now,
    ) + " ago, priority: "@ + (match item.priority {
        Priority::Low => "low"@,
        Priority::Normal => "normal"@,
        Priority::High => "HIGH"@,
    }) + ")\n"@;
    assert(adds(t, u0, head)) by {
        broadcast use adds_grows;

        assert(adds(t, t + "- ["@, "- ["@));
    }
    let u1 = match item.target {
        ScheduleTarget::Ambient => u0,
        ScheduleTarget::Session { session_id } => u0 + "  Target session: "@ + session_id@ + "\n"@,
        ScheduleTarget::Spawn { parent_session_id } => u0 + "  Spawn from session: "@
            + parent_session_id@ + "\n"@,
    };
    let v1 = head + item_target(item);
    match item.target {
        ScheduleTarget::Ambient => {
            adds_line(t, u0, head, Seq::empty(), Seq::empty(), Seq::empty());
        },
        ScheduleTarget::Session { session_id } => {
            adds_line(t, u0, head, "  Target session: "@, session_id@, "\n"@);
        },
        ScheduleTarget::Spawn { parent_session_id } => {
            adds_line(t, u0, head, "  Spawn from session: "@, parent_session_id@, "\n"@);
        },
    }
    let u2 = labelled_adds(t, u1, v1, "  Working dir: "@, item.working_dir);
    let v2 = v1 + labelled("  Working dir: "@, item.working_dir);
    let u3 = labelled_adds(t, u2, v2, "  Details: "@, item.task_description);
    let v3 = v2 + labelled("  Details: "@, item.task_description);
    let files = joined(views(item.relevant_files@), ", "@);
    adds_line(t, u3, v3, "  Files: "@, files, "\n"@);
    let u4 = if item.relevant_files@.len() > 0 {
        u3 + "  Files: "@ + files + "\n"@
    } else {
        u3
    };
    let v4 = v3 + item_files(item);
    let u5 = labelled_adds(t, u4, v4, "  Branch: "@, item.git_branch);
    let v5 = v4 + labelled("  Branch: "@, item.git_branch);
    match item.additional_context {
        Some(ctx) => {
            lines_run(u5, text_lines(ctx@), |l: Seq<char>| "  "@ + l + "\n"@);
            assert(u5 + item_context(item) =~= t + (v5 + item_context(item)));
        },
        None => {
            assert(v5 + Seq::<char>::empty() =~= v5);
        },
    }
}

proof fn labelled_adds(
    t: Seq<char>,
    u: Seq<char>,
    v: Seq<char>,
    label: Seq<char>,
    text: Option<String>,
) -> (w: Seq<char>)
    requires
        adds(t, u, v),
    ensures
        w == (match text {
            Some(text) => u + label + text@ + "\n"@,
            None => u,
        }),
        adds(t, w, v + labelled(label, text)),
{
    match text {
        Some(text) => {
            adds_line(t, u, v, label, text@, "\n"@);
            u + label + text@ + "\n"@
        },
        None => {
            adds_line(t, u, v, label, label, label);
            u
        },
    }
}

proof fn items_run(
    u: Seq<char>,
    items: Seq<ScheduledItem>,
    now: Timestamp,
    f: spec_fn(ScheduledItem) -> Seq<char>,
)
    requires
        forall|x: ScheduledItem| #[trigger] f(x) == item_text(x, now),
    ensures
        with_items(u, items, now) == u + run_of(items.map_values(f)),
    decreases items.len(),
{
    let all = items.map_values(f);
    if items.len() == 0 {
        assert(u =~= u + run_of(all));
    } else {
        let rest = items.drop_last();
        items_run(u, rest, now, f);
        item_is_its_text(with_items(u, rest, now), items.last(), now);
        assert(all.drop_last() =~= rest.map_values(f));
        assert(all.last() == f(items.last()));
        assert(with_items(u, items, now) =~= u + run_of(all));
    }
}

/// The queue section tells of every item, in order: its id and context, its age
/// and priority, then, each on a line of its own and only where the item has it,
/// the session it is for, its directory, its details, its files, its branch and
/// the lines of its further context. Nothing else in the prompt depends on the
/// queue.
pub proof fn the_queue_is_told(i: PromptInputs, queue: Seq<ScheduledItem>)
    ensures
        prompt_for(PromptInputs { queue, ..i }) == before(i, 2) + ("## Scheduled Queue\n"@ + (
        if queue.len() == 0 {
            "Empty -- do general ambient work.\n"@
        } else {
            run_of(
                queue.map_values(
                    |x: ScheduledItem|
                        "- ["@ + x.id@ + "] "@ + x.context@ + " (scheduled "@ + ago(
                            x.created_at,
                            i.settings.now,
                        ) + " ago, priority: "@ + (match x.priority {
                            Priority::Low => "low"@,
                            Priority::Normal => "normal"@,
                            Priority::High => "HIGH"@,
                        }) + ")\n"@ + (match x.target {
                            ScheduleTarget::Ambient => Seq::<char>::empty(),
                            ScheduleTarget::Session { session_id } => "  Target session: "@
                                + session_id@ + "\n"@,
                            ScheduleTarget::Spawn { parent_session_id } => "  Spawn from session: "@
                                + parent_session_id@ + "\n"@,
                        }) + (match x.working_dir {
                            Some(dir) => "  Working dir: "@ + dir@ + "\n"@,
                            None => Seq::<char>::empty(),
                        }) + (match x.task_description {
                            Some(task) => "  Details: "@ + task@ + "\n"@,
                            None => Seq::<char>::empty(),
                        }) + (if x.relevant_files@.len() > 0 {
                            "  Files: "@ + joined(views(x.relevant_files@), ", "@) + "\n"@
                        } else {
                            Seq::<char>::empty()
                        }) + (match x.git_branch {
                            Some(branch) => "  Branch: "@ + branch@ + "\n"@,
                            None => Seq::<char>::empty(),
                        }) + (match x.additional_context {
                            Some(ctx) => run_of(
                                text_lines(ctx@).map_values(|l: Seq<char>| "  "@ + l + "\n"@),
                            ),
                            None => Seq::<char>::empty(),
                        }),
                ),
            )
        }) + "\n"@) + behind(i, 2),
{
    let j = PromptInputs { queue, ..i };
    one_section_changes(i, j, 2);
    let h = "## Scheduled Queue\n"@;
    assert(Seq::<char>::empty() + h =~= h);
    let now = i.settings.now;
    let f = |x: ScheduledItem|
        "- ["@ + x.id@ + "] "@ + x.context@ + " (scheduled "@ + ago(x.created_at, i.settings.now)
            + " ago, priority: "@ + (match x.priority {
            Priority::Low => "low"@,
            Priority::Normal => "normal"@,
            Priority::High => "HIGH"@,
        }) + ")\n"@ + (match x.target {
            ScheduleTarget::Ambient => Seq::<char>::empty(),
            ScheduleTarget::Session { session_id } => "  Target session: "@ + session_id@ + "\n"@,
            ScheduleTarget::Spawn { parent_session_id } => "  Spawn from session: "@
                + parent_session_id@ + "\n"@,
        }) + (match x.working_dir {
            Some(dir) => "  Working dir: "@ + dir@ + "\n"@,
            None => Seq::<char>::empty(),
        }) + (match x.task_description {
            Some(task) => "  Details: "@ + task@ + "\n"@,
            None => Seq::<char>::empty(),
        }) + (if x.relevant_files@.len() > 0 {
            "  Files: "@ + joined(views(x.relevant_files@), ", "@) + "\n"@
        } else {
            Seq::<char>::empty()
        }) + (match x.git_branch {
            Some(branch) => "  Branch: "@ + branch@ + "\n"@,
            None => Seq::<char>::empty(),
        }) + (match x.additional_context {
            Some(ctx) => run_of(text_lines(ctx@).map_values(|l: Seq<char>| "  "@ + l + "\n"@)),
            None => Seq::<char>::empty(),
        });
    assert forall|x: ScheduledItem| #[trigger] f(x) == item_text(x, now) by {}
    items_run(h, queue, now, f);
}

spec fn graph_text(p: ProjectGraphHealth) -> Seq<char> {
    "  - "@ + (match p.working_dir {
        Some(dir) => dir@,
        None => p.graph_id@,
    }) + ": "@ + dec(p.total as nat) + " memories ("@ + dec(p.active as nat) + " active, "@ + dec(
        p.low_confidence as nat,
    ) + " low confidence, "@ + dec(p.missing_embeddings as nat) + " without embeddings)\n"@
}

proof fn graphs_run(u: Seq<char>, ps: Seq<ProjectGraphHealth>, f: spec_fn(ProjectGraphHealth) -> Seq<char>)
    requires
        forall|x: ProjectGraphHealth| #[trigger] f(x) == graph_text(x),
    ensures
        with_graphs(u, ps) == u + run_of(ps.map_values(f)),
    decreases ps.len(),
{
    broadcast use adds_grows;

    let all = ps.map_values(f);
    if ps.len() == 0 {
        assert(u =~= u + run_of(all));
    } else {
        let rest = ps.drop_last();
        graphs_run(u, rest, f);
        let t = with_graphs(u, rest);
        assert(adds(t, t + "  - "@, "  - "@));
        assert(adds(t, crate::ambient::prompt::with_graph(t, ps.last()), graph_text(ps.last())));
        assert(all.drop_last() =~= rest.map_values(f));
        assert(all.last() == f(ps.last()));
        assert(with_graphs(u, ps) =~= u + run_of(all));
    }
}

/// The memory section tells each figure of the memory graph under its own label,
/// and those of every project's graph, in order. Nothing else in the prompt
/// depends on them.
pub proof fn the_memory_is_told(i: PromptInputs, h: MemoryGraphHealth)
    ensures
        prompt_for(PromptInputs { health: h, ..i }) == before(i, 6) + ("## Memory Graph Health\n"@
            + "- Total memories: "@ + dec(h.total as nat) + " ("@ + dec(h.active as nat) + " active, "@
            + dec(h.inactive as nat) + " inactive)\n"@ + "- Memories with confidence < 0.1: "@ + dec(
            h.low_confidence as nat,
        ) + "\n"@ + "- Unresolved contradictions: "@ + dec(h.contradictions as nat) + "\n"@
            + "- Memories without embeddings: "@ + dec(h.missing_embeddings as nat) + "\n"@ + (
        if h.duplicate_candidates > 0 {
            "- Duplicate candidates (similarity > 0.95): "@ + dec(h.duplicate_candidates as nat)
                + "\n"@
        } else {
            "- Duplicate candidates: run embedding scan to detect\n"@
        }) + (match h.last_consolidation {
            Some(at) => "- Last consolidation: "@ + ago(at, i.settings.now) + " ago\n"@,
            None => "- Last consolidation: never\n"@,
        }) + (if h.projects@.len() > 0 {
            "- Per-project memory graphs:\n"@ + run_of(
                h.projects@.map_values(
                    |p: ProjectGraphHealth|
                        "  - "@ + (match p.working_dir {
                            Some(dir) => dir@,
                            None => p.graph_id@,
                        }) + ": "@ + dec(p.total as nat) + " memories ("@ + dec(p.active as nat)
                            + " active, "@ + dec(p.low_confidence as nat) + " low confidence, "@ + dec(
                            p.missing_embeddings as nat,
                        ) + " without embeddings)\n"@,
                ),
            ) + PROJECT_MEMORY_NOTE@
        } else {
            Seq::<char>::empty()
        }) + AVOIDANCE_NOTE@ + "\n"@) + behind(i, 6),
{
    let j = PromptInputs { health: h, ..i };
    one_section_changes(i, j, 6);
    let head = "## Memory Graph Health\n"@;
    assert(Seq::<char>::empty() + head =~= head);
    let t = head + "- Total memories: "@ + dec(h.total as nat) + " ("@ + dec(h.active as nat)
        + " active, "@ + dec(h.inactive as nat) + " inactive)\n"@
        + "- Memories with confidence < 0.1: "@ + dec(h.low_confidence as nat) + "\n"@
        + "- Unresolved contradictions: "@ + dec(h.contradictions as nat) + "\n"@
        + "- Memories without embeddings: "@ + dec(h.missing_embeddings as nat) + "\n"@;
    three_at_once(
        t,
        "- Duplicate candidates (similarity > 0.95): "@,
        dec(h.duplicate_candidates as nat),
        "\n"@,
    );
    let t = t + (if h.duplicate_candidates > 0 {
        "- Duplicate candidates (similarity > 0.95): "@ + dec(h.duplicate_candidates as nat) + "\n"@
    } else {
        "- Duplicate candidates: run embedding scan to detect\n"@
    });
    if let Some(at) = h.last_consolidation {
        three_at_once(t, "- Last consolidation: "@, ago(at, i.settings.now), " ago\n"@);
    }
    let t = t + (match h.last_consolidation {
        Some(at) => "- Last consolidation: "@ + ago(at, i.settings.now) + " ago\n"@,
        None => "- Last consolidation: never\n"@,
    });
    assert(with_figures(Seq::empty(), h, i.settings.now) == t);
    let f = |p: ProjectGraphHealth|
        "  - "@ + (match p.working_dir {
            Some(dir) => dir@,
            None => p.graph_id@,
        }) + ": "@ + dec(p.total as nat) + " memories ("@ + dec(p.active as nat) + " active, "@ + dec(
            p.low_confidence as nat,
        ) + " low confidence, "@ + dec(p.missing_embeddings as nat) + " without embeddings)\n"@;
    assert forall|x: ProjectGraphHealth| #[trigger] f(x) == graph_text(x) by {}
    let g = "- Per-project memory graphs:\n"@;
    graphs_run(t + g, h.projects@, f);
    three_at_once(t, g, run_of(h.projects@.map_values(f)), PROJECT_MEMORY_NOTE@);
    assert(t + Seq::<char>::empty() =~= t);
}

/// A cycle is told whether it may look for work of its own.
pub proof fn proactive_work_is_told(i: PromptInputs)
    ensures
        prompt_for(i) == before(i, 13) + (if i.settings.proactive_work {
            PROACTIVE_ON@
        } else {
            PROACTIVE_OFF@
        }) + behind(i, 13),
        prompt_for(i) == before(i, 10) + (INSTRUCTIONS@ + AMBIENT_TODO_GUIDANCE@ + "\n"@
            + MESSAGING@) + behind(i, 10),
{
    one_section_changes(i, i, 13);
    one_section_changes(i, i, 10);
    assert(Seq::<char>::empty() + PROACTIVE_ON@ =~= PROACTIVE_ON@);
    assert(Seq::<char>::empty() + PROACTIVE_OFF@ =~= PROACTIVE_OFF@);
    assert(Seq::<char>::empty() + INSTRUCTIONS@ =~= INSTRUCTIONS@);
}

proof fn numbered_run(u: Seq<char>, paths: Seq<Seq<char>>, f: spec_fn(int) -> Seq<char>)
    requires
        forall|k: int|
            0 <= k < paths.len() ==> #[trigger] f(k) == dec((k + 1) as nat) + ". "@ + paths[k]
                + "\n"@,
    ensures
        with_numbered(u, paths) == u + run_of(Seq::new(paths.len(), f)),
    decreases paths.len(),
{
    let all = Seq::new(paths.len(), f);
    if paths.len() == 0 {
        assert(u =~= u + run_of(all));
    } else {
        let rest = paths.drop_last();
        numbered_run(u, rest, f);
        assert(all.drop_last() =~= Seq::new(rest.len(), f));
        assert(all.last() == f(paths.len() - 1));
        assert(with_numbered(u, paths) =~= u + run_of(all));
    }
}

proof fn held_back_run(u: Seq<char>, ps: Seq<ProjectView>, f: spec_fn(ProjectView) -> Seq<char>)
    requires
        forall|p: ProjectView| #[trigger]
            f(p) == "- "@ + p.path + " (allowed: "@ + joined(p.active_windows, ", "@) + ")\n"@,
    ensures
        with_held_back_lines(u, ps) == u + run_of(ps.map_values(f)),
    decreases ps.len(),
{
    let all = ps.map_values(f);
    if ps.len() == 0 {
        assert(u =~= u + run_of(all));
    } else {
        held_back_run(u, ps.drop_last(), f);
        assert(all.drop_last() =~= ps.drop_last().map_values(f));
        assert(all.last() == f(ps.last()));
        assert(with_held_back_lines(u, ps) =~= u + run_of(all));
    }
}

/// A cycle that may look for work is told the projects in their order, numbered
/// from one, and which are held back and when they are allowed; any other cycle
/// is told neither.
pub proof fn the_walk_is_told(i: PromptInputs)
    ensures
        ({
            let ps = project_views(i.settings.projects@);
            let held = project_views(i.settings.held_back@);
            prompt_for(i) == before(i, 14) + (if i.settings.proactive_work && ps.len() > 0 {
                WALK_INTRO@ + run_of(
                    Seq::new(
                        ps.len(),
                        |k: int| dec((k + 1) as nat) + ". "@ + ps[k].path + "\n"@,
                    ),
                ) + WALK_NOTE@ + (if held.len() > 0 {
                    HELD_BACK_NOTE@ + run_of(
                        held.map_values(
                            |p: ProjectView|
                                "- "@ + p.path + " (allowed: "@ + joined(p.active_windows, ", "@)
                                    + ")\n"@,
                        ),
                    ) + "\n"@
                } else {
                    Seq::<char>::empty()
                })
            } else {
                Seq::<char>::empty()
            }) + behind(i, 14)
        }),
{
    one_section_changes(i, i, 14);
    let ps = project_views(i.settings.projects@);
    let held = project_views(i.settings.held_back@);
    assert(Seq::<char>::empty() + WALK_INTRO@ =~= WALK_INTRO@);
    let f = |k: int| dec((k + 1) as nat) + ". "@ + ps[k].path + "\n"@;
    let paths = paths_of(ps);
    assert forall|k: int| 0 <= k < paths.len() implies #[trigger] f(k) == dec((k + 1) as nat) + ". "@
        + paths[k] + "\n"@ by {}
    numbered_run(WALK_INTRO@, paths, f);
    let g = |p: ProjectView|
        "- "@ + p.path + " (allowed: "@ + joined(p.active_windows, ", "@) + ")\n"@;
    let t = WALK_INTRO@ + run_of(Seq::new(ps.len(), f)) + WALK_NOTE@;
    held_back_run(t + HELD_BACK_NOTE@, held, g);
    three_at_once(t, HELD_BACK_NOTE@, run_of(held.map_values(g)), "\n"@);
    assert(t + Seq::<char>::empty() =~= t);
}

proof fn fork_line_kept(u: Seq<char>, ps: Seq<ProjectView>, k: int)
    requires
        0 <= k < ps.len(),
    ensures
        ps[k].pr_repo.len() > 0 ==> has_part(
            with_fork_lines(u, ps),
            "- `"@ + ps[k].path + "`: push the branch to the fork remote for `"@ + ps[k].pr_repo
                + "` (check `git remote -v`; it is usually not `origin`), then `gh pr create --repo "@
                + ps[k].pr_repo + " --fill`.\n"@,
        ),
        ps[k].pr_repo.len() == 0 ==> has_part(
            with_direct_lines(u, ps),
            "- `"@ + ps[k].path
                + "`: push the branch to `origin` and open the PR with a plain `gh pr create --fill` from that working directory.\n"@,
        ),
    decreases ps.len(),
{
    broadcast use adds_grows;

    let rest = ps.drop_last();
    let p = ps[k];
    let t = with_fork_lines(u, rest);
    let d = with_direct_lines(u, rest);
    let q = ps.last();
    let fork = "- `"@ + q.path + "`: push the branch to the fork remote for `"@ + q.pr_repo
        + "` (check `git remote -v`; it is usually not `origin`), then `gh pr create --repo "@
        + q.pr_repo + " --fill`.\n"@;
    let direct = "- `"@ + q.path
        + "`: push the branch to `origin` and open the PR with a plain `gh pr create --fill` from that working directory.\n"@;
    assert(adds(t, t + "- `"@, "- `"@));
    assert(adds(d, d + "- `"@, "- `"@));
    if q.pr_repo.len() > 0 {
        assert(adds(t, with_fork_lines(u, ps), fork));
    } else {
        assert(adds(d, with_direct_lines(u, ps), direct));
    }
    if k == ps.len() - 1 {
        part_at_end(t, fork);
        part_at_end(d, direct);
    } else {
        assert(rest[k] == p);
        fork_line_kept(u, rest, k);
        if p.pr_repo.len() > 0 {
            let line = "- `"@ + p.path + "`: push the branch to the fork remote for `"@ + p.pr_repo
                + "` (check `git remote -v`; it is usually not `origin`), then `gh pr create --repo "@
                + p.pr_repo + " --fill`.\n"@;
            part_survives(t, fork, line);
        } else {
            let line = "- `"@ + p.path
                + "`: push the branch to `origin` and open the PR with a plain `gh pr create --fill` from that working directory.\n"@;
            part_survives(d, direct, line);
        }
    }
}

/// The prompt tells of every project where its pull requests go: one with a
/// review repository of its own to that repository, any other to its origin.
pub proof fn pull_requests_go_where_they_belong(i: PromptInputs, k: int)
    requires
        0 <= k < i.settings.projects@.len(),
    ensures
        ({
            let p = i.settings.projects@[k];
            has_part(
                prompt_for(i),
                if p.pr_repo@.len() > 0 {
                    "- `"@ + p.path@ + "`: push the branch to the fork remote for `"@ + p.pr_repo@
                        + "` (check `git remote -v`; it is usually not `origin`), then `gh pr create --repo "@
                        + p.pr_repo@ + " --fill`.\n"@
                } else {
                    "- `"@ + p.path@
                        + "`: push the branch to `origin` and open the PR with a plain `gh pr create --fill` from that working directory.\n"@
                },
            )
        }),
{
    let ps = project_views(i.settings.projects@);
    let repo = trimmed(i.settings.pr_repo@);
    let p = ps[k];
    assert(p.path == i.settings.projects@[k].path@);
    assert(p.pr_repo == i.settings.projects@[k].pr_repo@);
    let line = if p.pr_repo.len() > 0 {
        "- `"@ + p.path + "`: push the branch to the fork remote for `"@ + p.pr_repo
            + "` (check `git remote -v`; it is usually not `origin`), then `gh pr create --repo "@
            + p.pr_repo + " --fill`.\n"@
    } else {
        "- `"@ + p.path
            + "`: push the branch to `origin` and open the PR with a plain `gh pr create --fill` from that working directory.\n"@
    };
    let t0 = Seq::<char>::empty() + crate::ambient::prompt_text::PULL_REQUESTS@;
    let f = t0 + crate::ambient::prompt_text::FORK_PROJECTS@;
    fork_line_kept(f, ps, k);
    let t1 = if crate::ambient::prompt::any_forked(ps) {
        with_fork_lines(f, ps)
    } else {
        t0
    };
    let d = t1 + crate::ambient::prompt_text::DIRECT_PROJECTS@;
    fork_line_kept(d, ps, k);
    adds_nothing(d);
    fork_lines_add(d, d, Seq::empty(), ps);
    let note = crate::ambient::prompt_text::DIRECT_NOTE@;
    let t2 = if crate::ambient::prompt::any_direct(ps) {
        with_direct_lines(d, ps) + note
    } else {
        t1
    };
    if p.pr_repo.len() > 0 {
        part_survives(t1, crate::ambient::prompt_text::DIRECT_PROJECTS@, line);
        part_survives(d, with_direct_lines(Seq::empty(), ps), line);
        part_survives(with_direct_lines(d, ps), note, line);
    } else {
        part_survives(with_direct_lines(d, ps), note, line);
    }
    assert(has_part(t2, line));
    let a = "\nFor work in the `"@;
    let b = crate::ambient::projects::last_segment(repo);
    let c = "` repository, open pull requests against `"@;
    let e = "` with `gh pr create --repo "@;
    let g = " --fill`; never against its upstream.\n"@;
    part_survives(t2, a, line);
    part_survives(t2 + a, b, line);
    part_survives(t2 + a + b, c, line);
    part_survives(t2 + a + b + c, repo, line);
    part_survives(t2 + a + b + c + repo, e, line);
    part_survives(t2 + a + b + c + repo + e, repo, line);
    part_survives(t2 + a + b + c + repo + e + repo, g, line);
    let t3 = if repo.len() > 0 && !crate::ambient::prompt::any_with_repo(ps, repo) {
        t2 + a + b + c + repo + e + repo + g
    } else {
        t2
    };
    part_survives(t3, crate::ambient::prompt_text::OTHER_PROJECTS@, line);
    assert(section(i, 12) == t3 + crate::ambient::prompt_text::OTHER_PROJECTS@);
    one_section_changes(i, i, 12);
    middle_is_part(before(i, 12), section(i, 12), behind(i, 12), line);
}

/// The single review repository of the configuration is told of when no project
/// has it: the prompt names the repository it speaks for and where its pull
/// requests go.
pub proof fn the_single_repository_is_told(i: PromptInputs)
    requires
        trimmed(i.settings.pr_repo@).len() > 0,
        forall|k: int|
            0 <= k < i.settings.projects@.len() ==> (#[trigger] i.settings.projects@[k]).pr_repo@
                != trimmed(i.settings.pr_repo@),
    ensures
        has_part(
            prompt_for(i),
            "\nFor work in the `"@ + crate::ambient::projects::last_segment(
                trimmed(i.settings.pr_repo@),
            ) + "` repository, open pull requests against `"@ + trimmed(i.settings.pr_repo@)
                + "` with `gh pr create --repo "@ + trimmed(i.settings.pr_repo@)
                + " --fill`; never against its upstream.\n"@,
        ),
{
    broadcast use adds_grows;

    let ps = project_views(i.settings.projects@);
    let repo = trimmed(i.settings.pr_repo@);
    assert forall|k: int| 0 <= k < ps.len() implies (#[trigger] ps[k]).pr_repo != repo by {
        assert(ps[k].pr_repo == i.settings.projects@[k].pr_repo@);
    }
    let t0 = Seq::<char>::empty() + crate::ambient::prompt_text::PULL_REQUESTS@;
    let t1 = if crate::ambient::prompt::any_forked(ps) {
        with_fork_lines(t0 + crate::ambient::prompt_text::FORK_PROJECTS@, ps)
    } else {
        t0
    };
    let t2 = if crate::ambient::prompt::any_direct(ps) {
        with_direct_lines(t1 + crate::ambient::prompt_text::DIRECT_PROJECTS@, ps)
            + crate::ambient::prompt_text::DIRECT_NOTE@
    } else {
        t1
    };
    let a = "\nFor work in the `"@;
    let line = a + crate::ambient::projects::last_segment(repo)
        + "` repository, open pull requests against `"@ + repo + "` with `gh pr create --repo "@
        + repo + " --fill`; never against its upstream.\n"@;
    assert(adds(t2, t2 + a, a));
    let t3 = t2 + a + crate::ambient::projects::last_segment(repo)
        + "` repository, open pull requests against `"@ + repo + "` with `gh pr create --repo "@
        + repo + " --fill`; never against its upstream.\n"@;
    assert(adds(t2, t3, line));
    part_at_end(t2, line);
    part_survives(t3, crate::ambient::prompt_text::OTHER_PROJECTS@, line);
    assert(section(i, 12) == t3 + crate::ambient::prompt_text::OTHER_PROJECTS@);
    one_section_changes(i, i, 12);
    middle_is_part(before(i, 12), section(i, 12), behind(i, 12), line);
}

proof fn notes_kept(
    u: Seq<char>,
    ps: Seq<ProjectView>,
    dirs: Seq<Seq<char>>,
    files: Seq<Option<Seq<char>>>,
    k: int,
)
    requires
        0 <= k < dirs.len() <= files.len(),
        instructions_for(ps, dirs[k], files[k]) is Some,
    ensures
        has_part(
            with_project_notes(u, ps, dirs, files),
            "### "@ + dirs[k] + "\n"@ + trimmed(instructions_for(ps, dirs[k], files[k])->0) + "\n\n"@,
        ),
        any_notes(ps, dirs, files),
    decreases dirs.len(),
{
    broadcast use adds_grows;

    let rest = dirs.drop_last();
    let n: int = dirs.len() - 1;
    let t = with_project_notes(u, ps, rest, files);
    let line = "### "@ + dirs[k] + "\n"@ + trimmed(instructions_for(ps, dirs[k], files[k])->0)
        + "\n\n"@;
    assert(adds(t, t + "### "@, "### "@));
    if let Some(text) = instructions_for(ps, dirs[n], files[n]) {
        let last = "### "@ + dirs[n] + "\n"@ + trimmed(text) + "\n\n"@;
        assert(adds(t, with_project_notes(u, ps, dirs, files), last));
        part_at_end(t, last);
        if k < n {
            notes_kept(u, ps, rest, files, k);
            part_survives(t, last, line);
        }
    } else {
        notes_kept(u, ps, rest, files, k);
    }
}

/// The prompt carries the instructions of every directory that has some, under
/// the directory's name.
pub proof fn project_instructions_are_told(i: PromptInputs, k: int)
    requires
        ({
            let ps = project_views(i.settings.projects@);
            let dirs = instructed_dirs(i.sessions, paths_of(ps));
            let files = opt_views(i.settings.instruction_files@);
            &&& 0 <= k < dirs.len() == files.len()
            &&& instructions_for(ps, dirs[k], files[k]) is Some
        }),
    ensures
        ({
            let ps = project_views(i.settings.projects@);
            let dirs = instructed_dirs(i.sessions, paths_of(ps));
            let files = opt_views(i.settings.instruction_files@);
            has_part(
                prompt_for(i),
                "### "@ + dirs[k] + "\n"@ + trimmed(instructions_for(ps, dirs[k], files[k])->0)
                    + "\n\n"@,
            )
        }),
{
    let ps = project_views(i.settings.projects@);
    let dirs = instructed_dirs(i.sessions, paths_of(ps));
    let files = opt_views(i.settings.instruction_files@);
    let n = Seq::<char>::empty() + crate::ambient::prompt_text::PROJECT_INSTRUCTIONS@;
    notes_kept(n, ps, dirs, files, k);
    one_section_changes(i, i, 17);
    middle_is_part(
        before(i, 17),
        section(i, 17),
        behind(i, 17),
        "### "@ + dirs[k] + "\n"@ + trimmed(instructions_for(ps, dirs[k], files[k])->0) + "\n\n"@,
    );
}

/// Instructions that the configuration declares for the project that a directory
/// belongs to go before those of a file; without any of the former, the file's
/// are carried.
pub proof fn declared_instructions_go_first(
    ps: Seq<ProjectView>,
    dir: Seq<char>,
    file: Option<Seq<char>>,
    k: int,
)
    requires
        0 <= k < ps.len(),
        ps.len() <= usize::MAX,
        belongs(dir, ps[k].path),
        forall|j: int| 0 <= j < k ==> !belongs(dir, (#[trigger] ps[j]).path),
    ensures
        instructions_for(ps, dir, file) == (if ps[k].instructions.len() > 0 {
            Some(ps[k].instructions)
        } else {
            file
        }),
{
    let paths = paths_of(ps);
    owner_index_is_first(paths, dir);
    assert(paths[k] == ps[k].path);
    assert(forall|j: int| 0 <= j < ps.len() ==> #[trigger] paths[j] == ps[j].path);
}

proof fn dirs_run(
    u: Seq<char>,
    priority: Seq<Seq<char>>,
    es: Seq<(Seq<char>, nat)>,
    f: spec_fn((Seq<char>, nat)) -> Seq<char>,
)
    requires
        forall|t: Seq<char>, e: (Seq<char>, nat)| #[trigger]
            crate::ambient::prompt::with_dir(t, priority, e) == t + f(e),
    ensures
        with_dirs(u, priority, es) == u + run_of(es.map_values(f)),
    decreases es.len(),
{
    let all = es.map_values(f);
    if es.len() == 0 {
        assert(u =~= u + run_of(all));
    } else {
        dirs_run(u, priority, es.drop_last(), f);
        assert(all.drop_last() =~= es.drop_last().map_values(f));
        assert(all.last() == f(es.last()));
        assert(with_dirs(u, priority, es) =~= u + run_of(all));
    }
}

/// The prompt lists the directories of the recent sessions in their ranking, each
/// with how many sessions ran in it, and marks those of priority projects.
pub proof fn active_projects_are_told(i: PromptInputs)
    requires
        ranking(session_dirs(i.sessions), paths_of(project_views(i.settings.projects@))).len() > 0,
    ensures
        ({
            let priority = paths_of(project_views(i.settings.projects@));
            has_part(
                prompt_for(i),
                "## Projects Active Recently\n"@ + run_of(
                    ranking(session_dirs(i.sessions), priority).map_values(
                        |e: (Seq<char>, nat)|
                            "- "@ + e.0 + " ("@ + dec(e.1) + " session(s))"@ + (if rank_of(
                                priority,
                                e.0,
                            ) < usize::MAX {
                                " [priority]"@
                            } else {
                                Seq::<char>::empty()
                            }) + "\n"@,
                    ),
                ),
            )
        }),
{
    broadcast use adds_grows;

    let priority = paths_of(project_views(i.settings.projects@));
    let es = ranking(session_dirs(i.sessions), priority);
    let f = |e: (Seq<char>, nat)|
        "- "@ + e.0 + " ("@ + dec(e.1) + " session(s))"@ + (if rank_of(priority, e.0) < usize::MAX {
            " [priority]"@
        } else {
            Seq::<char>::empty()
        }) + "\n"@;
    assert forall|t: Seq<char>, e: (Seq<char>, nat)| #[trigger]
        crate::ambient::prompt::with_dir(t, priority, e) == t + f(e) by {
        assert(adds(t, t + "- "@, "- "@));
        let u = t + "- "@ + e.0 + " ("@ + dec(e.1) + " session(s))"@;
        let v = "- "@ + e.0 + " ("@ + dec(e.1) + " session(s))"@;
        assert(adds(t, u, v));
        assert(v + Seq::<char>::empty() =~= v);
        assert(adds(t, crate::ambient::prompt::with_dir(t, priority, e), f(e)));
    }
    let h = "## Projects Active Recently\n"@;
    assert(Seq::<char>::empty() + h =~= h);
    dirs_run(h, priority, es, f);
    let list = h + run_of(es.map_values(f));
    let note = crate::ambient::prompt_text::PRIORITY_NOTE@;
    let dir_note = crate::ambient::prompt_text::WORKING_DIR_NOTE@;
    part_at_end(Seq::empty(), list);
    assert(Seq::<char>::empty() + list =~= list);
    part_survives(list, note, list);
    let t = if crate::ambient::prompt::any_prioritized(priority, es) {
        list + note
    } else {
        list
    };
    part_survives(t, dir_note, list);
    part_survives(t + dir_note, "\n"@, list);
    one_section_changes(i, i, 4);
    middle_is_part(before(i, 4), section(i, 4), behind(i, 4), list);
}

proof fn bullet_kept(u: Seq<char>, es: Seq<Seq<char>>, k: int)
    requires
        0 <= k < es.len(),
    ensures
        has_part(with_bullets(u, es), "- "@ + es[k] + "\n"@),
    decreases es.len(),
{
    let rest = es.drop_last();
    let t = with_bullets(u, rest);
    let last = "- "@ + es.last() + "\n"@;
    three_at_once(t, "- "@, es.last(), "\n"@);
    part_at_end(t, last);
    if k < es.len() - 1 {
        bullet_kept(u, rest, k);
        part_survives(t, last, "- "@ + es[k] + "\n"@);
    }
}

/// A priority project that no recent session ran in is named as such.
pub proof fn neglected_projects_are_told(i: PromptInputs, k: int)
    requires
        0 <= k < i.settings.projects@.len(),
        forall|j: int|
            0 <= j < session_dirs(i.sessions).len() ==> !belongs(
                #[trigger] session_dirs(i.sessions)[j],
                i.settings.projects@[k].path@,
            ),
    ensures
        has_part(
            section(i, 5),
            "## Priority Projects With No Recent Sessions\n"@,
        ),
        has_part(section(i, 5), "- "@ + i.settings.projects@[k].path@ + "\n"@),
        has_part(prompt_for(i), "- "@ + i.settings.projects@[k].path@ + "\n"@),
        has_part(prompt_for(i), "## Priority Projects With No Recent Sessions\n"@),
{
    let ps = project_views(i.settings.projects@);
    let priority = paths_of(ps);
    let dirs = session_dirs(i.sessions);
    let path = i.settings.projects@[k].path@;
    assert(priority[k] == path);
    let f = |p: Seq<char>| !crate::ambient::prompt::has_dir_in(dirs, p);
    let idle = crate::ambient::prompt::idle_projects(dirs, priority);
    priority.lemma_filter_contains(f, k);
    assert(idle.contains(path));
    let m = idle.index_of(path);
    assert(idle[m] == path);
    let h = "## Priority Projects With No Recent Sessions\n"@;
    let note = crate::ambient::prompt_text::IDLE_PRIORITY_NOTE@;
    assert(Seq::<char>::empty() + h =~= h);
    bullet_kept(h, idle, m);
    bullets_run(h, idle, |e: Seq<char>| "- "@ + e + "\n"@);
    part_at_end(Seq::empty(), h);
    part_survives(h, run_of(idle.map_values(|e: Seq<char>| "- "@ + e + "\n"@)), h);
    part_survives(with_bullets(h, idle), note, h);
    part_survives(with_bullets(h, idle), note, "- "@ + path + "\n"@);
    one_section_changes(i, i, 5);
    middle_is_part(before(i, 5), section(i, 5), behind(i, 5), h);
    middle_is_part(before(i, 5), section(i, 5), behind(i, 5), "- "@ + path + "\n"@);
}

/// Instructions are looked for wherever a session ran, at the root of its project
/// when it ran in one, and in every project besides; nowhere else, and nowhere
/// twice.
pub proof fn instructions_are_looked_for(
    sessions: Seq<RecentSessionInfo>,
    paths: Seq<Seq<char>>,
    d: Seq<char>,
)
    ensures
        ({
            let dirs = instructed_dirs(sessions, paths);
            let ran = crate::ambient::activity::session_dirs(sessions);
            &&& dirs.no_duplicates()
            &&& paths.contains(d) ==> exists|k: int|
                0 <= k < dirs.len() && belongs(#[trigger] dirs[k], d)
            &&& ran.contains(d) && (forall|k: int|
                0 <= k < paths.len() ==> !belongs(d, #[trigger] paths[k])) ==> dirs.contains(d)
            &&& ran.contains(d) ==> forall|k: int|
                0 <= k < paths.len() && belongs(d, #[trigger] paths[k]) && (forall|j: int|
                    0 <= j < k ==> !belongs(d, #[trigger] paths[j])) ==> dirs.contains(paths[k])
            &&& dirs.contains(d) ==> paths.contains(d) || ran.contains(d)
        }),
{
    let ran = crate::ambient::activity::session_dirs(sessions);
    let start = crate::ambient::prompt::roots(paths, ran);
    roots_of_all(paths, ran, d);
    owner_index_is_first(paths, d);
    unseen_are_added(start, paths, d);
    unseen_are_added(start, paths, crate::ambient::prompt::root_of(paths, d));
}

proof fn roots_of_all(paths: Seq<Seq<char>>, ran: Seq<Seq<char>>, d: Seq<char>)
    ensures
        ({
            let out = crate::ambient::prompt::roots(paths, ran);
            &&& out.no_duplicates()
            &&& ran.contains(d) ==> out.contains(crate::ambient::prompt::root_of(paths, d))
            &&& out.contains(d) ==> paths.contains(d) || ran.contains(d)
        }),
    decreases ran.len(),
{
    if ran.len() > 0 {
        let rest = ran.drop_last();
        roots_of_all(paths, rest, d);
        let out = crate::ambient::prompt::roots(paths, rest);
        let r = crate::ambient::prompt::root_of(paths, ran.last());
        assert(rest.push(ran.last()) =~= ran);
        vstd::seq_lib::lemma_seq_contains_after_push(rest, ran.last(), d);
        vstd::seq_lib::lemma_seq_contains_after_push(out, r, d);
        vstd::seq_lib::lemma_seq_contains_after_push(
            out,
            r,
            crate::ambient::prompt::root_of(paths, d),
        );
        owner_index_is_first(paths, ran.last());
        if !out.contains(r) {
            let more = out.push(r);
            assert forall|i: int, j: int| 0 <= i < more.len() && 0 <= j < more.len() && i != j implies
                more[i] != more[j] by {
                if i < out.len() && j < out.len() {
                    assert(out[i] != out[j]);
                } else if i < out.len() {
                    assert(out.contains(out[i]));
                } else {
                    assert(out.contains(out[j]));
                }
            }
        }
    }
}

proof fn unseen_are_added(start: Seq<Seq<char>>, paths: Seq<Seq<char>>, d: Seq<char>)
    requires
        start.no_duplicates(),
    ensures
        ({
            let out = crate::ambient::prompt::with_unseen(start, paths);
            &&& out.no_duplicates()
            &&& start.contains(d) ==> out.contains(d)
            &&& out.contains(d) ==> start.contains(d) || paths.contains(d)
            &&& paths.contains(d) ==> exists|k: int|
                0 <= k < out.len() && belongs(#[trigger] out[k], d)
        }),
    decreases paths.len(),
{
    if paths.len() > 0 {
        let head = paths.drop_last();
        let p = paths.last();
        unseen_are_added(start, head, d);
        let out = crate::ambient::prompt::with_unseen(start, head);
        assert(head.push(p) =~= paths);
        vstd::seq_lib::lemma_seq_contains_after_push(head, p, d);
        vstd::seq_lib::lemma_seq_contains_after_push(out, p, d);
        if crate::ambient::prompt::has_dir_in(out, p) {
            let k = choose|k: int| 0 <= k < out.len() && belongs(#[trigger] out[k], p);
            assert(belongs(out[k], p));
        } else {
            let more = out.push(p);
            assert(crate::ambient::prompt::with_unseen(start, paths) == more);
            assert(belongs(p, p));
            assert(more[out.len() as int] == p);
            assert(belongs(more[out.len() as int], p));
            assert forall|i: int, j: int| 0 <= i < more.len() && 0 <= j < more.len() && i != j implies
                more[i] != more[j] by {
                if i < out.len() && j < out.len() {
                    assert(out[i] != out[j]);
                } else if i < out.len() {
                    assert(!belongs(out[i], p));
                } else {
                    assert(!belongs(out[j], p));
                }
            }
            if head.contains(d) {
                let k = choose|k: int| 0 <= k < out.len() && belongs(#[trigger] out[k], d);
                assert(more[k] == out[k]);
            }
        }
    }
}

/// Lines hold no line break, a text without one is its own line, and a break at the
/// end makes no further line.
pub proof fn lines_are_told_apart(s: Seq<char>)
    ensures
        forall|k: int| 0 <= k < text_lines(s).len() ==> !(#[trigger] text_lines(s)[k]).contains('\n'),
        s.len() > 0 && !s.contains('\n') ==> text_lines(s) == seq![s],
        s.len() > 0 && s.last() != '\n' && s.last() != '\r' ==> text_lines(s.push('\n')) == text_lines(
            s,
        ),
{
    let ps = crate::text::pieces(s, '\n');
    crate::text::pieces_rejoin(s, '\n');
    assert forall|k: int| 0 <= k < text_lines(s).len() implies !(
    #[trigger] text_lines(s)[k]).contains('\n') by {
        let l = ps[k];
        assert(!l.contains('\n'));
        if k < ps.len() - 1 && crate::ambient::prompt::without_cr(l).contains('\n') {
            let c = crate::ambient::prompt::without_cr(l);
            let i = c.index_of('\n');
            assert(l[i] == c[i]);
        }
    }
    if s.len() > 0 && !s.contains('\n') {
        one_piece(s);
        assert(text_lines(s) =~= seq![s]);
    }
    if s.len() > 0 && s.last() != '\n' && s.last() != '\r' {
        assert(s.push('\n').drop_last() =~= s);
        let more = crate::text::pieces(s.push('\n'), '\n');
        assert(more == ps.push(Seq::empty()));
        assert(more.drop_last() =~= ps);
        crate::text::pieces_nonempty(s.drop_last(), '\n');
        assert(ps.last().last() == s.last());
        assert(text_lines(s.push('\n')) =~= text_lines(s));
    }
}

proof fn one_piece(s: Seq<char>)
    requires
        !s.contains('\n'),
    ensures
        crate::text::pieces(s, '\n') == seq![s],
    decreases s.len(),
{
    if s.len() > 0 {
        assert forall|i: int| 0 <= i < s.len() - 1 implies s.drop_last()[i] != '\n' by {
            assert(s.contains(s[i]));
        }
        one_piece(s.drop_last());
        assert(s.contains(s.last()));
        assert(s.drop_last().push(s.last()) =~= s);
        assert(crate::text::pieces(s, '\n') =~= seq![s]);
    } else {
        assert(s =~= Seq::<char>::empty());
    }
}

} // verus!
