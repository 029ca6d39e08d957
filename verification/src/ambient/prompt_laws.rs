//! Laws of the system prompt: what it carries, it carries to the end.

use crate::ambient::activity::{ranking, session_dirs, RecentSessionInfo};
use crate::ambient::gates::AMBIENT_TODO_GUIDANCE;
use crate::ambient::projects::{paths_of, project_views, ProjectView};
use crate::ambient::prompt::{
    idle_projects, instructed_dirs, prompt_of, text_lines, with_active_projects, with_budget,
    with_bullets, with_direct_lines, with_directive_list, with_directives, with_dirs,
    with_feedback, with_figures, with_fork_lines, with_graphs, with_held_back_lines,
    with_idle_projects, with_instructions, with_issue_tracker, with_item, with_items, with_lines,
    with_memory, with_numbered, with_permissions, with_proactive, with_project_instructions,
    with_project_notes, with_pull_requests, with_queue, with_session_list, with_sessions,
    with_skill_lines, with_skills, with_standing, with_state, with_walk, IssueTracker,
    MemoryGraphHealth, ProjectGraphHealth, PromptSettings, ResourceBudget, SkillInfo,
    UserDirective,
};
use crate::ambient::prompt_text::{
    DIRECT_PROJECTS, FORK_PROJECTS, HELD_BACK_NOTE, PERMISSIONS, PROACTIVE_OFF, PROACTIVE_ON,
    PROJECT_INSTRUCTIONS, DIRECTIVES_NOTE, PULL_REQUESTS, SKILLS_INTRO, STANDING_INSTRUCTIONS,
    WALK_INTRO, WALK_NOTE,
};
use crate::ambient::types::{AmbientState, ScheduledItem};
use crate::text::{has_part, trimmed};
use crate::time::Timestamp;
use vstd::prelude::*;

verus! {

/// `b` starts with `a`.
pub open spec fn extends(a: Seq<char>, b: Seq<char>) -> bool {
    a.len() <= b.len() && b.take(a.len() as int) == a
}

proof fn extends_refl(a: Seq<char>)
    ensures
        extends(a, a),
{
    assert(a.take(a.len() as int) =~= a);
}

proof fn extends_add(a: Seq<char>, b: Seq<char>, s: Seq<char>)
    requires
        extends(a, b),
    ensures
        extends(a, b + s),
{
    assert((b + s).take(a.len() as int) =~= b.take(a.len() as int));
}

proof fn extends_trans(a: Seq<char>, b: Seq<char>, c: Seq<char>)
    requires
        extends(a, b),
        extends(b, c),
    ensures
        extends(a, c),
{
    assert(c.take(a.len() as int) =~= c.take(b.len() as int).take(a.len() as int));
}

proof fn part_kept(a: Seq<char>, b: Seq<char>, part: Seq<char>)
    requires
        extends(a, b),
        has_part(a, part),
    ensures
        has_part(b, part),
{
    let i = choose|i: int|
        0 <= i && i + part.len() <= a.len() && part == #[trigger] a.subrange(i, i + part.len());
    assert(b.subrange(i, i + part.len()) =~= b.take(a.len() as int).subrange(i, i + part.len()));
}

proof fn part_added(a: Seq<char>, part: Seq<char>)
    ensures
        has_part(a + part, part),
{
    let b = a + part;
    let i: int = a.len() as int;
    assert(b.subrange(i, i + part.len()) =~= part);
}

/// Appending to a text that extends `a` leaves it extending `a`.
broadcast proof fn extends_grows(a: Seq<char>, b: Seq<char>, s: Seq<char>)
    requires
        extends(a, b),
    ensures
        #[trigger] extends(a, b + s),
{
    extends_add(a, b, s);
}

proof fn lines_extend(t: Seq<char>, lines: Seq<Seq<char>>)
    ensures
        extends(t, with_lines(t, lines)),
    decreases lines.len(),
{
    broadcast use extends_grows;

    extends_refl(t);
    if lines.len() > 0 {
        lines_extend(t, lines.drop_last());
    }
}

proof fn item_extends(t: Seq<char>, item: ScheduledItem, now: Timestamp)
    ensures
        extends(t, with_item(t, item, now)),
        has_part(with_item(t, item, now), item.context@),
{
    broadcast use extends_grows;

    extends_refl(t);
    let head = t + "- ["@ + item.id@ + "] "@ + item.context@;
    part_added(t + "- ["@ + item.id@ + "] "@, item.context@);
    extends_refl(head);
    let bare = ScheduledItem { additional_context: None, ..item };
    let most = with_item(t, bare, now);
    assert(extends(t, most));
    assert(extends(head, most));
    if let Some(ctx) = item.additional_context {
        lines_extend(most, text_lines(ctx@));
        extends_trans(t, most, with_item(t, item, now));
        extends_trans(head, most, with_item(t, item, now));
    }
    part_kept(head, with_item(t, item, now), item.context@);
}

proof fn items_extend(t: Seq<char>, items: Seq<ScheduledItem>, now: Timestamp)
    ensures
        extends(t, with_items(t, items, now)),
        forall|i: int|
            0 <= i < items.len() ==> has_part(
                with_items(t, items, now),
                (#[trigger] items[i]).context@,
            ),
    decreases items.len(),
{
    extends_refl(t);
    if items.len() > 0 {
        let rest = items.drop_last();
        let mid = with_items(t, rest, now);
        items_extend(t, rest, now);
        item_extends(mid, items.last(), now);
        extends_trans(t, mid, with_items(t, items, now));
        assert forall|i: int| 0 <= i < items.len() implies has_part(
            with_items(t, items, now),
            (#[trigger] items[i]).context@,
        ) by {
            if i < rest.len() {
                assert(rest[i] == items[i]);
                part_kept(mid, with_items(t, items, now), items[i].context@);
            }
        }
    }
}

proof fn queue_extends(t: Seq<char>, queue: Seq<ScheduledItem>, now: Timestamp)
    ensures
        extends(t, with_queue(t, queue, now)),
        forall|i: int|
            0 <= i < queue.len() ==> has_part(
                with_queue(t, queue, now),
                (#[trigger] queue[i]).context@,
            ),
{
    broadcast use extends_grows;

    extends_refl(t);
    let head = t + "## Scheduled Queue\n"@;
    items_extend(head, queue, now);
    if queue.len() > 0 {
        let mid = with_items(head, queue, now);
        extends_trans(t, head, mid);
        extends_refl(mid);
        assert forall|i: int| 0 <= i < queue.len() implies has_part(
            with_queue(t, queue, now),
            (#[trigger] queue[i]).context@,
        ) by {
            part_kept(mid, with_queue(t, queue, now), queue[i].context@);
        }
    }
}

proof fn session_list_extends(t: Seq<char>, ss: Seq<RecentSessionInfo>)
    ensures
        extends(t, with_session_list(t, ss)),
    decreases ss.len(),
{
    broadcast use extends_grows;

    extends_refl(t);
    if ss.len() > 0 {
        session_list_extends(t, ss.drop_last());
    }
}

proof fn sessions_extend(t: Seq<char>, ss: Seq<RecentSessionInfo>)
    ensures
        extends(t, with_sessions(t, ss)),
{
    broadcast use extends_grows;

    extends_refl(t);
    let head = t + "## Recent Sessions (since last cycle)\n"@;
    session_list_extends(head, ss);
    extends_trans(t, head, with_session_list(head, ss));
}

proof fn dirs_extend(t: Seq<char>, priority: Seq<Seq<char>>, es: Seq<(Seq<char>, nat)>)
    ensures
        extends(t, with_dirs(t, priority, es)),
    decreases es.len(),
{
    broadcast use extends_grows;

    extends_refl(t);
    if es.len() > 0 {
        dirs_extend(t, priority, es.drop_last());
    }
}

proof fn bullets_extend(t: Seq<char>, es: Seq<Seq<char>>)
    ensures
        extends(t, with_bullets(t, es)),
    decreases es.len(),
{
    broadcast use extends_grows;

    extends_refl(t);
    if es.len() > 0 {
        bullets_extend(t, es.drop_last());
    }
}

proof fn projects_extend(t: Seq<char>, ss: Seq<RecentSessionInfo>, priority: Seq<Seq<char>>)
    ensures
        extends(t, with_active_projects(t, ss, priority)),
        extends(t, with_idle_projects(t, ss, priority)),
{
    broadcast use extends_grows;

    extends_refl(t);
    let a = t + "## Projects Active Recently\n"@;
    let es = ranking(session_dirs(ss), priority);
    dirs_extend(a, priority, es);
    extends_trans(t, a, with_dirs(a, priority, es));
    let b = t + "## Priority Projects With No Recent Sessions\n"@;
    let idle = idle_projects(session_dirs(ss), priority);
    bullets_extend(b, idle);
    extends_trans(t, b, with_bullets(b, idle));
}

proof fn graphs_extend(t: Seq<char>, ps: Seq<ProjectGraphHealth>)
    ensures
        extends(t, with_graphs(t, ps)),
    decreases ps.len(),
{
    broadcast use extends_grows;

    extends_refl(t);
    if ps.len() > 0 {
        graphs_extend(t, ps.drop_last());
    }
}

proof fn memory_extends(t: Seq<char>, h: MemoryGraphHealth, now: Timestamp)
    ensures
        extends(t, with_memory(t, h, now)),
{
    broadcast use extends_grows;

    extends_refl(t);
    let a = with_figures(t, h, now);
    let b = a + "- Per-project memory graphs:\n"@;
    graphs_extend(b, h.projects@);
    extends_trans(t, b, with_graphs(b, h.projects@));
}

proof fn feedback_extends(t: Seq<char>, feedback: Seq<Seq<char>>)
    ensures
        extends(t, with_feedback(t, feedback)),
{
    broadcast use extends_grows;

    extends_refl(t);
    let head = t + "## User Feedback History\n"@;
    bullets_extend(head, feedback);
    extends_trans(t, head, with_bullets(head, feedback));
}

proof fn budget_extends(t: Seq<char>, b: ResourceBudget)
    ensures
        extends(t, with_budget(t, b)),
{
    broadcast use extends_grows;

    extends_refl(t);
}

proof fn directive_list_extends(t: Seq<char>, ds: Seq<UserDirective>, now: Timestamp)
    ensures
        extends(t, with_directive_list(t, ds, now)),
        forall|i: int|
            0 <= i < ds.len() ==> has_part(
                with_directive_list(t, ds, now),
                (#[trigger] ds[i]).text@,
            ),
    decreases ds.len(),
{
    broadcast use extends_grows;

    extends_refl(t);
    if ds.len() > 0 {
        let rest = ds.drop_last();
        let mid = with_directive_list(t, rest, now);
        directive_list_extends(t, rest, now);
        let d = ds.last();
        let all = with_directive_list(t, ds, now);
        let before = mid + "- [reply to cycle "@ + d.in_reply_to_cycle@ + "] ("@
            + crate::ambient::prompt::ago(d.received_at, now) + " ago): "@;
        extends_refl(mid);
        extends_refl(before + d.text@);
        part_added(before, d.text@);
        assert(all == before + d.text@ + "\n"@);
        part_kept(before + d.text@, all, d.text@);
        assert forall|i: int| 0 <= i < ds.len() implies has_part(all, (#[trigger] ds[i]).text@) by {
            if i < rest.len() {
                assert(rest[i] == ds[i]);
                part_kept(mid, all, ds[i].text@);
            }
        }
    }
}

proof fn directives_extend(t: Seq<char>, ds: Seq<UserDirective>, now: Timestamp)
    ensures
        extends(t, with_directives(t, ds, now)),
        forall|i: int|
            0 <= i < ds.len() ==> has_part(with_directives(t, ds, now), (#[trigger] ds[i]).text@),
{
    broadcast use extends_grows;

    extends_refl(t);
    if ds.len() > 0 {
        let head = t + "## User Directives (from replies)\n"@ + DIRECTIVES_NOTE@;
        let mid = with_directive_list(head, ds, now);
        directive_list_extends(head, ds, now);
        extends_trans(t, head, mid);
        extends_refl(mid);
        assert forall|i: int| 0 <= i < ds.len() implies has_part(
            with_directives(t, ds, now),
            (#[trigger] ds[i]).text@,
        ) by {
            part_kept(mid, with_directives(t, ds, now), ds[i].text@);
        }
    }
}

proof fn instructions_extend(t: Seq<char>, github: Option<IssueTracker>)
    ensures
        extends(t, with_instructions(t)),
        has_part(with_instructions(t), AMBIENT_TODO_GUIDANCE@),
        extends(t, with_issue_tracker(t, github)),
{
    broadcast use extends_grows;

    extends_refl(t);
    let head = t + crate::ambient::prompt_text::INSTRUCTIONS@;
    part_added(head, AMBIENT_TODO_GUIDANCE@);
    extends_refl(head + AMBIENT_TODO_GUIDANCE@);
    part_kept(head + AMBIENT_TODO_GUIDANCE@, with_instructions(t), AMBIENT_TODO_GUIDANCE@);
}

proof fn pull_request_lines_extend(t: Seq<char>, ps: Seq<ProjectView>)
    ensures
        extends(t, with_fork_lines(t, ps)),
        extends(t, with_direct_lines(t, ps)),
    decreases ps.len(),
{
    broadcast use extends_grows;

    extends_refl(t);
    if ps.len() > 0 {
        pull_request_lines_extend(t, ps.drop_last());
    }
}

proof fn pull_requests_extend(t: Seq<char>, ps: Seq<ProjectView>, repo: Seq<char>)
    ensures
        extends(t, with_pull_requests(t, ps, repo)),
{
    broadcast use extends_grows;

    extends_refl(t);
    let a = t + PULL_REQUESTS@;
    let b = a + FORK_PROJECTS@;
    pull_request_lines_extend(b, ps);
    extends_trans(t, b, with_fork_lines(b, ps));
    let c = if crate::ambient::prompt::any_forked(ps) {
        with_fork_lines(b, ps)
    } else {
        a
    };
    let d = c + DIRECT_PROJECTS@;
    pull_request_lines_extend(d, ps);
    extends_trans(t, d, with_direct_lines(d, ps));
}

proof fn walk_extends(t: Seq<char>, on: bool, ps: Seq<ProjectView>, held: Seq<ProjectView>)
    ensures
        extends(t, with_walk(t, on, ps, held)),
{
    broadcast use extends_grows;

    extends_refl(t);
    let a = t + WALK_INTRO@;
    numbered_extends(a, paths_of(ps));
    extends_trans(t, a, with_numbered(a, paths_of(ps)));
    let b = with_numbered(a, paths_of(ps)) + WALK_NOTE@ + HELD_BACK_NOTE@;
    held_back_extends(b, held);
    extends_trans(t, b, with_held_back_lines(b, held));
}

proof fn numbered_extends(t: Seq<char>, paths: Seq<Seq<char>>)
    ensures
        extends(t, with_numbered(t, paths)),
    decreases paths.len(),
{
    broadcast use extends_grows;

    extends_refl(t);
    if paths.len() > 0 {
        numbered_extends(t, paths.drop_last());
    }
}

proof fn held_back_extends(t: Seq<char>, ps: Seq<ProjectView>)
    ensures
        extends(t, with_held_back_lines(t, ps)),
    decreases ps.len(),
{
    broadcast use extends_grows;

    extends_refl(t);
    if ps.len() > 0 {
        held_back_extends(t, ps.drop_last());
    }
}

proof fn project_notes_extend(
    t: Seq<char>,
    ps: Seq<ProjectView>,
    dirs: Seq<Seq<char>>,
    files: Seq<Option<Seq<char>>>,
)
    ensures
        extends(t, with_project_notes(t, ps, dirs, files)),
    decreases dirs.len(),
{
    broadcast use extends_grows;

    extends_refl(t);
    if dirs.len() > 0 {
        project_notes_extend(t, ps, dirs.drop_last(), files);
    }
}

proof fn closing_extends(
    t: Seq<char>,
    auto_approve: bool,
    instructions: Option<String>,
    ss: Seq<RecentSessionInfo>,
    ps: Seq<ProjectView>,
    files: Seq<Option<Seq<char>>>,
    skills: Seq<SkillInfo>,
)
    ensures
        extends(t, with_permissions(t, auto_approve)),
        extends(t, with_standing(t, instructions)),
        extends(t, with_project_instructions(t, ss, ps, files)),
        extends(t, with_skills(t, skills)),
{
    broadcast use extends_grows;

    extends_refl(t);
    let a = t + PROJECT_INSTRUCTIONS@;
    let dirs = instructed_dirs(ss, paths_of(ps));
    project_notes_extend(a, ps, dirs, files);
    extends_trans(t, a, with_project_notes(a, ps, dirs, files));
    let b = t + SKILLS_INTRO@;
    skill_lines_extend(b, skills);
    extends_trans(t, b, with_skill_lines(b, skills));
}

proof fn skill_lines_extend(t: Seq<char>, skills: Seq<SkillInfo>)
    ensures
        extends(t, with_skill_lines(t, skills)),
    decreases skills.len(),
{
    broadcast use extends_grows;

    extends_refl(t);
    if skills.len() > 0 {
        skill_lines_extend(t, skills.drop_last());
    }
}

/// The prompt tells the cycle what it must know: the work of every queued item
/// and every reply of the user reach it word for word; the todo discipline it
/// is judged by is stated; whether it may look for work is stated either way;
/// and with approvals automatic it is told that nobody answers. The user's
/// standing instructions are carried as written, apart from white space around
/// them.
pub proof fn the_prompt_tells_the_cycle(
    state: AmbientState,
    queue: Seq<ScheduledItem>,
    health: MemoryGraphHealth,
    sessions: Seq<RecentSessionInfo>,
    feedback: Seq<Seq<char>>,
    budget: ResourceBudget,
    active: nat,
    s: PromptSettings,
)
    ensures
        ({
            let p = prompt_of(state, queue, health, sessions, feedback, budget, active, s);
            &&& forall|i: int| 0 <= i < queue.len() ==> has_part(p, (#[trigger] queue[i]).context@)
            &&& forall|i: int|
                0 <= i < s.directives@.len() ==> has_part(p, (#[trigger] s.directives@[i]).text@)
            &&& has_part(p, AMBIENT_TODO_GUIDANCE@)
            &&& has_part(
                p,
                if s.proactive_work {
                    PROACTIVE_ON@
                } else {
                    PROACTIVE_OFF@
                },
            )
            &&& s.auto_approve_permissions ==> has_part(p, PERMISSIONS@)
            &&& s.user_instructions matches Some(text) ==> has_part(p, trimmed(text@))
        }),
{
    let ps = project_views(s.projects@);
    let priority = paths_of(ps);
    let held = project_views(s.held_back@);
    let files = crate::ambient::projects::opt_views(s.instruction_files@);
    let t0 = crate::ambient::prompt_text::INTRO@;
    let t1 = with_state(t0, state, active, s.now);
    let t2 = with_queue(t1, queue, s.now);
    let t3 = with_sessions(t2, sessions);
    let t4 = with_active_projects(t3, sessions, priority);
    let t5 = with_idle_projects(t4, sessions, priority);
    let t6 = with_memory(t5, health, s.now);
    let t7 = with_feedback(t6, feedback);
    let t8 = with_budget(t7, budget);
    let t9 = with_directives(t8, s.directives@, s.now);
    let t10 = with_instructions(t9);
    let t11 = with_issue_tracker(t10, s.github);
    let t12 = with_pull_requests(t11, ps, trimmed(s.pr_repo@));
    let t13 = with_proactive(t12, s.proactive_work);
    let t14 = with_walk(t13, s.proactive_work, ps, held);
    let t15 = with_permissions(t14, s.auto_approve_permissions);
    let t16 = with_standing(t15, s.user_instructions);
    let t17 = with_project_instructions(t16, sessions, ps, files);
    let t18 = with_skills(t17, s.skills@);
    queue_extends(t1, queue, s.now);
    sessions_extend(t2, sessions);
    projects_extend(t3, sessions, priority);
    projects_extend(t4, sessions, priority);
    memory_extends(t5, health, s.now);
    feedback_extends(t6, feedback);
    budget_extends(t7, budget);
    directives_extend(t8, s.directives@, s.now);
    instructions_extend(t9, s.github);
    instructions_extend(t10, s.github);
    pull_requests_extend(t11, ps, trimmed(s.pr_repo@));
    extends_refl(t12);
    extends_add(t12, t12, PROACTIVE_ON@);
    extends_add(t12, t12, PROACTIVE_OFF@);
    part_added(t12, PROACTIVE_ON@);
    part_added(t12, PROACTIVE_OFF@);
    walk_extends(t13, s.proactive_work, ps, held);
    closing_extends(t14, s.auto_approve_permissions, None, sessions, ps, files, s.skills@);
    part_added(t14, PERMISSIONS@);
    closing_extends(t15, false, s.user_instructions, sessions, ps, files, s.skills@);
    if let Some(text) = s.user_instructions {
        let mid = t15 + STANDING_INSTRUCTIONS@ + trimmed(text@);
        part_added(t15 + STANDING_INSTRUCTIONS@, trimmed(text@));
        extends_refl(mid);
        extends_add(mid, mid, "\n\n"@);
        part_kept(mid, t16, trimmed(text@));
    }
    closing_extends(t16, false, None, sessions, ps, files, s.skills@);
    closing_extends(t17, false, None, sessions, ps, files, s.skills@);
    extends_trans(t16, t17, t18);
    extends_trans(t15, t16, t18);
    extends_trans(t14, t15, t18);
    extends_trans(t13, t14, t18);
    extends_trans(t12, t13, t18);
    extends_trans(t11, t12, t18);
    extends_trans(t10, t11, t18);
    extends_trans(t9, t10, t18);
    extends_trans(t8, t9, t18);
    extends_trans(t7, t8, t18);
    extends_trans(t6, t7, t18);
    extends_trans(t5, t6, t18);
    extends_trans(t4, t5, t18);
    extends_trans(t3, t4, t18);
    extends_trans(t2, t3, t18);
    assert forall|i: int| 0 <= i < queue.len() implies has_part(t18, (#[trigger] queue[i]).context@) by {
        part_kept(t2, t18, queue[i].context@);
    }
    assert forall|i: int| 0 <= i < s.directives@.len() implies has_part(
        t18,
        (#[trigger] s.directives@[i]).text@,
    ) by {
        part_kept(t9, t18, s.directives@[i].text@);
    }
    part_kept(t10, t18, AMBIENT_TODO_GUIDANCE@);
    if s.proactive_work {
        part_kept(t13, t18, PROACTIVE_ON@);
    } else {
        part_kept(t13, t18, PROACTIVE_OFF@);
    }
    if s.auto_approve_permissions {
        part_kept(t15, t18, PERMISSIONS@);
    }
    if let Some(text) = s.user_instructions {
        part_kept(t16, t18, trimmed(text@));
    }
}

} // verus!
