//! The prompt of a cycle: what it says, and what decides what it says.

use chrono::{DateTime, Datelike, Duration, Local, Timelike, Utc, Weekday};
use jcode_ambient::ambient::activity::RecentSessionInfo;
use jcode_ambient::ambient::cycle::{build_cycle_context, cycle_budget, INITIAL_MESSAGE};
use jcode_ambient::ambient::gates::AMBIENT_TODO_GUIDANCE;
use jcode_ambient::ambient::manager::AmbientManager;
use jcode_ambient::ambient::persistence::ScheduledQueue;
use jcode_ambient::ambient::projects::{
    configured_projects, instructions_file_path, project_instructions_path,
    project_instructions_slug, read_instructions, user_ambient_instructions,
    user_instructions_path, workable_projects, AmbientProject, ProjectsConfig,
};
use jcode_ambient::ambient::prompt::{
    append_available_skills, build_ambient_system_prompt, instruction_dirs, IssueTracker,
    MemoryGraphHealth, ProjectGraphHealth, PromptSettings, ResourceBudget, SkillInfo,
    UserDirective,
};
use jcode_ambient::ambient::types::{AmbientState, Priority, ScheduleTarget, ScheduledItem};
use jcode_ambient::clock::{local_time, now};
use jcode_ambient::text_map::TextMap;
use jcode_ambient::time::Timestamp;

fn at(t: DateTime<Utc>) -> Timestamp {
    Timestamp::from_parts(t.timestamp(), t.timestamp_subsec_nanos())
}

/// Where the user's data is in these tests.
const DATA: &str = "/data/jcode";

/// A configuration, and the files that are there to be read.
struct Setup {
    config: ProjectsConfig,
    files: Vec<(String, String)>,
    proactive_work: bool,
    auto_approve: bool,
}

fn setup() -> Setup {
    Setup {
        config: ProjectsConfig {
            projects: Vec::new(),
            project_priority: Vec::new(),
            pr_repos: TextMap::new(),
            pr_repo: String::new(),
            ignore_active_windows: false,
        },
        files: Vec::new(),
        proactive_work: false,
        auto_approve: false,
    }
}

fn project(path: &str) -> AmbientProject {
    AmbientProject {
        path: path.to_string(),
        pr_repo: String::new(),
        instructions: String::new(),
        instructions_file: String::new(),
        active_windows: Vec::new(),
    }
}

impl Setup {
    fn read(&self, path: &str) -> Option<&str> {
        self.files.iter().find(|(p, _)| p == path).map(|(_, text)| text.as_str())
    }

    fn settings(&self, sessions: &Vec<RecentSessionInfo>) -> PromptSettings {
        let now = now();
        let files: Vec<Option<String>> = self
            .config
            .projects
            .iter()
            .map(|p| {
                instructions_file_path(p, DATA, None)
                    .and_then(|path| read_instructions(self.read(&path)))
            })
            .collect();
        let all = configured_projects(&self.config, &files, None);
        let (projects, held_back) =
            workable_projects(all, self.config.ignore_active_windows, &local_time(now));
        let instruction_files = instruction_dirs(sessions, &projects)
            .iter()
            .map(|dir| read_instructions(self.read(&project_instructions_path(DATA, dir))))
            .collect();
        PromptSettings {
            now,
            projects,
            held_back,
            pr_repo: self.config.pr_repo.clone(),
            github: None,
            proactive_work: self.proactive_work,
            auto_approve_permissions: self.auto_approve,
            directives: Vec::new(),
            user_instructions: user_ambient_instructions(
                self.read(&user_instructions_path(DATA)),
            ),
            instruction_files,
            skills: Vec::new(),
        }
    }

    fn prompt(&self, sessions: Vec<RecentSessionInfo>) -> String {
        build_ambient_system_prompt(
            &AmbientState::default(),
            &Vec::new(),
            &no_memories(),
            &sessions,
            &Vec::new(),
            &no_budget(),
            0,
            &self.settings(&sessions),
        )
    }
}

fn no_memories() -> MemoryGraphHealth {
    MemoryGraphHealth {
        total: 0,
        active: 0,
        inactive: 0,
        low_confidence: 0,
        contradictions: 0,
        missing_embeddings: 0,
        duplicate_candidates: 0,
        last_consolidation: None,
        projects: Vec::new(),
    }
}

fn no_budget() -> ResourceBudget {
    ResourceBudget {
        provider: String::new(),
        tokens_remaining_desc: String::new(),
        window_resets_desc: String::new(),
        user_usage_rate_desc: String::new(),
        cycle_budget_desc: String::new(),
    }
}

fn small_budget() -> ResourceBudget {
    ResourceBudget {
        provider: "anthropic-oauth".into(),
        tokens_remaining_desc: "unknown".into(),
        window_resets_desc: "unknown".into(),
        user_usage_rate_desc: "0 tokens/min".into(),
        cycle_budget_desc: "stay under 50k tokens".into(),
    }
}

fn session(id: &str, dir: &str) -> RecentSessionInfo {
    RecentSessionInfo {
        id: id.into(),
        status: "closed".into(),
        topic: Some("work".into()),
        duration_secs: 60,
        extraction_status: "extracted".into(),
        working_dir: Some(dir.into()),
    }
}

fn minimal_prompt(setup: &Setup) -> String {
    build_ambient_system_prompt(
        &AmbientState::default(),
        &Vec::new(),
        &no_memories(),
        &Vec::new(),
        &Vec::new(),
        &small_budget(),
        0,
        &setup.settings(&Vec::new()),
    )
}

#[test]
fn test_build_ambient_system_prompt_minimal() {
    let prompt = minimal_prompt(&setup());

    assert!(prompt.contains("ambient agent for jcode"));
    assert!(prompt.contains("## Current State"));
    assert!(prompt.contains("never (first run)"));
    assert!(prompt.contains("Active user sessions: none"));
    assert!(prompt.contains("## Scheduled Queue"));
    assert!(prompt.contains("Empty"));
    assert!(prompt.contains("## Memory Graph Health"));
    assert!(prompt.contains("Total memories: 0"));
    assert!(prompt.contains("## User Feedback History"));
    assert!(prompt.contains("No feedback memories"));
    assert!(prompt.contains("## Resource Budget"));
    assert!(prompt.contains("anthropic-oauth"));
    assert!(prompt.contains("## Instructions"));
    assert!(prompt.contains("end_ambient_cycle"));
    assert!(prompt.contains("review-ready"));
    assert!(prompt.contains("context.why_permission_needed"));
}

/// A cycle is judged by its todos, so it has to be told about them.
#[test]
fn test_build_ambient_system_prompt_includes_todo_guidance() {
    let prompt = minimal_prompt(&setup());

    assert!(prompt.contains("## Todo Discipline"));
    assert!(
        prompt.contains(AMBIENT_TODO_GUIDANCE),
        "the guidance must be the shared constant, not a drifting copy"
    );
    assert!(prompt.contains("completion_confidence"));
    assert!(prompt.contains("feedback loop"));

    // Markdown headings must stay separated from the section that follows, or
    // the next heading is swallowed into this one's last bullet.
    assert!(prompt.contains("\n\n## Messaging Check-ins"));
}

/// The field must be named, or no cycle ever sets it.
#[test]
fn prompt_instructs_the_agent_about_significance() {
    let prompt = build_ambient_system_prompt(
        &AmbientState::default(),
        &Vec::new(),
        &no_memories(),
        &Vec::new(),
        &Vec::new(),
        &ResourceBudget { provider: "test".into(), ..no_budget() },
        0,
        &setup().settings(&Vec::new()),
    );
    assert!(
        prompt.contains("significance"),
        "the system prompt must tell the agent the field exists"
    );
    assert!(prompt.contains("routine"), "the prompt must name the routine value");
    assert!(prompt.contains("notable"), "the prompt must name the notable value");
}

#[test]
fn test_build_ambient_system_prompt_with_data() {
    let state = AmbientState {
        last_run: Some(at(Utc::now() - Duration::minutes(15))),
        total_cycles: 7,
        ..AmbientState::default()
    };

    let queue = vec![ScheduledItem {
        id: "sched_001".into(),
        scheduled_for: at(Utc::now()),
        context: "Check CI status".into(),
        priority: Priority::High,
        target: ScheduleTarget::Ambient,
        created_by_session: "session_abc".into(),
        created_at: at(Utc::now() - Duration::minutes(10)),
        project: None,
        working_dir: Some("/home/user/project".into()),
        task_description: Some("Check CI status for the main branch".into()),
        relevant_files: vec!["src/main.rs".into()],
        git_branch: Some("main".into()),
        additional_context: Some("Background: Tests were flaky yesterday".into()),
    }];

    let health = MemoryGraphHealth {
        total: 42,
        active: 38,
        inactive: 4,
        low_confidence: 3,
        contradictions: 1,
        missing_embeddings: 5,
        duplicate_candidates: 0,
        last_consolidation: Some(at(Utc::now() - Duration::hours(2))),
        projects: Vec::new(),
    };

    let sessions = vec![RecentSessionInfo {
        id: "session_fox_123".into(),
        status: "closed".into(),
        topic: Some("Fix auth bug".into()),
        duration_secs: 900,
        extraction_status: "extracted".into(),
        working_dir: Some("/home/potb/projects/potb/config".into()),
    }];

    let feedback = vec![
        "User approved ambient fixing typos in docs".into(),
        "User rejected ambient refactoring tests".into(),
    ];

    let budget = ResourceBudget {
        provider: "openai-oauth".into(),
        tokens_remaining_desc: "~85k".into(),
        window_resets_desc: "in 3h 20m".into(),
        user_usage_rate_desc: "120 tokens/min".into(),
        cycle_budget_desc: "stay under 15k tokens".into(),
    };

    let prompt = build_ambient_system_prompt(
        &state,
        &queue,
        &health,
        &sessions,
        &feedback,
        &budget,
        2,
        &setup().settings(&sessions),
    );

    assert!(prompt.contains("15m ago"));
    assert!(prompt.contains("Active user sessions: 2"));
    assert!(prompt.contains("Total cycles completed: 7"));
    assert!(prompt.contains("Check CI status"));
    assert!(prompt.contains("HIGH"));
    assert!(prompt.contains("42"));
    assert!(prompt.contains("38 active"));
    assert!(prompt.contains("confidence < 0.1: 3"));
    assert!(prompt.contains("contradictions: 1"));
    assert!(prompt.contains("without embeddings: 5"));
    assert!(prompt.contains("Fix auth bug"));
    assert!(prompt.contains("approved ambient fixing typos"));
    assert!(prompt.contains("rejected ambient refactoring"));
    assert!(prompt.contains("openai-oauth"));
    assert!(prompt.contains("~85k"));
    assert!(prompt.contains("Working dir: /home/user/project"));
    assert!(prompt.contains("Details: Check CI status for the main branch"));
    assert!(prompt.contains("Files: src/main.rs"));
    assert!(prompt.contains("Branch: main"));
    assert!(prompt.contains("Tests were flaky yesterday"));
}

/// A pushed branch with no PR is invisible to the user.
#[test]
fn ambient_prompt_names_the_configured_pull_request_repo() {
    let mut s = setup();
    s.config.pr_repo = "potb/jcode".into();
    let configured = s.prompt(Vec::new());
    assert!(
        configured.contains("gh pr create --repo potb/jcode"),
        "the prompt must spell out the exact PR command for the fork"
    );
    assert!(
        configured.contains("never against its upstream"),
        "the upstream default is the failure mode, so it must be called out"
    );

    let unset = setup().prompt(Vec::new());
    assert!(
        !unset.contains("## Pull Requests"),
        "with no target configured the prompt must not invent one"
    );
}

#[test]
fn ambient_prompt_names_the_project_each_recent_session_ran_in() {
    let sessions = vec![
        RecentSessionInfo {
            id: "session_a".into(),
            status: "closed".into(),
            topic: Some("Fix ambient scope".into()),
            duration_secs: 600,
            extraction_status: "extracted".into(),
            working_dir: Some("/home/potb/jcode".into()),
        },
        RecentSessionInfo {
            id: "session_b".into(),
            status: "closed".into(),
            topic: Some("PrivateProject deploy".into()),
            duration_secs: 300,
            extraction_status: "extracted".into(),
            working_dir: Some("/home/potb/projects/workspace/private_project".into()),
        },
        RecentSessionInfo {
            id: "session_c".into(),
            status: "closed".into(),
            topic: Some("Ambient cycle".into()),
            duration_secs: 60,
            extraction_status: "extracted".into(),
            working_dir: None,
        },
    ];

    let prompt = setup().prompt(sessions);

    assert!(
        prompt.contains("project: /home/potb/jcode"),
        "each session line must name its project"
    );
    assert!(prompt.contains("project: /home/potb/projects/workspace/private_project"));
    assert!(
        prompt.contains("project: (no project)"),
        "a session without a working directory must be marked as such, not \
         silently attributed to another project"
    );
    assert!(prompt.contains("## Projects Active Recently"));
    assert!(prompt.contains("/home/potb/jcode (1 session(s))"));
}

#[test]
fn ambient_prompt_lists_per_project_memory_graphs() {
    let health = MemoryGraphHealth {
        total: 20,
        active: 18,
        inactive: 2,
        projects: vec![
            ProjectGraphHealth {
                working_dir: Some("/home/potb/projects/potb/config".into()),
                graph_id: "aaaa".into(),
                total: 13,
                active: 12,
                low_confidence: 1,
                missing_embeddings: 4,
            },
            ProjectGraphHealth {
                working_dir: None,
                graph_id: "bbbb".into(),
                total: 2,
                active: 2,
                low_confidence: 0,
                missing_embeddings: 0,
            },
        ],
        ..no_memories()
    };

    let prompt = build_ambient_system_prompt(
        &AmbientState::default(),
        &Vec::new(),
        &health,
        &Vec::new(),
        &Vec::new(),
        &no_budget(),
        0,
        &setup().settings(&Vec::new()),
    );

    assert!(prompt.contains("Per-project memory graphs:"));
    assert!(
        prompt.contains("/home/potb/projects/potb/config: 13 memories"),
        "a named project graph must show its path and size"
    );
    assert!(
        prompt.contains("bbbb: 2 memories"),
        "an unnamed project graph must still be listed by id rather than dropped"
    );
}

/// With auto-approve on, `request_permission` always says yes, so the agent's
/// own judgement is the only check left on destructive work.
#[test]
fn auto_approve_prompt_warns_that_no_human_will_answer() {
    let mut s = setup();
    s.auto_approve = true;
    let on = minimal_prompt(&s);

    assert!(on.contains("## Permissions"), "auto-approve must add a Permissions section");
    assert!(
        on.contains("nobody is on the other end"),
        "the agent must be told its requests reach no human, or it will treat \
         request_permission as a safety net that does not exist"
    );
    for hazard in ["force-push", "merge", "destructive"] {
        assert!(
            on.contains(hazard),
            "the irreversible-action warning must still name '{hazard}'"
        );
    }

    s.auto_approve = false;
    let off = minimal_prompt(&s);
    assert!(
        !off.contains("nobody is on the other end"),
        "with approvals off a human DOES answer; telling the agent otherwise \
         would wrongly discourage it from asking"
    );
}

#[test]
fn proactive_work_setting_reaches_the_prompt() {
    let prompt_with = |enabled: bool| {
        let mut s = setup();
        s.proactive_work = enabled;
        minimal_prompt(&s)
    };

    let enabled = prompt_with(true);
    assert!(
        enabled.contains("is ENABLED"),
        "an enabled setting must be stated in the prompt"
    );
    assert!(
        !enabled.contains("garden-only"),
        "an enabled cycle must not be told it is garden-only"
    );

    let disabled = prompt_with(false);
    assert!(
        disabled.contains("is DISABLED") && disabled.contains("garden-only"),
        "a disabled setting must be stated too, so the agent stops guessing"
    );

    assert_ne!(
        enabled, disabled,
        "the flag must change the prompt; identical output means it is inert"
    );
}

#[test]
fn ambient_prompt_ranks_configured_priority_projects_above_busier_ones() {
    // jcode is busier: three sessions against private_project's one.
    let sessions = || {
        vec![
            session("s1", "/home/potb/jcode"),
            session("s2", "/home/potb/jcode"),
            session("s3", "/home/potb/jcode/crates/jcode-tui"),
            session("s4", "/home/potb/projects/workspace/private_project"),
        ]
    };

    let mut s = setup();
    s.config.project_priority = vec![
        "/home/potb/projects/workspace/private_project".into(),
        "/home/potb/jcode".into(),
    ];
    let prioritized = s.prompt(sessions());
    let section =
        prioritized.split("## Projects Active Recently").nth(1).expect("projects section");
    let private_project = section
        .find("/home/potb/projects/workspace/private_project")
        .expect("private_project listed");
    let jcode = section.find("/home/potb/jcode (").expect("jcode listed");
    assert!(
        private_project < jcode,
        "private_project is the configured first priority, so it must outrank the \
         busier jcode project; got section:\n{section}"
    );
    assert!(
        section.contains("/home/potb/projects/workspace/private_project (1 session(s)) [priority]"),
        "priority projects must be marked so the agent can act on the ranking"
    );
    assert!(
        prioritized.contains("exhaust useful work in a higher-priority project"),
        "an ordering the agent is not told to honour is just cosmetics"
    );

    // A session in a subdirectory belongs to its project.
    assert!(
        section.contains("/home/potb/jcode/crates/jcode-tui (1 session(s)) [priority]"),
        "a subdirectory session must inherit its project's priority"
    );

    // Without the config, activity order rules and nothing is tagged.
    let unset = setup().prompt(sessions());
    let section = unset.split("## Projects Active Recently").nth(1).expect("projects section");
    assert!(
        !section.contains("[priority]"),
        "with no priority configured the prompt must not invent one"
    );
    assert!(!unset.contains("exhaust useful work in a higher-priority project"));
    let private_project = section
        .find("/home/potb/projects/workspace/private_project")
        .expect("private_project listed");
    let jcode = section.find("/home/potb/jcode (").expect("jcode listed");
    assert!(jcode < private_project, "unconfigured, the busier project still sorts first");
}

#[test]
fn ambient_prompt_surfaces_a_priority_project_with_no_recent_sessions() {
    let mut s = setup();
    s.config.project_priority = vec!["/home/potb/projects/workspace/private_project".into()];
    let prompt = s.prompt(vec![session("s1", "/home/potb/jcode")]);

    assert!(
        prompt.contains("## Priority Projects With No Recent Sessions"),
        "an idle priority project must still be surfaced"
    );
    let idle = prompt
        .split("## Priority Projects With No Recent Sessions")
        .nth(1)
        .expect("idle section");
    assert!(idle.contains("/home/potb/projects/workspace/private_project"));
    assert!(
        idle.contains("No recent session does not mean no work"),
        "the agent must be told why an idle project still deserves a look"
    );
}

#[test]
fn ambient_prompt_scopes_the_pr_repo_override_to_its_own_repository() {
    let mut s = setup();
    s.config.pr_repo = "potb/jcode".into();
    let prompt = s.prompt(Vec::new());

    assert!(
        prompt.contains("For work in the `jcode` repository"),
        "the override must be scoped to the repo it names"
    );
    assert!(prompt.contains("gh pr create --repo potb/jcode"));
    assert!(
        prompt.contains("target its own `origin`"),
        "another project's PRs must not be routed to this fork"
    );
    assert!(!prompt.contains("Open every pull request against"));
}

/// The instructions file is where the user says what they want done.
#[test]
fn ambient_prompt_includes_the_users_standing_instructions() {
    let mut s = setup();
    let without = s.prompt(Vec::new());
    assert!(
        !without.contains("## Standing Instructions From The User"),
        "with no instructions file the prompt must not invent the section"
    );

    s.files.push((
        user_instructions_path(DATA),
        "Ship at least one PR per day. Do not ask, just do it.".into(),
    ));

    let with = s.prompt(Vec::new());
    assert!(
        with.contains("Ship at least one PR per day"),
        "the user's own words must reach the prompt verbatim"
    );
    assert!(
        with.contains("OUTRANK"),
        "instructions must be stated as outranking self-written caution"
    );
}

/// Per-project instructions are the user talking to their own agent: they stay
/// below the user's data directory and never touch the project.
#[test]
fn project_instructions_live_under_jcode_home_not_in_the_project() {
    let path = project_instructions_path(DATA, "/home/user/work/api");
    assert!(
        path.starts_with("/data/jcode/"),
        "instructions must live under the data directory, got {path}"
    );
    assert!(
        !path.contains("/home/user/work/api/"),
        "nothing may be written inside the project directory"
    );

    // Same basename, different projects: these must not share a file.
    let a = project_instructions_slug("/home/user/work/api");
    let b = project_instructions_slug("/home/user/personal/api");
    assert_ne!(a, b, "the full path must disambiguate identical basenames");
    // A trailing slash is the same project, not a second one.
    assert_eq!(a, project_instructions_slug("/home/user/work/api/"));
}

#[test]
fn per_project_instructions_render_for_recently_seen_projects() {
    let mut s = setup();
    s.files.push((
        project_instructions_path(DATA, "/home/user/work/api"),
        "Keep the migration tests green.".into(),
    ));

    let prompt = s.prompt(vec![RecentSessionInfo {
        id: "session_a".into(),
        status: "closed".into(),
        topic: Some("api work".into()),
        duration_secs: 300,
        extraction_status: "extracted".into(),
        working_dir: Some("/home/user/work/api".into()),
    }]);
    assert!(prompt.contains("## Per-Project Standing Instructions"));
    assert!(prompt.contains("Keep the migration tests green."));
    assert!(prompt.contains("### /home/user/work/api"));
}

/// The priority list is an order to walk.
#[test]
fn ambient_prompt_tells_the_agent_to_walk_down_the_priority_list() {
    let mut s = setup();
    s.proactive_work = true;
    s.config.project_priority = vec![
        "/home/potb/jcode".into(),
        "/home/potb/projects/workspace/private_project".into(),
    ];
    let with_priority = s.prompt(Vec::new());
    assert!(
        with_priority.contains("Do Not Stop At The First Quiet Project"),
        "the walk-the-list rule must reach the prompt, or the agent keeps \
         ending cycles at project 1"
    );
    let walk = with_priority
        .split("Do Not Stop At The First Quiet Project")
        .nth(1)
        .expect("walk section");
    let first = walk.find("1. /home/potb/jcode").expect("first listed");
    let second = walk
        .find("2. /home/potb/projects/workspace/private_project")
        .expect("second listed");
    assert!(first < second, "the list must be rendered in the user's configured order");

    // Garden-only cycles are not supposed to go hunting for code work, so the
    // walk instruction must not contradict a disabled proactive_work.
    let mut s = setup();
    s.config.project_priority = vec!["/home/potb/jcode".into()];
    let garden_only = s.prompt(Vec::new());
    assert!(
        !garden_only.contains("Do Not Stop At The First Quiet Project"),
        "a garden-only cycle must not be told to hunt for work across projects"
    );

    // No configured priority means there is no list to walk.
    let mut s = setup();
    s.proactive_work = true;
    let unconfigured = s.prompt(Vec::new());
    assert!(
        !unconfigured.contains("Do Not Stop At The First Quiet Project"),
        "without project_priority there is no order to walk"
    );
}

#[test]
fn ambient_prompt_names_a_pull_request_target_per_project() {
    let mut s = setup();
    s.config.pr_repos.insert("/home/potb/jcode".into(), "potb/jcode".into());
    s.config.pr_repos.insert(
        "/home/potb/projects/workspace/private_project".into(),
        "potb/private_project".into(),
    );
    let prompt = s.prompt(Vec::new());

    let section = prompt.split("## Pull Requests").nth(1).expect("PR section");
    assert!(
        section.contains("`/home/potb/jcode`") && section.contains("--repo potb/jcode"),
        "each project must carry its own PR target; got:\n{section}"
    );
    assert!(
        section.contains("`/home/potb/projects/workspace/private_project`")
            && section.contains("--repo potb/private_project"),
        "the second project's target must be stated too, or its PRs land in the \
         first project's fork; got:\n{section}"
    );
    assert!(
        section.contains("origin"),
        "projects with no entry still need the origin fallback stated"
    );
}

/// The order of the project tables is the priority order.
#[test]
fn ambient_projects_array_sets_priority_order_and_pr_targets() {
    // private_project first, and it has NO pr_repo: the user pushes to it
    // directly, so its PRs must go to its own origin rather than an invented
    // fork.
    let mut s = setup();
    s.proactive_work = true;
    s.config.projects = vec![
        project("/home/potb/projects/workspace/private_project"),
        AmbientProject { pr_repo: "potb/jcode".into(), ..project("/home/potb/jcode") },
    ];
    let prompt = s.prompt(Vec::new());

    let walk =
        prompt.split("Do Not Stop At The First Quiet Project").nth(1).expect("walk section");
    let private_project = walk
        .find("1. /home/potb/projects/workspace/private_project")
        .expect("private_project first");
    let jcode = walk.find("2. /home/potb/jcode").expect("jcode second");
    assert!(private_project < jcode, "file order is the priority order; got:\n{walk}");

    let prs = prompt.split("## Pull Requests").nth(1).expect("PR section");
    assert!(
        prs.contains("`/home/potb/jcode`") && prs.contains("--repo potb/jcode"),
        "a project's own pr_repo must be used for it; got:\n{prs}"
    );
    assert!(
        !prs.contains("private_project`: push the branch to the fork remote"),
        "a project with no pr_repo must fall through to its origin, not borrow \
         another project's fork; got:\n{prs}"
    );

    // A project named by both of the split keys must not be listed twice.
    let mut s = setup();
    s.proactive_work = true;
    s.config.project_priority = vec!["/home/potb/jcode".into()];
    s.config.pr_repos.insert("/home/potb/jcode".into(), "potb/jcode".into());
    let legacy = s.prompt(Vec::new());
    let legacy_walk =
        legacy.split("Do Not Stop At The First Quiet Project").nth(1).expect("walk section");
    assert!(legacy_walk.contains("1. /home/potb/jcode"));
    assert!(
        !legacy_walk.contains("2. /home/potb/jcode"),
        "a project named by both old keys must appear once"
    );
    assert!(
        legacy
            .split("## Pull Requests")
            .nth(1)
            .expect("PR section")
            .contains("--repo potb/jcode"),
        "the old pr_repos map must still route PRs"
    );
}

/// One project with direct push access, one through a fork.
#[test]
fn ambient_prompt_separates_fork_projects_from_direct_access_projects() {
    let mut s = setup();
    s.proactive_work = true;
    s.config.projects = vec![
        AmbientProject { pr_repo: "potb/jcode".into(), ..project("/home/potb/jcode") },
        project("/home/potb/projects/workspace/private_project"),
    ];
    let prompt = s.prompt(Vec::new());
    let prs = prompt.split("## Pull Requests").nth(1).expect("PR section");
    // Stop at the next section so later prose (which legitimately lists both
    // projects) cannot satisfy these assertions.
    let prs = prs.split("\n## ").next().expect("PR section body");

    let fork_idx = prs.find("FORK PROJECTS").expect("fork flow stated");
    let direct_idx = prs.find("DIRECT-ACCESS PROJECTS").expect("direct flow stated");

    let fork_block = &prs[fork_idx..direct_idx];
    assert!(
        fork_block.contains("/home/potb/jcode") && fork_block.contains("--repo potb/jcode"),
        "the forked project belongs to the fork flow; got:\n{fork_block}"
    );
    assert!(
        !fork_block.contains("private_project"),
        "a direct-access project must not be described as a fork project"
    );

    let direct_block = &prs[direct_idx..];
    assert!(
        direct_block.contains("/home/potb/projects/workspace/private_project"),
        "the direct-access project belongs to the direct flow; got:\n{direct_block}"
    );
    assert!(
        !direct_block.contains("potb/jcode"),
        "the direct-access project must not be routed through another \
         project's fork; got:\n{direct_block}"
    );

    // Branch destination, not just the PR: pushing a fork project's branch to
    // upstream fails on permissions and strands the work.
    assert!(
        fork_block.contains("push the branch to the fork remote"),
        "the fork flow must say where the BRANCH goes; got:\n{fork_block}"
    );
    assert!(
        direct_block.contains("push the branch to `origin`"),
        "the direct flow must say where the BRANCH goes; got:\n{direct_block}"
    );
}

/// Per-project instructions can be declared inline or by file reference.
#[test]
fn per_project_instructions_can_be_declared_in_config() {
    let mut s = setup();
    s.files.push((
        "/data/jcode/ambient/instructions/private_project.md".into(),
        "Production SaaS. Never touch migrations.".into(),
    ));
    s.config.projects = vec![
        AmbientProject {
            instructions: "Always work in a git worktree.".into(),
            ..project("/home/potb/jcode")
        },
        AmbientProject {
            instructions_file: "private_project.md".into(),
            ..project("/home/potb/projects/workspace/private_project")
        },
    ];
    let prompt = s.prompt(Vec::new());

    let section =
        prompt.split("## Per-Project Standing Instructions").nth(1).expect("per-project section");
    assert!(
        section.contains("### /home/potb/jcode")
            && section.contains("Always work in a git worktree."),
        "inline instructions must reach the prompt; got:\n{section}"
    );
    assert!(
        section.contains("### /home/potb/projects/workspace/private_project")
            && section.contains("Never touch migrations."),
        "a referenced instructions file must be loaded; got:\n{section}"
    );

    // The slug-named file must keep working.
    s.files.push((
        "/data/jcode/ambient/instructions/home-potb-legacy.md".into(),
        "Legacy rules still apply.".into(),
    ));
    s.config.projects = vec![project("/home/potb/legacy")];
    let legacy = s.prompt(Vec::new());
    assert!(
        legacy.contains("Legacy rules still apply."),
        "a project must keep its slug-named instructions file"
    );
}

/// Windows belong per project.
#[test]
fn per_project_active_windows_gate_only_their_own_project() {
    // A window that is open now, and one that never overlaps it, expressed
    // against the current local weekday so the test does not depend on when it
    // runs.
    let now = Local::now();
    let day = match now.weekday() {
        Weekday::Mon => "mon",
        Weekday::Tue => "tue",
        Weekday::Wed => "wed",
        Weekday::Thu => "thu",
        Weekday::Fri => "fri",
        Weekday::Sat => "sat",
        Weekday::Sun => "sun",
    };
    let open_spec = format!("{day} 00:00-23:59");
    // A window that cannot contain "now".
    let closed_start = (now.hour() + 2) % 24;
    let closed_spec = format!("{day} {closed_start:02}:00-{closed_start:02}:30");

    let mut s = setup();
    s.proactive_work = true;
    s.config.projects = vec![
        project("/home/potb/jcode"),
        AmbientProject {
            active_windows: vec![closed_spec.clone()],
            ..project("/home/potb/private_project")
        },
    ];
    let prompt = s.prompt(Vec::new());
    let walk =
        prompt.split("Do Not Stop At The First Quiet Project").nth(1).expect("walk section");
    assert!(
        walk.contains("1. /home/potb/jcode"),
        "a project with no window of its own is always workable; got:\n{walk}"
    );
    assert!(
        !walk.contains("2. /home/potb/private_project"),
        "a project outside its own window must not be offered as work; got:\n{walk}"
    );
    assert!(
        walk.contains("/home/potb/private_project (allowed:"),
        "a project held back by its schedule must be named as such, or its \
         absence reads as 'finished'; got:\n{walk}"
    );

    // The escape hatch covers per-project schedules too.
    s.config.ignore_active_windows = true;
    assert!(
        s.prompt(Vec::new())
            .split("Do Not Stop At The First Quiet Project")
            .nth(1)
            .expect("walk section")
            .contains("2. /home/potb/private_project"),
        "ignore_active_windows must also ignore per-project windows"
    );

    // Its own window being open puts it back in the rotation.
    s.config.ignore_active_windows = false;
    s.config.projects[1].active_windows = vec![open_spec];
    assert!(
        s.prompt(Vec::new())
            .split("Do Not Stop At The First Quiet Project")
            .nth(1)
            .expect("walk section")
            .contains("2. /home/potb/private_project"),
        "an open per-project window must not exclude the project"
    );
}

/// A session started in a subdirectory belongs to its project.
#[test]
fn per_project_instructions_render_under_the_project_root() {
    let mut s = setup();
    s.config.projects = vec![AmbientProject {
        instructions: "Always work in a git worktree.".into(),
        ..project("/home/potb/jcode")
    }];
    let prompt = s.prompt(vec![
        session("s1", "/home/potb/jcode/crates/jcode-app-core"),
        session("s2", "/home/potb/jcode"),
    ]);
    let section =
        prompt.split("## Per-Project Standing Instructions").nth(1).expect("per-project section");

    assert!(
        section.contains("### /home/potb/jcode\n"),
        "instructions belong under the project root; got:\n{section}"
    );
    assert!(
        !section.contains("### /home/potb/jcode/crates"),
        "a subdirectory must not be presented as its own project; got:\n{section}"
    );
    assert_eq!(
        section.matches("Always work in a git worktree.").count(),
        1,
        "the project's rules must appear once, not once per subdirectory seen; \
         got:\n{section}"
    );
}

/// An installed skill is only useful if it is named.
#[test]
fn ambient_prompt_lists_installed_skills_and_how_to_load_them() {
    let skills = vec![
        SkillInfo {
            name: "gh-stack".into(),
            description: "Manage stacked branches and pull requests with the gh-stack CLI.".into(),
        },
        SkillInfo {
            name: "garden-memory".into(),
            description: "Consolidate and prune the memory graph.".into(),
        },
    ];

    let mut prompt = String::new();
    append_available_skills(&mut prompt, &skills);

    assert!(prompt.contains("# Available Skills"));
    assert!(prompt.contains("`/gh-stack `"));
    assert!(prompt.contains("`/garden-memory `"));
    // Nobody types slash commands at an unattended cycle, so the catalogue is
    // useless without the tool call that actually loads one.
    assert!(prompt.contains("skill_manage"));
    assert!(prompt.contains("action=\"load\""));
}

/// With no skills installed the section is omitted entirely.
#[test]
fn ambient_prompt_omits_skills_section_when_none_installed() {
    let mut prompt = String::new();
    append_available_skills(&mut prompt, &Vec::new());
    assert!(prompt.is_empty());
}

#[test]
fn directives_and_the_issue_tracker_reach_the_prompt() {
    let mut settings = setup().settings(&Vec::new());
    settings.directives = vec![UserDirective {
        in_reply_to_cycle: "ambient_1".into(),
        text: "Look at the flaky test first".into(),
        received_at: settings.now,
    }];
    settings.github =
        Some(IssueTracker { repo: "potb/inbox".into(), label: "ambient-topic".into() });
    let prompt = build_ambient_system_prompt(
        &AmbientState::default(),
        &Vec::new(),
        &no_memories(),
        &Vec::new(),
        &Vec::new(),
        &no_budget(),
        0,
        &settings,
    );
    assert!(prompt.contains("Look at the flaky test first"));
    assert!(prompt.contains("potb/inbox"));
    assert!(prompt.contains("ambient-topic"));
}

#[test]
fn a_cycle_claims_what_its_prompt_hands_over() {
    let due = at(Utc::now() - Duration::minutes(1));
    let mut manager = AmbientManager::new(AmbientState::default(), ScheduledQueue::new());
    manager.queue.push(ScheduledItem {
        id: "sched_1".into(),
        scheduled_for: due,
        context: "water the plants".into(),
        priority: Priority::Normal,
        target: ScheduleTarget::Ambient,
        created_by_session: "s".into(),
        created_at: due,
        project: None,
        working_dir: None,
        task_description: None,
        relevant_files: Vec::new(),
        git_branch: None,
        additional_context: None,
    });
    let context = build_cycle_context(
        &AmbientState::default(),
        &mut manager,
        &no_memories(),
        &Vec::new(),
        &Vec::new(),
        &cycle_budget("anthropic"),
        0,
        &setup().settings(&Vec::new()),
    );
    assert_eq!(context.claimed.len(), 1);
    assert!(manager.queue().is_empty());
    assert!(context.system_prompt.contains("water the plants"));
    assert_eq!(context.initial_message, INITIAL_MESSAGE);
}

#[test]
fn no_two_projects_share_an_instructions_file() {
    let dirs = [
        "/", "/root", "/w/a-b/api", "/w/a/b/api", "/w/a_b/api", "/w/a.b/api", "/w/a b/api",
        "/w/a--b/api", "/w/_x00002e", "/w/.", "/w/é", "/w/e",
    ];
    for (i, a) in dirs.iter().enumerate() {
        for b in &dirs[i + 1..] {
            assert_ne!(project_instructions_slug(a), project_instructions_slug(b), "{a} and {b}");
            assert_ne!(project_instructions_path("/d", a), project_instructions_path("/d", b));
        }
    }
    assert_eq!(project_instructions_slug("/w/a-b/api"), "w-a_-b-api");
    assert_eq!(project_instructions_slug("/w/a_b/.c"), "w-a__b-_x00002ec");
    assert_eq!(project_instructions_slug("/"), "_root");
    assert!(project_instructions_slug("/w/é x/ü~")
        .chars()
        .all(|c| c.is_ascii_alphanumeric() || c == '-' || c == '_'));
}
