//! Todo quality gates for headless ambient cycles.
//!
//! A cycle that ends is held to the gates of an interactive session. Which
//! follow-up comes next, and when no more are sent, is decided here; sending one
//! is the runner's work.

use crate::text::{opt_view, str_eq};
use vstd::prelude::*;

verus! {

/// Todo guidance for the ambient system prompt. It names the behaviour the
/// gates ask for and none of the values that pass them.
pub const AMBIENT_TODO_GUIDANCE: &'static str =
    "## Todo Discipline\n\nThis cycle is held to the same todo quality gates as an interactive session, and unmet ones are re-raised as follow-up turns before the cycle is allowed to end. Save yourself the round trips:\n\n- Keep the plan current as you go. Mark work completed when it is completed, and cancel what you decided not to do, so the list at the end of the cycle reflects what actually happened.\n- Record the goal-level assessments honestly, including the feedback loop: name the observation or check that reports back on each requirement. \"Ran the tests\" counts only for the requirements those tests actually enforce.\n- Set `completion_confidence` on every completed todo from the evidence you actually gathered, and let it climb as evidence accumulates rather than jumping to the end state at the last write. A confidence level that appears fully formed reads as unverified, not as done.\n- Assess honestly in both directions. A weak assessment that matches reality is worth more than a strong one you cannot support: the gates ask for more work, and an inflated score sends that work to the wrong place.\n- `end_ambient_cycle` does not close the cycle on its own. If a gate is still unmet you will be asked to continue, so treat the plan as part of the work and not as paperwork filed at the end.\n";

/// How many gate follow-ups one cycle may send before nudging stops.
pub const AMBIENT_GATE_MAX_ATTEMPTS: u8 = 5;

/// How far a todo has come.
#[derive(Debug, Clone, Copy, PartialEq, Eq, Structural)]
pub enum TodoProgress {
    Open,
    Completed,
    Cancelled,
}

/// What the gates read of one todo.
#[derive(Debug, Clone)]
pub struct TodoItem {
    /// The group of goals that the todo belongs to.
    pub group: Option<String>,
    pub progress: TodoProgress,
    /// The confidence stated on completion passes.
    pub confidence_passes: bool,
    /// The confidence jumped levels rather than climbing.
    pub confidence_spiked: bool,
}

/// What the gates read of the goal of a group.
#[derive(Debug, Clone)]
pub struct GoalDelivery {
    pub group: Option<String>,
    /// The delivery assessment of the goal passes.
    pub sufficient: bool,
}

/// The follow-up texts a cycle may be sent.
#[derive(Debug, Clone)]
pub struct GateMessages {
    pub incomplete: String,
    pub ownership: String,
    pub completion: String,
    pub spike: String,
}

/// A gate follow-up to deliver before the end of the cycle is accepted.
#[derive(Debug, Clone, PartialEq, Eq)]
pub enum AmbientGateFollowUp {
    /// Todos are still open; keep working.
    Incomplete { count: usize, message: String },
    /// Deferred quality points recorded during the cycle.
    GateDigest { message: String },
    /// A completed goal group has not been carried far enough.
    Ownership { message: String },
    /// Completed todos whose completion confidence does not pass.
    CompletionConfidence { message: String },
    /// A completed todo whose confidence jumped levels.
    ConfidenceSpike { message: String },
}

impl AmbientGateFollowUp {
    pub open spec fn text(&self) -> String {
        match *self {
            AmbientGateFollowUp::Incomplete { message, .. } => message,
            AmbientGateFollowUp::GateDigest { message } => message,
            AmbientGateFollowUp::Ownership { message } => message,
            AmbientGateFollowUp::CompletionConfidence { message } => message,
            AmbientGateFollowUp::ConfidenceSpike { message } => message,
        }
    }

    /// The message to send back to the agent.
    pub fn message(&self) -> (r: &str)
        ensures
            r@ == self.text()@,
    {
        match self {
            AmbientGateFollowUp::Incomplete { message, .. } => message.as_str(),
            AmbientGateFollowUp::GateDigest { message } => message.as_str(),
            AmbientGateFollowUp::Ownership { message } => message.as_str(),
            AmbientGateFollowUp::CompletionConfidence { message } => message.as_str(),
            AmbientGateFollowUp::ConfidenceSpike { message } => message.as_str(),
        }
    }

    /// Short label for the run log.
    pub fn label(&self) -> (r: &'static str)
        ensures
            r@ == (match *self {
                AmbientGateFollowUp::Incomplete { .. } => "incomplete-todos"@,
                AmbientGateFollowUp::GateDigest { .. } => "gate-digest"@,
                AmbientGateFollowUp::Ownership { .. } => "ownership"@,
                AmbientGateFollowUp::CompletionConfidence { .. } => "completion-confidence"@,
                AmbientGateFollowUp::ConfidenceSpike { .. } => "confidence-spike"@,
            }),
    {
        match self {
            AmbientGateFollowUp::Incomplete { .. } => "incomplete-todos",
            AmbientGateFollowUp::GateDigest { .. } => "gate-digest",
            AmbientGateFollowUp::Ownership { .. } => "ownership",
            AmbientGateFollowUp::CompletionConfidence { .. } => "completion-confidence",
            AmbientGateFollowUp::ConfidenceSpike { .. } => "confidence-spike",
        }
    }
}

/// What the cycle has already delivered, so a gate is not raised twice.
#[derive(Debug, Clone, Copy, PartialEq, Eq, Structural)]
pub struct AmbientGateState {
    pub gate_digest_delivered: bool,
    pub confidence_spike_challenged: bool,
}

impl Default for AmbientGateState {
    fn default() -> (r: AmbientGateState)
        ensures
            !r.gate_digest_delivered && !r.confidence_spike_challenged,
    {
        AmbientGateState { gate_digest_delivered: false, confidence_spike_challenged: false }
    }
}

pub open spec fn open_todos(todos: Seq<TodoItem>) -> Seq<TodoItem> {
    todos.filter(|t: TodoItem| t.progress is Open)
}

/// How many todos are still open.
pub fn incomplete_count(todos: &Vec<TodoItem>) -> (r: usize)
    ensures
        r == open_todos(todos@).len(),
{
    let mut n: usize = 0;
    let mut i: usize = 0;
    assert(todos@.take(0) =~= Seq::<TodoItem>::empty());
    reveal(Seq::filter);
    while i < todos.len()
        invariant
            i <= todos@.len(),
            n <= i,
            n == open_todos(todos@.take(i as int)).len(),
        decreases todos@.len() - i,
    {
        reveal(Seq::filter);
        assert(todos@.take(i + 1).drop_last() =~= todos@.take(i as int));
        assert(todos@.take(i + 1).last() == todos@[i as int]);
        if matches!(todos[i].progress, TodoProgress::Open) {
            n = n + 1;
        }
        i = i + 1;
    }
    assert(todos@.take(todos@.len() as int) =~= todos@);
    n
}

/// Whether a todo is still open.
pub fn work_remains(todos: &Vec<TodoItem>) -> (r: bool)
    ensures
        r == (open_todos(todos@).len() > 0),
{
    incomplete_count(todos) > 0
}

/// Whether the digest may be consumed yet: not while work is open, whose
/// follow-up comes first, and not twice.
pub fn digest_is_due(todos: &Vec<TodoItem>, state: AmbientGateState) -> (r: bool)
    ensures
        r == (!state.gate_digest_delivered && open_todos(todos@).len() == 0),
{
    !state.gate_digest_delivered && !work_remains(todos)
}

/// The digest of the recorded observations: none when nothing was observed.
pub fn build_digest(observations: usize, digest: Option<String>) -> (r: Option<String>)
    ensures
        r == (if observations == 0 { None } else { digest }),
{
    if observations == 0 {
        None
    } else {
        digest
    }
}

/// One of the completed todos does not pass its confidence gate.
pub open spec fn confidence_fails(todos: Seq<TodoItem>) -> bool {
    exists|i: int|
        0 <= i < todos.len() && (#[trigger] todos[i]).progress is Completed
            && !todos[i].confidence_passes
}

/// One of the completed todos jumped in confidence.
pub open spec fn confidence_spikes(todos: Seq<TodoItem>) -> bool {
    exists|i: int|
        0 <= i < todos.len() && (#[trigger] todos[i]).progress is Completed
            && todos[i].confidence_spiked
}

/// The goal is that of the group, and is carried far enough.
pub open spec fn vouches(goal: GoalDelivery, group: Option<Seq<char>>) -> bool {
    goal.sufficient && opt_view(goal.group) == group
}

pub open spec fn group_delivered(group: Option<Seq<char>>, goals: Seq<GoalDelivery>) -> bool {
    exists|j: int| 0 <= j < goals.len() && vouches(#[trigger] goals[j], group)
}

/// Every group in which a todo was completed is carried far enough.
pub open spec fn groups_delivered(todos: Seq<TodoItem>, goals: Seq<GoalDelivery>) -> bool {
    forall|i: int|
        0 <= i < todos.len() && (#[trigger] todos[i]).progress is Completed ==> group_delivered(
            opt_view(todos[i].group),
            goals,
        )
}

fn same_group(a: &Option<String>, b: &Option<String>) -> (r: bool)
    ensures
        r == (opt_view(*a) == opt_view(*b)),
{
    match (a, b) {
        (Some(x), Some(y)) => str_eq(x.as_str(), y.as_str()),
        (None, None) => true,
        _ => false,
    }
}

fn is_group_delivered(group: &Option<String>, goals: &Vec<GoalDelivery>) -> (r: bool)
    ensures
        r == group_delivered(opt_view(*group), goals@),
{
    let mut j: usize = 0;
    while j < goals.len()
        invariant
            j <= goals@.len(),
            forall|k: int| 0 <= k < j ==> !vouches(#[trigger] goals@[k], opt_view(*group)),
        decreases goals@.len() - j,
    {
        if goals[j].sufficient && same_group(&goals[j].group, group) {
            assert(vouches(goals@[j as int], opt_view(*group)));
            return true;
        }
        j = j + 1;
    }
    false
}

/// Whether every group in which a todo was completed is carried far enough. The
/// goal of one group does not vouch for another.
pub fn completed_groups_have_sufficient_delivery(
    todos: &Vec<TodoItem>,
    goals: &Vec<GoalDelivery>,
) -> (r: bool)
    ensures
        r == groups_delivered(todos@, goals@),
{
    let mut i: usize = 0;
    while i < todos.len()
        invariant
            i <= todos@.len(),
            forall|k: int|
                0 <= k < i && (#[trigger] todos@[k]).progress is Completed ==> group_delivered(
                    opt_view(todos@[k].group),
                    goals@,
                ),
        decreases todos@.len() - i,
    {
        if matches!(todos[i].progress, TodoProgress::Completed) && !is_group_delivered(
            &todos[i].group,
            goals,
        ) {
            assert(todos@[i as int].progress is Completed);
            return false;
        }
        i = i + 1;
    }
    true
}

/// The next follow-up. Open work comes first, then the recorded weak points,
/// which may change what is checked next, then ownership, then confidence. A
/// cycle without todos has no gates but the digest.
pub open spec fn follow_up(
    todos: Seq<TodoItem>,
    goals: Seq<GoalDelivery>,
    gate_digest: Option<String>,
    state: AmbientGateState,
    messages: GateMessages,
) -> Option<AmbientGateFollowUp> {
    let open = open_todos(todos).len();
    if open > 0 {
        Some(AmbientGateFollowUp::Incomplete { count: open as usize, message: messages.incomplete })
    } else if gate_digest is Some {
        Some(AmbientGateFollowUp::GateDigest { message: gate_digest->0 })
    } else if todos.len() == 0 {
        None
    } else if !groups_delivered(todos, goals) {
        Some(AmbientGateFollowUp::Ownership { message: messages.ownership })
    } else if confidence_fails(todos) {
        Some(AmbientGateFollowUp::CompletionConfidence { message: messages.completion })
    } else if !state.confidence_spike_challenged && confidence_spikes(todos) {
        Some(AmbientGateFollowUp::ConfidenceSpike { message: messages.spike })
    } else {
        None
    }
}

/// Decides the next gate follow-up, or `None` when the cycle may end.
pub fn next_gate_follow_up(
    todos: &Vec<TodoItem>,
    goals: &Vec<GoalDelivery>,
    gate_digest: Option<String>,
    state: AmbientGateState,
    messages: GateMessages,
) -> (r: Option<AmbientGateFollowUp>)
    ensures
        r == follow_up(todos@, goals@, gate_digest, state, messages),
{
    let count = incomplete_count(todos);
    if count > 0 {
        return Some(AmbientGateFollowUp::Incomplete { count, message: messages.incomplete });
    }
    if let Some(message) = gate_digest {
        return Some(AmbientGateFollowUp::GateDigest { message });
    }
    if todos.len() == 0 {
        return None;
    }
    if !completed_groups_have_sufficient_delivery(todos, goals) {
        return Some(AmbientGateFollowUp::Ownership { message: messages.ownership });
    }
    let mut fails = false;
    let mut spikes = false;
    let mut i: usize = 0;
    while i < todos.len()
        invariant
            i <= todos@.len(),
            fails == confidence_fails(todos@.take(i as int)),
            spikes == confidence_spikes(todos@.take(i as int)),
        decreases todos@.len() - i,
    {
        let t = &todos[i];
        let ghost seen = todos@.take(i as int);
        let ghost more = todos@.take(i + 1);
        assert(forall|j: int| 0 <= j < i ==> #[trigger] more[j] == seen[j]);
        assert(forall|j: int| 0 <= j < i ==> #[trigger] seen[j] == more[j]);
        assert(more[i as int] == *t);
        if matches!(t.progress, TodoProgress::Completed) {
            if !t.confidence_passes {
                fails = true;
            }
            if t.confidence_spiked {
                spikes = true;
            }
        }
        i = i + 1;
    }
    assert(todos@.take(todos@.len() as int) =~= todos@);
    if fails {
        return Some(AmbientGateFollowUp::CompletionConfidence { message: messages.completion });
    }
    if !state.confidence_spike_challenged && spikes {
        return Some(AmbientGateFollowUp::ConfidenceSpike { message: messages.spike });
    }
    None
}

/// What the gates have asked of a cycle so far.
#[derive(Debug, Clone, Copy, PartialEq, Eq, Structural)]
pub struct GateProgress {
    /// How many follow-ups were sent.
    pub attempts: u8,
    pub state: AmbientGateState,
}

impl GateProgress {
    pub fn new() -> (r: GateProgress)
        ensures
            r == fresh_gates(),
    {
        GateProgress {
            attempts: 0,
            state: AmbientGateState { gate_digest_delivered: false, confidence_spike_challenged: false },
        }
    }
}

/// A cycle of which nothing was asked yet.
pub open spec fn fresh_gates() -> GateProgress {
    GateProgress {
        attempts: 0,
        state: AmbientGateState { gate_digest_delivered: false, confidence_spike_challenged: false },
    }
}

/// What the gates read when a cycle reports its end.
#[derive(Debug, Clone)]
pub struct GateFacts {
    pub todos: Vec<TodoItem>,
    pub goals: Vec<GoalDelivery>,
    /// The digest that was built for this end, if one is due.
    pub gate_digest: Option<String>,
    pub messages: GateMessages,
}

/// A digest counts once: none does after one was delivered.
pub open spec fn fresh_digest(state: AmbientGateState, digest: Option<String>) -> Option<String> {
    if state.gate_digest_delivered {
        None
    } else {
        digest
    }
}

/// The digest, unless one was delivered already.
pub fn undelivered_digest(state: AmbientGateState, digest: Option<String>) -> (r: Option<String>)
    ensures
        r == fresh_digest(state, digest),
{
    if state.gate_digest_delivered {
        None
    } else {
        digest
    }
}

/// The follow-up that a cycle is sent when it reports its end: what the gates
/// ask for, until [`AMBIENT_GATE_MAX_ATTEMPTS`] follow-ups were sent.
pub open spec fn due_follow_up(
    progress: GateProgress,
    todos: Seq<TodoItem>,
    goals: Seq<GoalDelivery>,
    gate_digest: Option<String>,
    messages: GateMessages,
) -> Option<AmbientGateFollowUp> {
    if progress.attempts >= AMBIENT_GATE_MAX_ATTEMPTS {
        None
    } else {
        follow_up(todos, goals, gate_digest, progress.state, messages)
    }
}

/// What was asked of a cycle once a follow-up was sent, or none.
pub open spec fn gates_after(
    progress: GateProgress,
    sent: Option<AmbientGateFollowUp>,
) -> GateProgress {
    match sent {
        None => progress,
        Some(f) => GateProgress {
            attempts: (progress.attempts + 1) as u8,
            state: AmbientGateState {
                gate_digest_delivered: progress.state.gate_digest_delivered || f is GateDigest,
                confidence_spike_challenged: progress.state.confidence_spike_challenged
                    || f is ConfidenceSpike,
            },
        },
    }
}

/// Decides what becomes of the end that a cycle reports: the follow-up to send
/// before it is accepted, which counts as sent, or `None` when it is accepted.
pub fn after_end(
    progress: &mut GateProgress,
    todos: &Vec<TodoItem>,
    goals: &Vec<GoalDelivery>,
    gate_digest: Option<String>,
    messages: GateMessages,
) -> (r: Option<AmbientGateFollowUp>)
    ensures
        r == due_follow_up(*old(progress), todos@, goals@, gate_digest, messages),
        *final(progress) == gates_after(*old(progress), r),
        final(progress).attempts == old(progress).attempts + (if r is Some {
            1int
        } else {
            0
        }),
{
    if progress.attempts >= AMBIENT_GATE_MAX_ATTEMPTS {
        return None;
    }
    let r = next_gate_follow_up(todos, goals, gate_digest, progress.state, messages);
    if let Some(f) = &r {
        progress.attempts = progress.attempts + 1;
        match f {
            AmbientGateFollowUp::GateDigest { .. } => {
                progress.state.gate_digest_delivered = true;
            },
            AmbientGateFollowUp::ConfidenceSpike { .. } => {
                progress.state.confidence_spike_challenged = true;
            },
            _ => {},
        }
    }
    r
}

/// A cycle that keeps no todo list is let go, unless weak points were recorded.
pub proof fn no_todos_means_no_gate(
    goals: Seq<GoalDelivery>,
    state: AmbientGateState,
    messages: GateMessages,
)
    ensures
        follow_up(Seq::empty(), goals, None, state, messages) is None,
{
    reveal(Seq::filter);
}

/// A confidence jump is challenged once only: once challenged, the cycle may
/// end where nothing else is wrong.
pub proof fn a_jump_is_challenged_once(
    todos: Seq<TodoItem>,
    goals: Seq<GoalDelivery>,
    state: AmbientGateState,
    messages: GateMessages,
)
    requires
        state.confidence_spike_challenged,
        open_todos(todos).len() == 0,
        groups_delivered(todos, goals),
        !confidence_fails(todos),
    ensures
        follow_up(todos, goals, None, state, messages) is None,
{
}

/// Ownership is judged group by group: a completed todo whose own group no goal
/// vouches for holds the cycle back, whatever the goals of other groups say.
pub proof fn ownership_is_per_group(
    todos: Seq<TodoItem>,
    goals: Seq<GoalDelivery>,
    state: AmbientGateState,
    messages: GateMessages,
    i: int,
)
    requires
        0 <= i < todos.len() && todos[i].progress is Completed,
        !group_delivered(opt_view(todos[i].group), goals),
        open_todos(todos).len() == 0,
    ensures
        follow_up(todos, goals, None, state, messages) == Some(
            AmbientGateFollowUp::Ownership { message: messages.ownership },
        ),
{
}

/// Work that is open comes first: the follow-up asks to keep going exactly when a
/// todo, at whatever position, is open.
pub proof fn open_work_comes_first(
    todos: Seq<TodoItem>,
    goals: Seq<GoalDelivery>,
    gate_digest: Option<String>,
    state: AmbientGateState,
    messages: GateMessages,
)
    requires
        todos.len() <= usize::MAX,
    ensures
        (exists|i: int| 0 <= i < todos.len() && (#[trigger] todos[i]).progress is Open) <==> {
            &&& follow_up(todos, goals, gate_digest, state, messages) matches Some(
                AmbientGateFollowUp::Incomplete { count, message },
            )
            &&& count == open_todos(todos).len() > 0
            &&& message == messages.incomplete
        },
        follow_up(todos, goals, gate_digest, state, messages) is Some ==> follow_up(
            todos,
            goals,
            gate_digest,
            state,
            messages,
        )->0 is Incomplete ==> exists|i: int|
            0 <= i < todos.len() && (#[trigger] todos[i]).progress is Open,
{
    open_todos_are_the_open_ones(todos);
}

proof fn open_todos_are_the_open_ones(todos: Seq<TodoItem>)
    ensures
        open_todos(todos).len() <= todos.len(),
        open_todos(todos).len() > 0 <==> exists|i: int|
            0 <= i < todos.len() && (#[trigger] todos[i]).progress is Open,
    decreases todos.len(),
{
    reveal(Seq::filter);
    if todos.len() > 0 {
        let head = todos.drop_last();
        open_todos_are_the_open_ones(head);
        assert(forall|i: int| 0 <= i < head.len() ==> #[trigger] todos[i] == head[i]);
        assert(forall|i: int| 0 <= i < head.len() ==> #[trigger] head[i] == todos[i]);
        assert(todos[todos.len() - 1] == todos.last());
    }
}

/// The number that a follow-up about open work names counts the open todos: one
/// more todo adds one to it when it is open, and nothing when it is not.
pub proof fn open_work_is_counted(todos: Seq<TodoItem>, more: TodoItem)
    ensures
        open_todos(Seq::empty()).len() == 0,
        open_todos(todos.push(more)).len() == open_todos(todos).len() + (if more.progress is Open {
            1int
        } else {
            0
        }),
{
    reveal(Seq::filter);
    assert(todos.push(more).drop_last() =~= todos);
}

/// Once no work is open, recorded weak points come next, and are handed on as
/// they are.
pub proof fn a_digest_comes_next(
    todos: Seq<TodoItem>,
    goals: Seq<GoalDelivery>,
    digest: String,
    state: AmbientGateState,
    messages: GateMessages,
)
    requires
        forall|i: int| 0 <= i < todos.len() ==> !((#[trigger] todos[i]).progress is Open),
    ensures
        follow_up(todos, goals, Some(digest), state, messages) == Some(
            AmbientGateFollowUp::GateDigest { message: digest },
        ),
{
    open_todos_are_the_open_ones(todos);
}

/// What the gates ask of a cycle without open work and without a digest, whatever
/// the order of its todos. First that every group with a completed todo has a goal
/// of its own that passes; then that every completed todo passes in confidence;
/// then, once in a cycle, that no completed todo jumped. The cycle is let go
/// exactly when nothing is asked.
pub proof fn every_completed_todo_is_held_to_the_gates(
    todos: Seq<TodoItem>,
    goals: Seq<GoalDelivery>,
    state: AmbientGateState,
    messages: GateMessages,
)
    requires
        forall|i: int| 0 <= i < todos.len() ==> !((#[trigger] todos[i]).progress is Open),
    ensures
        ({
            let r = follow_up(todos, goals, None, state, messages);
            let unowned = exists|i: int|
                0 <= i < todos.len() && (#[trigger] todos[i]).progress is Completed && forall|j: int|
                    0 <= j < goals.len() && (#[trigger] goals[j]).sufficient ==> opt_view(
                        goals[j].group,
                    ) != opt_view(todos[i].group);
            let unsure = exists|i: int|
                0 <= i < todos.len() && (#[trigger] todos[i]).progress is Completed
                    && !todos[i].confidence_passes;
            let jumped = exists|i: int|
                0 <= i < todos.len() && (#[trigger] todos[i]).progress is Completed
                    && todos[i].confidence_spiked;
            &&& unowned <==> r == Some(
                AmbientGateFollowUp::Ownership { message: messages.ownership },
            )
            &&& !unowned && unsure <==> r == Some(
                AmbientGateFollowUp::CompletionConfidence { message: messages.completion },
            )
            &&& !unowned && !unsure && jumped && !state.confidence_spike_challenged <==> r == Some(
                AmbientGateFollowUp::ConfidenceSpike { message: messages.spike },
            )
            &&& !unowned && !unsure && !(jumped && !state.confidence_spike_challenged)
                <==> r is None
        }),
{
    open_todos_are_the_open_ones(todos);
    assert forall|i: int| 0 <= i < todos.len() implies (group_delivered(
        opt_view((#[trigger] todos[i]).group),
        goals,
    ) <==> !(forall|j: int|
        0 <= j < goals.len() && (#[trigger] goals[j]).sufficient ==> opt_view(goals[j].group)
            != opt_view(todos[i].group))) by {
    }
}

/// The gates ask the same of a cycle whatever the order of its todos.
pub proof fn the_order_of_todos_does_not_matter(
    todos: Seq<TodoItem>,
    others: Seq<TodoItem>,
    goals: Seq<GoalDelivery>,
    gate_digest: Option<String>,
    state: AmbientGateState,
    messages: GateMessages,
)
    requires
        todos.to_multiset() == others.to_multiset(),
    ensures
        follow_up(todos, goals, gate_digest, state, messages) == follow_up(
            others,
            goals,
            gate_digest,
            state,
            messages,
        ),
{
    same_todos_both_ways(todos, others);
    same_todos_both_ways(others, todos);
    open_todos_by_multiset(todos);
    open_todos_by_multiset(others);
    todos.to_multiset_ensures();
    others.to_multiset_ensures();
    if !groups_delivered(todos, goals) {
        let i = choose|i: int|
            0 <= i < todos.len() && (#[trigger] todos[i]).progress is Completed && !group_delivered(
                opt_view(todos[i].group),
                goals,
            );
        let k = others.index_of(todos[i]);
        assert(others[k] == todos[i]);
    }
    if !groups_delivered(others, goals) {
        let i = choose|i: int|
            0 <= i < others.len() && (#[trigger] others[i]).progress is Completed
                && !group_delivered(opt_view(others[i].group), goals);
        let k = todos.index_of(others[i]);
        assert(todos[k] == others[i]);
    }
}

proof fn same_todos_both_ways(a: Seq<TodoItem>, b: Seq<TodoItem>)
    requires
        a.to_multiset() == b.to_multiset(),
    ensures
        forall|i: int| 0 <= i < a.len() ==> b.contains(#[trigger] a[i]),
        confidence_fails(a) ==> confidence_fails(b),
        confidence_spikes(a) ==> confidence_spikes(b),
{
    a.to_multiset_ensures();
    b.to_multiset_ensures();
    assert forall|i: int| 0 <= i < a.len() implies b.contains(#[trigger] a[i]) by {
        assert(a.contains(a[i]));
        assert(a.to_multiset().count(a[i]) > 0);
    }
    if confidence_fails(a) {
        let i = choose|i: int|
            0 <= i < a.len() && (#[trigger] a[i]).progress is Completed && !a[i].confidence_passes;
        let k = b.index_of(a[i]);
        assert(b[k] == a[i]);
    }
    if confidence_spikes(a) {
        let i = choose|i: int|
            0 <= i < a.len() && (#[trigger] a[i]).progress is Completed && a[i].confidence_spiked;
        let k = b.index_of(a[i]);
        assert(b[k] == a[i]);
    }
}

proof fn open_todos_by_multiset(todos: Seq<TodoItem>)
    ensures
        open_todos(todos).len() == todos.to_multiset().filter(
            |t: TodoItem| t.progress is Open,
        ).len(),
    decreases todos.len(),
{
    reveal(Seq::filter);
    let f = |t: TodoItem| t.progress is Open;
    todos.to_multiset_ensures();
    if todos.len() == 0 {
        assert(todos.to_multiset().filter(f) =~= vstd::multiset::Multiset::<TodoItem>::empty());
    } else {
        let head = todos.drop_last();
        open_todos_by_multiset(head);
        head.to_multiset_ensures();
        assert(head.push(todos.last()) =~= todos);
        let m = head.to_multiset();
        assert(todos.to_multiset() =~= m.insert(todos.last()));
        if f(todos.last()) {
            assert(m.insert(todos.last()).filter(f) =~= m.filter(f).insert(todos.last()));
        } else {
            assert(m.insert(todos.last()).filter(f) =~= m.filter(f));
        }
    }
}

/// Each follow-up counts, what was delivered or challenged stays so, and after five
/// there are no more.
pub proof fn follow_ups_are_counted(
    progress: GateProgress,
    sent: AmbientGateFollowUp,
    todos: Seq<TodoItem>,
    goals: Seq<GoalDelivery>,
    gate_digest: Option<String>,
    messages: GateMessages,
)
    requires
        progress.attempts < 5,
    ensures
        ({
            let after = gates_after(progress, Some(sent));
            &&& gates_after(progress, None) == progress
            &&& after.attempts == progress.attempts + 1
            &&& progress.state.gate_digest_delivered ==> after.state.gate_digest_delivered
            &&& progress.state.confidence_spike_challenged
                ==> after.state.confidence_spike_challenged
            &&& sent is GateDigest ==> after.state.gate_digest_delivered
            &&& sent is ConfidenceSpike ==> after.state.confidence_spike_challenged
            &&& !(sent is GateDigest) ==> after.state.gate_digest_delivered
                == progress.state.gate_digest_delivered
            &&& !(sent is ConfidenceSpike) ==> after.state.confidence_spike_challenged
                == progress.state.confidence_spike_challenged
            &&& after.attempts == 5 ==> due_follow_up(after, todos, goals, gate_digest, messages)
                is None
            &&& due_follow_up(progress, todos, goals, gate_digest, messages) == follow_up(
                todos,
                goals,
                gate_digest,
                progress.state,
                messages,
            )
        }),
{
}

} // verus!
