//! One ambient cycle: what it is handed, how its turns go, and what is made of
//! its result.

use crate::ambient::activity::RecentSessionInfo;
use crate::ambient::cycle_significance::{
    must_notify, should_notify, word_claims, CycleOutcome, CycleSignificance,
};
use crate::ambient::gates::{
    after_end, due_follow_up, follow_up, fresh_digest, fresh_gates, gates_after,
    undelivered_digest, AmbientGateFollowUp, GateFacts, GateProgress, AMBIENT_GATE_MAX_ATTEMPTS,
};
use crate::ambient::manager::{requeueing_undoes_a_claim, AmbientManager};
use crate::ambient::persistence::{claimed, in_delivery_order, left, Claim};
use crate::ambient::prompt::{
    build_ambient_system_prompt, prompt_in_range, prompt_of, MemoryGraphHealth, PromptSettings,
    ResourceBudget,
};
use crate::ambient::types::{AmbientCycleResult, AmbientState, CycleStatus, ScheduledItem};
use crate::clock::{utc_stamp, utc_stamp_of};
use crate::text::{lowercased, opt_clone, owned, trim, trimmed, views};
use crate::time::Timestamp;
use vstd::prelude::*;

verus! {

/// The first message of a cycle.
pub const INITIAL_MESSAGE: &'static str =
    "Begin your ambient cycle. Check the scheduled queue, assess memory graph health, and plan your work using the `todo` tool.";

/// The message to an agent that stopped without ending its cycle.
pub const CONTINUATION_MESSAGE: &'static str =
    "You stopped unexpectedly without calling end_ambient_cycle. If you are done with your work, call end_ambient_cycle with a summary of what you accomplished and schedule your next wake. If you are not done, continue what you were doing.";

/// The summary of a cycle that never ended itself.
pub const FORCED_SUMMARY: &'static str =
    "Cycle ended without calling end_ambient_cycle (forced end after 2 attempts)";

/// The summary of a visible cycle whose window was closed.
pub const CLOSED_SUMMARY: &'static str = "Visible cycle ended (user closed window)";

// ---------------------------------------------------------------------------
// What a cycle is handed
// ---------------------------------------------------------------------------

/// The budget that a cycle is told of.
pub fn cycle_budget(provider: &str) -> (r: ResourceBudget)
    ensures
        r.provider@ == provider@,
        r.tokens_remaining_desc@ == "unknown (adaptive)"@,
        r.window_resets_desc@ == "unknown"@,
        r.user_usage_rate_desc@ == "estimated from history"@,
        r.cycle_budget_desc@ == "stay under 50k tokens"@,
{
    ResourceBudget {
        provider: owned(provider),
        tokens_remaining_desc: owned("unknown (adaptive)"),
        window_resets_desc: owned("unknown"),
        user_usage_rate_desc: owned("estimated from history"),
        cycle_budget_desc: owned("stay under 50k tokens"),
    }
}

/// What a cycle is handed.
#[derive(Debug)]
pub struct CycleContext {
    pub system_prompt: String,
    pub initial_message: String,
    /// The queue items it has claimed, to be put back should it never run.
    pub claimed: Vec<ScheduledItem>,
}

proof fn claimed_then_left_are_queued(
    items: Seq<ScheduledItem>,
    now: Timestamp,
    taken: Seq<ScheduledItem>,
    i: int,
)
    requires
        in_delivery_order(claimed(items, Claim::Ambient, now), taken),
        0 <= i < (taken + left(items, Claim::Ambient, now)).len(),
    ensures
        items.contains((taken + left(items, Claim::Ambient, now))[i]),
{
    let rest = left(items, Claim::Ambient, now);
    let all = taken + rest;
    requeueing_undoes_a_claim(items, Claim::Ambient, now, taken);
    crate::ambient::queue_laws::multiset_of_sum(taken, rest);
    crate::ambient::queue_laws::multiset_of_sum(rest, taken);
    assert(all.to_multiset() =~= items.to_multiset());
    all.to_multiset_ensures();
    items.to_multiset_ensures();
    assert(all.contains(all[i]));
    assert(items.to_multiset().count(all[i]) > 0);
}

/// Hands a cycle its work: the due items of the queue are claimed, and the
/// prompt lists them ahead of what is still to come. A claimed item leaves the
/// queue, so that no later cycle is told of it again.
pub fn build_cycle_context(
    state: &AmbientState,
    manager: &mut AmbientManager,
    graph_health: &MemoryGraphHealth,
    recent_sessions: &Vec<RecentSessionInfo>,
    feedback_memories: &Vec<String>,
    budget: &ResourceBudget,
    active_user_sessions: usize,
    settings: &PromptSettings,
) -> (r: CycleContext)
    requires
        prompt_in_range(*state, old(manager).queue@, *graph_health, *settings),
    ensures
        final(manager).state == old(manager).state,
        final(manager).queue@ == left(old(manager).queue@, Claim::Ambient, settings.now),
        in_delivery_order(
            claimed(old(manager).queue@, Claim::Ambient, settings.now),
            r.claimed@,
        ),
        r.initial_message@ == INITIAL_MESSAGE@,
        r.system_prompt@ == prompt_of(
            *state,
            r.claimed@ + final(manager).queue@,
            *graph_health,
            recent_sessions@,
            views(feedback_memories@),
            *budget,
            active_user_sessions as nat,
            *settings,
        ),
{
    let ghost items = manager.queue@;
    let mut all = manager.queue.take_ready_matching(Claim::Ambient, &settings.now);
    let ghost taken = all@;
    let ghost rest = manager.queue@;
    let n = all.len();
    all.append(&mut manager.queue.items);
    proof {
        assert(all@ == taken + rest);
        assert forall|i: int| 0 <= i < all@.len() implies (
        #[trigger] all@[i]).created_at.valid() by {
            claimed_then_left_are_queued(items, settings.now, taken, i);
            let k = items.index_of(all@[i]);
            assert(items[k].created_at.valid());
        }
    }
    let system_prompt = build_ambient_system_prompt(
        state,
        &all,
        graph_health,
        recent_sessions,
        feedback_memories,
        budget,
        active_user_sessions,
        settings,
    );
    manager.queue.items = all.split_off(n);
    assert(all@ =~= taken);
    assert(manager.queue@ =~= rest);
    CycleContext { system_prompt, initial_message: owned(INITIAL_MESSAGE), claimed: all }
}

// ---------------------------------------------------------------------------
// Turns
// ---------------------------------------------------------------------------

/// What follows a turn of the agent.
#[derive(Debug, Clone, PartialEq, Eq)]
pub enum TurnDecision {
    /// The agent ended its cycle, and the end is accepted.
    Finish,
    /// The agent ended its cycle, but a gate is not met: it is told so first.
    FollowUp { follow_up: AmbientGateFollowUp },
    /// The agent did not end its cycle; it is told to go on, once.
    Continue,
    /// It did not a second time. When neither turn got anywhere, the agent never
    /// acted on its claimed items, and they go back on the queue.
    ForceEnd { restore_claimed: bool },
}

/// How far a cycle has come.
#[derive(Debug, Clone, Copy, PartialEq, Eq, Structural)]
pub struct CycleProgress {
    /// Whether the turn failed that had to be continued; `None` while there was
    /// none.
    pub first_errored: Option<bool>,
    pub gates: GateProgress,
}

/// A cycle that starts.
pub open spec fn fresh_cycle() -> CycleProgress {
    CycleProgress { first_errored: None, gates: fresh_gates() }
}

impl CycleProgress {
    pub fn new() -> (r: CycleProgress)
        ensures
            r == fresh_cycle(),
    {
        CycleProgress { first_errored: None, gates: GateProgress::new() }
    }
}

/// What follows a turn. `ended` holds what the gates read, once the agent has
/// ended its cycle.
pub open spec fn turn_decision(
    progress: CycleProgress,
    errored: bool,
    ended: Option<GateFacts>,
) -> TurnDecision {
    match ended {
        Some(facts) => match due_follow_up(
            progress.gates,
            facts.todos@,
            facts.goals@,
            fresh_digest(progress.gates.state, facts.gate_digest),
            facts.messages,
        ) {
            Some(follow_up) => TurnDecision::FollowUp { follow_up },
            None => TurnDecision::Finish,
        },
        None => match progress.first_errored {
            None => TurnDecision::Continue,
            Some(first) => TurnDecision::ForceEnd { restore_claimed: first && errored },
        },
    }
}

/// How far a cycle has come after a turn.
pub open spec fn progress_after(
    progress: CycleProgress,
    errored: bool,
    decision: TurnDecision,
) -> CycleProgress {
    match decision {
        TurnDecision::Continue => CycleProgress { first_errored: Some(errored), ..progress },
        TurnDecision::FollowUp { follow_up } => CycleProgress {
            gates: gates_after(progress.gates, Some(follow_up)),
            ..progress
        },
        _ => progress,
    }
}

/// What follows a turn of the agent.
pub fn after_turn(progress: &mut CycleProgress, errored: bool, ended: Option<GateFacts>) -> (r:
    TurnDecision)
    ensures
        r == turn_decision(*old(progress), errored, ended),
        *final(progress) == progress_after(*old(progress), errored, r),
{
    match ended {
        Some(facts) => {
            let digest = undelivered_digest(progress.gates.state, facts.gate_digest);
            let due = after_end(
                &mut progress.gates,
                &facts.todos,
                &facts.goals,
                digest,
                facts.messages,
            );
            match due {
                Some(follow_up) => TurnDecision::FollowUp { follow_up },
                None => TurnDecision::Finish,
            }
        },
        None => match progress.first_errored {
            None => {
                progress.first_errored = Some(errored);
                TurnDecision::Continue
            },
            Some(first) => TurnDecision::ForceEnd { restore_claimed: first && errored },
        },
    }
}

/// The end that a cycle has reported. It stands through the follow-ups, until
/// the agent reports another.
pub fn standing_result(
    held: Option<AmbientCycleResult>,
    reported: Option<AmbientCycleResult>,
) -> (r: Option<AmbientCycleResult>)
    ensures
        r == (if reported is Some {
            reported
        } else {
            held
        }),
{
    match reported {
        Some(result) => Some(result),
        None => held,
    }
}

/// The end of a cycle is accepted exactly when it was reported and no gate is
/// due, or all follow-ups were spent. Claimed work goes back on the queue only
/// when the turn that was continued and the last one both failed.
pub proof fn an_end_is_accepted_past_the_gates(
    progress: CycleProgress,
    errored: bool,
    ended: Option<GateFacts>,
)
    ensures
        turn_decision(progress, errored, ended) is Finish <==> {
            &&& ended matches Some(facts)
            &&& progress.gates.attempts >= AMBIENT_GATE_MAX_ATTEMPTS || follow_up(
                facts.todos@,
                facts.goals@,
                fresh_digest(progress.gates.state, facts.gate_digest),
                progress.gates.state,
                facts.messages,
            ) is None
        },
        turn_decision(progress, errored, ended) matches TurnDecision::ForceEnd { restore_claimed }
            ==> ended is None && (restore_claimed <==> progress.first_errored == Some(true)
            && errored),
{
}

/// A turn of the agent: whether it failed, and what the gates read, once the
/// cycle was ended.
pub struct Turn {
    pub errored: bool,
    pub ended: Option<GateFacts>,
}

/// What follows each of the turns of a cycle, up to the one that is its last.
pub open spec fn decisions(progress: CycleProgress, turns: Seq<Turn>) -> Seq<TurnDecision>
    decreases turns.len(),
{
    if turns.len() == 0 {
        Seq::empty()
    } else {
        let d = turn_decision(progress, turns[0].errored, turns[0].ended);
        if d is Finish || d is ForceEnd {
            seq![d]
        } else {
            seq![d] + decisions(progress_after(progress, turns[0].errored, d), turns.drop_first())
        }
    }
}

/// How many of the decisions send a follow-up.
pub open spec fn follow_ups_sent(decisions: Seq<TurnDecision>) -> nat
    decreases decisions.len(),
{
    if decisions.len() == 0 {
        0
    } else {
        follow_ups_sent(decisions.drop_first()) + (if decisions[0] is FollowUp {
            1nat
        } else {
            0
        })
    }
}

/// How many of the decisions challenge a jump in confidence.
pub open spec fn jumps_challenged(decisions: Seq<TurnDecision>) -> nat
    decreases decisions.len(),
{
    if decisions.len() == 0 {
        0
    } else {
        jumps_challenged(decisions.drop_first()) + (if decisions[0] matches TurnDecision::FollowUp {
            follow_up,
        } && follow_up is ConfidenceSpike {
            1nat
        } else {
            0
        })
    }
}

/// How many of the decisions deliver a digest.
pub open spec fn digests_delivered(decisions: Seq<TurnDecision>) -> nat
    decreases decisions.len(),
{
    if decisions.len() == 0 {
        0
    } else {
        digests_delivered(decisions.drop_first()) + (if decisions[0] matches TurnDecision::FollowUp {
            follow_up,
        } && follow_up is GateDigest {
            1nat
        } else {
            0
        })
    }
}

proof fn turns_are_bounded(progress: CycleProgress, turns: Seq<Turn>)
    requires
        progress.gates.attempts <= AMBIENT_GATE_MAX_ATTEMPTS,
    ensures
        follow_ups_sent(decisions(progress, turns)) <= AMBIENT_GATE_MAX_ATTEMPTS
            - progress.gates.attempts,
        jumps_challenged(decisions(progress, turns)) <= (
        if progress.gates.state.confidence_spike_challenged {
            0nat
        } else {
            1
        }),
        digests_delivered(decisions(progress, turns)) <= (
        if progress.gates.state.gate_digest_delivered {
            0nat
        } else {
            1
        }),
        decisions(progress, turns).len() <= follow_ups_sent(decisions(progress, turns)) + (
        if progress.first_errored is None {
            2int
        } else {
            1
        }),
    decreases turns.len(),
{
    reveal_with_fuel(follow_ups_sent, 2);
    reveal_with_fuel(jumps_challenged, 2);
    reveal_with_fuel(digests_delivered, 2);
    let ds = decisions(progress, turns);
    if turns.len() > 0 {
        let d = turn_decision(progress, turns[0].errored, turns[0].ended);
        assert(ds[0] == d);
        if d is Finish || d is ForceEnd {
            assert(ds.drop_first() =~= Seq::<TurnDecision>::empty());
        } else {
            let next = progress_after(progress, turns[0].errored, d);
            turns_are_bounded(next, turns.drop_first());
            assert(ds.drop_first() =~= decisions(next, turns.drop_first()));
        }
    }
}

/// Every cycle ends. It is sent at most [`AMBIENT_GATE_MAX_ATTEMPTS`] follow-ups,
/// is challenged about a jump in confidence at most once, is handed a digest at
/// most once, and takes at most two turns more than it is sent follow-ups.
pub proof fn cycles_end(turns: Seq<Turn>)
    ensures
        follow_ups_sent(decisions(fresh_cycle(), turns)) <= AMBIENT_GATE_MAX_ATTEMPTS,
        jumps_challenged(decisions(fresh_cycle(), turns)) <= 1,
        digests_delivered(decisions(fresh_cycle(), turns)) <= 1,
        decisions(fresh_cycle(), turns).len() <= follow_ups_sent(decisions(fresh_cycle(), turns))
            + 2,
{
    turns_are_bounded(fresh_cycle(), turns);
}

/// The result of a cycle that ended itself, timed by the runner and with the
/// conversation it had.
pub fn finished_result(
    result: AmbientCycleResult,
    started_at: Timestamp,
    ended_at: Timestamp,
    conversation: String,
) -> (r: AmbientCycleResult)
    ensures
        r == (AmbientCycleResult {
            started_at,
            ended_at,
            conversation: Some(conversation),
            ..result
        }),
{
    AmbientCycleResult { started_at, ended_at, conversation: Some(conversation), ..result }
}

/// A cycle that did not end itself: nothing is claimed of it, and it counts as
/// incomplete.
pub open spec fn incomplete(
    r: AmbientCycleResult,
    summary: Seq<char>,
    started_at: Timestamp,
    ended_at: Timestamp,
    conversation: Option<String>,
) -> bool {
    &&& r.summary@ == summary
    &&& r.memories_modified == 0 && r.compactions == 0
    &&& r.proactive_work is None && r.significance is None && r.next_schedule is None
    &&& r.started_at == started_at && r.ended_at == ended_at
    &&& r.status == CycleStatus::Incomplete
    &&& r.agent_session_id is None
    &&& r.conversation == conversation
}

fn incomplete_result(
    summary: &str,
    started_at: Timestamp,
    ended_at: Timestamp,
    conversation: Option<String>,
) -> (r: AmbientCycleResult)
    ensures
        incomplete(r, summary@, started_at, ended_at, conversation),
{
    AmbientCycleResult {
        summary: owned(summary),
        memories_modified: 0,
        compactions: 0,
        proactive_work: None,
        significance: None,
        next_schedule: None,
        started_at,
        ended_at,
        status: CycleStatus::Incomplete,
        agent_session_id: None,
        conversation,
    }
}

/// The result of a cycle that was ended by force.
pub fn forced_result(started_at: Timestamp, ended_at: Timestamp, conversation: String) -> (r:
    AmbientCycleResult)
    ensures
        incomplete(r, FORCED_SUMMARY@, started_at, ended_at, Some(conversation)),
{
    incomplete_result(FORCED_SUMMARY, started_at, ended_at, Some(conversation))
}

/// The result of a cycle shown in a terminal: the one it left behind, timed by
/// the runner, or that of a window that was closed.
pub fn visible_result(
    left_behind: Option<AmbientCycleResult>,
    started_at: Timestamp,
    ended_at: Timestamp,
) -> (r: AmbientCycleResult)
    ensures
        match left_behind {
            Some(result) => r == (AmbientCycleResult { started_at, ended_at, ..result }),
            None => incomplete(r, CLOSED_SUMMARY@, started_at, ended_at, None),
        },
{
    match left_behind {
        Some(result) => AmbientCycleResult { started_at, ended_at, ..result },
        None => incomplete_result(CLOSED_SUMMARY, started_at, ended_at, None),
    }
}

// ---------------------------------------------------------------------------
// What is made of the result
// ---------------------------------------------------------------------------

/// The transcript of a cycle.
#[derive(Debug)]
pub struct AmbientTranscript {
    pub session_id: String,
    pub started_at: Timestamp,
    pub ended_at: Option<Timestamp>,
    pub status: CycleStatus,
    pub provider: String,
    pub model: String,
    pub pending_permissions: usize,
    pub summary: Option<String>,
    pub compactions: u32,
    pub memories_modified: u32,
    pub conversation: Option<String>,
}

/// `t` is the transcript of a cycle with the given result, as of `now`.
pub open spec fn transcribes(
    t: AmbientTranscript,
    result: AmbientCycleResult,
    provider: Seq<char>,
    model: Seq<char>,
    pending_permissions: usize,
    now: Timestamp,
) -> bool {
    &&& t.session_id@ == "ambient_"@ + utc_stamp_of(now)
    &&& t.started_at == result.started_at
    &&& t.ended_at == Some(result.ended_at)
    &&& t.status == result.status
    &&& t.provider@ == provider
    &&& t.model@ == model
    &&& t.pending_permissions == pending_permissions
    &&& t.summary == Some(result.summary)
    &&& t.compactions == result.compactions
    &&& t.memories_modified == result.memories_modified
    &&& t.conversation == result.conversation
}

/// The transcript of a cycle, as of `now`.
pub fn transcript_of(
    result: &AmbientCycleResult,
    provider: &str,
    model: &str,
    pending_permissions: usize,
    now: &Timestamp,
) -> (r: AmbientTranscript)
    requires
        now.valid(),
    ensures
        transcribes(r, *result, provider@, model@, pending_permissions, *now),
{
    let mut session_id = owned("ambient_");
    let stamp = utc_stamp(now);
    session_id.append(stamp.as_str());
    AmbientTranscript {
        session_id,
        started_at: result.started_at,
        ended_at: Some(result.ended_at),
        status: result.status,
        provider: owned(provider),
        model: owned(model),
        pending_permissions,
        summary: Some(result.summary.clone()),
        compactions: result.compactions,
        memories_modified: result.memories_modified,
        conversation: opt_clone(&result.conversation),
    }
}

/// What a cycle's own claim about its significance says.
pub open spec fn claimed_significance(claim: Option<String>) -> CycleSignificance {
    match claim {
        None => CycleSignificance::Unspecified,
        Some(s) => word_claims(lowercased(trimmed(s@))),
    }
}

/// The facts of a cycle that a notification is decided by.
pub open spec fn outcome_of(result: AmbientCycleResult, pending_permissions: usize) -> CycleOutcome {
    CycleOutcome {
        significance: claimed_significance(result.significance),
        pending_permissions,
        did_proactive_work: result.proactive_work matches Some(w) && trimmed(w@).len() > 0,
        failed: !(result.status is Complete),
    }
}

/// The facts of a cycle that a notification is decided by.
pub fn cycle_outcome(result: &AmbientCycleResult, pending_permissions: usize) -> (r: CycleOutcome)
    ensures
        r == outcome_of(*result, pending_permissions),
{
    let claim: Option<&str> = match &result.significance {
        Some(s) => Some(s.as_str()),
        None => None,
    };
    CycleOutcome {
        significance: CycleSignificance::parse(claim),
        pending_permissions,
        did_proactive_work: match &result.proactive_work {
            Some(w) => trim(w.as_str()).unicode_len() > 0,
            None => false,
        },
        failed: match result.status {
            CycleStatus::Complete => false,
            CycleStatus::Interrupted | CycleStatus::Incomplete => true,
        },
    }
}

/// What is called of a cycle that sends no notification.
pub open spec fn silence_label(significance: CycleSignificance) -> Seq<char> {
    match significance {
        CycleSignificance::Routine => "routine"@,
        CycleSignificance::Notable => "notable"@,
        CycleSignificance::Unspecified => "unspecified-significance"@,
    }
}

/// The line that says which kind of cycle sends no notification; `None` when it
/// sends one.
pub fn silence_line(result: &AmbientCycleResult, pending_permissions: usize) -> (r: Option<
    String,
>)
    ensures
        match r {
            None => must_notify(outcome_of(*result, pending_permissions)) || outcome_of(
                *result,
                pending_permissions,
            ).significance is Notable,
            Some(line) => {
                &&& !must_notify(outcome_of(*result, pending_permissions))
                &&& !(outcome_of(*result, pending_permissions).significance is Notable)
                &&& line@ == "Ambient runner: "@ + silence_label(
                    claimed_significance(result.significance),
                ) + " cycle, no notification sent"@
            },
        },
{
    let outcome = cycle_outcome(result, pending_permissions);
    if should_notify(&outcome) {
        return None;
    }
    let mut line = owned("Ambient runner: ");
    line.append(
        match outcome.significance {
            CycleSignificance::Routine => "routine",
            CycleSignificance::Notable => "notable",
            CycleSignificance::Unspecified => "unspecified-significance",
        },
    );
    line.append(" cycle, no notification sent");
    Some(line)
}

/// A cycle that had to be ended always notifies.
pub proof fn forced_cycles_notify(
    r: AmbientCycleResult,
    summary: Seq<char>,
    started_at: Timestamp,
    ended_at: Timestamp,
    conversation: Option<String>,
    pending_permissions: usize,
)
    requires
        incomplete(r, summary, started_at, ended_at, conversation),
    ensures
        must_notify(outcome_of(r, pending_permissions)),
{
}

/// What a notification is decided by comes from the result: a cycle that did not
/// end complete has failed, and one that says it worked on its own has, unless
/// what it says is blank.
pub proof fn outcomes_are_read_off_results(result: AmbientCycleResult, pending: usize)
    ensures
        ({
            let o = outcome_of(result, pending);
            &&& o.pending_permissions == pending
            &&& o.failed <==> result.status is Interrupted || result.status is Incomplete
            &&& o.did_proactive_work <==> result.proactive_work is Some && trimmed(
                result.proactive_work->0@,
            ).len() > 0
            &&& must_notify(o) <==> pending > 0 || o.failed || o.did_proactive_work
        }),
{
}

/// A turn that does not end the cycle is followed by one more, and that one by the
/// end of the cycle. What the cycle had claimed is given back only when both turns
/// failed.
pub proof fn a_silent_cycle_gets_one_more_turn(
    progress: CycleProgress,
    first_errored: bool,
    errored: bool,
)
    requires
        progress.first_errored is None,
    ensures
        turn_decision(progress, first_errored, None) is Continue,
        ({
            let next = progress_after(progress, first_errored, TurnDecision::Continue);
            &&& next.gates == progress.gates
            &&& turn_decision(next, errored, None) == (TurnDecision::ForceEnd {
                restore_claimed: first_errored && errored,
            })
        }),
{
}

/// A follow-up counts against the gates and nothing else; a decision that ends the
/// cycle changes nothing.
pub proof fn only_follow_ups_count(
    progress: CycleProgress,
    errored: bool,
    sent: AmbientGateFollowUp,
    restore_claimed: bool,
)
    requires
        progress.gates.attempts < 5,
    ensures
        progress_after(progress, errored, TurnDecision::Finish) == progress,
        progress_after(progress, errored, TurnDecision::ForceEnd { restore_claimed }) == progress,
        progress_after(progress, errored, TurnDecision::FollowUp { follow_up: sent }).first_errored
            == progress.first_errored,
        progress_after(progress, errored, TurnDecision::FollowUp { follow_up: sent }).gates.attempts
            == progress.gates.attempts + 1,
{
}

/// A cycle that was cut off is told as incomplete, with what it said and when it
/// ran, and asks for nothing.
pub proof fn cut_off_cycles_ask_for_nothing(
    r: AmbientCycleResult,
    summary: Seq<char>,
    started_at: Timestamp,
    ended_at: Timestamp,
    conversation: Option<String>,
    pending: usize,
)
    requires
        incomplete(r, summary, started_at, ended_at, conversation),
    ensures
        outcome_of(r, pending).failed,
        !outcome_of(r, pending).did_proactive_work,
        r.next_schedule is None,
        r.summary@ == summary,
        r.started_at == started_at,
        r.ended_at == ended_at,
{
}

/// A transcript tells of the cycle itself: when it ran, how it ended, what it said
/// and did, and on what.
pub proof fn transcripts_tell_of_the_cycle(
    t: AmbientTranscript,
    result: AmbientCycleResult,
    provider: Seq<char>,
    model: Seq<char>,
    pending_permissions: usize,
    now: Timestamp,
)
    requires
        transcribes(t, result, provider, model, pending_permissions, now),
    ensures
        t.started_at == result.started_at,
        t.ended_at == Some(result.ended_at),
        t.status == result.status,
        t.summary matches Some(s) && s@ == result.summary@,
        t.memories_modified == result.memories_modified,
        t.compactions == result.compactions,
        t.pending_permissions == pending_permissions,
        t.provider@ == provider,
        t.model@ == model,
        t.conversation == result.conversation,
{
}

} // verus!
