//! The recorded state: that of the daemon as a whole, and that of each project.

use crate::ambient::manager::{answers, item_id, AmbientManager};
use crate::ambient::persistence::{record_in_range, result_in_range, state_after};
use crate::ambient::types::{untouched_state, AmbientCycleResult, AmbientState};
use crate::text::{opt_str_view, str_eq, views};
use crate::text_map::TextMap;
use crate::time::Timestamp;
use vstd::prelude::*;

verus! {

/// Global state plus a per-project map.
#[derive(Debug)]
pub struct AmbientStateFile {
    /// State for cycles belonging to no single project, and the daemon's own
    /// scheduling status.
    pub global: AmbientState,
    /// State keyed by canonical project path.
    pub projects: TextMap<AmbientState>,
}

/// How recorded state is laid out.
#[derive(Debug, Clone, Copy, PartialEq, Eq, Structural)]
pub enum StateLayout {
    /// The text is not JSON.
    Unreadable,
    /// Global state and per-project state, side by side.
    Envelope,
    /// Global state alone, as recorded before there was per-project state.
    Flat,
}

/// The keys of the JSON object that a text spells: `None` when the text is not
/// JSON, `Some(None)` when it spells something else than an object.
pub uninterp spec fn json_keys(text: Seq<char>) -> Option<Option<Seq<Seq<char>>>>;

pub open spec fn keys_view(k: Option<Option<Vec<String>>>) -> Option<Option<Seq<Seq<char>>>> {
    match k {
        None => None,
        Some(None) => Some(None),
        Some(Some(v)) => Some(Some(views(v@))),
    }
}

/// `serde_json::from_str` into a `serde_json::Value`, and the keys of that value
/// when it is an object. The result is a function of the text alone.
#[verifier::external_body]
fn top_level_keys(text: &str) -> (r: Option<Option<Vec<String>>>)
    ensures
        keys_view(r) == json_keys(text@),
{
    let value: serde_json::Value = serde_json::from_str(text).ok()?;
    Some(value.as_object().map(|m| m.keys().cloned().collect()))
}

/// The layout of recorded state with the given top-level keys.
pub open spec fn layout_of(keys: Option<Option<Seq<Seq<char>>>>) -> StateLayout {
    match keys {
        None => StateLayout::Unreadable,
        Some(None) => StateLayout::Flat,
        Some(Some(ks)) => if ks.contains("global"@) || ks.contains("projects"@) {
            StateLayout::Envelope
        } else {
            StateLayout::Flat
        },
    }
}

/// The layout of recorded state with the given top-level keys.
pub fn layout_with_keys(keys: &Option<Option<Vec<String>>>) -> (r: StateLayout)
    ensures
        r == layout_of(keys_view(*keys)),
{
    match keys {
        None => StateLayout::Unreadable,
        Some(None) => StateLayout::Flat,
        Some(Some(ks)) => {
            let ghost vs = views(ks@);
            let mut i: usize = 0;
            while i < ks.len()
                invariant
                    i <= ks@.len(),
                    vs == views(ks@),
                    keys_view(*keys) == Some(Some(vs)),
                    forall|j: int| 0 <= j < i ==> #[trigger] vs[j] != "global"@ && vs[j] != "projects"@,
                decreases ks@.len() - i,
            {
                assert(vs[i as int] == ks@[i as int]@);
                if str_eq(ks[i].as_str(), "global") || str_eq(ks[i].as_str(), "projects") {
                    assert(vs.contains(vs[i as int]));
                    return StateLayout::Envelope;
                }
                i = i + 1;
            }
            proof {
                if vs.contains("global"@) {
                    let k = vs.index_of("global"@);
                    assert(vs[k] == "global"@);
                }
                if vs.contains("projects"@) {
                    let k = vs.index_of("projects"@);
                    assert(vs[k] == "projects"@);
                }
            }
            StateLayout::Flat
        },
    }
}

/// How the recorded state in `text` is laid out.
pub fn state_layout(text: &str) -> (r: StateLayout)
    ensures
        r == layout_of(json_keys(text@)),
{
    let keys = top_level_keys(text);
    layout_with_keys(&keys)
}

/// The recorded state of a project, or that of one without history.
pub open spec fn project_state(m: Map<Seq<char>, AmbientState>, project: Seq<char>) -> AmbientState {
    if m.dom().contains(project) {
        m[project]
    } else {
        untouched_state()
    }
}

/// The per-project states after a cycle of `project`, if it has one.
pub open spec fn projects_after(
    m: Map<Seq<char>, AmbientState>,
    project: Option<Seq<char>>,
    result: AmbientCycleResult,
    now: Timestamp,
) -> Map<Seq<char>, AmbientState> {
    match project {
        Some(p) => m.insert(p, state_after(project_state(m, p), result, now)),
        None => m,
    }
}

impl AmbientStateFile {
    pub open spec fn well_formed(&self) -> bool {
        self.projects.well_formed()
    }

    /// State before the first cycle.
    pub fn new() -> (r: AmbientStateFile)
        ensures
            r.well_formed(),
            r.global == untouched_state(),
            r.projects@ == Map::<Seq<char>, AmbientState>::empty(),
    {
        AmbientStateFile { global: AmbientState::default(), projects: TextMap::new() }
    }

    /// State recorded before there was per-project state: it is the global
    /// state, and no project has history.
    pub fn adopting_legacy_flat_state(state: AmbientState) -> (r: AmbientStateFile)
        ensures
            r.well_formed(),
            r.global == state,
            r.projects@ == Map::<Seq<char>, AmbientState>::empty(),
    {
        AmbientStateFile { global: state, projects: TextMap::new() }
    }

    /// Replaces the global state, leaving per-project state intact.
    pub fn set_global(&mut self, state: &AmbientState)
        ensures
            final(self).global == *state,
            final(self).projects == old(self).projects,
    {
        self.global = state.copied();
    }

    /// State recorded for `project`, or that of one without history.
    pub fn project(&self, project: &str) -> (r: AmbientState)
        requires
            self.well_formed(),
        ensures
            r == project_state(self.projects@, project@),
    {
        match self.projects.get(project) {
            Some(s) => s.copied(),
            None => AmbientState::default(),
        }
    }

    /// The state of `project`, to be changed in place; it is there from the first
    /// use on.
    pub fn project_mut(&mut self, project: &str) -> (r: &mut AmbientState)
        requires
            old(self).well_formed(),
        ensures
            *r == project_state(old(self).projects@, project@),
            final(self).well_formed(),
            final(self).global == old(self).global,
            final(self).projects@ == old(self).projects@.insert(project@, *final(r)),
    {
        self.projects.slot(project, AmbientState::default())
    }

    /// Records a finished cycle against its project, if any, and always against
    /// the global state.
    pub fn record_cycle(
        &mut self,
        project: Option<&str>,
        result: &AmbientCycleResult,
        now: &Timestamp,
    )
        requires
            old(self).well_formed(),
            old(self).global.total_cycles < u64::MAX,
            project matches Some(p) ==> project_state(old(self).projects@, p@).total_cycles
                < u64::MAX,
            record_in_range(*result, *now),
        ensures
            final(self).well_formed(),
            final(self).global == state_after(old(self).global, *result, *now),
            final(self).projects@ == projects_after(
                old(self).projects@,
                opt_str_view(project),
                *result,
                *now,
            ),
    {
        if let Some(p) = project {
            self.project_mut(p).record_cycle_at(result, now);
        }
        self.global.record_cycle_at(result, now);
    }
}

impl AmbientManager {
    /// Records the result of a cycle of `project`, if it has one, as of `now`,
    /// in the file and here, and queues the wake it asks for. Returns the id of
    /// the queued item, if any.
    pub fn record_cycle_result_for(
        &mut self,
        file: &mut AmbientStateFile,
        project: Option<&str>,
        result: AmbientCycleResult,
        bits: u32,
        now: &Timestamp,
        paths: &Vec<String>,
    ) -> (id: Option<String>)
        requires
            old(file).well_formed(),
            old(file).global.total_cycles < u64::MAX,
            project matches Some(p) ==> project_state(old(file).projects@, p@).total_cycles
                < u64::MAX,
            result_in_range(result, *now),
        ensures
            final(file).well_formed(),
            final(file).global == state_after(old(file).global, result, *now),
            final(file).projects@ == projects_after(
                old(file).projects@,
                opt_str_view(project),
                result,
                *now,
            ),
            final(self).state == final(file).global,
            match result.next_schedule {
                Some(request) => {
                    &&& id matches Some(i) && i@ == item_id(bits)
                    &&& final(self).queue@.len() == old(self).queue@.len() + 1
                    &&& final(self).queue@.drop_last() == old(self).queue@
                    &&& answers(final(self).queue@.last(), request, bits, *now, views(paths@))
                },
                None => id is None && final(self).queue@ == old(self).queue@,
            },
    {
        file.record_cycle(project, &result, now);
        self.state = file.global.copied();
        match result.next_schedule {
            Some(request) => Some(self.schedule_at(request, bits, now, paths)),
            None => None,
        }
    }
}

/// A cycle moves the history of its own project and the daemon's total, and no
/// other project's; a cycle of no project moves the total alone.
pub proof fn history_is_attributed(
    m: Map<Seq<char>, AmbientState>,
    project: Option<Seq<char>>,
    result: AmbientCycleResult,
    now: Timestamp,
    other: Seq<char>,
)
    ensures
        project != Some(other) ==> project_state(projects_after(m, project, result, now), other)
            == project_state(m, other),
        project == Some(other) ==> project_state(projects_after(m, project, result, now), other)
            == state_after(project_state(m, other), result, now),
        project is None ==> projects_after(m, project, result, now) == m,
{
}

/// The totals count cycles: every recorded cycle adds one.
pub proof fn totals_count_cycles(before: AmbientState, result: AmbientCycleResult, now: Timestamp)
    requires
        before.total_cycles < u64::MAX,
    ensures
        state_after(before, result, now).total_cycles == before.total_cycles + 1,
        state_after(before, result, now).last_summary == Some(result.summary),
{
}

/// A state file holds projects of its own exactly when one of its keys, at whatever
/// place, says so; every other file that can be read is a single state.
pub proof fn layouts_are_told_by_their_keys(keys: Seq<Seq<char>>)
    ensures
        layout_of(Some(Some(keys))) is Envelope <==> exists|k: int|
            0 <= k < keys.len() && (#[trigger] keys[k] == "global"@ || keys[k] == "projects"@),
        layout_of(Some(Some(keys))) is Envelope || layout_of(Some(Some(keys))) is Flat,
        layout_of(Some(None)) is Flat,
        layout_of(None) is Unreadable,
{
    if keys.contains("global"@) {
        assert(keys[keys.index_of("global"@)] == "global"@);
    }
    if keys.contains("projects"@) {
        assert(keys[keys.index_of("projects"@)] == "projects"@);
    }
}

} // verus!
