//! What a cycle is told of the world around it: memory graphs, past cycles and
//! recent sessions, from the plain facts of each.

use crate::ambient::activity::RecentSessionInfo;
use crate::ambient::phrases::{format_duration_rough, rough};
use crate::ambient::projects::{final_segment, last_segment};
use crate::ambient::prompt::{MemoryGraphHealth, ProjectGraphHealth};
use crate::ambient::types::CycleStatus;
use crate::numerals::{dec, push_dec};
use crate::ordering::{first_of, ranked, sort_by_rank, top_by_rank, Ranked};
use crate::text::{
    chars_of, has_suffix, opt_clone, opt_view, owned, slice_chars, str_eq, str_lt, text_lt,
    text_lt_total, text_lt_transitive, trim_end_char, trim_end_char_is_prefix, trim_end_matches,
    views,
};
use crate::time::{secs_between, truncated, Timestamp, NANOS_PER_SEC};
use vstd::prelude::*;

verus! {

// ---------------------------------------------------------------------------
// Files
// ---------------------------------------------------------------------------

/// A file name, newest first: names embed a timestamp.
#[derive(Debug, Clone)]
pub struct StampedName {
    pub name: String,
}

impl Ranked for StampedName {
    open spec fn ranks_before(self, other: StampedName) -> bool {
        text_lt(other.name@, self.name@)
    }

    fn comes_before(&self, other: &StampedName) -> (r: bool) {
        str_lt(other.name.as_str(), self.name.as_str())
    }

    proof fn rank_is_strict(a: StampedName, b: StampedName, c: StampedName) {
        text_order(a.name@, b.name@, c.name@);
        text_order(c.name@, b.name@, a.name@);
    }
}

proof fn text_order(a: Seq<char>, b: Seq<char>, c: Seq<char>)
    ensures
        !text_lt(a, a),
        text_lt(a, b) ==> !text_lt(b, a),
        text_lt(a, b) && text_lt(b, c) ==> text_lt(a, c),
        !text_lt(a, b) && !text_lt(b, c) ==> !text_lt(a, c),
{
    text_lt_total(a, a);
    text_lt_total(a, b);
    text_lt_total(b, c);
    text_lt_total(a, c);
    if text_lt(a, b) && text_lt(b, a) {
        text_lt_transitive(a, b, a);
    }
    if text_lt(a, b) && text_lt(b, c) {
        text_lt_transitive(a, b, c);
    }
    if text_lt(a, c) && !text_lt(a, b) && !text_lt(b, c) {
        if text_lt(b, a) && text_lt(c, b) {
            text_lt_transitive(c, b, a);
            text_lt_transitive(a, c, a);
        }
    }
}

/// Past cycles that a cycle is told of.
pub const FEEDBACK_TRANSCRIPTS: usize = 5;

/// Past cycles that the log shows.
pub const LOGGED_TRANSCRIPTS: usize = 20;

/// The newest transcripts, by name.
pub fn newest_transcripts(names: Vec<StampedName>, limit: usize) -> (r: Vec<StampedName>)
    ensures
        r@ == first_of(ranked(names@), limit as nat),
{
    top_by_rank(names, limit)
}

/// A session file, newest first.
#[derive(Debug, Clone)]
pub struct SessionFile {
    pub name: String,
    /// When it was last written; `None` when that cannot be read.
    pub modified: Option<Timestamp>,
}

/// When a file counts as last written. One that cannot be read counts as
/// ancient.
pub open spec fn counted_as(modified: Option<Timestamp>) -> int {
    match modified {
        Some(t) => t.nanos as int,
        None => 0,
    }
}

impl SessionFile {
    fn counted_nanos(&self) -> (r: i128)
        ensures
            r == counted_as(self.modified),
    {
        match self.modified {
            Some(t) => t.nanos,
            None => 0,
        }
    }
}

impl Ranked for SessionFile {
    open spec fn ranks_before(self, other: SessionFile) -> bool {
        counted_as(self.modified) > counted_as(other.modified)
    }

    fn comes_before(&self, other: &SessionFile) -> (r: bool) {
        self.counted_nanos() > other.counted_nanos()
    }

    proof fn rank_is_strict(a: SessionFile, b: SessionFile, c: SessionFile) {
    }
}

/// The name is that of a JSON file: it has a stem and the extension.
pub open spec fn is_json_name(name: Seq<char>) -> bool {
    name.len() > 5 && has_suffix(name, ".json"@)
}

/// The stem of a JSON file's name, or `None` for another file.
pub fn json_stem(name: &str) -> (r: Option<String>)
    ensures
        match r {
            Some(stem) => is_json_name(name@) && stem@ == name@.take(name@.len() - 5),
            None => !is_json_name(name@),
        },
{
    proof {
        reveal_strlit(".json");
    }
    let v = chars_of(name);
    let n: usize = v.len();
    if n <= 5 {
        return None;
    }
    let tail = slice_chars(v.as_slice(), n - 5, n);
    assert(tail@ =~= name@.skip(name@.len() - 5));
    if !str_eq(tail.as_str(), ".json") {
        return None;
    }
    let stem = slice_chars(v.as_slice(), 0, n - 5);
    assert(stem@ =~= name@.take(name@.len() - 5));
    Some(stem)
}

/// How many session files are looked through to name a project graph.
pub const PROJECT_NAME_SESSION_SCAN_LIMIT: usize = 2000;

/// Recent sessions that a cycle is told of.
pub const RECENT_SESSION_LIMIT: usize = 20;

/// Sessions loaded to find the recent ones among them.
pub const RECENT_SESSION_LOAD_BUDGET: usize = 80;

/// The session files to look through, newest first. With a cutoff, files that
/// were last written before it are left out; one whose time cannot be read
/// stays in, since it may be recent.
pub open spec fn session_candidates(
    files: Seq<SessionFile>,
    cutoff: Option<Timestamp>,
    limit: nat,
) -> Seq<SessionFile> {
    first_of(ranked(files.filter(is_candidate(cutoff))), limit)
}

pub open spec fn is_candidate(cutoff: Option<Timestamp>) -> spec_fn(SessionFile) -> bool {
    |f: SessionFile|
        is_json_name(f.name@) && match (cutoff, f.modified) {
            (Some(c), Some(m)) => m.nanos >= c.nanos,
            _ => true,
        }
}

/// The session files to look through, newest first.
pub fn newest_sessions(files: Vec<SessionFile>, cutoff: Option<Timestamp>, limit: usize) -> (r: Vec<
    SessionFile,
>)
    ensures
        r@ == session_candidates(files@, cutoff, limit as nat),
{
    let ghost all = files@;
    let ghost f = is_candidate(cutoff);
    let mut kept: Vec<SessionFile> = Vec::new();
    proof {
        reveal(Seq::filter);
        assert(all.take(0) =~= Seq::<SessionFile>::empty());
    }
    for file in it: files
        invariant
            it.seq() == all,
            f == is_candidate(cutoff),
            kept@ == all.take(it.index() as int).filter(f),
    {
        proof {
            reveal(Seq::filter);
            let n = it.index() as int;
            assert(all.take(n + 1).drop_last() =~= all.take(n));
            assert(all.take(n + 1).last() == file);
        }
        let recent = match (cutoff, file.modified) {
            (Some(c), Some(m)) => m.nanos >= c.nanos,
            _ => true,
        };
        if recent && json_stem(file.name.as_str()).is_some() {
            kept.push(file);
        }
    }
    assert(all.take(all.len() as int) =~= all);
    top_by_rank(kept, limit)
}

// ---------------------------------------------------------------------------
// Memory graphs
// ---------------------------------------------------------------------------

/// What matters of one memory.
#[derive(Debug)]
pub struct MemoryFacts {
    pub id: String,
    pub content: String,
    pub tags: Vec<String>,
    pub active: bool,
    /// Its effective confidence has all but decayed.
    pub low_confidence: bool,
    pub has_embedding: bool,
}

/// What matters of one memory graph.
#[derive(Debug)]
pub struct GraphFacts {
    pub memories: Vec<MemoryFacts>,
    /// For each edge, whether it marks a contradiction. A contradiction has two.
    pub contradicts: Vec<bool>,
    pub last_cluster_update: Option<Timestamp>,
}

/// How many memories pass a test.
pub open spec fn count_where(ms: Seq<MemoryFacts>, f: spec_fn(MemoryFacts) -> bool) -> nat
    decreases ms.len(),
{
    if ms.len() == 0 {
        0
    } else {
        count_where(ms.drop_last(), f) + (if f(ms.last()) {
            1nat
        } else {
            0
        })
    }
}

pub open spec fn is_active() -> spec_fn(MemoryFacts) -> bool {
    |m: MemoryFacts| m.active
}

pub open spec fn is_doubtful() -> spec_fn(MemoryFacts) -> bool {
    |m: MemoryFacts| m.active && m.low_confidence
}

pub open spec fn is_unembedded() -> spec_fn(MemoryFacts) -> bool {
    |m: MemoryFacts| m.active && !m.has_embedding
}

/// How many edges mark a contradiction.
pub open spec fn count_true(s: Seq<bool>) -> nat
    decreases s.len(),
{
    if s.len() == 0 {
        0
    } else {
        count_true(s.drop_last()) + (if s.last() {
            1nat
        } else {
            0
        })
    }
}

/// The counts of a memory graph.
#[derive(Debug, Clone, Copy, PartialEq, Eq, Structural)]
pub struct GraphCounts {
    pub total: usize,
    pub active: usize,
    pub low_confidence: usize,
    pub missing_embeddings: usize,
}

/// `c` counts the memories `ms`.
pub open spec fn counts(ms: Seq<MemoryFacts>, c: GraphCounts) -> bool {
    &&& c.total == ms.len()
    &&& c.active == count_where(ms, is_active())
    &&& c.low_confidence == count_where(ms, is_doubtful())
    &&& c.missing_embeddings == count_where(ms, is_unembedded())
    &&& c.active <= c.total
    &&& c.low_confidence <= c.active
    &&& c.missing_embeddings <= c.active
}

fn count_memories(ms: &Vec<MemoryFacts>) -> (r: GraphCounts)
    ensures
        counts(ms@, r),
{
    let mut active: usize = 0;
    let mut low_confidence: usize = 0;
    let mut missing_embeddings: usize = 0;
    let mut i: usize = 0;
    assert(ms@.take(0) =~= Seq::<MemoryFacts>::empty());
    while i < ms.len()
        invariant
            i <= ms@.len(),
            active == count_where(ms@.take(i as int), is_active()),
            low_confidence == count_where(ms@.take(i as int), is_doubtful()),
            missing_embeddings == count_where(ms@.take(i as int), is_unembedded()),
            active <= i,
            low_confidence <= active,
            missing_embeddings <= active,
        decreases ms@.len() - i,
    {
        assert(ms@.take(i + 1).drop_last() =~= ms@.take(i as int));
        assert(ms@.take(i + 1).last() == ms@[i as int]);
        if ms[i].active {
            active = active + 1;
            if ms[i].low_confidence {
                low_confidence = low_confidence + 1;
            }
            if !ms[i].has_embedding {
                missing_embeddings = missing_embeddings + 1;
            }
        }
        i = i + 1;
    }
    assert(ms@.take(ms@.len() as int) =~= ms@);
    GraphCounts { total: ms.len(), active, low_confidence, missing_embeddings }
}

fn count_contradictions(edges: &Vec<bool>) -> (r: usize)
    ensures
        r == count_true(edges@),
        r <= edges@.len(),
{
    let mut n: usize = 0;
    let mut i: usize = 0;
    assert(edges@.take(0) =~= Seq::<bool>::empty());
    while i < edges.len()
        invariant
            i <= edges@.len(),
            n == count_true(edges@.take(i as int)),
            n <= i,
        decreases edges@.len() - i,
    {
        assert(edges@.take(i + 1).drop_last() =~= edges@.take(i as int));
        if edges[i] {
            n = n + 1;
        }
        i = i + 1;
    }
    assert(edges@.take(edges@.len() as int) =~= edges@);
    n
}

/// The name of a project graph's file is its id; the registry of projects is
/// not a graph.
pub fn graph_id_of(file_name: &str) -> (r: Option<String>)
    ensures
        match r {
            Some(id) => is_json_name(file_name@) && id@ == file_name@.take(file_name@.len() - 5)
                && id@ != "index"@,
            None => !is_json_name(file_name@) || file_name@.take(file_name@.len() - 5) == "index"@,
        },
{
    match json_stem(file_name) {
        Some(stem) => if str_eq(stem.as_str(), "index") {
            None
        } else {
            Some(stem)
        },
        None => None,
    }
}

/// The file name of a path: its last component, `None` when there is none or it
/// leads up. Slashes at the end do not count, nor do components `.`.
pub open spec fn file_name_of(path: Seq<char>) -> Option<Seq<char>>
    decreases path.len(),
{
    let t = trim_end_char(path, '/');
    let name = last_segment(t);
    if name.len() == 0 || name == seq!['.', '.'] {
        None
    } else if name == seq!['.'] && 0 < t.len() <= path.len() {
        file_name_of(t.drop_last())
    } else {
        Some(name)
    }
}

/// Where the extension of a file name starts: at its last dot, unless that is at
/// its start or missing.
pub open spec fn stem_len(name: Seq<char>, n: nat) -> nat
    decreases n,
{
    if n <= 1 {
        name.len()
    } else if name[n - 1] == '.' {
        (n - 1) as nat
    } else {
        stem_len(name, (n - 1) as nat)
    }
}

/// The id of the graph that a path leads to: its file name without the
/// extension.
pub open spec fn stem_of_path(path: Seq<char>) -> Option<Seq<char>> {
    match file_name_of(path) {
        Some(name) => Some(name.take(stem_len(name, name.len()) as int)),
        None => None,
    }
}

fn file_name(path: &str) -> (r: Option<String>)
    ensures
        opt_view(r) == file_name_of(path@),
    decreases path@.len(),
{
    let t = trim_end_matches(path, '/');
    let name = final_segment(t);
    let v = chars_of(name.as_str());
    if v.len() == 0 || (v.len() == 2 && v[0] == '.' && v[1] == '.') {
        assert(v.len() == 2 ==> name@ =~= seq!['.', '.']);
        return None;
    }
    if v.len() == 1 && v[0] == '.' {
        assert(name@ =~= seq!['.']);
        let w = chars_of(t);
        proof {
            trim_end_char_is_prefix(path@, '/');
        }
        if w.len() > 0 {
            let shorter = slice_chars(w.as_slice(), 0, w.len() - 1);
            assert(shorter@ =~= t@.drop_last());
            return file_name(shorter.as_str());
        }
    }
    Some(name)
}

/// The id of the project graph at a path; `None` without a path, or when it has
/// no file name.
pub fn project_graph_id_for_dir(graph_path: Option<&str>) -> (r: Option<String>)
    ensures
        opt_view(r) == (match graph_path {
            Some(p) => stem_of_path(p@),
            None => None,
        }),
{
    let name = match graph_path {
        Some(p) => match file_name(p) {
            Some(name) => name,
            None => return None,
        },
        None => return None,
    };
    let v = chars_of(name.as_str());
    let mut n: usize = v.len();
    while n > 1 && v[n - 1] != '.'
        invariant
            n <= v@.len(),
            v@ == name@,
            stem_len(name@, n as nat) == stem_len(name@, name@.len()),
        decreases n,
    {
        n = n - 1;
    }
    let end: usize = if n <= 1 {
        v.len()
    } else {
        n - 1
    };
    let stem = slice_chars(v.as_slice(), 0, end);
    assert(stem@ =~= name@.take(end as int));
    Some(stem)
}

/// The health of one project's graph. `working_dir` is the project's directory
/// when the registry, or else the session history, knows it.
pub fn project_health(
    graph_id: String,
    registered: Option<String>,
    recovered: Option<String>,
    memories: &Vec<MemoryFacts>,
) -> (r: ProjectGraphHealth)
    ensures
        r.graph_id == graph_id,
        r.working_dir == (if registered is Some {
            registered
        } else {
            recovered
        }),
        counts(
            memories@,
            GraphCounts {
                total: r.total,
                active: r.active,
                low_confidence: r.low_confidence,
                missing_embeddings: r.missing_embeddings,
            },
        ),
{
    let c = count_memories(memories);
    let working_dir = match registered {
        Some(dir) => Some(dir),
        None => recovered,
    };
    ProjectGraphHealth {
        working_dir,
        graph_id,
        total: c.total,
        active: c.active,
        low_confidence: c.low_confidence,
        missing_embeddings: c.missing_embeddings,
    }
}

/// The directory of the first of the sessions that leads to the graph `id`. A
/// directory that came up before does not count again.
pub open spec fn dir_of_graph(
    dirs: Seq<Option<Seq<char>>>,
    ids: Seq<Option<Seq<char>>>,
    id: Seq<char>,
) -> Option<Seq<char>>
    decreases dirs.len(),
{
    if dirs.len() == 0 {
        None
    } else {
        let before = dir_of_graph(dirs.drop_last(), ids.drop_last(), id);
        if before is Some {
            before
        } else if dirs.last() is Some && !dirs.drop_last().contains(dirs.last()) && ids.last()
            == Some(id) {
            dirs.last()
        } else {
            None
        }
    }
}

pub open spec fn opt_text_views(s: Seq<Option<String>>) -> Seq<Option<Seq<char>>> {
    s.map_values(|t: Option<String>| opt_view(t))
}

/// Recovers the directory of a project graph from the working directories of
/// sessions, newest first, and the ids of the graphs they lead to.
pub fn project_dir_from_session_history(
    wanted: &str,
    dirs: &Vec<Option<String>>,
    ids: &Vec<Option<String>>,
) -> (r: Option<String>)
    requires
        dirs@.len() == ids@.len(),
    ensures
        opt_view(r) == dir_of_graph(opt_text_views(dirs@), opt_text_views(ids@), wanted@),
{
    let ghost ds = opt_text_views(dirs@);
    let ghost gs = opt_text_views(ids@);
    let mut i: usize = 0;
    assert(ds.take(0) =~= Seq::<Option<Seq<char>>>::empty());
    while i < dirs.len()
        invariant
            i <= dirs@.len() == ids@.len(),
            ds == opt_text_views(dirs@),
            gs == opt_text_views(ids@),
            dir_of_graph(ds.take(i as int), gs.take(i as int), wanted@) is None,
        decreases dirs@.len() - i,
    {
        proof {
            assert(ds.take(i + 1).drop_last() =~= ds.take(i as int));
            assert(gs.take(i + 1).drop_last() =~= gs.take(i as int));
            assert(ds.take(i + 1).last() == opt_view(dirs@[i as int]));
            assert(gs.take(i + 1).last() == opt_view(ids@[i as int]));
        }
        if let (Some(dir), Some(id)) = (&dirs[i], &ids[i]) {
            if str_eq(id.as_str(), wanted) && !came_up(dirs, i, dir.as_str()) {
                proof {
                    found_stays_found(ds, gs, wanted@, i + 1);
                }
                return Some(dir.clone());
            }
        }
        i = i + 1;
    }
    assert(ds.take(ds.len() as int) =~= ds);
    assert(gs.take(gs.len() as int) =~= gs);
    None
}

proof fn found_stays_found(
    dirs: Seq<Option<Seq<char>>>,
    ids: Seq<Option<Seq<char>>>,
    id: Seq<char>,
    n: int,
)
    requires
        dirs.len() == ids.len(),
        0 <= n <= dirs.len(),
        dir_of_graph(dirs.take(n), ids.take(n), id) is Some,
    ensures
        dir_of_graph(dirs, ids, id) == dir_of_graph(dirs.take(n), ids.take(n), id),
    decreases dirs.len() - n,
{
    if n < dirs.len() {
        assert(dirs.take(n + 1).drop_last() =~= dirs.take(n));
        assert(ids.take(n + 1).drop_last() =~= ids.take(n));
        found_stays_found(dirs, ids, id, n + 1);
    } else {
        assert(dirs.take(n) =~= dirs);
        assert(ids.take(n) =~= ids);
    }
}

/// Whether `dir` is among the first `n` directories.
fn came_up(dirs: &Vec<Option<String>>, n: usize, dir: &str) -> (r: bool)
    requires
        n <= dirs@.len(),
    ensures
        r == opt_text_views(dirs@).take(n as int).contains(Some(dir@)),
{
    let ghost ds = opt_text_views(dirs@).take(n as int);
    let mut i: usize = 0;
    while i < n
        invariant
            i <= n <= dirs@.len(),
            ds == opt_text_views(dirs@).take(n as int),
            forall|j: int| 0 <= j < i ==> #[trigger] ds[j] != Some(dir@),
        decreases n - i,
    {
        assert(ds[i as int] == opt_view(dirs@[i as int]));
        if let Some(d) = &dirs[i] {
            if str_eq(d.as_str(), dir) {
                assert(ds.contains(ds[i as int]));
                return true;
            }
        }
        i = i + 1;
    }
    false
}

impl Ranked for ProjectGraphHealth {
    open spec fn ranks_before(self, other: ProjectGraphHealth) -> bool {
        self.total > other.total || (self.total == other.total && text_lt(
            self.graph_id@,
            other.graph_id@,
        ))
    }

    fn comes_before(&self, other: &ProjectGraphHealth) -> (r: bool) {
        self.total > other.total || (self.total == other.total && str_lt(
            self.graph_id.as_str(),
            other.graph_id.as_str(),
        ))
    }

    proof fn rank_is_strict(a: ProjectGraphHealth, b: ProjectGraphHealth, c: ProjectGraphHealth) {
        text_order(a.graph_id@, b.graph_id@, c.graph_id@);
    }
}

/// Totals over memory graphs.
pub struct HealthTotals {
    pub total: nat,
    pub active: nat,
    pub inactive: nat,
    pub low_confidence: nat,
    pub missing_embeddings: nat,
    pub contradicting_edges: nat,
    pub last_consolidation: Option<Timestamp>,
}

/// The later of two optional instants.
pub open spec fn later(a: Option<Timestamp>, b: Option<Timestamp>) -> Option<Timestamp> {
    match (a, b) {
        (Some(x), Some(y)) => if y.nanos > x.nanos {
            Some(y)
        } else {
            Some(x)
        },
        (None, y) => y,
        (x, None) => x,
    }
}

/// The totals over the graphs that were loaded whole.
pub open spec fn graph_totals(graphs: Seq<GraphFacts>) -> HealthTotals
    decreases graphs.len(),
{
    if graphs.len() == 0 {
        HealthTotals {
            total: 0,
            active: 0,
            inactive: 0,
            low_confidence: 0,
            missing_embeddings: 0,
            contradicting_edges: 0,
            last_consolidation: None,
        }
    } else {
        let t = graph_totals(graphs.drop_last());
        let g = graphs.last();
        let active = count_where(g.memories@, is_active());
        HealthTotals {
            total: t.total + g.memories@.len(),
            active: t.active + active,
            inactive: (t.inactive + (g.memories@.len() - active)) as nat,
            low_confidence: t.low_confidence + count_where(g.memories@, is_doubtful()),
            missing_embeddings: t.missing_embeddings + count_where(g.memories@, is_unembedded()),
            contradicting_edges: t.contradicting_edges + count_true(g.contradicts@),
            last_consolidation: later(t.last_consolidation, g.last_cluster_update),
        }
    }
}

/// The totals with the project graphs that are not among the loaded ones added.
pub open spec fn with_projects(
    t: HealthTotals,
    projects: Seq<ProjectGraphHealth>,
    own: Option<Seq<char>>,
) -> HealthTotals
    decreases projects.len(),
{
    if projects.len() == 0 {
        t
    } else {
        let u = with_projects(t, projects.drop_last(), own);
        let p = projects.last();
        if own == Some(p.graph_id@) {
            u
        } else {
            HealthTotals {
                total: u.total + p.total as nat,
                active: u.active + p.active as nat,
                inactive: u.inactive + (if p.total > p.active {
                    (p.total - p.active) as nat
                } else {
                    0
                }),
                low_confidence: u.low_confidence + p.low_confidence as nat,
                missing_embeddings: u.missing_embeddings + p.missing_embeddings as nat,
                ..u
            }
        }
    }
}

/// The totals can be counted.
pub open spec fn countable(t: HealthTotals) -> bool {
    &&& t.total <= usize::MAX
    &&& t.active <= usize::MAX
    &&& t.inactive <= usize::MAX
    &&& t.low_confidence <= usize::MAX
    &&& t.missing_embeddings <= usize::MAX
    &&& t.contradicting_edges <= usize::MAX
}

/// No total of `a` is more than that of `b`.
pub open spec fn within(a: HealthTotals, b: HealthTotals) -> bool {
    &&& a.total <= b.total
    &&& a.active <= b.active
    &&& a.inactive <= b.inactive
    &&& a.low_confidence <= b.low_confidence
    &&& a.missing_embeddings <= b.missing_embeddings
    &&& a.contradicting_edges <= b.contradicting_edges
}

proof fn totals_grow(graphs: Seq<GraphFacts>, n: int)
    requires
        0 <= n <= graphs.len(),
    ensures
        within(graph_totals(graphs.take(n)), graph_totals(graphs)),
    decreases graphs.len() - n,
{
    if n < graphs.len() {
        totals_grow(graphs, n + 1);
        assert(graphs.take(n + 1).drop_last() =~= graphs.take(n));
        count_at_most(graphs[n].memories@, is_active());
    } else {
        assert(graphs.take(n) =~= graphs);
    }
}

proof fn count_at_most(ms: Seq<MemoryFacts>, f: spec_fn(MemoryFacts) -> bool)
    ensures
        count_where(ms, f) <= ms.len(),
    decreases ms.len(),
{
    if ms.len() > 0 {
        count_at_most(ms.drop_last(), f);
    }
}

proof fn project_totals_grow(
    t: HealthTotals,
    projects: Seq<ProjectGraphHealth>,
    own: Option<Seq<char>>,
    n: int,
)
    requires
        0 <= n <= projects.len(),
    ensures
        within(with_projects(t, projects.take(n), own), with_projects(t, projects, own)),
    decreases projects.len() - n,
{
    if n < projects.len() {
        project_totals_grow(t, projects, own, n + 1);
        assert(projects.take(n + 1).drop_last() =~= projects.take(n));
    } else {
        assert(projects.take(n) =~= projects);
    }
}

/// `h` is the health that the totals amount to. The two edges of a
/// contradiction count as one.
pub open spec fn amounts_to(h: MemoryGraphHealth, t: HealthTotals) -> bool {
    &&& h.total == t.total
    &&& h.active == t.active
    &&& h.inactive == t.inactive
    &&& h.low_confidence == t.low_confidence
    &&& h.missing_embeddings == t.missing_embeddings
    &&& h.contradictions == t.contradicting_edges / 2
    &&& h.duplicate_candidates == 0
    &&& h.last_consolidation == t.last_consolidation
}

/// The health of all memory: the graphs that were loaded whole, and every
/// project's graph, of which the one among the loaded, `own_graph`, does not
/// count twice. Projects are listed largest first.
pub fn gather_memory_graph_health(
    graphs: &Vec<GraphFacts>,
    own_graph: Option<&str>,
    projects: Vec<ProjectGraphHealth>,
) -> (r: MemoryGraphHealth)
    requires
        countable(
            with_projects(
                graph_totals(graphs@),
                projects@,
                crate::text::opt_str_view(own_graph),
            ),
        ),
    ensures
        amounts_to(
            r,
            with_projects(
                graph_totals(graphs@),
                projects@,
                crate::text::opt_str_view(own_graph),
            ),
        ),
        r.projects@ == ranked(projects@),
{
    let ghost own = crate::text::opt_str_view(own_graph);
    let ghost base = graph_totals(graphs@);
    let ghost full = with_projects(base, projects@, own);
    let mut h = MemoryGraphHealth::default();
    let mut edges: usize = 0;
    let mut i: usize = 0;
    proof {
        project_totals_grow(base, projects@, own, 0);
        assert(projects@.take(0) =~= Seq::<ProjectGraphHealth>::empty());
        assert(graphs@.take(0) =~= Seq::<GraphFacts>::empty());
    }
    while i < graphs.len()
        invariant
            i <= graphs@.len(),
            base == graph_totals(graphs@),
            within(base, full),
            countable(full),
            h.total == graph_totals(graphs@.take(i as int)).total,
            h.active == graph_totals(graphs@.take(i as int)).active,
            h.inactive == graph_totals(graphs@.take(i as int)).inactive,
            h.low_confidence == graph_totals(graphs@.take(i as int)).low_confidence,
            h.missing_embeddings == graph_totals(graphs@.take(i as int)).missing_embeddings,
            edges == graph_totals(graphs@.take(i as int)).contradicting_edges,
            h.last_consolidation == graph_totals(graphs@.take(i as int)).last_consolidation,
            h.contradictions == 0 && h.duplicate_candidates == 0,
        decreases graphs@.len() - i,
    {
        let g = &graphs[i];
        proof {
            assert(graphs@.take(i + 1).drop_last() =~= graphs@.take(i as int));
            assert(graphs@.take(i + 1).last() == *g);
            totals_grow(graphs@, i + 1);
        }
        let c = count_memories(&g.memories);
        h.total = h.total + c.total;
        h.active = h.active + c.active;
        h.inactive = h.inactive + (c.total - c.active);
        h.low_confidence = h.low_confidence + c.low_confidence;
        h.missing_embeddings = h.missing_embeddings + c.missing_embeddings;
        edges = edges + count_contradictions(&g.contradicts);
        h.last_consolidation = match (h.last_consolidation, g.last_cluster_update) {
            (Some(x), Some(y)) => if y.nanos > x.nanos {
                Some(y)
            } else {
                Some(x)
            },
            (None, y) => y,
            (x, None) => x,
        };
        i = i + 1;
    }
    assert(graphs@.take(graphs@.len() as int) =~= graphs@);
    h.contradictions = edges / 2;
    let mut k: usize = 0;
    while k < projects.len()
        invariant
            k <= projects@.len(),
            own == crate::text::opt_str_view(own_graph),
            full == with_projects(base, projects@, own),
            countable(full),
            amounts_to(h, with_projects(base, projects@.take(k as int), own)),
        decreases projects@.len() - k,
    {
        let p = &projects[k];
        proof {
            assert(projects@.take(k + 1).drop_last() =~= projects@.take(k as int));
            assert(projects@.take(k + 1).last() == *p);
            project_totals_grow(base, projects@, own, k + 1);
        }
        let counted = match own_graph {
            Some(id) => str_eq(id, p.graph_id.as_str()),
            None => false,
        };
        if !counted {
            h.total = h.total + p.total;
            h.active = h.active + p.active;
            h.inactive = h.inactive + (if p.total > p.active {
                p.total - p.active
            } else {
                0
            });
            h.low_confidence = h.low_confidence + p.low_confidence;
            h.missing_embeddings = h.missing_embeddings + p.missing_embeddings;
        }
        k = k + 1;
    }
    assert(projects@.take(projects@.len() as int) =~= projects@);
    h.projects = sort_by_rank(projects);
    h
}

/// A file among the project graphs.
#[derive(Debug)]
pub struct GraphFile {
    pub name: String,
    /// The memories in it; `None` when they cannot be read.
    pub memories: Option<Vec<MemoryFacts>>,
    /// The project's directory, when the registry knows it.
    pub registered: Option<String>,
}

/// The file holds a project graph that can be read.
pub open spec fn holds_graph(f: GraphFile) -> bool {
    is_json_name(f.name@) && f.name@.take(f.name@.len() - 5) != "index"@ && f.memories is Some
}

/// `p` is the health of the graph in the file `f`.
pub open spec fn describes(
    p: ProjectGraphHealth,
    f: GraphFile,
    dirs: Seq<Option<Seq<char>>>,
    ids: Seq<Option<Seq<char>>>,
) -> bool {
    &&& p.graph_id@ == f.name@.take(f.name@.len() - 5)
    &&& opt_view(p.working_dir) == (match f.registered {
        Some(d) => Some(d@),
        None => dir_of_graph(dirs, ids, p.graph_id@),
    })
    &&& counts(
        f.memories->0@,
        GraphCounts {
            total: p.total,
            active: p.active,
            low_confidence: p.low_confidence,
            missing_embeddings: p.missing_embeddings,
        },
    )
}

/// `out` lists the health of every project graph among the files, in order.
pub open spec fn surveys(
    out: Seq<ProjectGraphHealth>,
    files: Seq<GraphFile>,
    dirs: Seq<Option<Seq<char>>>,
    ids: Seq<Option<Seq<char>>>,
) -> bool
    decreases files.len(),
{
    if files.len() == 0 {
        out.len() == 0
    } else if holds_graph(files.last()) {
        &&& out.len() > 0
        &&& surveys(out.drop_last(), files.drop_last(), dirs, ids)
        &&& describes(out.last(), files.last(), dirs, ids)
    } else {
        surveys(out, files.drop_last(), dirs, ids)
    }
}

/// Surveys the project graphs. One that the registry does not name gets its
/// name from the working directories of sessions, newest first, and the ids of
/// the graphs they lead to.
pub fn gather_project_graph_health(
    files: &Vec<GraphFile>,
    dirs: &Vec<Option<String>>,
    ids: &Vec<Option<String>>,
) -> (r: Vec<ProjectGraphHealth>)
    requires
        dirs@.len() == ids@.len(),
    ensures
        surveys(r@, files@, opt_text_views(dirs@), opt_text_views(ids@)),
{
    let mut out: Vec<ProjectGraphHealth> = Vec::new();
    let mut i: usize = 0;
    assert(files@.take(0) =~= Seq::<GraphFile>::empty());
    while i < files.len()
        invariant
            i <= files@.len(),
            dirs@.len() == ids@.len(),
            surveys(out@, files@.take(i as int), opt_text_views(dirs@), opt_text_views(ids@)),
        decreases files@.len() - i,
    {
        let f = &files[i];
        proof {
            assert(files@.take(i + 1).drop_last() =~= files@.take(i as int));
            assert(files@.take(i + 1).last() == *f);
        }
        if let (Some(id), Some(memories)) = (graph_id_of(f.name.as_str()), &f.memories) {
            let recovered = if f.registered.is_some() {
                None
            } else {
                project_dir_from_session_history(id.as_str(), dirs, ids)
            };
            let p = project_health(id, opt_clone(&f.registered), recovered, memories);
            let ghost was = out@;
            out.push(p);
            assert(out@.drop_last() =~= was);
        }
        i = i + 1;
    }
    assert(files@.take(files@.len() as int) =~= files@);
    out
}

// ---------------------------------------------------------------------------
// Feedback
// ---------------------------------------------------------------------------

/// What matters of a past cycle's transcript.
#[derive(Debug)]
pub struct PastCycle {
    pub started_at: Timestamp,
    pub status: CycleStatus,
    pub summary: Option<String>,
    pub memories_modified: u32,
    pub compactions: u32,
}

pub open spec fn status_word(s: CycleStatus) -> Seq<char> {
    match s {
        CycleStatus::Complete => "complete"@,
        CycleStatus::Interrupted => "interrupted"@,
        CycleStatus::Incomplete => "incomplete"@,
    }
}

fn status_name(s: CycleStatus) -> (r: &'static str)
    ensures
        r@ == status_word(s),
{
    match s {
        CycleStatus::Complete => "complete",
        CycleStatus::Interrupted => "interrupted",
        CycleStatus::Incomplete => "incomplete",
    }
}

/// What is told of a past cycle.
pub open spec fn cycle_line(c: PastCycle, now: Timestamp) -> Seq<char> {
    "Past cycle ("@ + rough(truncated(now.nanos - c.started_at.nanos, NANOS_PER_SEC as int))
        + " ago, "@ + status_word(c.status) + "): "@ + dec(c.memories_modified as nat)
        + " memories modified, "@ + dec(c.compactions as nat) + " compactions — "@ + (
    match c.summary {
        Some(s) => s@,
        None => "no summary"@,
    })
}

fn past_cycle_line(c: &PastCycle, now: &Timestamp) -> (r: String)
    requires
        now.valid(),
        c.started_at.valid(),
    ensures
        r@ == cycle_line(*c, *now),
{
    let mut line = owned("Past cycle (");
    let age = format_duration_rough(secs_between(&c.started_at, now));
    line.append(age.as_str());
    line.append(" ago, ");
    line.append(status_name(c.status));
    line.append("): ");
    push_dec(&mut line, c.memories_modified as u64);
    line.append(" memories modified, ");
    push_dec(&mut line, c.compactions as u64);
    line.append(" compactions — ");
    match &c.summary {
        Some(s) => line.append(s.as_str()),
        None => line.append("no summary"),
    }
    line
}

/// The memory is meant for the ambient agent.
pub open spec fn tagged_for_ambient(m: MemoryFacts) -> bool {
    views(m.tags@).contains("ambient"@) || views(m.tags@).contains("system"@)
}

fn has_tag(tags: &Vec<String>, tag: &str) -> (r: bool)
    ensures
        r == views(tags@).contains(tag@),
{
    let mut i: usize = 0;
    while i < tags.len()
        invariant
            i <= tags@.len(),
            forall|j: int| 0 <= j < i ==> (#[trigger] views(tags@)[j]) != tag@,
        decreases tags@.len() - i,
    {
        assert(views(tags@)[i as int] == tags@[i as int]@);
        if str_eq(tags[i].as_str(), tag) {
            assert(views(tags@).contains(views(tags@)[i as int]));
            return true;
        }
        i = i + 1;
    }
    false
}

/// What is told of the memories meant for the ambient agent.
pub open spec fn memory_lines(ms: Seq<MemoryFacts>) -> Seq<Seq<char>>
    decreases ms.len(),
{
    if ms.len() == 0 {
        Seq::empty()
    } else {
        let rest = memory_lines(ms.drop_last());
        let m = ms.last();
        if m.active && tagged_for_ambient(m) {
            rest.push("Memory ["@ + m.id@ + "]: "@ + m.content@)
        } else {
            rest
        }
    }
}

/// What is told of past cycles.
pub open spec fn cycle_lines(cs: Seq<PastCycle>, now: Timestamp) -> Seq<Seq<char>> {
    cs.map_values(|c: PastCycle| cycle_line(c, now))
}

/// The feedback for a cycle: past cycles, in the order given, then the memories
/// meant for the ambient agent, graph by graph.
pub open spec fn feedback_lines(
    cycles: Seq<PastCycle>,
    graphs: Seq<GraphFacts>,
    now: Timestamp,
) -> Seq<Seq<char>>
    decreases graphs.len(),
{
    if graphs.len() == 0 {
        cycle_lines(cycles, now)
    } else {
        feedback_lines(cycles, graphs.drop_last(), now) + memory_lines(graphs.last().memories@)
    }
}

fn push_memory_lines(out: &mut Vec<String>, ms: &Vec<MemoryFacts>)
    ensures
        views(final(out)@) == views(old(out)@) + memory_lines(ms@),
{
    let ghost was = views(out@);
    let mut i: usize = 0;
    assert(ms@.take(0) =~= Seq::<MemoryFacts>::empty());
    assert(views(out@) =~= was + memory_lines(ms@.take(0)));
    while i < ms.len()
        invariant
            i <= ms@.len(),
            views(out@) == was + memory_lines(ms@.take(i as int)),
        decreases ms@.len() - i,
    {
        let m = &ms[i];
        proof {
            assert(ms@.take(i + 1).drop_last() =~= ms@.take(i as int));
            assert(ms@.take(i + 1).last() == *m);
        }
        if m.active && (has_tag(&m.tags, "ambient") || has_tag(&m.tags, "system")) {
            let mut line = owned("Memory [");
            line.append(m.id.as_str());
            line.append("]: ");
            line.append(m.content.as_str());
            let ghost before = out@;
            out.push(line);
            assert(views(out@) =~= views(before).push(line@));
            assert(views(out@) =~= was + memory_lines(ms@.take(i + 1)));
        }
        i = i + 1;
    }
    assert(ms@.take(ms@.len() as int) =~= ms@);
}

/// The feedback for a cycle at `now`. `cycles` are the past cycles to tell of,
/// newest first.
pub fn gather_feedback_memories(
    cycles: &Vec<PastCycle>,
    graphs: &Vec<GraphFacts>,
    now: &Timestamp,
) -> (r: Vec<String>)
    requires
        now.valid(),
        forall|i: int| 0 <= i < cycles@.len() ==> (#[trigger] cycles@[i]).started_at.valid(),
    ensures
        views(r@) == feedback_lines(cycles@, graphs@, *now),
{
    let mut out: Vec<String> = Vec::new();
    let mut i: usize = 0;
    while i < cycles.len()
        invariant
            now.valid(),
            forall|j: int| 0 <= j < cycles@.len() ==> (#[trigger] cycles@[j]).started_at.valid(),
            i <= cycles@.len(),
            out@.len() == i,
            forall|j: int| 0 <= j < i ==> (#[trigger] out@[j])@ == cycle_line(cycles@[j], *now),
        decreases cycles@.len() - i,
    {
        assert(cycles@[i as int].started_at.valid());
        out.push(past_cycle_line(&cycles[i], now));
        i = i + 1;
    }
    assert(views(out@) =~= cycle_lines(cycles@, *now));
    let mut k: usize = 0;
    assert(graphs@.take(0) =~= Seq::<GraphFacts>::empty());
    while k < graphs.len()
        invariant
            k <= graphs@.len(),
            views(out@) == feedback_lines(cycles@, graphs@.take(k as int), *now),
        decreases graphs@.len() - k,
    {
        assert(graphs@.take(k + 1).drop_last() =~= graphs@.take(k as int));
        push_memory_lines(&mut out, &graphs[k].memories);
        k = k + 1;
    }
    assert(graphs@.take(graphs@.len() as int) =~= graphs@);
    out
}

// ---------------------------------------------------------------------------
// Recent sessions
// ---------------------------------------------------------------------------

/// How a session stands.
#[derive(Debug, Clone, Copy, PartialEq, Eq, Structural)]
pub enum SessionStanding {
    Closed,
    Crashed,
    Active,
    Other,
}

/// What matters of a session.
#[derive(Debug)]
pub struct SessionFacts {
    pub id: String,
    pub status: String,
    pub standing: SessionStanding,
    pub topic: Option<String>,
    pub created_at: Timestamp,
    pub updated_at: Timestamp,
    pub working_dir: Option<String>,
    pub is_debug: bool,
    pub has_messages: bool,
}

/// Whether a session's memories were extracted, as far as its end tells.
pub open spec fn extraction_of(s: SessionFacts) -> Seq<char> {
    if !s.has_messages {
        "no messages"@
    } else {
        match s.standing {
            SessionStanding::Closed => "extracted"@,
            SessionStanding::Crashed => "missed"@,
            SessionStanding::Active => "in progress"@,
            SessionStanding::Other => "unknown"@,
        }
    }
}

/// `r` summarises the session `s`.
pub open spec fn summarises(r: RecentSessionInfo, s: SessionFacts) -> bool {
    &&& r.id == s.id
    &&& r.status == s.status
    &&& r.topic == s.topic
    &&& r.duration_secs == (if s.updated_at.nanos <= s.created_at.nanos {
        0
    } else {
        (s.updated_at.nanos - s.created_at.nanos) / NANOS_PER_SEC as int
    })
    &&& r.extraction_status@ == extraction_of(s)
    &&& r.working_dir == s.working_dir
}

/// The session is told of: it is nobody's test, and it was active since the
/// cutoff.
pub open spec fn is_recent(s: SessionFacts, cutoff: Timestamp) -> bool {
    !s.is_debug && s.updated_at.nanos >= cutoff.nanos
}

/// `out` summarises the recent ones among the sessions, in order.
pub open spec fn summarises_all(
    out: Seq<RecentSessionInfo>,
    sessions: Seq<SessionFacts>,
    cutoff: Timestamp,
) -> bool
    decreases sessions.len(),
{
    if sessions.len() == 0 {
        out.len() == 0
    } else if is_recent(sessions.last(), cutoff) {
        &&& out.len() > 0
        &&& summarises_all(out.drop_last(), sessions.drop_last(), cutoff)
        &&& summarises(out.last(), sessions.last())
    } else {
        summarises_all(out, sessions.drop_last(), cutoff)
    }
}

impl Ranked for RecentSessionInfo {
    open spec fn ranks_before(self, other: RecentSessionInfo) -> bool {
        text_lt(other.id@, self.id@)
    }

    fn comes_before(&self, other: &RecentSessionInfo) -> (r: bool) {
        str_lt(other.id.as_str(), self.id.as_str())
    }

    proof fn rank_is_strict(a: RecentSessionInfo, b: RecentSessionInfo, c: RecentSessionInfo) {
        text_order(a.id@, b.id@, c.id@);
        text_order(c.id@, b.id@, a.id@);
    }
}

/// Since when sessions are told of: since the last cycle, or else for a day.
pub fn session_cutoff(since: Option<Timestamp>, now: &Timestamp) -> (r: Timestamp)
    requires
        now.valid(),
        now.reaches(-86_400 * NANOS_PER_SEC),
    ensures
        r.nanos == (match since {
            Some(t) => t.nanos as int,
            None => now.nanos - 86_400 * NANOS_PER_SEC,
        }),
{
    match since {
        Some(t) => t,
        None => now.plus_secs(-86_400),
    }
}

/// How far before the cutoff a session's file may have been written: an hour,
/// for clocks and writes that are off.
pub fn file_cutoff(cutoff: &Timestamp) -> (r: Timestamp)
    requires
        cutoff.valid(),
        cutoff.reaches(-3600 * NANOS_PER_SEC),
    ensures
        r.nanos == cutoff.nanos - 3600 * NANOS_PER_SEC,
{
    cutoff.plus_secs(-3600)
}

fn summary_of(s: SessionFacts) -> (r: RecentSessionInfo)
    requires
        s.created_at.valid() && s.updated_at.valid(),
    ensures
        summarises(r, s),
{
    let secs: i64 = secs_between(&s.created_at, &s.updated_at);
    let duration_secs: i64 = if secs < 0 {
        0
    } else {
        secs
    };
    let extraction = if !s.has_messages {
        "no messages"
    } else {
        match s.standing {
            SessionStanding::Closed => "extracted",
            SessionStanding::Crashed => "missed",
            SessionStanding::Active => "in progress",
            SessionStanding::Other => "unknown",
        }
    };
    RecentSessionInfo {
        id: s.id,
        status: s.status,
        topic: s.topic,
        duration_secs,
        extraction_status: owned(extraction),
        working_dir: s.working_dir,
    }
}

/// The recent sessions among those that were loaded, newest first by id, which
/// embeds a timestamp. No more than the load budget are looked at.
pub fn gather_recent_sessions(loaded: Vec<SessionFacts>, cutoff: &Timestamp) -> (r: Vec<
    RecentSessionInfo,
>)
    requires
        forall|i: int|
            0 <= i < loaded@.len() ==> (#[trigger] loaded@[i]).created_at.valid()
                && loaded@[i].updated_at.valid(),
    ensures
        exists|all: Seq<RecentSessionInfo>| #[trigger]
            summarises_all(
                all,
                first_of(loaded@, RECENT_SESSION_LOAD_BUDGET as nat),
                *cutoff,
            ) && r@ == first_of(ranked(all), RECENT_SESSION_LIMIT as nat),
{
    let mut within = loaded;
    if within.len() > RECENT_SESSION_LOAD_BUDGET {
        within.truncate(RECENT_SESSION_LOAD_BUDGET);
    }
    let ghost all = within@;
    assert(all =~= first_of(loaded@, RECENT_SESSION_LOAD_BUDGET as nat));
    let mut recent: Vec<RecentSessionInfo> = Vec::new();
    assert(all.take(0) =~= Seq::<SessionFacts>::empty());
    for s in it: within
        invariant
            it.seq() == all,
            forall|i: int|
                0 <= i < all.len() ==> (#[trigger] all[i]).created_at.valid()
                    && all[i].updated_at.valid(),
            summarises_all(recent@, all.take(it.index() as int), *cutoff),
    {
        proof {
            let n = it.index() as int;
            assert(all.take(n + 1).drop_last() =~= all.take(n));
            assert(all.take(n + 1).last() == s);
            assert(all[n].created_at.valid());
        }
        if !s.is_debug && s.updated_at.nanos >= cutoff.nanos {
            let ghost was = recent@;
            recent.push(summary_of(s));
            assert(recent@.drop_last() =~= was);
        }
    }
    assert(all.take(all.len() as int) =~= all);
    assert(summarises_all(recent@, all, *cutoff));
    top_by_rank(recent, RECENT_SESSION_LIMIT)
}

/// Every memory is counted once in the total, and once more as active, doubtful or
/// without an embedding exactly when it is; only active memories are the latter
/// two.
pub proof fn every_memory_is_counted(
    ms: Seq<MemoryFacts>,
    m: MemoryFacts,
    before: GraphCounts,
    c: GraphCounts,
)
    requires
        counts(ms, before),
        counts(ms.push(m), c),
    ensures
        c.total == before.total + 1,
        c.active == before.active + (if m.active {
            1int
        } else {
            0
        }),
        c.low_confidence == before.low_confidence + (if m.active && m.low_confidence {
            1int
        } else {
            0
        }),
        c.missing_embeddings == before.missing_embeddings + (if m.active && !m.has_embedding {
            1int
        } else {
            0
        }),
{
    assert(ms.push(m).drop_last() =~= ms);
}

/// A session file is a candidate exactly when it is a JSON file that was not last
/// written before the cutoff, or whose time is unknown.
pub proof fn old_sessions_are_left_out(cutoff: Option<Timestamp>, f: SessionFile)
    ensures
        is_candidate(cutoff)(f) <==> {
            &&& f.name@.len() > 5 && has_suffix(f.name@, ".json"@)
            &&& cutoff is None || f.modified is None || f.modified->0.nanos >= cutoff->0.nanos
        },
{
}

/// The directory that is recovered for a graph leads to it, and no session before
/// it in the history does by a directory of its own.
pub proof fn a_recovered_directory_leads_to_its_graph(
    dirs: Seq<Option<Seq<char>>>,
    ids: Seq<Option<Seq<char>>>,
    id: Seq<char>,
)
    requires
        dirs.len() == ids.len(),
    ensures
        match dir_of_graph(dirs, ids, id) {
            Some(d) => exists|k: int|
                {
                    &&& 0 <= k < dirs.len()
                    &&& #[trigger] dirs[k] == Some(d)
                    &&& ids[k] == Some(id)
                    &&& forall|j: int|
                        0 <= j < k ==> #[trigger] dirs[j] != Some(d) && (dirs[j] is Some && ids[j]
                            == Some(id) ==> dirs.take(j).contains(dirs[j]))
                },
            None => forall|j: int|
                0 <= j < dirs.len() && #[trigger] dirs[j] is Some && ids[j] == Some(id)
                    ==> dirs.take(j).contains(dirs[j]),
        },
    decreases dirs.len(),
{
    if dirs.len() > 0 {
        let n: int = dirs.len() - 1;
        let head = dirs.drop_last();
        let tail = ids.drop_last();
        a_recovered_directory_leads_to_its_graph(head, tail, id);
        assert forall|j: int| 0 <= j <= n implies #[trigger] dirs.take(j) == head.take(j) by {
            assert(dirs.take(j) =~= head.take(j));
        }
        assert(head.take(n) =~= head);
        assert(forall|j: int| 0 <= j < n ==> #[trigger] head[j] == dirs[j] && tail[j] == ids[j]);
        match dir_of_graph(head, tail, id) {
            Some(d) => {
                let k = choose|k: int|
                    {
                        &&& 0 <= k < head.len()
                        &&& #[trigger] head[k] == Some(d)
                        &&& tail[k] == Some(id)
                        &&& forall|j: int|
                            0 <= j < k ==> #[trigger] head[j] != Some(d) && (head[j] is Some
                                && tail[j] == Some(id) ==> head.take(j).contains(head[j]))
                    };
                assert(dirs[k] == head[k]);
                assert forall|j: int| 0 <= j < k implies #[trigger] dirs[j] != Some(d) && (dirs[j]
                    is Some && ids[j] == Some(id) ==> dirs.take(j).contains(dirs[j])) by {
                    assert(head[j] == dirs[j]);
                    assert(dirs.take(j) == head.take(j));
                }
            },
            None => {
                assert forall|j: int|
                    0 <= j < n && #[trigger] dirs[j] is Some && ids[j] == Some(
                        id,
                    ) implies dirs.take(j).contains(dirs[j]) by {
                    assert(head[j] == dirs[j]);
                    assert(dirs.take(j) == head.take(j));
                }
                assert(dirs.take(n) == head.take(n));
                if let Some(d) = dir_of_graph(dirs, ids, id) {
                    assert(dirs[n] == Some(d));
                    assert forall|j: int| 0 <= j < n implies #[trigger] dirs[j] != Some(d) by {
                        assert(head[j] == dirs[j]);
                        if dirs[j] == Some(d) {
                            assert(head.contains(dirs[n]));
                        }
                    }
                }
            },
        }
    }
}

/// Every graph that is loaded counts once: its memories as active or inactive, and
/// its latest consolidation when it is the latest.
pub proof fn every_graph_counts_once(graphs: Seq<GraphFacts>, g: GraphFacts, c: GraphCounts)
    requires
        counts(g.memories@, c),
    ensures
        ({
            let t = graph_totals(graphs);
            let u = graph_totals(graphs.push(g));
            &&& u.total == t.total + c.total
            &&& u.active == t.active + c.active
            &&& u.inactive == t.inactive + (c.total - c.active)
            &&& u.low_confidence == t.low_confidence + c.low_confidence
            &&& u.missing_embeddings == t.missing_embeddings + c.missing_embeddings
            &&& u.contradicting_edges == t.contradicting_edges + count_true(g.contradicts@)
            &&& u.last_consolidation is None <==> t.last_consolidation is None
                && g.last_cluster_update is None
            &&& u.last_consolidation == t.last_consolidation || u.last_consolidation
                == g.last_cluster_update
            &&& t.last_consolidation matches Some(a) ==> u.last_consolidation->0.nanos >= a.nanos
            &&& g.last_cluster_update matches Some(a) ==> u.last_consolidation->0.nanos >= a.nanos
        }),
{
    assert(graphs.push(g).drop_last() =~= graphs);
}

/// A project's graph adds its counts, but for the one that is loaded already.
pub proof fn no_graph_counts_twice(
    t: HealthTotals,
    projects: Seq<ProjectGraphHealth>,
    p: ProjectGraphHealth,
    own: Option<Seq<char>>,
)
    requires
        p.active <= p.total,
    ensures
        ({
            let u = with_projects(t, projects, own);
            let v = with_projects(t, projects.push(p), own);
            if own == Some(p.graph_id@) {
                v == u
            } else {
                &&& v.total == u.total + p.total
                &&& v.active == u.active + p.active
                &&& v.inactive == u.inactive + (p.total - p.active)
                &&& v.low_confidence == u.low_confidence + p.low_confidence
                &&& v.missing_embeddings == u.missing_embeddings + p.missing_embeddings
                &&& v.contradicting_edges == u.contradicting_edges
                &&& v.last_consolidation == u.last_consolidation
            }
        }),
{
    assert(projects.push(p).drop_last() =~= projects);
}

/// A memory is told when it is active and tagged for the agent or for the system,
/// with its id and content; every graph's memories are told, in order and behind
/// the cycles.
pub proof fn tagged_memories_are_told(
    ms: Seq<MemoryFacts>,
    m: MemoryFacts,
    cycles: Seq<PastCycle>,
    graphs: Seq<GraphFacts>,
    g: GraphFacts,
    now: Timestamp,
)
    ensures
        memory_lines(Seq::empty()) == Seq::<Seq<char>>::empty(),
        memory_lines(ms.push(m)) == (if m.active && exists|k: int|
            0 <= k < m.tags@.len() && ((#[trigger] m.tags@[k])@ == "ambient"@ || m.tags@[k]@
                == "system"@) {
            memory_lines(ms).push("Memory ["@ + m.id@ + "]: "@ + m.content@)
        } else {
            memory_lines(ms)
        }),
        feedback_lines(cycles, Seq::empty(), now) == cycle_lines(cycles, now),
        feedback_lines(cycles, graphs.push(g), now) == feedback_lines(cycles, graphs, now)
            + memory_lines(g.memories@),
{
    assert(ms.push(m).drop_last() =~= ms);
    assert(graphs.push(g).drop_last() =~= graphs);
    let tags = views(m.tags@);
    if tags.contains("ambient"@) {
        let k = tags.index_of("ambient"@);
        assert(m.tags@[k]@ == "ambient"@);
    }
    if tags.contains("system"@) {
        let k = tags.index_of("system"@);
        assert(m.tags@[k]@ == "system"@);
    }
    if exists|k: int|
        0 <= k < m.tags@.len() && ((#[trigger] m.tags@[k])@ == "ambient"@ || m.tags@[k]@
            == "system"@) {
        let k = choose|k: int|
            0 <= k < m.tags@.len() && ((#[trigger] m.tags@[k])@ == "ambient"@ || m.tags@[k]@
                == "system"@);
        assert(tags[k] == m.tags@[k]@);
    }
}

/// Every session that was used since the cutoff and is no debugging session is
/// listed once, in order, and none besides; how long it ran is told in whole
/// seconds.
pub proof fn recent_sessions_are_listed(
    out: Seq<RecentSessionInfo>,
    r: RecentSessionInfo,
    sessions: Seq<SessionFacts>,
    s: SessionFacts,
    cutoff: Timestamp,
)
    ensures
        summarises_all(out, Seq::empty(), cutoff) <==> out.len() == 0,
        !s.is_debug && s.updated_at.nanos >= cutoff.nanos ==> (summarises_all(
            out.push(r),
            sessions.push(s),
            cutoff,
        ) <==> summarises_all(out, sessions, cutoff) && summarises(r, s)),
        s.is_debug || s.updated_at.nanos < cutoff.nanos ==> (summarises_all(
            out,
            sessions.push(s),
            cutoff,
        ) <==> summarises_all(out, sessions, cutoff)),
        summarises(r, s) && s.created_at.nanos <= s.updated_at.nanos ==> r.duration_secs
            * 1_000_000_000 <= s.updated_at.nanos - s.created_at.nanos < (r.duration_secs + 1)
            * 1_000_000_000,
        summarises(r, s) && s.updated_at.nanos < s.created_at.nanos ==> r.duration_secs == 0,
{
    assert(out.push(r).drop_last() =~= out);
    assert(sessions.push(s).drop_last() =~= sessions);
}

/// The sessions that are looked at are those changed last, at most as many as the
/// limit, and all that qualify when there are fewer.
pub proof fn the_latest_sessions_are_looked_at(
    files: Seq<SessionFile>,
    cutoff: Option<Timestamp>,
    limit: nat,
    i: int,
    j: int,
)
    requires
        0 <= i < j < session_candidates(files, cutoff, limit).len(),
    ensures
        session_candidates(files, cutoff, limit).len() <= limit,
        files.filter(is_candidate(cutoff)).len() <= limit ==> session_candidates(
            files,
            cutoff,
            limit,
        ).to_multiset() == files.filter(is_candidate(cutoff)).to_multiset(),
        files.filter(is_candidate(cutoff)).len() >= limit ==> session_candidates(
            files,
            cutoff,
            limit,
        ).len() == limit,
        session_candidates(files, cutoff, limit)[i].modified is Some
            || session_candidates(files, cutoff, limit)[j].modified is None
            || session_candidates(files, cutoff, limit)[j].modified->0.nanos <= 0,
        session_candidates(files, cutoff, limit)[i].modified is Some && session_candidates(
            files,
            cutoff,
            limit,
        )[j].modified is Some ==> session_candidates(files, cutoff, limit)[i].modified->0.nanos
            >= session_candidates(files, cutoff, limit)[j].modified->0.nanos,
{
    let all = files.filter(is_candidate(cutoff));
    crate::ordering::ranking_keeps_everything(all);
    crate::ordering::ranking_is_in_order(all);
    let out = session_candidates(files, cutoff, limit);
    assert(out[i] == ranked(all)[i]);
    assert(out[j] == ranked(all)[j]);
    assert(!ranked(all)[j].ranks_before(ranked(all)[i]));
    if all.len() <= limit {
        assert(out =~= ranked(all));
    }
}

/// A graph's directory is the one that it is registered under; only a graph that is
/// registered under none is looked for in the history. Its id is its file's name
/// without the ending, and the index is no graph.
pub proof fn registered_directories_go_first(
    p: ProjectGraphHealth,
    f: GraphFile,
    dirs: Seq<Option<Seq<char>>>,
    ids: Seq<Option<Seq<char>>>,
)
    ensures
        describes(p, f, dirs, ids) ==> (f.registered matches Some(d) ==> opt_view(p.working_dir) == Some(
            d@,
        )),
        describes(p, f, dirs, ids) && f.registered is None ==> opt_view(p.working_dir)
            == dir_of_graph(dirs, ids, p.graph_id@),
        describes(p, f, dirs, ids) && has_suffix(f.name@, ".json"@) ==> f.name@ == p.graph_id@
            + ".json"@,
        holds_graph(f) ==> f.name@ != "index"@ + ".json"@ && f.memories is Some,
{
    reveal_strlit(".json");
    reveal_strlit("index");
    if has_suffix(f.name@, ".json"@) {
        assert(f.name@ =~= f.name@.take(f.name@.len() - 5) + ".json"@);
    }
    assert(("index"@ + ".json"@).take(5) =~= "index"@);
}

/// What is told of a past cycle begins with how long ago it started and how it
/// ended, goes on with the memories it modified and then the compactions it made,
/// and ends with what it said of itself.
pub proof fn past_cycles_are_told(c: PastCycle, now: Timestamp)
    ensures
        ({
            let line = cycle_line(c, now);
            let secs = truncated(now.nanos - c.started_at.nanos, 1_000_000_000);
            let head = "Past cycle ("@ + rough(secs) + " ago, "@ + (match c.status {
                CycleStatus::Complete => "complete"@,
                CycleStatus::Interrupted => "interrupted"@,
                CycleStatus::Incomplete => "incomplete"@,
            }) + "): "@;
            let counts = dec(c.memories_modified as nat) + " memories modified, "@ + dec(
                c.compactions as nat,
            ) + " compactions — "@;
            let said = if c.summary is Some {
                c.summary->0@
            } else {
                "no summary"@
            };
            &&& line == head + counts + said
        }),
{
    let secs = truncated(now.nanos - c.started_at.nanos, 1_000_000_000);
    let head = "Past cycle ("@ + rough(secs) + " ago, "@ + status_word(c.status) + "): "@;
    let counts = dec(c.memories_modified as nat) + " memories modified, "@ + dec(
        c.compactions as nat,
    ) + " compactions — "@;
    let said = if c.summary is Some {
        c.summary->0@
    } else {
        "no summary"@
    };
    assert(cycle_line(c, now) =~= head + counts + said);
}

} // verus!
