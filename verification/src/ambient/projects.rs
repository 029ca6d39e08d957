//! The user's configured projects: which there are, in which order, and which
//! of them a directory belongs to.

use crate::ambient::schedule_window::{
    allowed_by, allowed_by_views, good_specs, parse_windows, window_allows,
};
use crate::ambient::paths::{ambient_dir, ambient_dir_of, below, join_path};
use crate::numerals::{hex, hex_chars, hex_injective, hex_len, push_hex};
use crate::text::{
    char_is_alphanumeric, chars_of, copy_texts, has_prefix, is_alphanumeric, join, joined,
    opt_str_view, opt_view, owned, pieces, pieces_nonempty, split, str_eq, strip_prefix, trim, trim_end_char, trim_end_char_is_prefix, trim_end_matches, trimmed, views,
};
use crate::text_map::TextMap;
use crate::time::LocalTime;
use vstd::prelude::*;

verus! {

/// One `[[ambient.projects]]` table of the configuration.
#[derive(Debug, Clone)]
pub struct AmbientProject {
    pub path: String,
    pub pr_repo: String,
    pub instructions: String,
    pub instructions_file: String,
    pub active_windows: Vec<String>,
}

/// What the configuration says about projects.
#[derive(Debug)]
pub struct ProjectsConfig {
    /// Projects in priority order.
    pub projects: Vec<AmbientProject>,
    /// The older list of paths in priority order.
    pub project_priority: Vec<String>,
    /// The older map from path to review repository.
    pub pr_repos: TextMap<String>,
    /// The oldest setting: one review repository.
    pub pr_repo: String,
    /// Whether every schedule is to be ignored.
    pub ignore_active_windows: bool,
}

/// One configured project in the ambient rotation.
#[derive(Debug, Clone)]
pub struct ResolvedProject {
    /// Absolute project path, home expanded, no trailing slash.
    pub path: String,
    /// Review target as `owner/repo`, empty when the project's own `origin` is
    /// the right target.
    pub pr_repo: String,
    /// Standing instructions declared in the configuration.
    pub instructions: String,
    /// Windows during which this project may be worked on. Empty means no
    /// schedule of its own.
    pub active_windows: Vec<String>,
}

/// What a resolved project says.
pub struct ProjectView {
    pub path: Seq<char>,
    pub pr_repo: Seq<char>,
    pub instructions: Seq<char>,
    pub active_windows: Seq<Seq<char>>,
}

impl View for ResolvedProject {
    type V = ProjectView;

    open spec fn view(&self) -> ProjectView {
        ProjectView {
            path: self.path@,
            pr_repo: self.pr_repo@,
            instructions: self.instructions@,
            active_windows: views(self.active_windows@),
        }
    }
}

pub open spec fn project_views(s: Seq<ResolvedProject>) -> Seq<ProjectView> {
    s.map_values(|p: ResolvedProject| p@)
}

// ---------------------------------------------------------------------------
// Paths
// ---------------------------------------------------------------------------

/// A configured path: `~/` stands for the home directory where that is known,
/// and trailing slashes do not count.
pub open spec fn expanded(path: Seq<char>, home: Option<Seq<char>>) -> Seq<char> {
    let full = if has_prefix(path, "~/"@) && home is Some {
        trim_end_char(home->0, '/') + "/"@ + path.skip(2)
    } else {
        path
    };
    trim_end_char(full, '/')
}

/// Expands a configured path: `~/` against the home directory, trailing slash
/// off.
pub fn expand_project_path(path: &str, home: Option<&str>) -> (r: String)
    ensures
        r@ == expanded(path@, opt_str_view(home)),
{
    proof {
        reveal_strlit("~/");
    }
    if let Some(rest) = strip_prefix(path, "~/") {
        if let Some(home) = home {
            let mut full = owned(trim_end_matches(home, '/'));
            full.append("/");
            full.append(rest);
            assert(rest@ =~= path@.skip(2));
            return owned(trim_end_matches(full.as_str(), '/'));
        }
    }
    owned(trim_end_matches(path, '/'))
}

/// `dir` is the project or a directory below it. A sibling that shares the
/// beginning of the name is neither.
pub open spec fn belongs(dir: Seq<char>, project: Seq<char>) -> bool {
    let d = trim_end_char(dir, '/');
    let p = trim_end_char(project, '/');
    d == p || (has_prefix(d, p) && p.len() < d.len() && d[p.len() as int] == '/')
}

/// Whether a session's directory belongs to a project.
pub fn paths_match(session_dir: &str, project: &str) -> (r: bool)
    ensures
        r == belongs(session_dir@, project@),
{
    let dir = trim_end_matches(session_dir, '/');
    let proj = trim_end_matches(project, '/');
    if str_eq(dir, proj) {
        return true;
    }
    match strip_prefix(dir, proj) {
        Some(rest) => {
            assert(dir@.len() == proj@.len() + rest@.len());
            if rest.unicode_len() > 0 {
                assert(dir@[proj@.len() as int] == rest@[0]);
                rest.get_char(0) == '/'
            } else {
                false
            }
        },
        None => false,
    }
}

/// The first of `paths` that `dir` belongs to, `paths.len()` when there is
/// none.
pub open spec fn owner_index(paths: Seq<Seq<char>>, dir: Seq<char>) -> nat
    decreases paths.len(),
{
    if paths.len() == 0 || belongs(dir, paths[0]) {
        0
    } else {
        1 + owner_index(paths.drop_first(), dir)
    }
}

pub proof fn owner_index_is_first(paths: Seq<Seq<char>>, dir: Seq<char>)
    ensures
        owner_index(paths, dir) <= paths.len(),
        owner_index(paths, dir) < paths.len() ==> belongs(
            dir,
            paths[owner_index(paths, dir) as int],
        ),
        forall|i: int| 0 <= i < owner_index(paths, dir) ==> !belongs(dir, #[trigger] paths[i]),
    decreases paths.len(),
{
    if paths.len() > 0 && !belongs(dir, paths[0]) {
        let rest = paths.drop_first();
        owner_index_is_first(rest, dir);
        assert forall|i: int| 0 <= i < owner_index(paths, dir) implies !belongs(
            dir,
            #[trigger] paths[i],
        ) by {
            if i > 0 {
                assert(paths[i] == rest[i - 1]);
            }
        }
    }
}

/// The position of the first of `paths` that `dir` belongs to.
fn find_owner(paths: &Vec<String>, dir: &str) -> (r: usize)
    ensures
        r == owner_index(views(paths@), dir@),
        r <= paths@.len(),
{
    let ghost all = views(paths@);
    let mut i: usize = 0;
    assert(all.skip(0) =~= all);
    while i < paths.len()
        invariant
            all == views(paths@),
            i <= paths@.len(),
            owner_index(all, dir@) == i + owner_index(all.skip(i as int), dir@),
        decreases paths@.len() - i,
    {
        assert(all.skip(i as int)[0] == paths@[i as int]@);
        if paths_match(dir, paths[i].as_str()) {
            return i;
        }
        assert(all.skip(i as int).drop_first() =~= all.skip(i + 1));
        i = i + 1;
    }
    i
}

/// Index of `dir` in the priority list, or `usize::MAX` when it is not a
/// priority project. Lower sorts first.
pub open spec fn rank_of(priority: Seq<Seq<char>>, dir: Seq<char>) -> usize {
    let k = owner_index(priority, dir);
    if k < priority.len() {
        k as usize
    } else {
        usize::MAX
    }
}

/// Index of `dir` in the priority list, or `usize::MAX` when it is not a
/// priority project.
pub fn priority_rank(priority: &Vec<String>, dir: &str) -> (r: usize)
    ensures
        r == rank_of(views(priority@), dir@),
        r < usize::MAX <==> exists|i: int|
            0 <= i < priority@.len() && belongs(dir@, #[trigger] priority@[i]@),
{
    let k = find_owner(priority, dir);
    proof {
        let all = views(priority@);
        owner_index_is_first(all, dir@);
        assert(forall|i: int| 0 <= i < priority@.len() ==> all[i] == #[trigger] priority@[i]@);
        if k < priority@.len() {
            assert(belongs(dir@, priority@[k as int]@));
        }
        assert forall|i: int| 0 <= i < priority@.len() && belongs(dir@, #[trigger] priority@[i]@) implies k
            < priority@.len() by {
            assert(belongs(dir@, all[i]));
        }
    }
    if k < priority.len() {
        k
    } else {
        usize::MAX
    }
}

/// The project that a directory belongs to. A blank directory belongs to none.
pub open spec fn project_key_of(paths: Seq<Seq<char>>, dir: Option<Seq<char>>) -> Option<Seq<char>> {
    match dir {
        None => None,
        Some(d) => {
            let k = owner_index(paths, d);
            if trimmed(d).len() > 0 && k < paths.len() {
                Some(paths[k as int])
            } else {
                None
            }
        },
    }
}

/// The configured project that owns `dir`, if any. `paths` are the canonical
/// paths of the configured projects.
pub fn resolve_project_key(paths: &Vec<String>, dir: Option<&str>) -> (r: Option<String>)
    ensures
        opt_view(r) == project_key_of(views(paths@), opt_str_view(dir)),
{
    match dir {
        None => None,
        Some(d) => {
            if trim(d).is_empty() {
                return None;
            }
            let k = find_owner(paths, d);
            if k < paths.len() {
                Some(paths[k].clone())
            } else {
                None
            }
        },
    }
}

/// Paths are matched at directory boundaries: a project owns itself and what is
/// below it, with or without a trailing slash, and not a sibling whose name
/// merely begins with its own.
pub proof fn ownership_respects_boundaries(project: Seq<char>, rest: Seq<char>)
    requires
        project.len() > 0,
        project.last() != '/',
        rest.len() > 0,
        rest.last() != '/',
    ensures
        belongs(project, project),
        belongs(project.push('/'), project),
        belongs(project.push('/') + rest, project),
        rest[0] != '/' ==> !belongs(project + rest, project),
{
    let below = project.push('/') + rest;
    assert(below.last() == rest.last());
    assert(below.take(project.len() as int) =~= project);
    assert(below[project.len() as int] == '/');
    assert(project.push('/').drop_last() =~= project);
    let sibling = project + rest;
    assert(sibling.last() == rest.last());
    assert(sibling.len() != project.len());
    assert(sibling[project.len() as int] == rest[0]);
}

// ---------------------------------------------------------------------------
// Merging the configuration
// ---------------------------------------------------------------------------

/// A place of the configuration that names a project.
#[derive(Debug)]
pub struct Mention {
    pub path: String,
    pub pr_repo: String,
    pub instructions: String,
    pub active_windows: Vec<String>,
}

impl View for Mention {
    type V = ProjectView;

    open spec fn view(&self) -> ProjectView {
        ProjectView {
            path: self.path@,
            pr_repo: self.pr_repo@,
            instructions: self.instructions@,
            active_windows: views(self.active_windows@),
        }
    }
}

pub open spec fn mention_views(s: Seq<Mention>) -> Seq<ProjectView> {
    s.map_values(|m: Mention| m@)
}

/// What a mention says, with its path expanded and its repository trimmed.
pub open spec fn resolved(m: ProjectView, home: Option<Seq<char>>) -> ProjectView {
    ProjectView {
        path: expanded(trimmed(m.path), home),
        pr_repo: trimmed(m.pr_repo),
        instructions: m.instructions,
        active_windows: m.active_windows,
    }
}

/// `a` with what it leaves empty taken from `b`.
pub open spec fn filled(a: ProjectView, b: ProjectView) -> ProjectView {
    ProjectView {
        path: a.path,
        pr_repo: if a.pr_repo.len() == 0 {
            b.pr_repo
        } else {
            a.pr_repo
        },
        instructions: if a.instructions.len() == 0 {
            b.instructions
        } else {
            a.instructions
        },
        active_windows: if a.active_windows.len() == 0 {
            b.active_windows
        } else {
            a.active_windows
        },
    }
}

pub open spec fn lists_path(out: Seq<ProjectView>, path: Seq<char>) -> bool {
    exists|i: int| 0 <= i < out.len() && (#[trigger] out[i]).path == path
}

/// The list after one more mention. A blank path names nothing. The first
/// mention of a project gives it its rank; a later one fills in what is empty.
pub open spec fn with_mention(
    out: Seq<ProjectView>,
    m: ProjectView,
    home: Option<Seq<char>>,
) -> Seq<ProjectView> {
    let r = resolved(m, home);
    if trimmed(m.path).len() == 0 {
        out
    } else if lists_path(out, r.path) {
        out.map_values(|p: ProjectView| if p.path == r.path { filled(p, r) } else { p })
    } else {
        out.push(r)
    }
}

/// The list after every mention, in order.
pub open spec fn merged(ms: Seq<ProjectView>, home: Option<Seq<char>>) -> Seq<ProjectView>
    decreases ms.len(),
{
    if ms.len() == 0 {
        Seq::empty()
    } else {
        with_mention(merged(ms.drop_last(), home), ms.last(), home)
    }
}

/// No path is listed twice.
pub open spec fn distinct_paths(out: Seq<ProjectView>) -> bool {
    forall|i: int, j: int|
        0 <= i < j < out.len() ==> (#[trigger] out[i]).path != (#[trigger] out[j]).path
}

/// However often the configuration names a project, it is listed once.
pub proof fn merged_paths_are_distinct(ms: Seq<ProjectView>, home: Option<Seq<char>>)
    ensures
        distinct_paths(merged(ms, home)),
    decreases ms.len(),
{
    if ms.len() > 0 {
        merged_paths_are_distinct(ms.drop_last(), home);
        let out = merged(ms.drop_last(), home);
        let r = resolved(ms.last(), home);
        let now = merged(ms, home);
        assert forall|i: int, j: int| 0 <= i < j < now.len() implies (#[trigger] now[i]).path != (
        #[trigger] now[j]).path by {
            if j < out.len() {
                assert(now[i].path == out[i].path);
                assert(now[j].path == out[j].path);
            } else {
                assert(now[i] == out[i]);
            }
        }
    }
}

/// A later mention changes neither the rank of a project nor what it already
/// says.
pub proof fn first_mention_wins(out: Seq<ProjectView>, m: ProjectView, home: Option<Seq<char>>, i: int)
    requires
        0 <= i < out.len(),
    ensures
        out.len() <= with_mention(out, m, home).len(),
        with_mention(out, m, home)[i].path == out[i].path,
        out[i].pr_repo.len() > 0 ==> with_mention(out, m, home)[i].pr_repo == out[i].pr_repo,
        out[i].instructions.len() > 0 ==> with_mention(out, m, home)[i].instructions
            == out[i].instructions,
        out[i].active_windows.len() > 0 ==> with_mention(out, m, home)[i].active_windows
            == out[i].active_windows,
{
}

fn add_mention(out: &mut Vec<ResolvedProject>, m: Mention, home: Option<&str>)
    requires
        distinct_paths(project_views(old(out)@)),
    ensures
        project_views(final(out)@) == with_mention(
            project_views(old(out)@),
            m@,
            opt_str_view(home),
        ),
        distinct_paths(project_views(final(out)@)),
{
    let ghost was = project_views(out@);
    let ghost r = resolved(m@, opt_str_view(home));
    let raw = trim(m.path.as_str());
    if raw.is_empty() {
        return;
    }
    let path = expand_project_path(raw, home);
    let pr_repo = owned(trim(m.pr_repo.as_str()));
    let mut k: usize = 0;
    while k < out.len() && !str_eq(out[k].path.as_str(), path.as_str())
        invariant
            out@ == old(out)@,
            was == project_views(out@),
            k <= out@.len(),
            forall|i: int| 0 <= i < k ==> (#[trigger] was[i]).path != path@,
        decreases out@.len() - k,
    {
        assert(was[k as int].path == out@[k as int].path@);
        k = k + 1;
    }
    if k < out.len() {
        assert(was[k as int].path == r.path);
        let mut p = out.remove(k);
        let ghost before = p@;
        assert(before == was[k as int]);
        if p.pr_repo.as_str().is_empty() {
            p.pr_repo = pr_repo;
        }
        if p.instructions.as_str().is_empty() {
            p.instructions = m.instructions;
        }
        if p.active_windows.len() == 0 {
            p.active_windows = m.active_windows;
        }
        assert(p@ == filled(before, r)) by {
            assert(views(old(out)@[k as int].active_windows@).len() == old(
                out,
            )@[k as int].active_windows@.len());
        }
        let ghost after = p@;
        out.insert(k, p);
        proof {
            let now = project_views(out@);
            let target = was.map_values(
                |p: ProjectView| if p.path == r.path { filled(p, r) } else { p },
            );
            assert forall|i: int| 0 <= i < now.len() implies now[i] == target[i] by {
                if i == k {
                    assert(now[i] == after);
                } else {
                    assert(out@[i] == old(out)@[i]);
                    assert(was[i] == old(out)@[i]@);
                    if i < k {
                        assert(was[i].path != was[k as int].path);
                    } else {
                        assert(was[k as int].path != was[i].path);
                    }
                }
            }
            assert(now =~= target);
            assert forall|i: int, j: int| 0 <= i < j < now.len() implies (#[trigger] now[i]).path
                != (#[trigger] now[j]).path by {
                assert(now[i].path == was[i].path);
                assert(now[j].path == was[j].path);
            }
        }
    } else {
        proof {
            if lists_path(was, r.path) {
                let i = choose|i: int| 0 <= i < was.len() && (#[trigger] was[i]).path == r.path;
                assert(was[i].path != path@);
            }
        }
        out.push(
            ResolvedProject {
                path,
                pr_repo,
                instructions: m.instructions,
                active_windows: m.active_windows,
            },
        );
        assert(project_views(out@) =~= was.push(r));
    }
}

/// Merges mentions of projects into the list of projects.
pub fn merge_mentions(ms: Vec<Mention>, home: Option<&str>) -> (r: Vec<ResolvedProject>)
    ensures
        project_views(r@) == merged(mention_views(ms@), opt_str_view(home)),
        distinct_paths(project_views(r@)),
{
    let ghost all = mention_views(ms@);
    let ghost items = ms@;
    let mut out: Vec<ResolvedProject> = Vec::new();
    assert(all.take(0) =~= Seq::<ProjectView>::empty());
    assert(project_views(out@) =~= Seq::<ProjectView>::empty());
    for m in it: ms
        invariant
            it.seq() == items,
            all == mention_views(items),
            project_views(out@) == merged(all.take(it.index() as int), opt_str_view(home)),
            distinct_paths(project_views(out@)),
    {
        let ghost n = it.index() as int;
        assert(all.take(n + 1).drop_last() =~= all.take(n));
        assert(all.take(n + 1).last() == m@);
        add_mention(&mut out, m, home);
    }
    assert(all.take(all.len() as int) =~= all);
    out
}

/// The last segment of a path.
pub open spec fn last_segment(s: Seq<char>) -> Seq<char> {
    pieces(s, '/').last()
}

pub fn final_segment(s: &str) -> (r: String)
    ensures
        r@ == last_segment(s@),
{
    let mut parts = split(s, '/');
    proof {
        pieces_nonempty(s@, '/');
        assert(views(parts@).last() == parts@.last()@);
    }
    parts.pop().unwrap()
}

/// The review repository of a project that has none, when the single
/// repository of the configuration has the name of the project's directory.
pub open spec fn with_legacy_repo(p: ProjectView, legacy: Seq<char>) -> ProjectView {
    if legacy.len() > 0 && p.pr_repo.len() == 0 && last_segment(p.path) == last_segment(legacy) {
        ProjectView { pr_repo: legacy, ..p }
    } else {
        p
    }
}

fn fill_legacy_repo(projects: Vec<ResolvedProject>, legacy: &str) -> (r: Vec<ResolvedProject>)
    ensures
        project_views(r@) == project_views(projects@).map_values(
            |p: ProjectView| with_legacy_repo(p, legacy@),
        ),
{
    let ghost items = projects@;
    let mut out: Vec<ResolvedProject> = Vec::new();
    for p in it: projects
        invariant
            it.seq() == items,
            out@.len() == it.index(),
            forall|i: int|
                0 <= i < out@.len() ==> (#[trigger] out@[i])@ == with_legacy_repo(
                    items[i]@,
                    legacy@,
                ),
    {
        let ghost was = p@;
        let mut p = p;
        if !legacy.is_empty() && p.pr_repo.as_str().is_empty() && str_eq(
            final_segment(p.path.as_str()).as_str(),
            final_segment(legacy).as_str(),
        ) {
            p.pr_repo = owned(legacy);
        }
        assert(p@ == with_legacy_repo(was, legacy@));
        out.push(p);
    }
    assert(project_views(out@) =~= project_views(items).map_values(
        |p: ProjectView| with_legacy_repo(p, legacy@),
    ));
    out
}

// ---------------------------------------------------------------------------
// Instructions
// ---------------------------------------------------------------------------

/// Directory, below the ambient directory, holding per-project instruction
/// files.
pub const AMBIENT_INSTRUCTIONS_DIR: &'static str = "instructions";

/// File name, below the data directory, holding the user's standing ambient
/// instructions.
pub const AMBIENT_INSTRUCTIONS_FILE: &'static str = "ambient-instructions.md";

/// The text that the contents of an instructions file amount to: none when it
/// is blank.
pub open spec fn instructions_text(contents: Seq<char>) -> Option<Seq<char>> {
    if trimmed(contents).len() == 0 {
        None
    } else {
        Some(trimmed(contents))
    }
}

/// The text that the contents of an instructions file amount to.
pub fn read_instructions(contents: Option<&str>) -> (r: Option<String>)
    ensures
        opt_view(r) == (match contents {
            Some(c) => instructions_text(c@),
            None => None,
        }),
{
    match contents {
        Some(c) => {
            let t = trim(c);
            if t.is_empty() {
                None
            } else {
                Some(owned(t))
            }
        },
        None => None,
    }
}

/// Where the user's standing instructions are.
pub fn user_instructions_path(data_dir: &str) -> (r: String)
    ensures
        r@ == crate::ambient::paths::below(data_dir@, AMBIENT_INSTRUCTIONS_FILE@),
{
    crate::ambient::paths::join_path(data_dir, AMBIENT_INSTRUCTIONS_FILE)
}

/// Standing ambient instructions written by the user, if any, given the
/// contents of their file.
pub fn user_ambient_instructions(contents: Option<&str>) -> (r: Option<String>)
    ensures
        opt_view(r) == (match contents {
            Some(c) => instructions_text(c@),
            None => None,
        }),
{
    read_instructions(contents)
}

/// Per-project standing instructions, if any, given the contents of the
/// project's central instructions file.
pub fn project_ambient_instructions(contents: Option<&str>) -> (r: Option<String>)
    ensures
        opt_view(r) == (match contents {
            Some(c) => instructions_text(c@),
            None => None,
        }),
{
    read_instructions(contents)
}

/// The instructions declared for a project: the inline text and that of its
/// file, as far as there are any, apart by a blank line.
pub open spec fn declared_instructions(inline: Seq<char>, file: Option<Seq<char>>) -> Seq<char> {
    let a = if trimmed(inline).len() > 0 {
        seq![trimmed(inline)]
    } else {
        Seq::empty()
    };
    let b = match file {
        Some(contents) => match instructions_text(contents) {
            Some(text) => seq![text],
            None => Seq::empty(),
        },
        None => Seq::empty(),
    };
    joined(a + b, "\n\n"@)
}

/// Standing instructions declared for a project in the configuration: the
/// inline text, plus the contents of its instructions file when it names one.
pub fn configured_project_instructions(project: &AmbientProject, file: Option<&str>) -> (r: String)
    ensures
        r@ == declared_instructions(
            project.instructions@,
            if trimmed(project.instructions_file@).len() > 0 {
                opt_str_view(file)
            } else {
                None
            },
        ),
{
    let mut parts: Vec<String> = Vec::new();
    let inline = trim(project.instructions.as_str());
    let ghost a = if inline@.len() > 0 {
        seq![inline@]
    } else {
        Seq::<Seq<char>>::empty()
    };
    if !inline.is_empty() {
        parts.push(owned(inline));
    }
    assert(views(parts@) =~= a);
    if !trim(project.instructions_file.as_str()).is_empty() {
        if let Some(text) = read_instructions(file) {
            let ghost t = text@;
            parts.push(text);
            assert(views(parts@) =~= a + seq![t]);
        } else {
            assert(a + Seq::<Seq<char>>::empty() =~= a);
        }
    } else {
        assert(a + Seq::<Seq<char>>::empty() =~= a);
    }
    join(&parts, "\n\n")
}

/// Where the instructions file of a project is: an absolute or home-relative
/// path as it stands, a bare name in the instructions directory.
pub open spec fn instructions_file_at(
    data_dir: Seq<char>,
    home: Option<Seq<char>>,
    file: Seq<char>,
) -> Seq<char> {
    if has_prefix(file, "/"@) || has_prefix(file, "~/"@) {
        expanded(file, home)
    } else {
        crate::ambient::paths::below(
            crate::ambient::paths::below(
                crate::ambient::paths::ambient_dir_of(data_dir),
                AMBIENT_INSTRUCTIONS_DIR@,
            ),
            file,
        )
    }
}

/// Where the instructions file of a project is, when it names one.
pub fn instructions_file_path(project: &AmbientProject, data_dir: &str, home: Option<&str>) -> (r:
    Option<String>)
    ensures
        opt_view(r) == (if trimmed(project.instructions_file@).len() == 0 {
            None
        } else {
            Some(
                instructions_file_at(
                    data_dir@,
                    opt_str_view(home),
                    trimmed(project.instructions_file@),
                ),
            )
        }),
{
    let file = trim(project.instructions_file.as_str());
    if file.is_empty() {
        return None;
    }
    if crate::text::starts_with(file, "/") || crate::text::starts_with(file, "~/") {
        return Some(expand_project_path(file, home));
    }
    let ambient = crate::ambient::paths::ambient_dir(data_dir);
    let dir = crate::ambient::paths::join_path(ambient.as_str(), AMBIENT_INSTRUCTIONS_DIR);
    Some(crate::ambient::paths::join_path(dir.as_str(), file))
}

// ---------------------------------------------------------------------------
// The list
// ---------------------------------------------------------------------------

/// What the `[[ambient.projects]]` tables mention, given the contents of their
/// instructions files.
pub open spec fn table_mentions(
    projects: Seq<AmbientProject>,
    files: Seq<Option<Seq<char>>>,
) -> Seq<ProjectView> {
    Seq::new(
        projects.len(),
        |i: int|
            ProjectView {
                path: projects[i].path@,
                pr_repo: projects[i].pr_repo@,
                instructions: declared_instructions(
                    projects[i].instructions@,
                    if trimmed(projects[i].instructions_file@).len() > 0 && i < files.len() {
                        files[i]
                    } else {
                        None
                    },
                ),
                active_windows: views(projects[i].active_windows@),
            },
    )
}

/// A mention of a path and a review repository alone.
pub open spec fn bare_mention(path: Seq<char>, repo: Seq<char>) -> ProjectView {
    ProjectView {
        path,
        pr_repo: repo,
        instructions: Seq::empty(),
        active_windows: Seq::empty(),
    }
}

/// Every mention of a project, in order of precedence.
pub open spec fn mentions(cfg: ProjectsConfig, files: Seq<Option<Seq<char>>>) -> Seq<ProjectView> {
    table_mentions(cfg.projects@, files) + cfg.project_priority@.map_values(
        |p: String| bare_mention(p@, Seq::empty()),
    ) + cfg.pr_repos.entries@.map_values(|e: (String, String)| bare_mention(e.0@, e.1@))
}

/// The user's configured projects, highest priority first.
pub open spec fn projects_of(
    cfg: ProjectsConfig,
    files: Seq<Option<Seq<char>>>,
    home: Option<Seq<char>>,
) -> Seq<ProjectView> {
    merged(mentions(cfg, files), home).map_values(
        |p: ProjectView| with_legacy_repo(p, trimmed(cfg.pr_repo@)),
    )
}

pub open spec fn opt_views(s: Seq<Option<String>>) -> Seq<Option<Seq<char>>> {
    s.map_values(|o: Option<String>| opt_view(o))
}

/// The user's configured projects, highest priority first. `files` holds the
/// contents of each project table's instructions file, `home` the home
/// directory.
pub fn configured_projects(cfg: &ProjectsConfig, files: &Vec<Option<String>>, home: Option<&str>) -> (r:
    Vec<ResolvedProject>)
    ensures
        project_views(r@) == projects_of(*cfg, opt_views(files@), opt_str_view(home)),
{
    let mut ms: Vec<Mention> = Vec::new();
    let ghost tables = table_mentions(cfg.projects@, opt_views(files@));
    let mut i: usize = 0;
    while i < cfg.projects.len()
        invariant
            i <= cfg.projects@.len(),
            tables == table_mentions(cfg.projects@, opt_views(files@)),
            ms@.len() == i,
            forall|j: int| 0 <= j < i ==> (#[trigger] ms@[j])@ == tables[j],
        decreases cfg.projects@.len() - i,
    {
        let p = &cfg.projects[i];
        let file: Option<&str> = if i < files.len() {
            match &files[i] {
                Some(s) => Some(s.as_str()),
                None => None,
            }
        } else {
            None
        };
        proof {
            if i < files@.len() {
                assert(opt_views(files@)[i as int] == opt_view(files@[i as int]));
            }
        }
        ms.push(
            Mention {
                path: p.path.clone(),
                pr_repo: p.pr_repo.clone(),
                instructions: configured_project_instructions(p, file),
                active_windows: copy_texts(&p.active_windows),
            },
        );
        i = i + 1;
    }
    assert(mention_views(ms@) =~= tables);
    let ghost second = cfg.project_priority@.map_values(
        |p: String| bare_mention(p@, Seq::empty()),
    );
    let mut i: usize = 0;
    while i < cfg.project_priority.len()
        invariant
            i <= cfg.project_priority@.len(),
            second == cfg.project_priority@.map_values(
                |p: String| bare_mention(p@, Seq::empty()),
            ),
            mention_views(ms@) == tables + second.take(i as int),
        decreases cfg.project_priority@.len() - i,
    {
        let m = Mention {
            path: cfg.project_priority[i].clone(),
            pr_repo: String::new(),
            instructions: String::new(),
            active_windows: Vec::new(),
        };
        assert(m@.active_windows =~= Seq::<Seq<char>>::empty());
        assert(m@ == second[i as int]);
        let ghost was = ms@;
        let ghost v = m@;
        ms.push(m);
        assert(mention_views(ms@) =~= mention_views(was).push(v));
        assert(tables + second.take(i + 1) =~= (tables + second.take(i as int)).push(v));
        i = i + 1;
    }
    let ghost third = cfg.pr_repos.entries@.map_values(
        |e: (String, String)| bare_mention(e.0@, e.1@),
    );
    assert(second.take(second.len() as int) =~= second);
    let mut i: usize = 0;
    while i < cfg.pr_repos.entries.len()
        invariant
            i <= cfg.pr_repos.entries@.len(),
            third == cfg.pr_repos.entries@.map_values(
                |e: (String, String)| bare_mention(e.0@, e.1@),
            ),
            mention_views(ms@) == tables + second + third.take(i as int),
        decreases cfg.pr_repos.entries@.len() - i,
    {
        let m = Mention {
            path: cfg.pr_repos.entries[i].0.clone(),
            pr_repo: cfg.pr_repos.entries[i].1.clone(),
            instructions: String::new(),
            active_windows: Vec::new(),
        };
        assert(m@.active_windows =~= Seq::<Seq<char>>::empty());
        assert(m@ == third[i as int]);
        let ghost was = ms@;
        let ghost v = m@;
        ms.push(m);
        assert(mention_views(ms@) =~= mention_views(was).push(v));
        assert(tables + second + third.take(i + 1) =~= (tables + second + third.take(i as int)).push(
            v,
        ));
        i = i + 1;
    }
    assert(third.take(third.len() as int) =~= third);
    let out = merge_mentions(ms, home);
    fill_legacy_repo(out, trim(cfg.pr_repo.as_str()))
}

/// A project may be worked on: it has no schedule of its own, schedules are
/// ignored, or one of its windows is open. Entries that do not parse do not
/// count, so a project none of whose entries parse is not fenced off.
pub open spec fn project_open(p: ProjectView, ignore_windows: bool, now: LocalTime) -> bool {
    p.active_windows.len() == 0 || ignore_windows || allowed_by(good_specs(p.active_windows), now)
}

/// Whether a project's own windows are open at `now`.
pub fn project_window_open(project: &ResolvedProject, ignore_windows: bool, now: &LocalTime) -> (r: bool)
    ensures
        r == project_open(project@, ignore_windows, *now),
{
    if project.active_windows.len() == 0 {
        return true;
    }
    if ignore_windows {
        return true;
    }
    let (windows, _bad) = parse_windows(&project.active_windows);
    proof {
        allowed_by_views(windows@, *now);
    }
    window_allows(&windows, now)
}

/// The projects that may be worked on, in configured order.
pub open spec fn workable(ps: Seq<ProjectView>, ignore_windows: bool, now: LocalTime) -> Seq<ProjectView> {
    ps.filter(|p: ProjectView| project_open(p, ignore_windows, now))
}

/// The projects held back by their own schedule, in configured order.
pub open spec fn held_back(ps: Seq<ProjectView>, ignore_windows: bool, now: LocalTime) -> Seq<ProjectView> {
    ps.filter(|p: ProjectView| !project_open(p, ignore_windows, now))
}

/// Parts the projects into those that may be worked on and those held back by
/// their own schedule.
pub fn workable_projects(projects: Vec<ResolvedProject>, ignore_windows: bool, now: &LocalTime) -> (r: (
    Vec<ResolvedProject>,
    Vec<ResolvedProject>,
))
    ensures
        project_views(r.0@) == workable(project_views(projects@), ignore_windows, *now),
        project_views(r.1@) == held_back(project_views(projects@), ignore_windows, *now),
{
    let ghost items = projects@;
    let ghost all = project_views(items);
    let ghost open = |p: ProjectView| project_open(p, ignore_windows, *now);
    let ghost shut = |p: ProjectView| !project_open(p, ignore_windows, *now);
    let mut a: Vec<ResolvedProject> = Vec::new();
    let mut b: Vec<ResolvedProject> = Vec::new();
    proof {
        reveal(Seq::filter);
        assert(all.take(0) =~= Seq::<ProjectView>::empty());
        assert(project_views(a@) =~= Seq::<ProjectView>::empty());
        assert(project_views(b@) =~= Seq::<ProjectView>::empty());
    }
    for p in it: projects
        invariant
            it.seq() == items,
            all == project_views(items),
            open == (|p: ProjectView| project_open(p, ignore_windows, *now)),
            shut == (|p: ProjectView| !project_open(p, ignore_windows, *now)),
            project_views(a@) == all.take(it.index() as int).filter(open),
            project_views(b@) == all.take(it.index() as int).filter(shut),
    {
        proof {
            reveal(Seq::filter);
            let n = it.index() as int;
            assert(all.take(n + 1).drop_last() =~= all.take(n));
            assert(all.take(n + 1).last() == p@);
        }
        let ghost v = p@;
        if project_window_open(&p, ignore_windows, now) {
            let ghost was = a@;
            a.push(p);
            assert(project_views(a@) =~= project_views(was).push(v));
        } else {
            let ghost was = b@;
            b.push(p);
            assert(project_views(b@) =~= project_views(was).push(v));
        }
    }
    assert(all.take(all.len() as int) =~= all);
    (a, b)
}

/// The paths of a list of projects, in order.
pub open spec fn paths_of(ps: Seq<ProjectView>) -> Seq<Seq<char>> {
    ps.map_values(|p: ProjectView| p.path)
}

/// Just the project paths, highest priority first.
pub fn configured_project_priority(projects: &Vec<ResolvedProject>) -> (r: Vec<String>)
    ensures
        views(r@) == paths_of(project_views(projects@)),
{
    let mut out: Vec<String> = Vec::new();
    let mut i: usize = 0;
    while i < projects.len()
        invariant
            i <= projects@.len(),
            out@.len() == i,
            forall|j: int| 0 <= j < i ==> (#[trigger] out@[j])@ == projects@[j].path@,
        decreases projects@.len() - i,
    {
        out.push(projects[i].path.clone());
        i = i + 1;
    }
    assert(views(out@) =~= paths_of(project_views(projects@)));
    out
}

// ---------------------------------------------------------------------------
// Names of instruction files
// ---------------------------------------------------------------------------

/// What stands for `c` in the name of an instructions file: a letter or a digit
/// stands for itself, a dash for a slash, and an underscore starts what stands
/// for anything else.
pub open spec fn slug_code(c: char) -> Seq<char> {
    if is_alphanumeric(c) {
        seq![c]
    } else if c == '/' {
        seq!['-']
    } else if c == '-' || c == '_' {
        seq!['_', c]
    } else {
        seq!['_', 'x'] + hex(c as u32 as nat, 6)
    }
}

pub open spec fn slug_codes(s: Seq<char>) -> Seq<char>
    decreases s.len(),
{
    if s.len() == 0 {
        Seq::empty()
    } else {
        slug_code(s[0]) + slug_codes(s.drop_first())
    }
}

/// A path without the slashes it ends in and without the one it starts with.
pub open spec fn slug_core(dir: Seq<char>) -> Seq<char> {
    let t = trim_end_char(dir, '/');
    if t.len() > 0 && t[0] == '/' {
        t.drop_first()
    } else {
        t
    }
}

/// The whole path flattened into one name, so that no two projects share a file.
pub open spec fn slug(dir: Seq<char>) -> Seq<char> {
    if slug_core(dir).len() == 0 {
        "_root"@
    } else {
        slug_codes(slug_core(dir))
    }
}

/// Name of the instructions file of an absolute project path.
pub fn project_instructions_slug(project_dir: &str) -> (r: String)
    ensures
        r@ == slug(project_dir@),
{
    let t = trim_end_matches(project_dir, '/');
    let v = chars_of(t);
    let lo: usize = if v.len() > 0 && v[0] == '/' {
        1
    } else {
        0
    };
    let ghost core = slug_core(project_dir@);
    assert(v@.skip(lo as int) =~= core);
    if lo == v.len() {
        return owned("_root");
    }
    let mut out = String::new();
    let mut i: usize = lo;
    assert(out@ + slug_codes(core) =~= slug_codes(core));
    while i < v.len()
        invariant
            lo <= i <= v@.len(),
            out@ + slug_codes(v@.skip(i as int)) == slug_codes(core),
        decreases v@.len() - i,
    {
        let c = v[i];
        let ghost was = out@;
        assert(v@.skip(i as int)[0] == c);
        assert(v@.skip(i as int).drop_first() =~= v@.skip(i + 1));
        if char_is_alphanumeric(c) {
            out.push(c);
        } else if c == '/' {
            out.push('-');
        } else if c == '-' || c == '_' {
            out.push('_');
            out.push(c);
        } else {
            out.push('_');
            out.push('x');
            push_hex(&mut out, c as u32 as u64, 6);
        }
        assert(out@ =~= was + slug_code(c));
        i = i + 1;
        assert(out@ + slug_codes(v@.skip(i as int)) =~= was + (slug_code(c) + slug_codes(
            v@.skip(i as int),
        )));
    }
    assert(out@ + slug_codes(v@.skip(i as int)) =~= out@);
    out
}

proof fn slug_code_shape(c: char)
    ensures
        slug_code(c).len() >= 1,
        slug_code(c)[0] == '_' ==> slug_code(c).len() >= 2 && (slug_code(c)[1] == '-' || slug_code(
            c,
        )[1] == '_' || slug_code(c)[1] == 'x'),
        forall|i: int|
            0 <= i < slug_code(c).len() ==> is_alphanumeric(#[trigger] slug_code(c)[i])
                || slug_code(c)[i] == '-' || slug_code(c)[i] == '_',
{
    hex_len(c as u32 as nat, 6);
    hex_chars(c as u32 as nat, 6);
    if !is_alphanumeric(c) && c != '/' && c != '-' && c != '_' {
        assert forall|i: int| 0 <= i < slug_code(c).len() implies is_alphanumeric(
            #[trigger] slug_code(c)[i],
        ) || slug_code(c)[i] == '-' || slug_code(c)[i] == '_' by {
            if i >= 2 {
                assert(slug_code(c)[i] == hex(c as u32 as nat, 6)[i - 2]);
            }
        }
    }
}

/// No code is the start of what another code begins.
proof fn slug_code_decodes(a: char, b: char, s: Seq<char>, t: Seq<char>)
    requires
        slug_code(a) + s == slug_code(b) + t,
    ensures
        a == b,
        s == t,
{
    let whole = slug_code(a) + s;
    let same = slug_code(b) + t;
    slug_code_shape(a);
    slug_code_shape(b);
    assert(whole[0] == slug_code(a)[0]);
    assert(same[0] == slug_code(b)[0]);
    if slug_code(a)[0] == '_' {
        assert(whole[1] == slug_code(a)[1]);
        assert(same[1] == slug_code(b)[1]);
        if slug_code(a)[1] == 'x' {
            hex_len(a as u32 as nat, 6);
            hex_len(b as u32 as nat, 6);
            assert(whole.subrange(2, 8) =~= hex(a as u32 as nat, 6));
            assert(same.subrange(2, 8) =~= hex(b as u32 as nat, 6));
            assert(vstd::arithmetic::power::pow(16, 6) == 0x100_0000) by {
                reveal_with_fuel(vstd::arithmetic::power::pow, 7);
            }
            hex_injective(a as u32 as nat, b as u32 as nat, 6);
        }
    }
    assert(a == b);
    assert(whole.skip(slug_code(a).len() as int) =~= s);
    assert(same.skip(slug_code(b).len() as int) =~= t);
}

proof fn slug_codes_decode(s: Seq<char>, t: Seq<char>)
    requires
        slug_codes(s) == slug_codes(t),
    ensures
        s == t,
    decreases s.len(),
{
    if s.len() > 0 {
        slug_code_shape(s[0]);
    }
    if t.len() > 0 {
        slug_code_shape(t[0]);
    }
    if s.len() > 0 && t.len() > 0 {
        slug_code_decodes(s[0], t[0], slug_codes(s.drop_first()), slug_codes(t.drop_first()));
        slug_codes_decode(s.drop_first(), t.drop_first());
        assert(s =~= seq![s[0]] + s.drop_first());
        assert(t =~= seq![t[0]] + t.drop_first());
    } else {
        assert(s.len() > 0 ==> slug_codes(s).len() > 0);
        assert(t.len() > 0 ==> slug_codes(t).len() > 0);
        assert(s =~= t);
    }
}

/// A name consists of letters, digits, dashes and underscores, and there is at
/// least one of them.
pub proof fn slugs_are_plain(dir: Seq<char>)
    ensures
        slug(dir).len() > 0,
        forall|i: int|
            0 <= i < slug(dir).len() ==> is_alphanumeric(#[trigger] slug(dir)[i]) || slug(dir)[i]
                == '-' || slug(dir)[i] == '_',
{
    reveal_strlit("_root");
    slug_codes_are_plain(slug_core(dir));
}

proof fn slug_codes_are_plain(s: Seq<char>)
    ensures
        s.len() > 0 ==> slug_codes(s).len() > 0,
        forall|i: int|
            0 <= i < slug_codes(s).len() ==> is_alphanumeric(#[trigger] slug_codes(s)[i])
                || slug_codes(s)[i] == '-' || slug_codes(s)[i] == '_',
    decreases s.len(),
{
    if s.len() > 0 {
        let head = slug_code(s[0]);
        let rest = slug_codes(s.drop_first());
        slug_code_shape(s[0]);
        slug_codes_are_plain(s.drop_first());
        assert forall|i: int| 0 <= i < slug_codes(s).len() implies is_alphanumeric(
            #[trigger] slug_codes(s)[i],
        ) || slug_codes(s)[i] == '-' || slug_codes(s)[i] == '_' by {
            if i < head.len() {
                assert(slug_codes(s)[i] == head[i]);
            } else {
                assert(slug_codes(s)[i] == rest[i - head.len()]);
            }
        }
    }
}

/// Two absolute paths that differ in more than the slashes they end in have
/// different names.
pub proof fn slugs_are_distinct(a: Seq<char>, b: Seq<char>)
    requires
        a.len() > 0 && a[0] == '/',
        b.len() > 0 && b[0] == '/',
        trim_end_char(a, '/') != trim_end_char(b, '/'),
    ensures
        slug(a) != slug(b),
{
    let s = trim_end_char(a, '/');
    let t = trim_end_char(b, '/');
    trim_end_char_is_prefix(a, '/');
    trim_end_char_is_prefix(b, '/');
    if slug(a) == slug(b) {
        if s.len() == 0 || t.len() == 0 {
            let core = if s.len() == 0 {
                slug_core(b)
            } else {
                slug_core(a)
            };
            reveal_strlit("_root");
            if s.len() == 0 && t.len() == 0 {
                assert(s =~= t);
            }
            assert(s.len() > 0 ==> s[0] == a[0] && s.len() > 1);
            assert(t.len() > 0 ==> t[0] == b[0] && t.len() > 1);
            assert(core.len() > 0);
            assert(slug_codes(core) == "_root"@);
            slug_code_shape(core[0]);
            assert(slug_codes(core)[0] == slug_code(core[0])[0]);
            assert(slug_codes(core)[1] == slug_code(core[0])[1]);
        } else {
            slug_codes_decode(slug_core(a), slug_core(b));
            assert(s =~= seq!['/'] + slug_core(a));
            assert(t =~= seq!['/'] + slug_core(b));
        }
    }
}

/// Where the instructions of a project are kept.
pub open spec fn instructions_path(data_dir: Seq<char>, project_dir: Seq<char>) -> Seq<char> {
    below(
        below(ambient_dir_of(data_dir), AMBIENT_INSTRUCTIONS_DIR@),
        slug(project_dir) + ".md"@,
    )
}

/// Two projects never share an instructions file: absolute paths that differ in
/// more than the slashes they end in have different ones, whatever their last
/// components are.
pub proof fn instruction_files_are_distinct(data_dir: Seq<char>, a: Seq<char>, b: Seq<char>)
    requires
        a.len() > 0 && a[0] == '/',
        b.len() > 0 && b[0] == '/',
        trim_end_char(a, '/') != trim_end_char(b, '/'),
    ensures
        instructions_path(data_dir, a) != instructions_path(data_dir, b),
{
    slugs_are_distinct(a, b);
    slugs_are_plain(a);
    slugs_are_plain(b);
    let base = below(ambient_dir_of(data_dir), AMBIENT_INSTRUCTIONS_DIR@);
    let m = slug(a) + ".md"@;
    let n = slug(b) + ".md"@;
    let p = below(base, m);
    let q = below(base, n);
    assert(m[0] == slug(a)[0] && n[0] == slug(b)[0]);
    assert(m[0] != '/' && n[0] != '/');
    if p == q {
        assert(p.len() - m.len() == q.len() - n.len());
        let k: int = p.len() - m.len();
        assert(p.skip(k) =~= m);
        assert(q.skip(k) =~= n);
        assert(m.take(slug(a).len() as int) =~= slug(a));
        assert(n.take(slug(b).len() as int) =~= slug(b));
    }
}

/// Path of the central instructions file of a project directory. It is below
/// the data directory, never inside the project.
pub fn project_instructions_path(data_dir: &str, project_dir: &str) -> (r: String)
    ensures
        r@ == instructions_path(data_dir@, project_dir@),
{
    let ambient = ambient_dir(data_dir);
    let dir = join_path(ambient.as_str(), AMBIENT_INSTRUCTIONS_DIR);
    let mut name = project_instructions_slug(project_dir);
    name.append(".md");
    join_path(dir.as_str(), name.as_str())
}

/// A trailing slash does not make another project.
pub proof fn slug_ignores_trailing_slash(dir: Seq<char>)
    ensures
        slug(dir.push('/')) == slug(dir),
{
    assert(dir.push('/').drop_last() =~= dir);
}

/// A directory counts for the first project that it lies in, and for none when it
/// lies in none or is blank.
pub proof fn a_directory_counts_for_its_project(
    paths: Seq<Seq<char>>,
    dir: Seq<char>,
    path: Seq<char>,
)
    ensures
        project_key_of(paths, None) is None,
        project_key_of(paths, Some(dir)) == Some(path) <==> trimmed(dir).len() > 0 && exists|k: int|
            0 <= k < paths.len() && #[trigger] paths[k] == path && belongs(dir, path) && forall|i: int|
                0 <= i < k ==> !belongs(dir, #[trigger] paths[i]),
        project_key_of(paths, Some(dir)) is None <==> trimmed(dir).len() == 0 || forall|i: int|
            0 <= i < paths.len() ==> !belongs(dir, #[trigger] paths[i]),
{
    owner_index_is_first(paths, dir);
}

/// A project without hours of its own is always worked on, and so is every project
/// when hours are ignored. One with hours is worked on only while they last, and
/// one that is not listed never.
pub proof fn projects_keep_their_hours(ps: Seq<ProjectView>, p: ProjectView, now: LocalTime)
    ensures
        workable(ps, true, now) == ps,
        workable(ps, false, now).contains(p) ==> ps.contains(p),
        ps.contains(p) && p.active_windows.len() == 0 ==> workable(ps, false, now).contains(p),
        ps.contains(p) && p.active_windows.len() > 0 ==> (workable(ps, false, now).contains(p)
            <==> allowed_by(good_specs(p.active_windows), now)),
{
    all_are_workable(ps, now);
    crate::ambient::queue_laws::members_of_filter(ps, |q: ProjectView| project_open(q, false, now), p);
}

proof fn all_are_workable(ps: Seq<ProjectView>, now: LocalTime)
    ensures
        workable(ps, true, now) == ps,
    decreases ps.len(),
{
    reveal(Seq::filter);
    if ps.len() > 0 {
        all_are_workable(ps.drop_last(), now);
        assert(ps.drop_last().push(ps.last()) =~= ps);
    }
}

/// The single repository fills in for a project that names none and that is called
/// what the repository is called. Nothing else of a project changes.
pub proof fn the_single_repository_fills_in(p: ProjectView, repo: Seq<char>)
    ensures
        ({
            let q = with_legacy_repo(p, repo);
            &&& q.path == p.path
            &&& q.instructions == p.instructions
            &&& q.active_windows == p.active_windows
            &&& p.pr_repo.len() > 0 ==> q.pr_repo == p.pr_repo
            &&& q.pr_repo != p.pr_repo ==> q.pr_repo == repo && last_segment(p.path) == last_segment(
                repo,
            )
            &&& p.pr_repo.len() == 0 && last_segment(p.path) == last_segment(repo) ==> q.pr_repo
                == repo
        }),
{
    if p.pr_repo.len() == 0 && repo.len() == 0 {
        assert(p.pr_repo =~= repo);
    }
}

/// A path below the home directory is spelled out, whether or not the home ends in
/// a slash; any other path does not depend on the home; and none keeps a slash at
/// its end.
pub proof fn home_is_spelled_out(path: Seq<char>, home: Seq<char>, rest: Seq<char>)
    ensures
        expanded("~/"@ + rest, Some(home)) == trim_end_char(
            trim_end_char(home, '/') + "/"@ + rest,
            '/',
        ),
        expanded("~/"@ + rest, Some(home)) == expanded("~/"@ + rest, Some(home + "/"@)),
        !has_prefix(path, "~/"@) ==> expanded(path, Some(home)) == trim_end_char(path, '/'),
        expanded(path, None) == trim_end_char(path, '/'),
        expanded(path, Some(home)).len() > 0 ==> expanded(path, Some(home)).last() != '/',
{
    reveal_strlit("~/");
    reveal_strlit("/");
    let full = "~/"@ + rest;
    assert(full.take(2) =~= "~/"@);
    assert(full.skip(2) =~= rest);
    assert((home + "/"@).drop_last() =~= home);
    no_slash_ends(path);
    no_slash_ends(trim_end_char(home, '/') + "/"@ + path.skip(2));
}

proof fn no_slash_ends(s: Seq<char>)
    ensures
        trim_end_char(s, '/').len() > 0 ==> trim_end_char(s, '/').last() != '/',
    decreases s.len(),
{
    if s.len() > 0 && s.last() == '/' {
        no_slash_ends(s.drop_last());
    }
}

/// What a project's table says and what its file says are both told, in that order
/// and a blank line apart; either one alone stands for itself.
pub proof fn both_kinds_of_instructions_are_kept(inline: Seq<char>, contents: Seq<char>)
    ensures
        declared_instructions(inline, None) == trimmed(inline),
        trimmed(contents).len() == 0 ==> declared_instructions(inline, Some(contents)) == trimmed(
            inline,
        ),
        trimmed(inline).len() == 0 ==> declared_instructions(inline, Some(contents)) == trimmed(
            contents,
        ),
        trimmed(inline).len() > 0 && trimmed(contents).len() > 0 ==> declared_instructions(
            inline,
            Some(contents),
        ) == trimmed(inline) + "\n\n"@ + trimmed(contents),
{
    reveal_with_fuel(joined, 3);
    let a = seq![trimmed(inline)];
    let b = seq![trimmed(contents)];
    let none = Seq::<Seq<char>>::empty();
    assert(a + none =~= a);
    assert(none + b =~= b);
    assert(none + none =~= none);
    assert((a + b).drop_last() =~= a);
    if trimmed(inline).len() == 0 {
        assert(trimmed(inline) =~= Seq::<char>::empty());
    }
    if trimmed(contents).len() == 0 {
        assert(trimmed(contents) =~= Seq::<char>::empty());
    }
}

/// Every project is either worked on or held back, and none is both.
pub proof fn projects_are_worked_on_or_held_back(
    ps: Seq<ProjectView>,
    p: ProjectView,
    ignore_windows: bool,
    now: LocalTime,
)
    ensures
        ps.contains(p) <==> workable(ps, ignore_windows, now).contains(p) || held_back(
            ps,
            ignore_windows,
            now,
        ).contains(p),
        !(workable(ps, ignore_windows, now).contains(p) && held_back(
            ps,
            ignore_windows,
            now,
        ).contains(p)),
{
    crate::ambient::queue_laws::members_of_filter(
        ps,
        |q: ProjectView| project_open(q, ignore_windows, now),
        p,
    );
    crate::ambient::queue_laws::members_of_filter(
        ps,
        |q: ProjectView| !project_open(q, ignore_windows, now),
        p,
    );
}

} // verus!
