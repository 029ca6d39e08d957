//! Which projects the recent sessions ran in, and in which order to list them.

use crate::ambient::projects::{priority_rank, rank_of};
use crate::text::{str_eq, str_lt, text_lt, text_lt_total, text_lt_transitive, views};
use vstd::prelude::*;

verus! {

/// Summary of a recent session for the ambient prompt.
#[derive(Debug, Clone)]
pub struct RecentSessionInfo {
    pub id: String,
    pub status: String,
    pub topic: Option<String>,
    pub duration_secs: i64,
    pub extraction_status: String,
    /// Project this session ran in, when the session recorded one.
    pub working_dir: Option<String>,
}

/// A directory and how many sessions ran in it.
#[derive(Debug)]
pub struct DirCount {
    pub dir: String,
    pub count: usize,
}

/// The directories of the sessions that recorded one.
pub open spec fn session_dirs(sessions: Seq<RecentSessionInfo>) -> Seq<Seq<char>>
    decreases sessions.len(),
{
    if sessions.len() == 0 {
        Seq::empty()
    } else {
        let rest = session_dirs(sessions.drop_last());
        match sessions.last().working_dir {
            Some(d) => rest.push(d@),
            None => rest,
        }
    }
}

/// The test for being `dir`.
pub open spec fn same_as(dir: Seq<char>) -> spec_fn(Seq<char>) -> bool {
    |d: Seq<char>| d == dir
}

/// How many of `dirs` are `dir`.
pub open spec fn occurrences(dirs: Seq<Seq<char>>, dir: Seq<char>) -> nat {
    dirs.filter(same_as(dir)).len()
}

/// `a` is listed before `b`: it has the better rank, or the same rank and more
/// sessions, or as many and the smaller path.
pub open spec fn listed_before(
    priority: Seq<Seq<char>>,
    a: (Seq<char>, nat),
    b: (Seq<char>, nat),
) -> bool {
    let ra = rank_of(priority, a.0);
    let rb = rank_of(priority, b.0);
    ||| ra < rb
    ||| ra == rb && a.1 > b.1
    ||| ra == rb && a.1 == b.1 && text_lt(a.0, b.0)
}

/// `out` lists each directory of `dirs` once, with how often it occurs, in
/// listing order.
pub open spec fn is_ranking(
    dirs: Seq<Seq<char>>,
    priority: Seq<Seq<char>>,
    out: Seq<(Seq<char>, nat)>,
) -> bool {
    &&& forall|i: int, j: int|
        0 <= i < j < out.len() ==> listed_before(priority, #[trigger] out[i], #[trigger] out[j])
    &&& forall|x: (Seq<char>, nat)| #[trigger]
        out.contains(x) <==> (dirs.contains(x.0) && x.1 == occurrences(dirs, x.0))
}

/// The listing of `dirs`.
pub open spec fn ranking(dirs: Seq<Seq<char>>, priority: Seq<Seq<char>>) -> Seq<(Seq<char>, nat)> {
    choose|out: Seq<(Seq<char>, nat)>| is_ranking(dirs, priority, out)
}

proof fn before_transitive(
    priority: Seq<Seq<char>>,
    a: (Seq<char>, nat),
    b: (Seq<char>, nat),
    c: (Seq<char>, nat),
)
    requires
        listed_before(priority, a, b),
        listed_before(priority, b, c),
    ensures
        listed_before(priority, a, c),
{
    if text_lt(a.0, b.0) && text_lt(b.0, c.0) {
        text_lt_transitive(a.0, b.0, c.0);
    }
}

/// There is only one listing of given directories.
pub proof fn ranking_is_unique(
    dirs: Seq<Seq<char>>,
    priority: Seq<Seq<char>>,
    a: Seq<(Seq<char>, nat)>,
    b: Seq<(Seq<char>, nat)>,
)
    requires
        is_ranking(dirs, priority, a),
        is_ranking(dirs, priority, b),
    ensures
        a == b,
{
    assert forall|x: (Seq<char>, nat)| a.contains(x) <==> b.contains(x) by {}
    ordered_lists_agree(priority, a, b);
}

proof fn ordered_lists_agree(
    priority: Seq<Seq<char>>,
    a: Seq<(Seq<char>, nat)>,
    b: Seq<(Seq<char>, nat)>,
)
    requires
        forall|i: int, j: int|
            0 <= i < j < a.len() ==> listed_before(priority, #[trigger] a[i], #[trigger] a[j]),
        forall|i: int, j: int|
            0 <= i < j < b.len() ==> listed_before(priority, #[trigger] b[i], #[trigger] b[j]),
        forall|x: (Seq<char>, nat)| #[trigger] a.contains(x) <==> b.contains(x),
    ensures
        a == b,
    decreases a.len(),
{
    if a.len() == 0 {
        if b.len() > 0 {
            assert(b.contains(b[0]));
            assert(a.contains(b[0]));
        }
        assert(a =~= b);
    } else {
        assert(a.contains(a[0]));
        assert(b.contains(a[0]));
        let p = b.index_of(a[0]);
        assert(b.contains(b[0]));
        assert(a.contains(b[0]));
        let q = a.index_of(b[0]);
        if p > 0 {
            assert(listed_before(priority, b[0], b[p]));
            if q > 0 {
                assert(listed_before(priority, a[0], a[q]));
                before_transitive(priority, a[0], b[0], a[0]);
            }
            text_lt_total(a[0].0, a[0].0);
        }
        assert(a[0] == b[0]);
        let x = a.drop_first();
        let y = b.drop_first();
        assert forall|i: int, j: int| 0 <= i < j < x.len() implies listed_before(
            priority,
            #[trigger] x[i],
            #[trigger] x[j],
        ) by {
            assert(x[i] == a[i + 1] && x[j] == a[j + 1]);
        }
        assert forall|i: int, j: int| 0 <= i < j < y.len() implies listed_before(
            priority,
            #[trigger] y[i],
            #[trigger] y[j],
        ) by {
            assert(y[i] == b[i + 1] && y[j] == b[j + 1]);
        }
        assert forall|z: (Seq<char>, nat)| #[trigger] x.contains(z) <==> y.contains(z) by {
            tail_membership(priority, a, b, z);
            tail_membership(priority, b, a, z);
        }
        ordered_lists_agree(priority, x, y);
        assert(a =~= seq![a[0]] + x);
        assert(b =~= seq![b[0]] + y);
    }
}

proof fn tail_membership(
    priority: Seq<Seq<char>>,
    a: Seq<(Seq<char>, nat)>,
    b: Seq<(Seq<char>, nat)>,
    z: (Seq<char>, nat),
)
    requires
        a.len() > 0,
        b.len() > 0,
        a[0] == b[0],
        forall|i: int, j: int|
            0 <= i < j < a.len() ==> listed_before(priority, #[trigger] a[i], #[trigger] a[j]),
        forall|x: (Seq<char>, nat)| #[trigger] a.contains(x) <==> b.contains(x),
    ensures
        a.drop_first().contains(z) ==> b.drop_first().contains(z),
{
    if a.drop_first().contains(z) {
        let i = a.drop_first().index_of(z);
        assert(a[i + 1] == z);
        assert(a.contains(z));
        assert(b.contains(z));
        let j = b.index_of(z);
        if j == 0 {
            assert(listed_before(priority, a[0], a[i + 1]));
            text_lt_total(z.0, z.0);
        }
        assert(b.drop_first()[j - 1] == z);
    }
}

// ---------------------------------------------------------------------------
// Counting and sorting
// ---------------------------------------------------------------------------

pub open spec fn count_views(s: Seq<DirCount>) -> Seq<(Seq<char>, nat)> {
    s.map_values(|c: DirCount| (c.dir@, c.count as nat))
}

/// Each directory of `dirs` is listed once, with how often it occurs.
pub open spec fn is_tally(dirs: Seq<Seq<char>>, out: Seq<(Seq<char>, nat)>) -> bool {
    &&& forall|i: int, j: int| 0 <= i < j < out.len() ==> (#[trigger] out[i]).0 != (#[trigger] out[j]).0
    &&& forall|x: (Seq<char>, nat)| #[trigger]
        out.contains(x) <==> (dirs.contains(x.0) && x.1 == occurrences(dirs, x.0))
}

proof fn occurrences_of_push(dirs: Seq<Seq<char>>, d: Seq<char>, x: Seq<char>)
    ensures
        occurrences(dirs.push(d), x) == occurrences(dirs, x) + (if x == d {
            1nat
        } else {
            0
        }),
        dirs.push(d).contains(x) <==> dirs.contains(x) || x == d,
        occurrences(dirs, x) <= dirs.len(),
        !dirs.contains(x) ==> occurrences(dirs, x) == 0,
{
    let f = same_as(x);
    dirs.lemma_filter_len(f);
    reveal(Seq::filter);
    assert(dirs.push(d).drop_last() =~= dirs);
    assert(dirs.push(d)[dirs.len() as int] == d);
    if dirs.contains(x) {
        let i = dirs.index_of(x);
        assert(dirs.push(d)[i] == x);
    }
    if dirs.push(d).contains(x) {
        let i = dirs.push(d).index_of(x);
        if i < dirs.len() {
            assert(dirs[i] == x);
        }
    }
    if !dirs.contains(x) {
        assert forall|i: int| 0 <= i < dirs.len() implies !f(#[trigger] dirs[i]) by {
            assert(dirs.contains(dirs[i]));
        }
        crate::ambient::persistence::filter_of_none(dirs, f);
    }
}

fn tally_dir(out: &mut Vec<DirCount>, dir: &String, Ghost(dirs): Ghost<Seq<Seq<char>>>)
    requires
        is_tally(dirs, count_views(old(out)@)),
        dirs.len() < usize::MAX,
    ensures
        is_tally(dirs.push(dir@), count_views(final(out)@)),
{
    let ghost was = count_views(out@);
    let mut k: usize = 0;
    while k < out.len() && !str_eq(out[k].dir.as_str(), dir.as_str())
        invariant
            out@ == old(out)@,
            was == count_views(out@),
            k <= out@.len(),
            forall|i: int| 0 <= i < k ==> (#[trigger] was[i]).0 != dir@,
        decreases out@.len() - k,
    {
        assert(was[k as int].0 == out@[k as int].dir@);
        k = k + 1;
    }
    if k < out.len() {
        assert(was[k as int].0 == dir@);
        assert(was.contains(was[k as int]));
        proof {
            occurrences_of_push(dirs, dir@, dir@);
        }
        let mut c = out.remove(k);
        c.count = c.count + 1;
        out.insert(k, c);
        proof {
            let now = count_views(out@);
            assert(now =~= was.update(k as int, (dir@, occurrences(dirs, dir@) + 1)));
            tally_bumped(dirs, dir@, was, now, k as int);
        }
    } else {
        out.push(DirCount { dir: dir.clone(), count: 1 });
        proof {
            let now = count_views(out@);
            assert(now =~= was.push((dir@, 1)));
            tally_extended(dirs, dir@, was, now);
        }
    }
}

proof fn tally_bumped(
    dirs: Seq<Seq<char>>,
    d: Seq<char>,
    was: Seq<(Seq<char>, nat)>,
    now: Seq<(Seq<char>, nat)>,
    k: int,
)
    requires
        is_tally(dirs, was),
        0 <= k < was.len(),
        was[k].0 == d,
        now == was.update(k, (d, occurrences(dirs, d) + 1)),
    ensures
        is_tally(dirs.push(d), now),
{
    assert(was.contains(was[k]));
    assert forall|i: int, j: int| 0 <= i < j < now.len() implies (#[trigger] now[i]).0 != (
    #[trigger] now[j]).0 by {
        assert(now[i].0 == was[i].0 && now[j].0 == was[j].0);
    }
    assert forall|x: (Seq<char>, nat)| #[trigger]
        now.contains(x) <==> (dirs.push(d).contains(x.0) && x.1 == occurrences(dirs.push(d), x.0)) by {
        occurrences_of_push(dirs, d, x.0);
        if now.contains(x) {
            let i = now.index_of(x);
            if i != k {
                assert(was[i] == x);
                assert(was.contains(x));
                if i < k {
                    assert(was[i].0 != was[k].0);
                } else {
                    assert(was[k].0 != was[i].0);
                }
            }
        }
        if dirs.push(d).contains(x.0) && x.1 == occurrences(dirs.push(d), x.0) {
            if x.0 == d {
                assert(now[k] == x);
            } else {
                assert(was.contains(x));
                let i = was.index_of(x);
                assert(now[i] == x);
            }
        }
    }
}

proof fn tally_extended(
    dirs: Seq<Seq<char>>,
    d: Seq<char>,
    was: Seq<(Seq<char>, nat)>,
    now: Seq<(Seq<char>, nat)>,
)
    requires
        is_tally(dirs, was),
        forall|i: int| 0 <= i < was.len() ==> (#[trigger] was[i]).0 != d,
        now == was.push((d, 1nat)),
    ensures
        is_tally(dirs.push(d), now),
{
    if dirs.contains(d) {
        let x = (d, occurrences(dirs, d));
        assert(was.contains(x));
        let i = was.index_of(x);
        assert(was[i].0 == d);
    }
    assert forall|i: int, j: int| 0 <= i < j < now.len() implies (#[trigger] now[i]).0 != (
    #[trigger] now[j]).0 by {
        if j < was.len() {
            assert(was[i].0 != was[j].0);
        } else {
            assert(was[i].0 != d);
        }
    }
    assert forall|x: (Seq<char>, nat)| #[trigger]
        now.contains(x) <==> (dirs.push(d).contains(x.0) && x.1 == occurrences(dirs.push(d), x.0)) by {
        occurrences_of_push(dirs, d, x.0);
        if now.contains(x) {
            let i = now.index_of(x);
            if i < was.len() {
                assert(was[i] == x);
                assert(was.contains(x));
            }
        }
        if dirs.push(d).contains(x.0) && x.1 == occurrences(dirs.push(d), x.0) {
            if x.0 == d {
                assert(now[was.len() as int] == x);
            } else {
                assert(was.contains(x));
                let i = was.index_of(x);
                assert(now[i] == x);
            }
        }
    }
}

fn is_listed_before(priority: &Vec<String>, a: &DirCount, b: &DirCount) -> (r: bool)
    ensures
        r == listed_before(
            views(priority@),
            (a.dir@, a.count as nat),
            (b.dir@, b.count as nat),
        ),
{
    let ra: usize = priority_rank(priority, a.dir.as_str());
    let rb: usize = priority_rank(priority, b.dir.as_str());
    if ra < rb {
        true
    } else if ra > rb {
        false
    } else if a.count > b.count {
        true
    } else if a.count < b.count {
        false
    } else {
        str_lt(a.dir.as_str(), b.dir.as_str())
    }
}

fn list_in_order(out: &mut Vec<DirCount>, c: DirCount, priority: &Vec<String>)
    requires
        forall|i: int, j: int|
            0 <= i < j < old(out)@.len() ==> listed_before(
                views(priority@),
                #[trigger] count_views(old(out)@)[i],
                #[trigger] count_views(old(out)@)[j],
            ),
        forall|i: int| 0 <= i < old(out)@.len() ==> (#[trigger] count_views(old(out)@)[i]).0 != c.dir@,
    ensures
        forall|i: int, j: int|
            0 <= i < j < final(out)@.len() ==> listed_before(
                views(priority@),
                #[trigger] count_views(final(out)@)[i],
                #[trigger] count_views(final(out)@)[j],
            ),
        exists|p: int|
            0 <= p <= old(out)@.len() && count_views(final(out)@) == #[trigger] count_views(
                old(out)@,
            ).insert(p, (c.dir@, c.count as nat)),
{
    let ghost was = count_views(out@);
    let ghost x = (c.dir@, c.count as nat);
    let ghost pr = views(priority@);
    let mut p: usize = 0;
    while p < out.len() && !is_listed_before(priority, &c, &out[p])
        invariant
            out@ == old(out)@,
            was == count_views(out@),
            x == (c.dir@, c.count as nat),
            pr == views(priority@),
            p <= out@.len(),
            forall|i: int| 0 <= i < p ==> !listed_before(pr, x, #[trigger] was[i]),
        decreases out@.len() - p,
    {
        assert(was[p as int] == (out@[p as int].dir@, out@[p as int].count as nat));
        p = p + 1;
    }
    proof {
        if p < out@.len() {
            assert(was[p as int] == (out@[p as int].dir@, out@[p as int].count as nat));
        }
    }
    out.insert(p, c);
    proof {
        let now = count_views(out@);
        assert(now =~= was.insert(p as int, x));
        assert forall|i: int, j: int| 0 <= i < j < now.len() implies listed_before(
            pr,
            #[trigger] now[i],
            #[trigger] now[j],
        ) by {
            let a = if i < p { i } else { i - 1 };
            let b = if j < p { j } else { j - 1 };
            if i == p {
                assert(now[j] == was[b]);
                if b > p {
                    assert(listed_before(pr, was[p as int], was[b]));
                    before_transitive(pr, x, was[p as int], was[b]);
                }
            } else if j == p {
                assert(now[i] == was[a]);
                assert(was[a].0 != x.0);
                text_lt_total(was[a].0, x.0);
            } else {
                assert(now[i] == was[a]);
                assert(now[j] == was[b]);
                assert(listed_before(pr, was[a], was[b]));
            }
        }
    }
}

proof fn insert_members(s: Seq<(Seq<char>, nat)>, p: int, x: (Seq<char>, nat))
    requires
        0 <= p <= s.len(),
    ensures
        forall|y: (Seq<char>, nat)| #[trigger] s.insert(p, x).contains(y) <==> s.contains(y) || y == x,
{
    let t = s.insert(p, x);
    assert forall|y: (Seq<char>, nat)| #[trigger] t.contains(y) <==> s.contains(y) || y == x by {
        if t.contains(y) {
            let i = t.index_of(y);
            if i < p {
                assert(s[i] == y);
            } else if i > p {
                assert(s[i - 1] == y);
            }
        }
        if s.contains(y) {
            let i = s.index_of(y);
            if i < p {
                assert(t[i] == y);
            } else {
                assert(t[i + 1] == y);
            }
        }
        assert(t[p] == x);
    }
}

/// The directories the sessions ran in, each with its number of sessions, in
/// listing order: priority projects first, then by activity.
pub fn rank_activity(sessions: &Vec<RecentSessionInfo>, priority: &Vec<String>) -> (r: Vec<DirCount>)
    ensures
        count_views(r@) == ranking(session_dirs(sessions@), views(priority@)),
        is_ranking(session_dirs(sessions@), views(priority@), count_views(r@)),
{
    let mut tally: Vec<DirCount> = Vec::new();
    let mut i: usize = 0;
    let ghost mut dirs = Seq::<Seq<char>>::empty();
    assert(sessions@.take(0) =~= Seq::<RecentSessionInfo>::empty());
    while i < sessions.len()
        invariant
            i <= sessions@.len(),
            dirs == session_dirs(sessions@.take(i as int)),
            dirs.len() <= i,
            is_tally(dirs, count_views(tally@)),
        decreases sessions@.len() - i,
    {
        assert(sessions@.take(i + 1).drop_last() =~= sessions@.take(i as int));
        assert(sessions@.take(i + 1).last() == sessions@[i as int]);
        if let Some(dir) = &sessions[i].working_dir {
            tally_dir(&mut tally, dir, Ghost(dirs));
            proof {
                dirs = dirs.push(dir@);
            }
        }
        i = i + 1;
    }
    assert(sessions@.take(sessions@.len() as int) =~= sessions@);
    let ghost all = count_views(tally@);
    let ghost items = tally@;
    let mut out: Vec<DirCount> = Vec::new();
    for c in it: tally
        invariant
            it.seq() == items,
            all == count_views(items),
            is_tally(dirs, all),
            forall|i: int, j: int|
                0 <= i < j < out@.len() ==> listed_before(
                    views(priority@),
                    #[trigger] count_views(out@)[i],
                    #[trigger] count_views(out@)[j],
                ),
            forall|x: (Seq<char>, nat)| #[trigger]
                count_views(out@).contains(x) <==> all.take(it.index() as int).contains(x),
    {
        let ghost n = it.index() as int;
        let ghost x = (c.dir@, c.count as nat);
        let ghost was = count_views(out@);
        assert(all[n] == x);
        assert forall|i: int| 0 <= i < was.len() implies (#[trigger] was[i]).0 != c.dir@ by {
            assert(was.contains(was[i]));
            assert(all.take(n).contains(was[i]));
            let j = all.take(n).index_of(was[i]);
            assert(all[j].0 != all[n].0);
        }
        list_in_order(&mut out, c, priority);
        proof {
            let p = choose|p: int|
                0 <= p <= was.len() && count_views(out@) == #[trigger] was.insert(p, x);
            insert_members(was, p, x);
            insert_members(all.take(n), n, x);
            assert(all.take(n + 1) =~= all.take(n).insert(n, x));
        }
    }
    proof {
        assert(all.take(all.len() as int) =~= all);
        let r = count_views(out@);
        assert(is_ranking(dirs, views(priority@), r));
        ranking_is_unique(dirs, views(priority@), r, ranking(dirs, views(priority@)));
    }
    out
}

/// A session counts for the directory it ran in, once, and for no other; one that
/// recorded none counts for none.
pub proof fn every_session_counts_once(
    sessions: Seq<RecentSessionInfo>,
    s: RecentSessionInfo,
    dir: Seq<char>,
)
    ensures
        occurrences(session_dirs(Seq::empty()), dir) == 0,
        occurrences(session_dirs(sessions.push(s)), dir) == occurrences(session_dirs(sessions), dir)
            + (if s.working_dir is Some && s.working_dir->0@ == dir {
            1int
        } else {
            0
        }),
{
    reveal(Seq::filter);
    assert(sessions.push(s).drop_last() =~= sessions);
    let rest = session_dirs(sessions);
    if let Some(d) = s.working_dir {
        assert(rest.push(d@).drop_last() =~= rest);
    }
}

/// A listing holds every directory that a session ran in, once and with how many
/// did, and no other. Priority projects come first, in the order of their rank;
/// then the directories with more sessions.
pub proof fn listings_are_ranked(
    dirs: Seq<Seq<char>>,
    priority: Seq<Seq<char>>,
    out: Seq<(Seq<char>, nat)>,
    i: int,
    j: int,
)
    requires
        is_ranking(dirs, priority, out),
        0 <= i < j < out.len(),
    ensures
        dirs.contains(out[i].0) && out[i].1 == occurrences(dirs, out[i].0),
        out[i].0 != out[j].0,
        rank_of(priority, out[i].0) <= rank_of(priority, out[j].0),
        rank_of(priority, out[i].0) == rank_of(priority, out[j].0) ==> out[i].1 >= out[j].1,
{
    assert(out.contains(out[i]));
    assert(out.contains(out[j]));
    assert(listed_before(priority, out[i], out[j]));
    text_lt_total(out[i].0, out[i].0);
}

} // verus!
