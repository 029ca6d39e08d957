//! Where the ambient agent keeps its files, below the user's data directory.

use crate::ambient::types::VisibleCycleContext;
use crate::numerals::{hex, hex_injective, hex_len, push_hex};
use crate::text::{char_is_alphanumeric, chars_of, is_alphanumeric, owned, slice_chars};
use std::collections::hash_map::DefaultHasher;
use std::hash::{Hash, Hasher};
use vstd::prelude::*;
use vstd::std_specs::hash::DefaultHasherAdditionalSpecFns;

verus! {

/// `name` below the directory `base`. A name that is a path from the root stands
/// for itself.
pub open spec fn below(base: Seq<char>, name: Seq<char>) -> Seq<char> {
    if name.len() > 0 && name[0] == '/' {
        name
    } else if base.len() == 0 || base.last() == '/' {
        base + name
    } else {
        base + "/"@ + name
    }
}

/// The path of the entry `name` in the directory `base`.
pub fn join_path(base: &str, name: &str) -> (r: String)
    ensures
        r@ == below(base@, name@),
{
    if name.unicode_len() > 0 && name.get_char(0) == '/' {
        return owned(name);
    }
    let mut out = owned(base);
    let n = base.unicode_len();
    if n > 0 && base.get_char(n - 1) != '/' {
        out.append("/");
    }
    out.append(name);
    out
}

pub open spec fn ambient_dir_of(home: Seq<char>) -> Seq<char> {
    below(home, "ambient"@)
}

/// The directory of the ambient agent.
pub fn ambient_dir(home: &str) -> (r: String)
    ensures
        r@ == ambient_dir_of(home@),
{
    join_path(home, "ambient")
}

/// The recorded state.
pub fn state_path(home: &str) -> (r: String)
    ensures
        r@ == below(ambient_dir_of(home@), "state.json"@),
{
    join_path(ambient_dir(home).as_str(), "state.json")
}

/// The queue of scheduled items.
pub fn queue_path(home: &str) -> (r: String)
    ensures
        r@ == below(ambient_dir_of(home@), "queue.json"@),
{
    join_path(ambient_dir(home).as_str(), "queue.json")
}

/// The lock of cycles that belong to no project.
pub fn lock_path(home: &str) -> (r: String)
    ensures
        r@ == below(ambient_dir_of(home@), "ambient.lock"@),
{
    join_path(ambient_dir(home).as_str(), "ambient.lock")
}

/// Items a cycle has claimed but not yet finished acting on.
pub fn inflight_path(home: &str) -> (r: String)
    ensures
        r@ == below(ambient_dir_of(home@), "inflight.json"@),
{
    join_path(ambient_dir(home).as_str(), "inflight.json")
}

/// The transcripts of past cycles.
pub fn transcripts_dir(home: &str) -> (r: String)
    ensures
        r@ == below(ambient_dir_of(home@), "transcripts"@),
{
    join_path(ambient_dir(home).as_str(), "transcripts")
}

/// The locks of the projects.
pub fn locks_dir(home: &str) -> (r: String)
    ensures
        r@ == below(ambient_dir_of(home@), "locks"@),
{
    join_path(ambient_dir(home).as_str(), "locks")
}

impl VisibleCycleContext {
    /// Where a visible cycle finds what it is handed.
    pub fn context_path(home: &str) -> (r: String)
        ensures
            r@ == below(ambient_dir_of(home@), "visible_cycle.json"@),
    {
        join_path(ambient_dir(home).as_str(), "visible_cycle.json")
    }

    /// Where a visible cycle reports back.
    pub fn result_path(home: &str) -> (r: String)
        ensures
            r@ == below(ambient_dir_of(home@), "cycle_result.json"@),
    {
        join_path(ambient_dir(home).as_str(), "cycle_result.json")
    }
}

// ---------------------------------------------------------------------------
// File names for projects
// ---------------------------------------------------------------------------

/// How much of a project path stays readable in its file name.
pub const READABLE_STEM_CHARS: usize = 48;

/// The character that stands for `c` in a file name.
pub open spec fn safe_char(c: char) -> char {
    if is_alphanumeric(c) || c == '-' || c == '_' {
        c
    } else {
        '_'
    }
}

pub open spec fn safe_component(s: Seq<char>) -> Seq<char> {
    s.map_values(|c: char| safe_char(c))
}

/// `value` with every character that is not a letter, digit, `-` or `_`
/// replaced by `_`.
pub fn path_component_safe(value: &str) -> (r: String)
    ensures
        r@ == safe_component(value@),
{
    let v = chars_of(value);
    let mut out = String::new();
    let mut i: usize = 0;
    while i < v.len()
        invariant
            v@ == value@,
            i <= v@.len(),
            out@ == safe_component(v@.take(i as int)),
        decreases v@.len() - i,
    {
        let c = v[i];
        if char_is_alphanumeric(c) || c == '-' || c == '_' {
            out.push(c);
        } else {
            out.push('_');
        }
        i = i + 1;
        assert(out@ =~= safe_component(v@.take(i as int)));
    }
    assert(v@.take(v@.len() as int) =~= v@);
    out
}

/// The last `count` characters of `s`, all of them when there are fewer.
pub open spec fn tail_chars(s: Seq<char>, count: nat) -> Seq<char> {
    if s.len() <= count {
        s
    } else {
        s.skip(s.len() - count)
    }
}

/// The last `count` characters of `value`.
pub fn last_chars(value: &str, count: usize) -> (r: String)
    ensures
        r@ == tail_chars(value@, count as nat),
{
    let v = chars_of(value);
    let skip: usize = if v.len() <= count {
        0
    } else {
        v.len() - count
    };
    let r = slice_chars(v.as_slice(), skip, v.len());
    assert(r@ =~= tail_chars(value@, count as nat));
    r
}

/// What the standard library's `Hash` of a text writes into a hasher.
pub uninterp spec fn hash_writes(s: Seq<char>) -> Seq<Seq<u8>>;

/// `Hash::hash` of a `str` into a `DefaultHasher`. What it writes is a function
/// of the text alone; which function is up to the release of the standard
/// library.
#[verifier::external_body]
fn write_text(value: &str, hasher: &mut DefaultHasher)
    ensures
        final(hasher)@ == old(hasher)@ + hash_writes(value@),
{
    value.hash(hasher);
}

/// The hash of a text under the standard library's default hasher.
pub open spec fn default_hash(s: Seq<char>) -> u64 {
    DefaultHasher::spec_finish(hash_writes(s))
}

/// The hash of a text under the standard library's default hasher.
pub fn hash_of(value: &str) -> (r: u64)
    ensures
        r == default_hash(value@),
{
    let mut hasher = DefaultHasher::new();
    write_text(value, &mut hasher);
    assert(hasher@ =~= hash_writes(value@));
    hasher.finish()
}

/// The readable end of a project path and the hash of the whole of it.
pub open spec fn stem_of(project: Seq<char>, hash: u64) -> Seq<char> {
    tail_chars(safe_component(project), READABLE_STEM_CHARS as nat) + "-"@ + hex(hash as nat, 16)
}

/// The file name stem of a project whose path has the given hash.
pub fn file_stem_with_hash(project: &str, hash: u64) -> (r: String)
    ensures
        r@ == stem_of(project@, hash),
{
    let safe = path_component_safe(project);
    let mut out = last_chars(safe.as_str(), READABLE_STEM_CHARS);
    out.append("-");
    push_hex(&mut out, hash, 16);
    out
}

/// The file name stem of a project.
pub fn unique_file_stem_for(project: &str) -> (r: String)
    ensures
        r@ == stem_of(project@, default_hash(project@)),
{
    file_stem_with_hash(project, hash_of(project))
}

/// The lock file of a project, or the common one of cycles without a project.
pub open spec fn lock_path_of(home: Seq<char>, project: Option<Seq<char>>) -> Seq<char> {
    match project {
        None => below(ambient_dir_of(home), "ambient.lock"@),
        Some(p) => below(
            below(ambient_dir_of(home), "locks"@),
            stem_of(p, default_hash(p)) + ".lock"@,
        ),
    }
}

/// The lock file of `project`, or the common one when it belongs to no project.
pub fn project_lock_path(home: &str, project: Option<&str>) -> (r: String)
    ensures
        r@ == lock_path_of(home@, crate::text::opt_str_view(project)),
{
    match project {
        None => lock_path(home),
        Some(p) => {
            let mut name = unique_file_stem_for(p);
            name.append(".lock");
            join_path(locks_dir(home).as_str(), name.as_str())
        },
    }
}

/// Projects whose paths hash apart have different file name stems, even when
/// their readable ends are the same.
pub proof fn stems_differ(a: Seq<char>, b: Seq<char>, x: u64, y: u64)
    requires
        x != y,
    ensures
        stem_of(a, x) != stem_of(b, y),
{
    hex_len(x as nat, 16);
    hex_len(y as nat, 16);
    if stem_of(a, x) == stem_of(b, y) {
        let s = stem_of(a, x);
        let t = stem_of(b, y);
        assert(s.skip(s.len() - 16) =~= hex(x as nat, 16));
        assert(t.skip(t.len() - 16) =~= hex(y as nat, 16));
        assert(vstd::arithmetic::power::pow(16, 16) == 0x1_0000_0000_0000_0000) by {
            reveal(vstd::arithmetic::power::pow);
            reveal_with_fuel(vstd::arithmetic::power::pow, 17);
        }
        hex_injective(x as nat, y as nat, 16);
    }
}

/// A file name stem holds nothing but letters, digits, `-` and `_`, so it names
/// one file and no directory.
pub proof fn stems_are_file_names(project: Seq<char>, hash: u64)
    ensures
        forall|i: int| #![trigger stem_of(project, hash)[i]]
            0 <= i < stem_of(project, hash).len() ==> {
                let c = stem_of(project, hash)[i];
                is_alphanumeric(c) || c == '-' || c == '_'
            },
        0 < stem_of(project, hash).len() <= READABLE_STEM_CHARS + 17,
{
    reveal_strlit("-");
    hex_len(hash as nat, 16);
    crate::numerals::hex_chars(hash as nat, 16);
    let head = tail_chars(safe_component(project), READABLE_STEM_CHARS as nat);
    assert forall|i: int| #![trigger stem_of(project, hash)[i]] 0 <= i < stem_of(project, hash).len() implies {
        let c = stem_of(project, hash)[i];
        is_alphanumeric(c) || c == '-' || c == '_'
    } by {
        if i > head.len() {
            assert(stem_of(project, hash)[i] == hex(hash as nat, 16)[i - head.len() - 1]);
        }
    }
}

/// Making a name safe keeps its length and every letter, digit, `-` and `_` in it,
/// and leaves nothing else but `_`.
pub proof fn safe_names_keep_what_is_safe(s: Seq<char>, i: int)
    requires
        0 <= i < s.len(),
    ensures
        safe_component(s).len() == s.len(),
        is_alphanumeric(s[i]) || s[i] == '-' || s[i] == '_' ==> safe_component(s)[i] == s[i],
        !is_alphanumeric(s[i]) && s[i] != '-' ==> safe_component(s)[i] == '_',
{
}

/// No project shares the lock of cycles that belong to no project.
pub proof fn unowned_cycles_have_their_own_lock(home: Seq<char>, project: Seq<char>)
    ensures
        lock_path_of(home, None) != lock_path_of(home, Some(project)),
{
    reveal_strlit("ambient.lock");
    reveal_strlit("ambient");
    reveal_strlit("locks");
    reveal_strlit("/");
    let dir = ambient_dir_of(home);
    let stem = stem_of(project, default_hash(project)) + ".lock"@;
    let none = lock_path_of(home, None);
    let some = lock_path_of(home, Some(project));
    stem_starts_plain(project, default_hash(project));
    assert(dir.last() == 't');
    assert(none == dir + "/"@ + "ambient.lock"@);
    let locks = below(dir, "locks"@);
    assert(locks == dir + "/"@ + "locks"@);
    assert(locks.last() == 's');
    assert(some == locks + "/"@ + stem);
    assert(none[dir.len() + 1int] == 'a');
    assert(some[dir.len() + 1int] == 'l');
}

proof fn stem_starts_plain(project: Seq<char>, hash: u64)
    ensures
        stem_of(project, hash).len() > 0,
        stem_of(project, hash)[0] != '/',
{
    reveal_strlit("-");
    let t = tail_chars(safe_component(project), READABLE_STEM_CHARS as nat);
    if t.len() == 0 {
        assert(stem_of(project, hash)[0] == '-');
    } else {
        assert(stem_of(project, hash)[0] == t[0]);
        let i = safe_component(project).len() - t.len();
        assert(t[0] == safe_char(project[i]));
    }
}

} // verus!
