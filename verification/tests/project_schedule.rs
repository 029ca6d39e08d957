//! Taking turns between projects, and the locks that keep cycles apart.

use chrono::{Duration as ChronoDuration, Utc};
use jcode_ambient::ambient::paths::{file_stem_with_hash, project_lock_path, unique_file_stem_for};
use jcode_ambient::ambient::persistence::{
    is_locked_by_another_process, lock_holder, lock_text, AmbientLock,
};
use jcode_ambient::ambient::project_schedule::{select_cycle_project, ProjectWakeLedger};
use jcode_ambient::time::Timestamp;

fn key(path: &str) -> Option<String> {
    Some(path.to_string())
}

fn at(t: chrono::DateTime<Utc>) -> Timestamp {
    Timestamp::from_parts(t.timestamp(), t.timestamp_subsec_nanos())
}

fn secs(n: u128) -> u128 {
    n * 1_000_000_000
}

#[test]
fn a_new_project_is_due_immediately_rather_than_waiting_out_an_interval() {
    let now = at(Utc::now());
    let mut ledger = ProjectWakeLedger::new();

    ledger.register(key("/a"), now);

    assert_eq!(ledger.due_project(&now), Some(key("/a")));
}

#[test]
fn a_project_that_just_ran_is_not_due_again_until_its_interval_elapses() {
    let now = Utc::now();
    let mut ledger = ProjectWakeLedger::new();
    ledger.register(key("/a"), at(now));

    ledger.record_cycle(key("/a"), at(now), secs(600));

    assert_eq!(ledger.due_project(&at(now)), None, "a project must not run twice back to back");
    assert_eq!(ledger.due_project(&at(now + ChronoDuration::minutes(11))), Some(key("/a")));
}

/// One project running repeatedly must not keep another from ever getting a
/// turn.
#[test]
fn a_busy_project_cannot_starve_a_quiet_one() {
    let now = at(Utc::now());
    let mut ledger = ProjectWakeLedger::new();
    ledger.register(key("/busy"), now);
    ledger.register(key("/quiet"), now);
    let interval = secs(600);

    let first = ledger.due_project(&now).expect("someone is due");
    ledger.record_cycle(first.clone(), now, interval);

    let second = ledger.due_project(&now).expect("the other project is still due");
    assert_ne!(
        second, first,
        "the project that just ran must not be picked again while another waits"
    );
}

#[test]
fn the_project_that_has_waited_longest_goes_first() {
    let now = Utc::now();
    let mut ledger = ProjectWakeLedger::new();
    ledger.register(key("/recent"), at(now));
    ledger.register(key("/waiting"), at(now - ChronoDuration::hours(2)));

    assert_eq!(ledger.due_project(&at(now)), Some(key("/waiting")));
}

#[test]
fn a_cycle_belonging_to_no_project_is_scheduled_like_any_other() {
    let now = Utc::now();
    let mut ledger = ProjectWakeLedger::new();
    ledger.register(None, at(now));
    ledger.register(key("/a"), at(now + ChronoDuration::hours(1)));

    assert_eq!(ledger.due_project(&at(now)), Some(None));
    assert_eq!(
        ledger.earliest_wake(),
        Some(at(now)),
        "the sleep must be sized by the soonest project, not the last registered"
    );
}

#[test]
fn registering_an_already_scheduled_project_does_not_reset_its_wake() {
    let now = at(Utc::now());
    let mut ledger = ProjectWakeLedger::new();
    ledger.register(key("/a"), now);
    ledger.record_cycle(key("/a"), now, secs(600));

    ledger.register(key("/a"), now);

    assert_eq!(
        ledger.due_project(&now),
        None,
        "re-registering on every pass would let a project run continuously"
    );
}

#[test]
fn two_projects_take_different_lock_files_but_share_the_global_one() {
    let temp = tempfile::tempdir().expect("tempdir");
    let home = temp.path().to_str().expect("utf-8");

    let a = project_lock_path(home, Some("/home/potb/jcode"));
    let b = project_lock_path(home, Some("/home/potb/projects/costo/beakon"));
    let global = project_lock_path(home, None);

    assert_ne!(a, b, "distinct projects must not contend on one lock");
    assert_ne!(a, global);
    assert_eq!(
        global,
        temp.path().join("ambient").join("ambient.lock").to_str().unwrap(),
        "the global lock path must stay where older builds contend"
    );
    assert_eq!(
        project_lock_path(home, Some("/home/potb/jcode")),
        a,
        "the same project must resolve to the same lock every time"
    );
}

/// Sanitizing a path into a file name is lossy, so two projects differing only
/// in characters it collapses would otherwise share a lock and serialize.
#[test]
fn projects_that_sanitize_alike_still_get_distinct_locks() {
    let slash = project_lock_path("/data", Some("/a/b"));
    let dot = project_lock_path("/data", Some("/a.b"));

    assert_ne!(slash, dot);
}

/// A cycle running in one project must not block a cycle in another.
#[test]
fn a_cycle_in_one_project_does_not_exclude_a_cycle_in_another() {
    let first_path = project_lock_path("/data", Some("/home/potb/jcode"));
    let first = AmbientLock::try_acquire(first_path.clone(), None, false, 40)
        .expect("first project acquires");
    let second_path = project_lock_path("/data", Some("/home/potb/projects/costo/beakon"));
    let second = AmbientLock::try_acquire(second_path.clone(), None, false, 40)
        .expect("a second project must acquire while the first is held");

    assert_ne!(first_path, second_path);
    assert_eq!(second.release(), second_path, "one project's lock is its own file");
    assert_eq!(first.release(), first_path);
}

#[test]
fn a_project_lock_still_excludes_a_foreign_holder_of_the_same_project() {
    let holder = lock_holder("1");
    assert_eq!(holder, Some(1));

    assert!(
        AmbientLock::try_acquire("/l".to_string(), holder, true, 40).is_none(),
        "per-project locking must not weaken single-instance protection"
    );
    assert!(is_locked_by_another_process(holder, true, 40), "the held project must report as locked");
    assert!(
        !is_locked_by_another_process(None, false, 40),
        "an unrelated project must not report as locked"
    );
}

#[test]
fn a_due_queue_item_decides_the_cycle_project_over_the_rotation() {
    let now = Utc::now();
    let mut ledger = ProjectWakeLedger::new();
    ledger.register(key("/a"), at(now - ChronoDuration::hours(3)));
    ledger.register(key("/b"), at(now - ChronoDuration::hours(1)));

    assert_eq!(
        select_cycle_project(&ledger, &vec![key("/b")], &at(now)),
        key("/b"),
        "an item explicitly queued for a project must run as that project's \
         cycle even when another project has waited longer"
    );
}

#[test]
fn without_a_due_item_the_rotation_decides_the_cycle_project() {
    let now = Utc::now();
    let mut ledger = ProjectWakeLedger::new();
    ledger.register(key("/a"), at(now - ChronoDuration::hours(3)));
    ledger.register(key("/b"), at(now - ChronoDuration::hours(1)));

    assert_eq!(
        select_cycle_project(&ledger, &vec![], &at(now)),
        key("/a"),
        "the longest-waiting project takes the turn"
    );
}

#[test]
fn a_project_less_due_item_does_not_hijack_the_rotation() {
    let now = Utc::now();
    let mut ledger = ProjectWakeLedger::new();
    ledger.register(key("/a"), at(now - ChronoDuration::hours(3)));

    assert_eq!(
        select_cycle_project(&ledger, &vec![None], &at(now)),
        key("/a"),
        "an unscoped item (gardening, a memory task) names no project, so it \
         must not force an unfocused cycle while a project is due"
    );
}

#[test]
fn nothing_due_falls_back_to_an_unfocused_cycle() {
    let now = at(Utc::now());
    let mut ledger = ProjectWakeLedger::new();
    ledger.record_cycle(key("/a"), now, secs(3600));

    assert_eq!(
        select_cycle_project(&ledger, &vec![], &now),
        None,
        "a runner that got this far is starting a cycle regardless, so with no \
         project due it must be an unfocused one rather than an arbitrary project"
    );
}

#[test]
fn a_lock_file_names_its_holder() {
    assert_eq!(lock_text(4321), "4321");
    assert_eq!(lock_holder(" 4321\n"), Some(4321));
    assert_eq!(lock_holder("not a pid"), None);
    assert_eq!(lock_holder(""), None);
}

#[test]
fn a_file_stem_keeps_the_end_of_the_path_readable() {
    assert_eq!(file_stem_with_hash("/a.b", 0x1f), "_a_b-000000000000001f");
    let long = format!("/{}", "x".repeat(60));
    assert_eq!(
        file_stem_with_hash(&long, u64::MAX),
        format!("{}-ffffffffffffffff", "x".repeat(48))
    );
}

#[test]
fn a_file_stem_ends_in_the_hash_of_the_whole_path() {
    let stem = unique_file_stem_for("/home/potb/jcode");
    let (readable, hash) = stem.rsplit_once('-').unwrap();
    assert_eq!(readable, "_home_potb_jcode");
    assert_eq!(hash.len(), 16);
    assert!(hash.chars().all(|c| c.is_ascii_hexdigit()));
    assert_eq!(stem, unique_file_stem_for("/home/potb/jcode"));
    assert_ne!(stem, unique_file_stem_for("/home/potb_jcode"));
}
