//! What a cycle is told of memory, past cycles and recent sessions.

use jcode_ambient::ambient::survey::{
    file_cutoff, gather_feedback_memories, gather_memory_graph_health,
    gather_project_graph_health, gather_recent_sessions, graph_id_of, json_stem, newest_sessions,
    newest_transcripts, project_dir_from_session_history, project_graph_id_for_dir,
    session_cutoff, GraphFacts, GraphFile, MemoryFacts, PastCycle, SessionFacts, SessionFile,
    SessionStanding, StampedName,
};
use jcode_ambient::ambient::types::CycleStatus;
use jcode_ambient::time::Timestamp;

const NOW: i64 = 1_786_120_200;

fn at(secs: i64) -> Timestamp {
    Timestamp::from_parts(secs, 0)
}

fn memory(id: &str, active: bool) -> MemoryFacts {
    MemoryFacts {
        id: id.to_string(),
        content: format!("memory {id}"),
        tags: Vec::new(),
        active,
        low_confidence: false,
        has_embedding: true,
    }
}

fn graph_file(name: &str, registered: Option<&str>, memories: usize) -> GraphFile {
    GraphFile {
        name: name.to_string(),
        memories: Some((0..memories).map(|i| memory(&format!("m{i}"), true)).collect()),
        registered: registered.map(str::to_string),
    }
}

/// A registry entry whose store is gone must not appear as a project.
#[test]
fn a_project_whose_store_is_gone_is_not_reported() {
    let with = gather_project_graph_health(
        &vec![graph_file("abc.json", Some("/work/alpha"), 1)],
        &Vec::new(),
        &Vec::new(),
    );
    assert!(
        with.iter().any(|p| p.working_dir.as_deref() == Some("/work/alpha")),
        "the project must be reported while its store exists"
    );

    // The store is gone: there is no file to name the project.
    let without = gather_project_graph_health(&Vec::new(), &Vec::new(), &Vec::new());
    assert!(
        !without.iter().any(|p| p.working_dir.as_deref() == Some("/work/alpha")),
        "a project with no store must not be reported as memory to garden"
    );
}

#[test]
fn project_graph_health_survey_reads_every_project_store() {
    let files = vec![
        graph_file("aaa.json", Some("/work/alpha"), 1),
        graph_file("bbb.json", Some("/work/beta"), 1),
        graph_file("index.json", None, 1),
    ];
    let health = gather_project_graph_health(&files, &Vec::new(), &Vec::new());
    let named: Vec<String> = health.iter().filter_map(|p| p.working_dir.clone()).collect();
    for want in ["/work/alpha", "/work/beta"] {
        assert!(
            named.contains(&want.to_string()),
            "survey must name project {want}, got {named:?}"
        );
    }
    for p in &health {
        assert_ne!(p.graph_id, "index", "the id->path registry is not a project graph");
        assert_eq!(p.total, 1, "each probe project holds exactly one memory");
        assert!(p.active <= p.total);
    }

    // And the aggregate health rolls the project memories up for ambient.
    let count = health.len();
    let rolled = gather_memory_graph_health(&Vec::new(), None, health);
    assert!(
        rolled.total >= 2,
        "ambient's aggregate health must include per-project memories, got {}",
        rolled.total
    );
    assert_eq!(rolled.projects.len(), count);
}

#[test]
fn a_graph_of_ones_own_is_counted_once() {
    let own = GraphFacts {
        memories: vec![memory("a", true), memory("b", false)],
        contradicts: vec![true, true, false],
        last_cluster_update: Some(at(NOW)),
    };
    let projects = gather_project_graph_health(
        &vec![graph_file("own.json", None, 2), graph_file("other.json", None, 5)],
        &Vec::new(),
        &Vec::new(),
    );
    let health = gather_memory_graph_health(&vec![own], Some("own"), projects);
    assert_eq!(health.total, 2 + 5);
    assert_eq!(health.active, 1 + 5);
    assert_eq!(health.inactive, 1);
    assert_eq!(health.contradictions, 1, "an edge each way is one contradiction");
    assert_eq!(health.last_consolidation, Some(at(NOW)));
}

#[test]
fn a_directory_is_recovered_from_session_history() {
    let dirs = vec![None, Some("/a".to_string()), Some("/b".to_string())];
    let ids = vec![None, Some("id_a".to_string()), Some("id_b".to_string())];
    assert_eq!(project_dir_from_session_history("id_b", &dirs, &ids).as_deref(), Some("/b"));
    assert_eq!(project_dir_from_session_history("id_c", &dirs, &ids), None);
    let unnamed = gather_project_graph_health(&vec![graph_file("id_a.json", None, 1)], &dirs, &ids);
    assert_eq!(unnamed[0].working_dir.as_deref(), Some("/a"));
}

#[test]
fn graph_files_are_named_by_id() {
    assert_eq!(graph_id_of("abc.json").as_deref(), Some("abc"));
    assert_eq!(graph_id_of("index.json"), None);
    assert_eq!(graph_id_of("abc.txt"), None);
    assert_eq!(json_stem(".json"), None);
    assert_eq!(
        project_graph_id_for_dir(Some("/data/memory/projects/abc.json")).as_deref(),
        Some("abc")
    );
    assert_eq!(project_graph_id_for_dir(None), None);
    // Any path has the stem that the standard library gives it.
    for path in [
        "/data/abc", "/data/abc.txt", "/data/a.b.json", "/data/.json", "/data/.a.json", "abc.",
        "/data/abc.json/", "/data/abc.json/.", "/", "", ".", "..", "/data/..", "./.", "a/./", "...",
    ] {
        let stem = std::path::Path::new(path).file_stem().map(|s| s.to_str().unwrap().to_string());
        assert_eq!(project_graph_id_for_dir(Some(path)), stem, "{path:?}");
    }
}

#[test]
fn the_newest_files_are_looked_at() {
    let file = |name: &str, modified: Option<i64>| SessionFile {
        name: name.to_string(),
        modified: modified.map(at),
    };
    let newest = newest_sessions(
        vec![
            file("old.json", Some(NOW - 100)),
            file("new.json", Some(NOW)),
            file("unknown.json", None),
            file("notes.txt", Some(NOW)),
        ],
        Some(at(NOW - 50)),
        10,
    );
    let names: Vec<&str> = newest.iter().map(|f| f.name.as_str()).collect();
    assert_eq!(names, vec!["new.json", "unknown.json"]);

    let stamped = |name: &str| StampedName { name: name.to_string() };
    let transcripts =
        newest_transcripts(vec![stamped("20260101"), stamped("20260301"), stamped("20260201")], 2);
    let names: Vec<&str> = transcripts.iter().map(|f| f.name.as_str()).collect();
    assert_eq!(names, vec!["20260301", "20260201"]);
}

fn facts(id: &str, updated: i64) -> SessionFacts {
    SessionFacts {
        id: id.to_string(),
        status: "closed".to_string(),
        standing: SessionStanding::Closed,
        topic: None,
        created_at: at(updated - 90),
        updated_at: at(updated),
        working_dir: None,
        is_debug: false,
        has_messages: true,
    }
}

#[test]
fn recent_sessions_leave_out_debugging_and_the_old() {
    let loaded = vec![
        facts("a", NOW),
        SessionFacts { is_debug: true, ..facts("b", NOW) },
        SessionFacts { has_messages: false, ..facts("c", NOW) },
        facts("d", NOW - 1000),
    ];
    let recent = gather_recent_sessions(loaded, &at(NOW - 500));
    let ids: Vec<&str> = recent.iter().map(|s| s.id.as_str()).collect();
    assert_eq!(ids, vec!["c", "a"], "the newest id comes first");
    assert_eq!(recent[1].duration_secs, 90);
    assert_eq!(recent[1].extraction_status, "extracted");
    assert_ne!(recent[0].extraction_status, "extracted", "there was nothing to extract");
}

#[test]
fn a_day_is_looked_back_on_before_the_first_run() {
    assert_eq!(session_cutoff(Some(at(NOW - 60)), &at(NOW)), at(NOW - 60));
    assert_eq!(session_cutoff(None, &at(NOW)), at(NOW - 86_400));
    assert!(file_cutoff(&at(NOW)).nanos <= at(NOW).nanos);
}

#[test]
fn past_cycles_and_tagged_memories_are_fed_back() {
    let cycle = PastCycle {
        started_at: at(NOW - 3600),
        status: CycleStatus::Complete,
        summary: Some("Merged duplicates".to_string()),
        memories_modified: 3,
        compactions: 1,
    };
    let graph = GraphFacts {
        memories: vec![
            MemoryFacts { tags: vec!["ambient".to_string()], ..memory("liked", true) },
            memory("unrelated", true),
        ],
        contradicts: Vec::new(),
        last_cluster_update: None,
    };
    let feedback = gather_feedback_memories(&vec![cycle], &vec![graph], &at(NOW));
    assert_eq!(feedback.len(), 2);
    assert!(feedback[0].contains("Merged duplicates"), "got: {}", feedback[0]);
    assert!(feedback[1].contains("memory liked"), "got: {}", feedback[1]);
}
