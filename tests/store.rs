use agent_viz::adapters::opencode::OpenCodeAdapter;
use agent_viz::adapters::journal::{JournalAdapter, JournalSessionFile};
use agent_viz::json::{any_json_line, parse_json};
use agent_viz::model::{Event, EventKind, Source};
use agent_viz::sql::migrations;
use agent_viz::store::{
    apply_facets, bind_events, facet_param, pending_migrations, plan_upsert, EventRow, IngestResult, SearchFacets,
    SearchHit, SessionRow,
};

fn row(id: &str, created: &str, updated: &str, title: &str) -> SessionRow {
    SessionRow {
        id: id.to_string(),
        source: "codex".to_string(),
        external_id: "ext-1".to_string(),
        project: Some("p".to_string()),
        title: Some(title.to_string()),
        created_at: created.to_string(),
        updated_at: updated.to_string(),
        raw_payload: "{}".to_string(),
    }
}

fn hit(id: &str, source: &str, project: Option<&str>, kind: &str, ts: i64) -> SearchHit {
    SearchHit {
        event: EventRow {
            id: id.to_string(),
            session_id: "s".to_string(),
            kind: kind.to_string(),
            role: None,
            content: Some("needle".to_string()),
            timestamp: String::new(),
            raw_payload: "{}".to_string(),
        },
        source: source.to_string(),
        project: project.map(|p| p.to_string()),
        timestamp: ts,
    }
}

fn ids(hits: &[SearchHit]) -> Vec<&str> {
    hits.iter().map(|h| h.event.id.as_str()).collect()
}

fn facets(project: Option<&str>) -> SearchFacets {
    SearchFacets { source: None, project: project.map(|p| p.to_string()), kind: None, since: None }
}

#[test]
fn upsert_keeps_id_and_creation_time() {
    let first = row("id-1", "2024-01-01T00:00:00+00:00", "2024-01-01T01:00:00+00:00", "old");
    let plan = plan_upsert(None, first);
    assert!(!plan.replace_events);
    let second = row("id-2", "2024-02-01T00:00:00+00:00", "2024-02-01T05:00:00+00:00", "new");
    let plan = plan_upsert(Some(plan.row), second);
    assert!(plan.replace_events);
    assert_eq!(plan.row.id, "id-1");
    assert_eq!(plan.row.created_at, "2024-01-01T00:00:00+00:00");
    assert_eq!(plan.row.updated_at, "2024-02-01T05:00:00+00:00");
    assert_eq!(plan.row.title, Some("new".to_string()));
}

#[test]
fn events_take_the_stored_session_id() {
    let e = Event {
        id: "e".to_string(),
        session_id: "00000000-0000-0000-0000-000000000000".to_string(),
        kind: EventKind::Message,
        role: None,
        content: None,
        timestamp: 5,
        raw_payload: parse_json("{}").unwrap(),
    };
    let bound = bind_events(vec![e], &"stored".to_string());
    assert_eq!(bound[0].session_id, "stored");
    assert_eq!(bound[0].timestamp, 5);
}

#[test]
fn unset_facet_is_the_empty_string() {
    assert_eq!(facet_param(&None), "");
    assert_eq!(facet_param(&Some("x".to_string())), "x");
}

#[test]
fn unset_project_facet_keeps_every_project() {
    let hits = vec![hit("1", "codex", Some("a"), "message", 0), hit("2", "crush", Some("b"), "message", 0), hit("3", "codex", None, "error", 0)];
    assert_eq!(ids(&apply_facets(&facets(None), hits)), vec!["1", "2", "3"]);
}

#[test]
fn project_facet_without_matches_is_empty_not_an_error() {
    let hits = vec![hit("1", "codex", Some("a"), "message", 0), hit("2", "crush", Some("b"), "message", 0)];
    assert!(apply_facets(&facets(Some("zzz")), hits).is_empty());
}

#[test]
fn facets_combine_as_a_conjunction() {
    let hits = vec![
        hit("1", "codex", Some("a"), "message", 10),
        hit("2", "codex", Some("a"), "error", 10),
        hit("3", "crush", Some("a"), "error", 10),
        hit("4", "codex", Some("a"), "error", 1),
    ];
    let f = SearchFacets { source: Some("codex".to_string()), project: Some("a".to_string()), kind: Some("error".to_string()), since: Some(5) };
    assert_eq!(ids(&apply_facets(&f, hits)), vec!["2"]);
}

#[test]
fn partial_failure_batch_counts() {
    let r = IngestResult::tally(Source::Codex, &vec![true, false, true]);
    assert_eq!(r, IngestResult { source: Source::Codex, imported: 2, failed: 1, total: 3 });
    let mut r = IngestResult::new(Source::Codex);
    r.record(false);
    assert_eq!(r, IngestResult { source: Source::Codex, imported: 0, failed: 1, total: 1 });
}

#[test]
fn migrations_apply_once() {
    let all = migrations();
    assert_eq!(pending_migrations(&all, &Vec::new()), vec![0, 1, 2, 3, 4]);
    let applied = vec!["001_initial_schema".to_string(), "003_session_metrics_and_tool_calls".to_string()];
    assert_eq!(pending_migrations(&all, &applied), vec![1, 3, 4]);
    let every: Vec<String> = all.iter().map(|m| m.name.to_string()).collect();
    assert!(pending_migrations(&all, &every).is_empty());
}

#[test]
fn batch_with_one_malformed_file_reports_two_of_three() {
    let adapter = OpenCodeAdapter::with_paths("/s".to_string(), "/a".to_string());
    let files = [
        r#"{"id":"ses_a","title":"A","time":{"created":1704067200000,"updated":1704067260000}}"#,
        r#"{"id":"ses_b","title":"B","time":{"created":1704067200000,"updated""#,
        r#"{"id":"ses_c","title":"C","time":{"created":1704067300000,"updated":1704067360000}}"#,
    ];
    let parsed: Vec<_> = files.iter().map(|t| parse_json(t).and_then(|d| adapter.session_from_storage(d, 0))).collect();
    let outcomes: Vec<bool> = parsed.iter().map(|p| p.is_some()).collect();
    assert_eq!(IngestResult::tally(Source::OpenCode, &outcomes), IngestResult { source: Source::OpenCode, imported: 2, failed: 1, total: 3 });
    let stored: Vec<&str> = parsed.iter().flatten().map(|s| s.external_id.as_str()).collect();
    assert_eq!(stored, vec!["ses_a", "ses_c"]);
}

#[test]
fn malformed_journal_file_counts_as_failed() {
    let adapter = JournalAdapter::with_projects_dir("/p".to_string());
    let files: Vec<Vec<String>> = vec![
        vec![r#"{"type":"user","content":"a"}"#.to_string()],
        vec!["{not json".to_string(), "still not".to_string()],
        vec![r#"{"type":"assistant","message":{"content":"b"}}"#.to_string()],
    ];
    let mut stored = Vec::new();
    let mut result = IngestResult::new(Source::Journal);
    for (i, lines) in files.iter().enumerate() {
        let file = JournalSessionFile { path: format!("/p/x/{}.jsonl", i), project: "x".to_string(), session_id: i.to_string() };
        let parsed = adapter.parse_session_file(&file, lines, 0);
        assert_eq!(parsed.is_some(), any_json_line(lines));
        if let Some((session, events)) = &parsed {
            assert_eq!(events.len(), 1);
            stored.push(session.external_id.clone());
        }
        result.record(parsed.is_some());
    }
    assert_eq!(result, IngestResult { source: Source::Journal, imported: 2, failed: 1, total: 3 });
    assert_eq!(stored, vec!["0".to_string(), "2".to_string()]);
}
