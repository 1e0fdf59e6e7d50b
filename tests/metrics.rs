use agent_viz::adapters::codex::CodexAdapter;
use agent_viz::adapters::journal::JournalAdapter;
use agent_viz::json::parse_json;
use agent_viz::metrics::{compute_session_metrics, percentile_of, sort_durations, FileChange};
use agent_viz::model::{Event, EventKind, Role};
use agent_viz::pricing::ModelMetadata;

fn event(kind: EventKind, role: Option<Role>, content: Option<&str>, ts: i64) -> Event {
    Event {
        id: "e".to_string(),
        session_id: "s".to_string(),
        kind,
        role,
        content: content.map(|c| c.to_string()),
        timestamp: ts,
        raw_payload: parse_json("{}").unwrap(),
    }
}

#[test]
fn metrics_are_recomputed_from_events() {
    let events = vec![
        event(EventKind::Message, Some(Role::User), Some("abcdefgh"), 100),
        event(EventKind::Message, Some(Role::Assistant), Some("abcd"), 160),
        event(EventKind::ToolCall, Some(Role::Assistant), None, 130),
        event(EventKind::ToolResult, None, Some("x"), 140),
        event(EventKind::Error, None, Some("boom"), 90),
    ];
    let files = vec![FileChange { lines_added: 10, lines_removed: 2 }, FileChange { lines_added: 1, lines_removed: 5 }];
    let model = ModelMetadata {
        model_id: "m".to_string(),
        provider: "p".to_string(),
        input_price_per_1m: 3_000_000,
        output_price_per_1m: 15_000_000,
        extended_input_price_per_1m: None,
        extended_output_price_per_1m: None,
    };
    let m = compute_session_metrics(&events, &vec![300, 100, 200, 400], &files, Some(&model));
    assert_eq!(m.total_events, 5);
    assert_eq!(m.message_count, 2);
    assert_eq!(m.tool_call_count, 1);
    assert_eq!(m.tool_result_count, 1);
    assert_eq!(m.error_count, 1);
    assert_eq!(m.user_messages, 1);
    assert_eq!(m.assistant_messages, 1);
    assert_eq!(m.duration_seconds, Some(70));
    assert_eq!(m.files_touched, 2);
    assert_eq!(m.lines_added, 11);
    assert_eq!(m.lines_removed, 7);
    assert_eq!(m.input_tokens, 2);
    assert_eq!(m.output_tokens, 1);
    assert_eq!(m.estimated_cost, Some(2 * 3_000_000 + 15_000_000));
    assert_eq!(m.total_latency_ms, 1000);
    assert_eq!(m.p50_latency_ms, Some(200));
    assert_eq!(m.p95_latency_ms, Some(400));
}

#[test]
fn empty_session_has_no_span_or_latency() {
    let m = compute_session_metrics(&Vec::new(), &Vec::new(), &Vec::new(), None);
    assert_eq!(m.total_events, 0);
    assert_eq!(m.duration_seconds, None);
    assert_eq!(m.p50_latency_ms, None);
    assert_eq!(m.estimated_cost, None);
}

#[test]
fn nearest_rank_percentiles() {
    let s = sort_durations(&vec![5, 1, 4, 2, 3]);
    assert_eq!(s, vec![1, 2, 3, 4, 5]);
    assert_eq!(percentile_of(&s, 50), Some(3));
    assert_eq!(percentile_of(&s, 95), Some(5));
    assert_eq!(percentile_of(&s, 0), Some(1));
}

#[test]
fn journal_session_stats() {
    let adapter = JournalAdapter::with_projects_dir("/p".to_string());
    let lines: Vec<String> = vec![
        r#"{"type":"user","gitBranch":"main","cwd":"/w"}"#.to_string(),
        r#"{"type":"assistant","gitBranch":"main","message":{"content":[{"type":"tool_use"},{"type":"text"},{"type":"tool_use"}]}}"#.to_string(),
        r#"{"type":"progress","gitBranch":"dev"}"#.to_string(),
        r#"{"type":"file-history-snapshot"}"#.to_string(),
        "junk".to_string(),
        r#"{"type":"system","cwd":"/w"}"#.to_string(),
    ];
    let st = adapter.session_stats(&lines);
    assert_eq!(st.total_lines, 6);
    assert_eq!(st.user_messages, 1);
    assert_eq!(st.assistant_messages, 1);
    assert_eq!(st.tool_calls, 2);
    assert_eq!(st.progress_messages, 1);
    assert_eq!(st.file_snapshots, 1);
    assert_eq!(st.system_messages, 1);
    assert_eq!(st.git_branches, vec!["main".to_string(), "dev".to_string()]);
    assert_eq!(st.working_directories, vec!["/w".to_string()]);
}

#[test]
fn codex_session_stats() {
    let adapter = CodexAdapter::with_sessions_dir("/s".to_string());
    let lines: Vec<String> = vec![
        r#"{"timestamp":"t","type":"session_meta","payload":{"id":"x","cwd":"/w","git":{"branch":"main"}}}"#.to_string(),
        r#"{"timestamp":"t","type":"response_item","payload":{"type":"message","role":"user"}}"#.to_string(),
        r#"{"timestamp":"t","type":"response_item","payload":{"type":"message","role":"assistant"}}"#.to_string(),
        r#"{"timestamp":"t","type":"response_item","payload":{"type":"function_call"}}"#.to_string(),
        r#"{"timestamp":"t","type":"event_msg","payload":{"type":"agent_reasoning"}}"#.to_string(),
        r#"{"timestamp":"t","type":"turn_context","payload":{"cwd":"/other"}}"#.to_string(),
        r#"{"type":"event_msg","payload":{"type":"user_message"}}"#.to_string(),
    ];
    let st = adapter.session_stats(&lines);
    assert_eq!(st.total_lines, 7);
    assert_eq!(st.user_messages, 1);
    assert_eq!(st.assistant_messages, 1);
    assert_eq!(st.system_messages, 1);
    assert_eq!(st.tool_calls, 1);
    assert_eq!(st.git_branches, vec!["main".to_string()]);
    assert_eq!(st.working_directories, vec!["/w".to_string(), "/other".to_string()]);
}

#[test]
fn session_model_is_the_last_named() {
    let mut a = event(EventKind::Message, None, None, 0);
    a.raw_payload = parse_json(r#"{"message":{"model":"m-1"}}"#).unwrap();
    let mut b = event(EventKind::Message, None, None, 0);
    b.raw_payload = parse_json(r#"{"model":"m-2"}"#).unwrap();
    let c = event(EventKind::Message, None, None, 0);
    assert_eq!(agent_viz::metrics::session_model(&vec![a, b, c]), Some("m-2".to_string()));
    assert_eq!(agent_viz::metrics::session_model(&Vec::new()), None);
}
