use agent_viz::adapters::codex::{
    parse_event_msg, parse_line_event, parse_response_item, project_of_meta, rollout_session, CodexAdapter,
    CodexSessionFile,
};
use agent_viz::json::{parse_json, Json};
use agent_viz::model::{EventKind, Role, Source};

const NOW: i64 = 1_800_000_000;

fn value(text: &str) -> Json {
    parse_json(text).expect("test JSON parses")
}

#[test]
fn test_codex_adapter_new() {
    let adapter = CodexAdapter::with_codex_home(Some("/home/u/.codex/sessions".to_string()));
    assert!(adapter.sessions_dir().contains(".codex"));
}

#[test]
fn test_parse_response_item_message() {
    let payload = value(r#"{"type":"message","role":"user","content":[{"type":"input_text","text":"Hello, world!"}]}"#);
    let (kind, role, content) = parse_response_item(&payload).unwrap();
    assert_eq!(kind, EventKind::Message);
    assert_eq!(role, Some(Role::User));
    assert_eq!(content, Some("Hello, world!".to_string()));
}

#[test]
fn test_parse_response_item_function_call() {
    let payload = value(r#"{"type":"function_call","name":"shell","arguments":"{\"command\": [\"ls\"]}","call_id":"call_123"}"#);
    let (kind, role, content) = parse_response_item(&payload).unwrap();
    assert_eq!(kind, EventKind::ToolCall);
    assert_eq!(role, Some(Role::Assistant));
    assert!(content.is_some());
    assert_eq!(content, Some(r#"Called shell with arguments: {"command": ["ls"]}"#.to_string()));
}

#[test]
fn test_parse_event_msg_user_message() {
    let payload = value(r#"{"type":"user_message","message":"Test message"}"#);
    let (kind, role, content) = parse_event_msg(&payload).unwrap();
    assert_eq!(kind, EventKind::Message);
    assert_eq!(role, Some(Role::User));
    assert_eq!(content, Some("Test message".to_string()));
}

#[test]
fn function_call_defaults_and_outputs() {
    let (_, _, content) = parse_response_item(&value(r#"{"type":"function_call"}"#)).unwrap();
    assert_eq!(content, Some("Called unknown with arguments: {}".to_string()));
    let (kind, role, content) = parse_response_item(&value(r#"{"type":"function_call_output"}"#)).unwrap();
    assert_eq!(kind, EventKind::ToolResult);
    assert_eq!(role, None);
    assert_eq!(content, Some(String::new()));
    let (kind, _, content) = parse_response_item(&value(r#"{"type":"reasoning"}"#)).unwrap();
    assert_eq!(kind, EventKind::System);
    assert_eq!(content, Some("[Reasoning content encrypted by Codex]".to_string()));
    assert!(parse_response_item(&value(r#"{"type":"other"}"#)).is_none());
}

#[test]
fn agent_reasoning_is_prefixed() {
    let (kind, role, content) = parse_event_msg(&value(r#"{"type":"agent_reasoning","message":"plan"}"#)).unwrap();
    assert_eq!(kind, EventKind::System);
    assert_eq!(role, Some(Role::Assistant));
    assert_eq!(content, Some("[Thinking] plan".to_string()));
    assert!(parse_event_msg(&value(r#"{"type":"token_count"}"#)).is_none());
}

#[test]
fn meta_project_prefers_repository_and_branch() {
    let meta = value(r#"{"id":"s","cwd":"/w","git":{"repository_url":"https://h/o/repo","branch":"dev"}}"#);
    assert_eq!(project_of_meta(&meta), Some("repo/dev".to_string()));
    let meta = value(r#"{"id":"s","cwd":"/w","git":{"repository_url":"https://h/o/repo"}}"#);
    assert_eq!(project_of_meta(&meta), Some("repo/main".to_string()));
    let meta = value(r#"{"id":"s","cwd":"/w"}"#);
    assert_eq!(project_of_meta(&meta), Some("/w".to_string()));
}

#[test]
fn line_event_uses_timestamp_or_now() {
    let v = value(r#"{"timestamp":"bad","type":"event_msg","payload":{"type":"user_message","message":"m"}}"#);
    let e = parse_line_event(v, NOW).unwrap();
    assert_eq!(e.timestamp, NOW);
    let v = value(r#"{"type":"event_msg","payload":{"type":"user_message","message":"m"}}"#);
    assert!(parse_line_event(v, NOW).is_none());
}

#[test]
fn rollout_lines_give_session() {
    let adapter = CodexAdapter::with_sessions_dir("/tmp/s".to_string());
    let file = CodexSessionFile { path: "/tmp/s/r.jsonl".to_string(), session_id: "r".to_string(), date: "2024/01/01".to_string() };
    let lines: Vec<String> = vec![
        r#"{"timestamp":"2024-01-01T00:00:00Z","type":"session_meta","payload":{"id":"r","cwd":"/work"}}"#.to_string(),
        r#"{"timestamp":"2024-01-01T00:01:00Z","type":"response_item","payload":{"type":"message","role":"assistant","content":[{"type":"output_text","text":"a"},{"type":"output_text","text":"b"}]}}"#.to_string(),
        "{broken".to_string(),
        r#"{"timestamp":"2024-01-01T00:02:00Z","type":"turn_context","payload":{}}"#.to_string(),
    ];
    let (session, events) = adapter.parse_session_lines(&file, &lines, NOW);
    assert_eq!(session.source, Source::Codex);
    assert_eq!(session.project, Some("/work".to_string()));
    assert_eq!(session.created_at, 1_704_067_200);
    assert_eq!(session.updated_at, 1_704_067_320);
    assert_eq!(events.len(), 1);
    assert_eq!(events[0].content, Some("a\nb".to_string()));
    assert_eq!(events[0].session_id, session.id);
}

#[test]
fn rollout_timestamps_in_any_encoding() {
    let v = value(r#"{"timestamp":1704067200000,"type":"event_msg","payload":{"type":"user_message","message":"m"}}"#);
    assert_eq!(parse_line_event(v, NOW).unwrap().timestamp, 1_704_067_200);
    let v = value(r#"{"timestamp":1704067200,"type":"event_msg","payload":{"type":"user_message","message":"m"}}"#);
    assert_eq!(parse_line_event(v, NOW).unwrap().timestamp, 1_704_067_200);
}

#[test]
fn rollout_file_names_give_id_and_date() {
    let f = rollout_session("/s/2024/01/02/x".to_string(), "rollout-2024-01-02T10-00-00-abc.jsonl", "2024", "01", "02").unwrap();
    assert_eq!(f.session_id, "2024-01-02T10-00-00-abc");
    assert_eq!(f.date, "2024/01/02");
    assert_eq!(f.path, "/s/2024/01/02/x");
    assert!(rollout_session("p".to_string(), "notes.jsonl", "2024", "01", "02").is_none());
    assert!(rollout_session("p".to_string(), "rollout-x.json", "2024", "01", "02").is_none());
    assert_eq!(rollout_session("p".to_string(), "rollout-.jsonl", "y", "m", "d").unwrap().session_id, "");
}
