use agent_viz::adapters::journal::{
    event_to_node, extract_assistant_content, parse_event_line, session_log, JournalAdapter, JournalSessionFile,
};
use agent_viz::json::{parse_json, Json};
use agent_viz::model::{Event, EventKind, Role, Source};

const NOW: i64 = 1_800_000_000;

fn value(text: &str) -> Json {
    parse_json(text).expect("test JSON parses")
}

fn event_with(raw: &str, kind: EventKind, role: Option<Role>, content: &str) -> Event {
    Event {
        id: "e".to_string(),
        session_id: "s".to_string(),
        kind,
        role,
        content: Some(content.to_string()),
        timestamp: NOW,
        raw_payload: value(raw),
    }
}

#[test]
fn test_parse_event_line_user_message() {
    let v = value(r#"{"type":"user","uuid":"test-uuid","timestamp":"2024-01-01T00:00:00Z","content":"Hello, world!"}"#);
    let event = parse_event_line(v, NOW).unwrap();
    assert_eq!(event.kind, EventKind::Message);
    assert_eq!(event.role, Some(Role::User));
    assert_eq!(event.content, Some("Hello, world!".to_string()));
    assert_eq!(event.timestamp, 1_704_067_200);
}

#[test]
fn test_parse_event_line_user_message_with_message_object() {
    let v = value(
        r#"{"type":"user","uuid":"test-uuid","timestamp":"2024-01-01T00:00:00Z","message":{"role":"user","content":"Message from object"}}"#,
    );
    let event = parse_event_line(v, NOW).unwrap();
    assert_eq!(event.kind, EventKind::Message);
    assert_eq!(event.role, Some(Role::User));
    assert_eq!(event.content, Some("Message from object".to_string()));
}

#[test]
fn test_parse_event_line_assistant_message() {
    let v = value(
        r#"{"type":"assistant","uuid":"test-uuid","timestamp":"2024-01-01T00:00:00Z","message":{"role":"assistant","content":[{"type":"text","text":"How can I help?"}]}}"#,
    );
    let event = parse_event_line(v, NOW).unwrap();
    assert_eq!(event.kind, EventKind::Message);
    assert_eq!(event.role, Some(Role::Assistant));
    assert_eq!(event.content, Some("How can I help?".to_string()));
}

#[test]
fn test_parse_event_line_assistant_with_tool_use() {
    let text = r#"{"type":"assistant","uuid":"test-uuid","timestamp":"2024-01-01T00:00:00Z","message":{"role":"assistant","content":[{"type":"text","text":"Let me check that file."},{"type":"tool_use","id":"call_123","name":"Read","input":{"file_path":"/test/file.txt"}}]}}"#;
    let event = parse_event_line(value(text), NOW).unwrap();
    assert_eq!(event.kind, EventKind::Message);
    assert_eq!(event.role, Some(Role::Assistant));
    assert_eq!(event.content, Some("Let me check that file.".to_string()));

    let (_, tool_calls, _) = extract_assistant_content(&value(text));
    assert_eq!(tool_calls.len(), 1);
    assert_eq!(tool_calls[0].name, "Read");
    assert_eq!(tool_calls[0].id, "call_123");
    assert_eq!(tool_calls[0].arguments, r#"{"file_path":"/test/file.txt"}"#);
}

#[test]
fn test_parse_event_line_assistant_with_thinking() {
    let text = r#"{"type":"assistant","uuid":"test-uuid","timestamp":"2024-01-01T00:00:00Z","message":{"role":"assistant","content":[{"type":"thinking","thinking":"I need to analyze this carefully."},{"type":"text","text":"Here's my analysis."}]}}"#;
    let event = parse_event_line(value(text), NOW).unwrap();
    assert_eq!(event.content, Some("Here's my analysis.".to_string()));

    let (_, _, thinking) = extract_assistant_content(&value(text));
    assert_eq!(thinking, Some("I need to analyze this carefully.".to_string()));
}

#[test]
fn test_parse_event_line_system() {
    let v = value(r#"{"type":"system","uuid":"test-uuid","timestamp":"2024-01-01T00:00:00Z","content":"System message"}"#);
    let event = parse_event_line(v, NOW).unwrap();
    assert_eq!(event.kind, EventKind::System);
    assert_eq!(event.role, Some(Role::System));
}

#[test]
fn test_parse_event_line_progress() {
    let v = value(
        r#"{"type":"progress","uuid":"test-uuid","timestamp":"2024-01-01T00:00:00Z","data":{"message":{"content":"Processing..."}}}"#,
    );
    let event = parse_event_line(v, NOW).unwrap();
    assert_eq!(event.kind, EventKind::System);
    assert_eq!(event.content, Some("Processing...".to_string()));
}

#[test]
fn test_parse_event_line_error() {
    let v = value(r#"{"type":"error","uuid":"test-uuid","timestamp":"2024-01-01T00:00:00Z","message":"Something went wrong"}"#);
    let event = parse_event_line(v, NOW).unwrap();
    assert_eq!(event.kind, EventKind::Error);
    assert_eq!(event.content, Some("Something went wrong".to_string()));
}

#[test]
fn test_parse_event_line_unknown_type() {
    let v = value(r#"{"type":"unknown_type","uuid":"test-uuid","timestamp":"2024-01-01T00:00:00Z","data":"some data"}"#);
    let event = parse_event_line(v, NOW).unwrap();
    assert_eq!(event.kind, EventKind::System);
    assert!(event.content.is_some());
    assert_eq!(event.content, Some("Unknown type: unknown_type".to_string()));
}

#[test]
fn progress_without_message_keeps_data_as_json_text() {
    let v = value(r#"{"type":"progress","data":{"step":3}}"#);
    let event = parse_event_line(v, NOW).unwrap();
    assert_eq!(event.content, Some(r#"{"step":3}"#.to_string()));
    assert_eq!(event.role, None);
    assert_eq!(event.timestamp, NOW);
}

#[test]
fn entry_without_type_is_skipped() {
    assert!(parse_event_line(value(r#"{"uuid":"x"}"#), NOW).is_none());
}

#[test]
fn multi_block_assistant_text_is_newline_joined() {
    let v = value(
        r#"{"type":"assistant","message":{"content":[{"type":"text","text":"one"},{"type":"image"},{"type":"text","text":"two"}]}}"#,
    );
    let event = parse_event_line(v, NOW).unwrap();
    assert_eq!(event.content, Some("one\ntwo".to_string()));
}

#[test]
fn test_rebuild_conversations() {
    let adapter = JournalAdapter::with_projects_dir("/tmp/projects".to_string());
    let events = vec![
        event_with(
            r#"{"type":"user","uuid":"uuid-1","parentUuid":null,"timestamp":"2024-01-01T00:00:00Z"}"#,
            EventKind::Message,
            Some(Role::User),
            "First message",
        ),
        event_with(
            r#"{"type":"assistant","uuid":"uuid-2","parentUuid":"uuid-1","timestamp":"2024-01-01T00:00:01Z"}"#,
            EventKind::Message,
            Some(Role::Assistant),
            "Response",
        ),
    ];
    let threads = adapter.rebuild_conversations(&events);
    assert_eq!(threads.len(), 1);
    assert_eq!(threads[0].root_uuid, "uuid-1");
    assert_eq!(threads[0].nodes.len(), 2);
}

#[test]
fn thread_reconstruction_finds_the_single_root() {
    let adapter = JournalAdapter::with_projects_dir("/tmp/projects".to_string());
    let events = vec![
        event_with(r#"{"type":"system","uuid":"b","parentUuid":"a","content":"reply"}"#, EventKind::System, None, "reply"),
        event_with(r#"{"type":"system","uuid":"a","parentUuid":null,"content":"start"}"#, EventKind::System, None, "start"),
    ];
    let threads = adapter.rebuild_conversations(&events);
    assert_eq!(threads.len(), 1);
    assert_eq!(threads[0].root_uuid, "a");
    let uuids: Vec<&str> = threads[0].nodes.iter().map(|n| n.uuid.as_str()).collect();
    assert!(uuids.contains(&"a") && uuids.contains(&"b"));
}

#[test]
fn node_with_unknown_parent_is_a_root() {
    let adapter = JournalAdapter::with_projects_dir("/tmp/projects".to_string());
    let events = vec![
        event_with(r#"{"type":"user","uuid":"a","content":"x"}"#, EventKind::Message, Some(Role::User), "x"),
        event_with(r#"{"type":"user","uuid":"c","parentUuid":"missing","content":"y"}"#, EventKind::Message, Some(Role::User), "y"),
    ];
    let threads = adapter.rebuild_conversations(&events);
    let roots: Vec<&str> = threads.iter().map(|t| t.root_uuid.as_str()).collect();
    assert_eq!(roots, vec!["a", "c"]);
}

#[test]
fn event_without_uuid_gives_no_node() {
    let e = event_with(r#"{"type":"user"}"#, EventKind::Message, Some(Role::User), "x");
    assert!(event_to_node(&e).is_none());
}

#[test]
fn session_lines_give_title_bounds_and_events() {
    let adapter = JournalAdapter::with_projects_dir("/tmp/projects".to_string());
    let file = JournalSessionFile {
        path: "/tmp/projects/demo/abc.jsonl".to_string(),
        project: "demo".to_string(),
        session_id: "abc".to_string(),
    };
    let lines: Vec<String> = vec![
        r#"{"type":"user","timestamp":"2024-01-01T00:00:10Z","content":"hi"}"#.to_string(),
        "not json".to_string(),
        "".to_string(),
        r#"{"type":"summary","summary":"Demo title","leafUuid":"x"}"#.to_string(),
        r#"{"type":"assistant","timestamp":"2024-01-01T00:00:05Z","message":{"content":"hello"}}"#.to_string(),
    ];
    let (session, events) = adapter.parse_session_lines(&file, &lines, NOW);
    assert_eq!(session.source, Source::Journal);
    assert_eq!(session.external_id, "abc");
    assert_eq!(session.project, Some("demo".to_string()));
    assert_eq!(session.title, Some("Demo title".to_string()));
    assert_eq!(session.created_at, 1_704_067_205);
    assert_eq!(session.updated_at, 1_704_067_210);
    assert_eq!(events.len(), 2);
    assert!(events.iter().all(|e| e.session_id == session.id));
    assert_eq!(events[1].content, Some("hello".to_string()));
}

#[test]
fn session_without_timestamps_uses_now() {
    let adapter = JournalAdapter::with_projects_dir("/tmp/projects".to_string());
    let file = JournalSessionFile { path: "p".to_string(), project: "q".to_string(), session_id: "r".to_string() };
    let (session, events) = adapter.parse_session_lines(&file, &vec![r#"{"type":"user"}"#.to_string()], NOW);
    assert_eq!(session.created_at, NOW);
    assert_eq!(session.updated_at, NOW);
    assert_eq!(events.len(), 1);
}

#[test]
fn entry_timestamps_in_any_encoding() {
    let secs = parse_event_line(value(r#"{"type":"user","timestamp":1704067200}"#), NOW).unwrap();
    let millis = parse_event_line(value(r#"{"type":"user","timestamp":1704067200000}"#), NOW).unwrap();
    let text = parse_event_line(value(r#"{"type":"user","timestamp":"2024-01-01T00:00:00Z"}"#), NOW).unwrap();
    assert_eq!(secs.timestamp, 1_704_067_200);
    assert_eq!(millis.timestamp, 1_704_067_200);
    assert_eq!(text.timestamp, 1_704_067_200);
    let bad = parse_event_line(value(r#"{"type":"user","timestamp":"soon"}"#), NOW).unwrap();
    assert_eq!(bad.timestamp, NOW);
}

#[test]
fn session_log_names() {
    assert_eq!(session_log("abc-123.jsonl"), Some("abc-123".to_string()));
    assert_eq!(session_log(".jsonl"), None);
    assert_eq!(session_log("notes.txt"), None);
}

#[test]
fn malformed_file_gives_no_session() {
    let adapter = JournalAdapter::with_projects_dir("/p".to_string());
    let file = JournalSessionFile { path: "p".to_string(), project: "q".to_string(), session_id: "r".to_string() };
    assert!(adapter.parse_session_file(&file, &vec!["{oops".to_string()], NOW).is_none());
    assert!(adapter.parse_session_file(&file, &vec!["{}".to_string()], NOW).is_some());
}
