use agent_viz::adapters::opencode::{
    format_message_content, order_messages, order_parts, parse_messages, providers_in_auth, OpenCodeAdapter,
};
use agent_viz::json::{parse_json, Json};
use agent_viz::model::{EventKind, Role, Source};
use agent_viz::timestamp::millis_to_instant;
use chrono::Datelike;

const NOW: i64 = 1_800_000_000;

fn value(text: &str) -> Json {
    parse_json(text).expect("test JSON parses")
}

#[test]
fn test_opencode_adapter_new() {
    let adapter = OpenCodeAdapter::new();
    assert!(adapter.storage_path().contains(".local/share/opencode/storage"));
    assert!(adapter.auth_path().contains(".local/share/opencode"));
}

#[test]
fn opencode_test_timestamp_conversion() {
    let ts_millis = 1704067200000i64;
    let secs = millis_to_instant(ts_millis, NOW);
    assert_eq!(secs, 1_704_067_200);
    let dt = chrono::DateTime::from_timestamp(secs, 0).unwrap();
    assert_eq!(dt.year(), 2024);
    assert_eq!(dt.month(), 1);
    assert_eq!(dt.day(), 1);
}

#[test]
fn message_text_from_parts() {
    let parts = vec![
        value(r#"{"type":"text","text":"Hello"}"#),
        value(r#"{"type":"file","filename":"a.rs"}"#),
        value(r#"{"type":"tool","tool":"bash","state":{"status":"completed"}}"#),
        value(r#"{"type":"tool","tool":"grep"}"#),
        value(r#"{"type":"step-start"}"#),
    ];
    let msg = value(r#"{"id":"m","role":"assistant"}"#);
    assert_eq!(
        format_message_content(&parts, &msg),
        "Hello\n\n[\u{1F4CE} a.rs]\n\n\u{1F527} bash (status: completed)\n\n\u{1F527} grep"
    );
}

#[test]
fn message_without_lines_uses_summary_title() {
    let msg = value(r#"{"id":"m","summary":{"title":"Summary title"}}"#);
    assert_eq!(format_message_content(&Vec::new(), &msg), "Summary title");
    let msg = value(r#"{"id":"m","summary":{"title":""}}"#);
    assert_eq!(format_message_content(&Vec::new(), &msg), "");
}

#[test]
fn messages_order_by_creation_and_parts_by_id() {
    let m = |id: &str, created: i64| {
        value(&format!(r#"{{"id":"{}","sessionID":"s","role":"user","time":{{"created":{}}}}}"#, id, created))
    };
    let ordered = order_messages(vec![
        (m("b", 20), Vec::new()),
        (value(r#"{"id":"bad"}"#), Vec::new()),
        (m("a", 10), Vec::new()),
        (m("c", 20), Vec::new()),
    ]);
    let ids: Vec<String> = ordered.iter().map(|(m, _)| m.text_member("id").unwrap()).collect();
    assert_eq!(ids, vec!["a", "b", "c"]);

    let p = |id: &str| value(&format!(r#"{{"id":"{}","sessionID":"s","messageID":"m","type":"text"}}"#, id));
    let parts = order_parts(vec![p("prt_2"), p("prt_10"), value(r#"{"id":"x"}"#), p("prt_1")]);
    let ids: Vec<String> = parts.iter().map(|p| p.text_member("id").unwrap()).collect();
    assert_eq!(ids, vec!["prt_1", "prt_10", "prt_2"]);
}

#[test]
fn messages_become_events_with_tool_events() {
    let msg = value(r#"{"id":"m","sessionID":"s","role":"assistant","time":{"created":1704067200000}}"#);
    let parts = vec![
        value(r#"{"id":"p1","type":"text","text":"Running"}"#),
        value(r#"{"id":"p2","type":"tool","tool":"bash","state":{"status":"ok","output":"done"}}"#),
    ];
    let odd = value(r#"{"id":"n","sessionID":"s","role":"narrator","time":{"created":1704067201000}}"#);
    let events = parse_messages(&"sid".to_string(), vec![(msg, parts), (odd, Vec::new())], NOW);
    assert_eq!(events.len(), 3);
    assert_eq!(events[0].kind, EventKind::Message);
    assert_eq!(events[0].role, Some(Role::Assistant));
    assert_eq!(events[1].kind, EventKind::ToolCall);
    assert_eq!(
        events[1].content,
        Some(r#"{"input":null,"metadata":null,"output":"done","status":"ok","tool":"bash"}"#.to_string())
    );
    assert_eq!(events[1].timestamp, 1_704_067_200);
    assert_eq!(events[2].kind, EventKind::System);
    assert_eq!(events[2].role, None);
    assert!(events.iter().all(|e| e.session_id == "sid"));
}

#[test]
fn session_file_gives_session() {
    let adapter = OpenCodeAdapter::with_paths("/s".to_string(), "/a".to_string());
    let data = value(r#"{"id":"ses_1","title":"T","directory":"/w","time":{"created":1704067200000,"updated":1704067260000}}"#);
    let s = adapter.session_from_storage(data, NOW).unwrap();
    assert_eq!(s.source, Source::OpenCode);
    assert_eq!(s.external_id, "ses_1");
    assert_eq!(s.project, Some("/w".to_string()));
    assert_eq!(s.created_at, 1_704_067_200);
    assert_eq!(s.updated_at, 1_704_067_260);
    assert!(adapter.session_from_storage(value(r#"{"id":"x"}"#), NOW).is_none());
}

#[test]
fn providers_of_credentials_file() {
    let auth = value(r#"{"openai":{"type":"api","key":"k"},"github":{"type":"oauth","access":"a"}}"#);
    assert_eq!(providers_in_auth(&auth), vec!["github".to_string(), "openai".to_string()]);
    let bad = value(r#"{"openai":{"type":"api"}}"#);
    assert!(providers_in_auth(&bad).is_empty());
    assert!(providers_in_auth(&value("[]")).is_empty());
}
