use agent_viz::adapters::crush::{
    is_crush_database, skips_directory,
    detect_schema_features, extract_content_from_parts, message_to_event, read_parts, session_query, CrushAdapter,
    CrushMessage, CrushSession, CrushSessionFile, MessagesQuery, GET_MESSAGES_MINIMAL, GET_SESSION_WITHOUT_TODOS,
};
use agent_viz::json::{parse_json, Json};
use agent_viz::model::{EventKind, Role, Source};
use agent_viz::timestamp::to_epoch_seconds;
use chrono::Datelike;

const NOW: i64 = 1_800_000_000;

fn message(role: &str, parts: &str, summary: i64) -> CrushMessage {
    CrushMessage {
        id: "m1".to_string(),
        session_id: "s1".to_string(),
        role: role.to_string(),
        parts: parts.to_string(),
        model: None,
        provider: None,
        created_at: 1_704_067_200_000,
        updated_at: 1_704_067_200_000,
        finished_at: None,
        is_summary_message: summary,
    }
}

#[test]
fn test_crush_adapter_new() {
    let adapter = CrushAdapter::new();
    let path = adapter.db_path();
    assert!(path.contains(".crush") || path.contains("crush.db"));
}

#[test]
fn crush_test_timestamp_conversion() {
    let ts = 1704067200;
    let dt = chrono::DateTime::from_timestamp(to_epoch_seconds(ts), 0).unwrap();
    assert_eq!(dt.year(), 2024);
    assert_eq!(dt.month(), 1);
    assert_eq!(dt.day(), 1);
}

#[test]
fn test_extract_content_from_text() {
    let parts = read_parts(r#"[{"type":"text","data":{"text":"Hello, world!"}}]"#);
    let (kind, content) = extract_content_from_parts(&parts);
    assert_eq!(kind, EventKind::Message);
    assert_eq!(content, Some("Hello, world!".to_string()));
}

#[test]
fn test_extract_content_from_tool_use() {
    let parts = read_parts(
        r#"[{"type":"text","data":{"text":"Let me check that file."}},{"type":"tool_use","data":{"id":"call_123","name":"read_file","file_path":"/test/file.txt"}}]"#,
    );
    let (kind, content) = extract_content_from_parts(&parts);
    assert_eq!(kind, EventKind::ToolCall);
    assert!(content.is_some());
    assert!(content.unwrap().contains("read_file"));
}

#[test]
fn part_tags_are_bracketed() {
    let parts = read_parts(
        r#"[{"type":"reasoning","data":{"thinking":"hm"}},{"type":"tool_result","data":{"tool_use_id":"t","content":"ok","is_error":true}},{"type":"image","data":{}},{"type":"finish","data":{"reason":"end","time":5}},{"type":"other"}]"#,
    );
    let (kind, content) = extract_content_from_parts(&parts);
    assert_eq!(kind, EventKind::Message);
    assert_eq!(content, Some("[Thinking: hm]\n[Error] ok\n[Image]\n[Finished: end]".to_string()));
}

#[test]
fn malformed_parts_give_no_content() {
    assert!(read_parts(r#"[{"type":"text","data":{}}]"#).is_empty());
    assert!(read_parts("not json").is_empty());
    let e = message_to_event(message("user", "not json", 0), NOW).unwrap();
    assert_eq!(e.content, None);
    assert_eq!(e.role, Some(Role::User));
}

#[test]
fn summary_messages_are_excluded() {
    assert!(message_to_event(message("assistant", "[]", 1), NOW).is_none());
    let e = message_to_event(message("assistant", "[]", 0), NOW).unwrap();
    assert_eq!(e.timestamp, 1_704_067_200);
}

#[test]
fn minimal_schema_selects_defaulting_queries() {
    let f = detect_schema_features(0, 0, 0, 0);
    assert_eq!(MessagesQuery::for_features(&f), MessagesQuery::Minimal);
    assert_eq!(MessagesQuery::for_features(&f).sql(), GET_MESSAGES_MINIMAL);
    assert_eq!(session_query(&f), GET_SESSION_WITHOUT_TODOS);
    assert!(!f.has_read_files_table);
    let f = detect_schema_features(1, 0, 2, 1);
    assert_eq!(MessagesQuery::for_features(&f), MessagesQuery::NoSummaryFlag);
    assert_eq!(MessagesQuery::for_features(&detect_schema_features(0, 3, 0, 0)), MessagesQuery::NoProvider);
    assert_eq!(MessagesQuery::for_features(&detect_schema_features(1, 1, 0, 0)), MessagesQuery::Full);
}

#[test]
fn session_rows_give_session_and_events() {
    let adapter = CrushAdapter::with_db_path("/home/u/proj/.crush/crush.db".to_string());
    let file = CrushSessionFile { path: "/home/u/proj/.crush/crush.db".to_string(), session_id: "s1".to_string() };
    let row = CrushSession {
        id: "s1".to_string(),
        parent_session_id: None,
        title: "Fix bug".to_string(),
        message_count: 2,
        prompt_tokens: 10,
        completion_tokens: 20,
        cost: parse_json("0.25").unwrap(),
        updated_at: 1_704_067_300,
        created_at: 1_704_067_200,
        summary_message_id: None,
        todos: None,
    };
    let messages = vec![message("user", r#"[{"type":"text","data":{"text":"hi"}}]"#, 0), message("assistant", "[]", 1)];
    let (session, events) = adapter.parse_session_rows(&file, row, messages, Vec::new(), NOW);
    assert_eq!(session.source, Source::Crush);
    assert_eq!(session.project, Some("proj".to_string()));
    assert_eq!(session.title, Some("Fix bug".to_string()));
    assert_eq!(session.created_at, 1_704_067_200);
    assert_eq!(session.updated_at, 1_704_067_300);
    assert_eq!(events.len(), 1);
    assert_eq!(events[0].session_id, session.id);
    assert!(matches!(session.raw_payload, Json::Object(_)));
}

#[test]
fn any_message_with_a_tool_use_is_a_tool_call() {
    let e = message_to_event(message("user", r#"[{"type":"tool_use","data":{"id":"c","name":"grep"}}]"#, 0), NOW).unwrap();
    assert_eq!(e.kind, EventKind::ToolCall);
    assert_eq!(e.content, Some("[Tool: grep]".to_string()));
}

#[test]
fn minimal_schema_defaults_are_recorded_in_payloads() {
    let e = message_to_event(message("assistant", "[]", 0), NOW).unwrap();
    assert!(matches!(e.raw_payload.get("provider"), Some(Json::Null)));
    assert_eq!(e.raw_payload.get("is_summary_message").and_then(|v| v.as_i64()), Some(0));
    let adapter = CrushAdapter::with_db_path("/h/p/.crush/crush.db".to_string());
    let file = CrushSessionFile { path: "/h/p/.crush/crush.db".to_string(), session_id: "s".to_string() };
    let row = CrushSession {
        id: "s".to_string(),
        parent_session_id: None,
        title: "t".to_string(),
        message_count: 0,
        prompt_tokens: 0,
        completion_tokens: 0,
        cost: Json::Null,
        updated_at: 1,
        created_at: 1,
        summary_message_id: None,
        todos: None,
    };
    let (session, _) = adapter.parse_session_rows(&file, row, Vec::new(), Vec::new(), NOW);
    assert!(matches!(session.raw_payload.get("todos"), Some(Json::Null)));
    assert!(matches!(session.raw_payload.get("read_files"), Some(Json::Array(a)) if a.is_empty()));
}

#[test]
fn database_search_predicates() {
    assert!(skips_directory("node_modules"));
    assert!(skips_directory(".git"));
    assert!(!skips_directory("src"));
    assert!(is_crush_database("crush.db", ".crush"));
    assert!(!is_crush_database("crush.db", "crush"));
}

#[test]
fn session_rows_record_defaults_in_event_payloads() {
    let adapter = CrushAdapter::with_db_path("/h/p/.crush/crush.db".to_string());
    let file = CrushSessionFile { path: "/h/p/.crush/crush.db".to_string(), session_id: "s".to_string() };
    let row = CrushSession {
        id: "s".to_string(),
        parent_session_id: None,
        title: "t".to_string(),
        message_count: 2,
        prompt_tokens: 0,
        completion_tokens: 0,
        cost: Json::Null,
        updated_at: 1,
        created_at: 1,
        summary_message_id: None,
        todos: None,
    };
    let messages = vec![message("user", "[]", 0), message("assistant", "[]", 0)];
    let (_, events) = adapter.parse_session_rows(&file, row, messages, Vec::new(), NOW);
    assert_eq!(events.len(), 2);
    for e in &events {
        assert!(matches!(e.raw_payload.get("provider"), Some(Json::Null)));
        assert_eq!(e.raw_payload.get("is_summary_message").and_then(|v| v.as_i64()), Some(0));
    }
}
