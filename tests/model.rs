use agent_viz::model::{EventKind, Role, Source};
use agent_viz::reports::ExportFormat;

#[test]
fn source_parse_is_case_insensitive() {
    assert_eq!(Source::from_str("Journal"), Ok(Source::Journal));
    assert_eq!(Source::from_str("OPENCODE"), Ok(Source::OpenCode));
    assert_eq!(Source::from_str("crush"), Ok(Source::Crush));
    assert_eq!(Source::from_str("codex"), Ok(Source::Codex));
}

#[test]
fn source_parse_rejects_unknown_names() {
    assert_eq!(Source::from_str("cursor"), Err("Unknown source: cursor".to_string()));
}

#[test]
fn display_names_round_trip() {
    for s in [Source::Journal, Source::Codex, Source::OpenCode, Source::Crush] {
        assert_eq!(Source::from_str(s.as_str()), Ok(s));
    }
    for k in [EventKind::Message, EventKind::ToolCall, EventKind::ToolResult, EventKind::Error, EventKind::System] {
        assert_eq!(EventKind::from_str(k.as_str()), Ok(k));
    }
    for r in [Role::User, Role::Assistant, Role::System] {
        assert_eq!(Role::from_str(r.as_str()), Ok(r));
    }
    assert_eq!(EventKind::ToolCall.as_str(), "tool_call");
}

#[test]
fn event_kind_parse_rejects_unknown() {
    assert_eq!(EventKind::from_str("note"), Err("unknown variant: note".to_string()));
}

#[test]
fn export_format_names() {
    assert_eq!(ExportFormat::from_str("MD"), Ok(ExportFormat::Markdown));
    assert_eq!(ExportFormat::from_str("markdown"), Ok(ExportFormat::Markdown));
    assert_eq!(ExportFormat::from_str("json"), Ok(ExportFormat::Json));
    assert_eq!(ExportFormat::from_str("JSONL"), Ok(ExportFormat::Jsonl));
    assert_eq!(
        ExportFormat::from_str("pdf"),
        Err("Unknown format: pdf. Use 'md', 'json', or 'jsonl'".to_string())
    );
}
