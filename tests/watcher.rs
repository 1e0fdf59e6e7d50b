use agent_viz::health::source_health;
use agent_viz::model::HealthStatus;
use agent_viz::model::Source;
use agent_viz::watcher::{poll_needs_ingest, watch_mode, Debouncer, WatchMode, WatcherConfig};

#[test]
fn test_watcher_config_default() {
    let config = WatcherConfig::default_config();
    assert_eq!(config.crush_poll_interval_ms, 30_000);
    assert_eq!(config.debounce_ms, 2_000);
}

#[test]
fn burst_of_changes_coalesces_into_one_ingestion() {
    let mut d = Debouncer::new();
    d.note_change(Source::Journal, 1_000);
    d.note_change(Source::Journal, 1_400);
    d.note_change(Source::Codex, 1_500);
    d.note_change(Source::Journal, 1_900);
    assert_eq!(d.pending.len(), 2);
    assert!(d.take_ready(3_000, 2_000).is_empty());
    assert_eq!(d.take_ready(3_500, 2_000), vec![Source::Codex]);
    assert_eq!(d.take_ready(3_900, 2_000), vec![Source::Journal]);
    assert!(d.pending.is_empty());
    assert!(d.take_ready(10_000, 2_000).is_empty());
}

#[test]
fn polled_database_changes() {
    assert!(poll_needs_ingest(&vec![None, Some(5), Some(11)], 10));
    assert!(!poll_needs_ingest(&vec![None, Some(10)], 10));
    assert!(!poll_needs_ingest(&Vec::new(), 10));
    assert_eq!(watch_mode(Source::Crush), WatchMode::Polled);
    assert_eq!(watch_mode(Source::Codex), WatchMode::FileEvents);
}

#[test]
fn source_health_follows_location() {
    let h = source_health(Source::Codex, Some("/home/u/.codex".to_string()), true, 0);
    assert_eq!(h.status, HealthStatus::Healthy);
    assert_eq!(h.message, Some("Codex home found".to_string()));
    let h = source_health(Source::Crush, Some("/home/u/.crush".to_string()), false, 0);
    assert_eq!(h.status, HealthStatus::Unknown);
    assert_eq!(h.message, Some("Global Crush database not found".to_string()));
    let h = source_health(Source::OpenCode, None, false, 0);
    assert_eq!(h.path, None);
    assert_eq!(h.message, Some("Could not determine local data directory".to_string()));
    let h = source_health(Source::Journal, Some("/p".to_string()), true, 3);
    assert_eq!(h.message, Some("Found 3 projects".to_string()));
    assert_eq!(h.status.as_str(), "healthy");
}
