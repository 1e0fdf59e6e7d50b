//! The SQL of the store: its schema migrations, in order, and its queries.
//! An absent facet is bound as the empty string, which each filtered query
//! reads as "no filter".

use vstd::prelude::*;

verus! {

/// List all sessions ordered by updated_at desc
pub const LIST_SESSIONS: &'static str = r#"
    SELECT
        id,
        source,
        external_id,
        project,
        title,
        created_at,
        updated_at,
        raw_payload
    FROM sessions
    ORDER BY updated_at DESC
    LIMIT ?1 OFFSET ?2
"#;

/// List sessions with optional source filter
pub const LIST_SESSIONS_FILTERED: &'static str = r#"
    SELECT
        id,
        source,
        external_id,
        project,
        title,
        created_at,
        updated_at,
        raw_payload
    FROM sessions
    WHERE (?1 = '' OR source = ?1)
    ORDER BY updated_at DESC
    LIMIT ?2 OFFSET ?3
"#;

/// Get events for a specific session
pub const GET_SESSION_EVENTS: &'static str = r#"
    SELECT
        id,
        session_id,
        kind,
        role,
        content,
        timestamp,
        raw_payload
    FROM events
    WHERE session_id = ?1
    ORDER BY timestamp ASC
"#;

/// Search events using FTS5
pub const SEARCH_EVENTS: &'static str = r#"
    SELECT
        e.id,
        e.session_id,
        e.kind,
        e.role,
        e.content,
        e.timestamp,
        e.raw_payload,
        rank
    FROM events_fts f
    JOIN events e ON e.rowid = f.rowid
    WHERE events_fts MATCH ?1
    ORDER BY rank
    LIMIT ?2 OFFSET ?3
"#;

/// Search sessions using FTS5
pub const SEARCH_SESSIONS: &'static str = r#"
    SELECT
        s.id,
        s.source,
        s.external_id,
        s.project,
        s.title,
        s.created_at,
        s.updated_at,
        s.raw_payload,
        rank
    FROM sessions_fts f
    JOIN sessions s ON s.rowid = f.rowid
    WHERE sessions_fts MATCH ?1
    ORDER BY rank
    LIMIT ?2 OFFSET ?3
"#;

/// Insert a new session
pub const INSERT_SESSION: &'static str = r#"
    INSERT INTO sessions (id, source, external_id, project, title, created_at, updated_at, raw_payload)
    VALUES (?1, ?2, ?3, ?4, ?5, ?6, ?7, ?8)
    ON CONFLICT(source, external_id) DO UPDATE SET
        title = excluded.title,
        updated_at = excluded.updated_at,
        raw_payload = excluded.raw_payload
"#;

/// Insert a new event
pub const INSERT_EVENT: &'static str = r#"
    INSERT INTO events (id, session_id, kind, role, content, timestamp, raw_payload)
    VALUES (?1, ?2, ?3, ?4, ?5, ?6, ?7)
"#;

/// Search events using FTS5 with faceted filtering
pub const SEARCH_EVENTS_FILTERED: &'static str = r#"
    SELECT
        e.id,
        e.session_id,
        e.kind,
        e.role,
        e.content,
        e.timestamp,
        e.raw_payload,
        rank
    FROM events_fts f
    JOIN events e ON e.rowid = f.rowid
    JOIN sessions s ON e.session_id = s.id
    WHERE events_fts MATCH ?1
        AND (?2 = '' OR s.source = ?2)
        AND (?3 = '' OR s.project = ?3)
        AND (?4 = '' OR e.kind = ?4)
        AND (?5 = '' OR e.timestamp >= ?5)
    ORDER BY rank
    LIMIT ?6 OFFSET ?7
"#;

/// Search sessions using FTS5 with faceted filtering
pub const SEARCH_SESSIONS_FILTERED: &'static str = r#"
    SELECT
        s.id,
        s.source,
        s.external_id,
        s.project,
        s.title,
        s.created_at,
        s.updated_at,
        s.raw_payload,
        rank
    FROM sessions_fts f
    JOIN sessions s ON s.rowid = f.rowid
    WHERE sessions_fts MATCH ?1
        AND (?2 = '' OR s.source = ?2)
        AND (?3 = '' OR s.project = ?3)
        AND (?4 = '' OR s.created_at >= ?4)
    ORDER BY rank
    LIMIT ?5 OFFSET ?6
"#;

/// Get activity stats by day
pub const ACTIVITY_BY_DAY: &'static str = r#"
    SELECT
        DATE(timestamp) as day,
        COUNT(*) as event_count,
        COUNT(DISTINCT session_id) as session_count
    FROM events
    WHERE (?1 = '' OR timestamp >= ?1)
        AND (?2 = '' OR timestamp < ?2)
        AND (?3 = '' OR kind = ?3)
    GROUP BY DATE(timestamp)
    ORDER BY day DESC
"#;

/// Get error stats by day
pub const ERRORS_BY_DAY: &'static str = r#"
    SELECT
        DATE(timestamp) as day,
        COUNT(*) as error_count,
        content
    FROM events
    WHERE kind = 'error'
        AND (?1 = '' OR timestamp >= ?1)
        AND (?2 = '' OR timestamp < ?2)
    GROUP BY DATE(timestamp), content
    ORDER BY day DESC, error_count DESC
"#;

/// Get top error signatures
pub const TOP_ERROR_SIGNATURES: &'static str = r#"
    SELECT
        COALESCE(content, 'Unknown error') as signature,
        COUNT(*) as count
    FROM events
    WHERE kind = 'error'
        AND (?1 = '' OR timestamp >= ?1)
        AND (?2 = '' OR timestamp < ?2)
    GROUP BY content
    ORDER BY count DESC
    LIMIT ?3
"#;

/// Get stats by source
pub const STATS_BY_SOURCE: &'static str = r#"
    SELECT
        source,
        COUNT(*) as session_count,
        MIN(created_at) as earliest,
        MAX(updated_at) as latest
    FROM sessions
    GROUP BY source
    ORDER BY session_count DESC
"#;

/// Get stats by project
pub const STATS_BY_PROJECT: &'static str = r#"
    SELECT
        COALESCE(project, 'Unknown') as project,
        COUNT(*) as session_count,
        MIN(created_at) as earliest,
        MAX(updated_at) as latest
    FROM sessions
    WHERE (?1 = '' OR source = ?1)
    GROUP BY project
    ORDER BY session_count DESC
"#;

/// Get stats by tool kind
pub const STATS_BY_TOOL: &'static str = r#"
    SELECT
        kind,
        COUNT(*) as count,
        COUNT(DISTINCT session_id) as sessions
    FROM events
    WHERE (?1 = '' OR timestamp >= ?1)
        AND (?2 = '' OR timestamp < ?2)
    GROUP BY kind
    ORDER BY count DESC
"#;

/// Get distinct sources for faceting
pub const GET_SOURCES: &'static str = r#"
    SELECT DISTINCT source FROM sessions ORDER BY source
"#;

/// Get distinct projects for faceting
pub const GET_PROJECTS: &'static str = r#"
    SELECT DISTINCT project FROM sessions WHERE project IS NOT NULL ORDER BY project
"#;

/// Get distinct event kinds for faceting
pub const GET_EVENT_KINDS: &'static str = r#"
    SELECT DISTINCT kind FROM events ORDER BY kind
"#;

/// Insert or update session metrics
pub const UPSERT_SESSION_METRICS: &'static str = r#"
    INSERT INTO session_metrics (
        session_id, total_events, message_count, tool_call_count, tool_result_count,
        error_count, user_messages, assistant_messages, duration_seconds,
        files_touched, lines_added, lines_removed, computed_at,
        model, provider, input_tokens, output_tokens, estimated_cost,
        total_latency_ms, avg_latency_ms, p50_latency_ms, p95_latency_ms
    ) VALUES (?1, ?2, ?3, ?4, ?5, ?6, ?7, ?8, ?9, ?10, ?11, ?12, ?13, ?14, ?15, ?16, ?17, ?18, ?19, ?20, ?21, ?22)
    ON CONFLICT(session_id) DO UPDATE SET
        total_events = excluded.total_events,
        message_count = excluded.message_count,
        tool_call_count = excluded.tool_call_count,
        tool_result_count = excluded.tool_result_count,
        error_count = excluded.error_count,
        user_messages = excluded.user_messages,
        assistant_messages = excluded.assistant_messages,
        duration_seconds = excluded.duration_seconds,
        files_touched = excluded.files_touched,
        lines_added = excluded.lines_added,
        lines_removed = excluded.lines_removed,
        computed_at = excluded.computed_at,
        model = excluded.model,
        provider = excluded.provider,
        input_tokens = excluded.input_tokens,
        output_tokens = excluded.output_tokens,
        estimated_cost = excluded.estimated_cost,
        total_latency_ms = excluded.total_latency_ms,
        avg_latency_ms = excluded.avg_latency_ms,
        p50_latency_ms = excluded.p50_latency_ms,
        p95_latency_ms = excluded.p95_latency_ms
"#;

/// Insert a tool call record
pub const INSERT_TOOL_CALL: &'static str = r#"
    INSERT INTO tool_calls (
        id, session_id, event_id, tool_name, started_at, completed_at, duration_ms, success, error_message
    ) VALUES (?1, ?2, ?3, ?4, ?5, ?6, ?7, ?8, ?9)
    ON CONFLICT(id) DO UPDATE SET
        completed_at = excluded.completed_at,
        duration_ms = excluded.duration_ms,
        success = excluded.success,
        error_message = excluded.error_message
"#;

/// Insert a file touched record
pub const INSERT_FILE_TOUCHED: &'static str = r#"
    INSERT INTO files_touched (
        id, session_id, file_path, operation, lines_added, lines_removed, touched_at
    ) VALUES (?1, ?2, ?3, ?4, ?5, ?6, ?7)
    ON CONFLICT(id) DO UPDATE SET
        lines_added = excluded.lines_added,
        lines_removed = excluded.lines_removed
"#;

/// Get tool call frequency stats
pub const TOOL_CALL_FREQUENCY: &'static str = r#"
    SELECT
        tool_name,
        COUNT(*) as call_count,
        COUNT(DISTINCT session_id) as sessions,
        AVG(CASE WHEN duration_ms IS NOT NULL THEN duration_ms END) as avg_duration_ms,
        MAX(duration_ms) as max_duration_ms
    FROM tool_calls
    WHERE (?1 = '' OR started_at >= ?1)
        AND (?2 = '' OR started_at < ?2)
    GROUP BY tool_name
    ORDER BY call_count DESC
"#;

/// Get files touched leaderboard
pub const FILES_TOUCHED_LEADERBOARD: &'static str = r#"
    SELECT
        file_path,
        COUNT(*) as touch_count,
        COUNT(DISTINCT session_id) as sessions,
        SUM(lines_added) as total_lines_added,
        SUM(lines_removed) as total_lines_removed
    FROM files_touched
    WHERE (?1 = '' OR touched_at >= ?1)
        AND (?2 = '' OR touched_at < ?2)
    GROUP BY file_path
    ORDER BY touch_count DESC
    LIMIT ?3
"#;

/// Get patch churn stats (lines added/removed) by day
pub const PATCH_CHURN_BY_DAY: &'static str = r#"
    SELECT
        DATE(touched_at) as day,
        SUM(lines_added) as lines_added,
        SUM(lines_removed) as lines_removed,
        COUNT(DISTINCT file_path) as files_changed,
        COUNT(DISTINCT session_id) as sessions
    FROM files_touched
    WHERE (?1 = '' OR touched_at >= ?1)
        AND (?2 = '' OR touched_at < ?2)
    GROUP BY DATE(touched_at)
    ORDER BY day DESC
"#;

/// Get long-running tool calls (latency tracking)
pub const LONG_RUNNING_TOOL_CALLS: &'static str = r#"
    SELECT
        tc.tool_name,
        tc.duration_ms,
        tc.started_at,
        s.external_id as session_external_id,
        s.project,
        tc.error_message
    FROM tool_calls tc
    JOIN sessions s ON tc.session_id = s.id
    WHERE tc.duration_ms IS NOT NULL
        AND (?1 = '' OR tc.started_at >= ?1)
        AND (?2 = '' OR tc.started_at < ?2)
        AND tc.duration_ms >= ?3
    ORDER BY tc.duration_ms DESC
    LIMIT ?4
"#;

/// Get session metrics for a specific session
pub const GET_SESSION_METRICS: &'static str = r#"
    SELECT
        session_id, total_events, message_count, tool_call_count, tool_result_count,
        error_count, user_messages, assistant_messages, duration_seconds,
        files_touched, lines_added, lines_removed, computed_at,
        model, provider, input_tokens, output_tokens, estimated_cost,
        total_latency_ms, avg_latency_ms, p50_latency_ms, p95_latency_ms
    FROM session_metrics
    WHERE session_id = ?1
"#;

/// Get aggregated session metrics summary
pub const GET_SESSION_METRICS_SUMMARY: &'static str = r#"
    SELECT
        COUNT(DISTINCT session_id) as total_sessions,
        SUM(total_events) as total_events,
        SUM(tool_call_count) as total_tool_calls,
        SUM(error_count) as total_errors,
        SUM(files_touched) as total_files_touched,
        SUM(lines_added) as total_lines_added,
        SUM(lines_removed) as total_lines_removed,
        AVG(duration_seconds) as avg_duration_seconds
    FROM session_metrics
"#;

/// Get session ID by source and external_id
pub const GET_SESSION_ID_BY_SOURCE_AND_EXTERNAL_ID: &'static str = r#"
    SELECT id FROM sessions WHERE source = ?1 AND external_id = ?2
"#;

/// Delete events for a session
pub const DELETE_EVENTS_BY_SESSION_ID: &'static str = r#"
    DELETE FROM events WHERE session_id = ?1
"#;

/// Get sessions with their metrics for export
pub const GET_SESSIONS_WITH_METRICS: &'static str = r#"
    SELECT
        s.id, s.source, s.external_id, s.project, s.title, s.created_at, s.updated_at, s.raw_payload,
        m.total_events, m.message_count, m.tool_call_count, m.tool_result_count,
        m.error_count, m.user_messages, m.assistant_messages, m.duration_seconds,
        m.files_touched, m.lines_added, m.lines_removed, m.computed_at,
        m.model, m.provider, m.input_tokens, m.output_tokens, m.estimated_cost,
        m.total_latency_ms, m.avg_latency_ms, m.p50_latency_ms, m.p95_latency_ms
    FROM sessions s
    LEFT JOIN session_metrics m ON s.id = m.session_id
    ORDER BY s.updated_at DESC
    LIMIT ?1 OFFSET ?2
"#;

/// Get cost stats by source
pub const COST_STATS_BY_SOURCE: &'static str = r#"
    SELECT
        s.source,
        COUNT(DISTINCT m.session_id) as session_count,
        SUM(m.estimated_cost) as total_cost,
        AVG(m.estimated_cost) as avg_cost_per_session,
        SUM(m.input_tokens) as total_input_tokens,
        SUM(m.output_tokens) as total_output_tokens,
        AVG(m.avg_latency_ms) as avg_latency_ms,
        AVG(m.p50_latency_ms) as p50_latency_ms,
        AVG(m.p95_latency_ms) as p95_latency_ms
    FROM session_metrics m
    JOIN sessions s ON m.session_id = s.id
    WHERE (?1 = '' OR s.source = ?1)
        AND (?2 = '' OR m.computed_at >= ?2)
        AND (?3 = '' OR m.computed_at < ?3)
    GROUP BY s.source
    ORDER BY total_cost DESC
"#;

/// Get cost stats by project
pub const COST_STATS_BY_PROJECT: &'static str = r#"
    SELECT
        COALESCE(s.project, 'Unknown') as project,
        COUNT(DISTINCT m.session_id) as session_count,
        SUM(m.estimated_cost) as total_cost,
        AVG(m.estimated_cost) as avg_cost_per_session,
        SUM(m.input_tokens) as total_input_tokens,
        SUM(m.output_tokens) as total_output_tokens,
        AVG(m.avg_latency_ms) as avg_latency_ms,
        AVG(m.p50_latency_ms) as p50_latency_ms,
        AVG(m.p95_latency_ms) as p95_latency_ms
    FROM session_metrics m
    JOIN sessions s ON m.session_id = s.id
    WHERE (?1 = '' OR s.source = ?1)
        AND (?2 = '' OR m.computed_at >= ?2)
        AND (?3 = '' OR m.computed_at < ?3)
    GROUP BY s.project
    ORDER BY total_cost DESC
"#;

/// Get cost stats by session
pub const COST_STATS_BY_SESSION: &'static str = r#"
    SELECT
        s.id,
        s.external_id,
        s.project,
        s.source,
        m.estimated_cost,
        m.input_tokens,
        m.output_tokens,
        m.avg_latency_ms,
        m.p50_latency_ms,
        m.p95_latency_ms,
        m.duration_seconds,
        m.computed_at
    FROM session_metrics m
    JOIN sessions s ON m.session_id = s.id
    WHERE (?1 = '' OR s.source = ?1)
        AND (?2 = '' OR m.computed_at >= ?2)
        AND (?3 = '' OR m.computed_at < ?3)
    ORDER BY m.estimated_cost DESC NULLS LAST
    LIMIT ?4 OFFSET ?5
"#;

/// Get latency distribution stats (p50, p95, p99)
pub const LATENCY_DISTRIBUTION: &'static str = r#"
    SELECT
        AVG(m.avg_latency_ms) as avg_latency,
        AVG(m.p50_latency_ms) as p50_latency,
        AVG(m.p95_latency_ms) as p95_latency,
        MAX(m.p95_latency_ms) as max_p95,
        COUNT(*) as session_count
    FROM session_metrics m
    JOIN sessions s ON m.session_id = s.id
    WHERE (?1 = '' OR s.source = ?1)
        AND (?2 = '' OR m.computed_at >= ?2)
        AND (?3 = '' OR m.computed_at < ?3)
        AND m.p95_latency_ms IS NOT NULL
"#;

/// Get model/provider usage stats
pub const MODEL_USAGE_STATS: &'static str = r#"
    SELECT
        COALESCE(m.model, 'unknown') as model,
        COALESCE(m.provider, 'unknown') as provider,
        COUNT(DISTINCT m.session_id) as session_count,
        SUM(m.input_tokens) as total_input_tokens,
        SUM(m.output_tokens) as total_output_tokens,
        SUM(m.estimated_cost) as total_cost,
        AVG(m.avg_latency_ms) as avg_latency_ms
    FROM session_metrics m
    JOIN sessions s ON m.session_id = s.id
    WHERE (?1 = '' OR s.source = ?1)
        AND (?2 = '' OR m.computed_at >= ?2)
        AND (?3 = '' OR m.computed_at < ?3)
    GROUP BY m.model, m.provider
    ORDER BY total_cost DESC NULLS LAST
"#;

/// Get aggregate efficiency stats
pub const EFFICIENCY_STATS: &'static str = r#"
    SELECT
        COUNT(DISTINCT m.session_id) as total_sessions,
        COALESCE(SUM(m.estimated_cost), 0.0) as total_cost,
        COALESCE(AVG(m.estimated_cost), 0.0) as avg_cost_per_session,
        COALESCE(
            CAST((SELECT COUNT(*) FROM tool_calls tc JOIN sessions s2 ON tc.session_id = s2.id
                  WHERE tc.success = 0
                  AND (?1 = '' OR s2.source = ?1)
                  AND (?2 = '' OR tc.started_at >= ?2)
                  AND (?3 = '' OR tc.started_at < ?3)) AS REAL) /
            NULLIF((SELECT COUNT(*) FROM tool_calls tc JOIN sessions s2 ON tc.session_id = s2.id
                  WHERE (?1 = '' OR s2.source = ?1)
                  AND (?2 = '' OR tc.started_at >= ?2)
                  AND (?3 = '' OR tc.started_at < ?3)), 0),
            0.0
        ) as tool_error_rate,
        (SELECT COUNT(DISTINCT m2.session_id) FROM session_metrics m2
         JOIN sessions s2 ON m2.session_id = s2.id
         WHERE m2.error_count > 2
         AND (?1 = '' OR s2.source = ?1)
         AND (?2 = '' OR m2.computed_at >= ?2)
         AND (?3 = '' OR m2.computed_at < ?3)) as retry_loops,
        COALESCE(AVG(m.p50_latency_ms), 0.0) as p50_latency_ms,
        COALESCE(AVG(m.p95_latency_ms), 0.0) as p95_latency_ms
    FROM session_metrics m
    JOIN sessions s ON m.session_id = s.id
    WHERE (?1 = '' OR s.source = ?1)
        AND (?2 = '' OR m.computed_at >= ?2)
        AND (?3 = '' OR m.computed_at < ?3)
"#;

pub const MIGRATION_001_INITIAL_SCHEMA: &'static str = r#"
            -- Sessions table
            CREATE TABLE IF NOT EXISTS sessions (
                id TEXT PRIMARY KEY,
                source TEXT NOT NULL,
                external_id TEXT NOT NULL,
                project TEXT,
                title TEXT,
                created_at TIMESTAMP NOT NULL,
                updated_at TIMESTAMP NOT NULL,
                raw_payload TEXT NOT NULL,
                UNIQUE(source, external_id)
            );

            -- Events table
            CREATE TABLE IF NOT EXISTS events (
                id TEXT PRIMARY KEY,
                session_id TEXT NOT NULL,
                kind TEXT NOT NULL,
                role TEXT,
                content TEXT,
                timestamp TIMESTAMP NOT NULL,
                raw_payload TEXT NOT NULL,
                FOREIGN KEY (session_id) REFERENCES sessions(id) ON DELETE CASCADE
            );

            -- Indexes for common queries
            CREATE INDEX IF NOT EXISTS idx_sessions_source ON sessions(source);
            CREATE INDEX IF NOT EXISTS idx_sessions_project ON sessions(project);
            CREATE INDEX IF NOT EXISTS idx_sessions_created_at ON sessions(created_at);
            CREATE INDEX IF NOT EXISTS idx_events_session_id ON events(session_id);
            CREATE INDEX IF NOT EXISTS idx_events_timestamp ON events(timestamp);
            CREATE INDEX IF NOT EXISTS idx_events_kind ON events(kind);
        "#;

pub const MIGRATION_002_FTS5_VIRTUAL_TABLES: &'static str = r#"
            -- FTS5 virtual table for full-text search on events
            CREATE VIRTUAL TABLE IF NOT EXISTS events_fts USING fts5(
                content,
                content='events',
                content_rowid='rowid',
                tokenize='porter'
            );

            -- Trigger to keep FTS index in sync
            CREATE TRIGGER IF NOT EXISTS events_fts_insert AFTER INSERT ON events BEGIN
                INSERT INTO events_fts(rowid, content) VALUES (new.rowid, new.content);
            END;

            CREATE TRIGGER IF NOT EXISTS events_fts_delete AFTER DELETE ON events BEGIN
                INSERT INTO events_fts(events_fts, rowid, content) VALUES ('delete', old.rowid, old.content);
            END;

            CREATE TRIGGER IF NOT EXISTS events_fts_update AFTER UPDATE ON events BEGIN
                INSERT INTO events_fts(events_fts, rowid, content) VALUES ('delete', old.rowid, old.content);
                INSERT INTO events_fts(rowid, content) VALUES (new.rowid, new.content);
            END;

            -- FTS5 virtual table for session titles
            CREATE VIRTUAL TABLE IF NOT EXISTS sessions_fts USING fts5(
                title,
                content='sessions',
                content_rowid='rowid',
                tokenize='porter'
            );

            -- Trigger to keep FTS index in sync for sessions
            CREATE TRIGGER IF NOT EXISTS sessions_fts_insert AFTER INSERT ON sessions BEGIN
                INSERT INTO sessions_fts(rowid, title) VALUES (new.rowid, new.title);
            END;

            CREATE TRIGGER IF NOT EXISTS sessions_fts_delete AFTER DELETE ON sessions BEGIN
                INSERT INTO sessions_fts(sessions_fts, rowid, title) VALUES ('delete', old.rowid, old.title);
            END;

            CREATE TRIGGER IF NOT EXISTS sessions_fts_update AFTER UPDATE ON sessions BEGIN
                INSERT INTO sessions_fts(sessions_fts, rowid, title) VALUES ('delete', old.rowid, old.title);
                INSERT INTO sessions_fts(rowid, title) VALUES (new.rowid, new.title);
            END;
        "#;

pub const MIGRATION_003_SESSION_METRICS_AND_TOOL_CALLS: &'static str = r#"
            -- Session metrics table for computed analytics
            CREATE TABLE IF NOT EXISTS session_metrics (
                session_id TEXT PRIMARY KEY,
                total_events INTEGER NOT NULL DEFAULT 0,
                message_count INTEGER NOT NULL DEFAULT 0,
                tool_call_count INTEGER NOT NULL DEFAULT 0,
                tool_result_count INTEGER NOT NULL DEFAULT 0,
                error_count INTEGER NOT NULL DEFAULT 0,
                user_messages INTEGER NOT NULL DEFAULT 0,
                assistant_messages INTEGER NOT NULL DEFAULT 0,
                duration_seconds INTEGER,
                files_touched INTEGER NOT NULL DEFAULT 0,
                lines_added INTEGER NOT NULL DEFAULT 0,
                lines_removed INTEGER NOT NULL DEFAULT 0,
                computed_at TIMESTAMP NOT NULL DEFAULT CURRENT_TIMESTAMP,
                FOREIGN KEY (session_id) REFERENCES sessions(id) ON DELETE CASCADE
            );

            -- Tool calls table for detailed tool usage analytics
            CREATE TABLE IF NOT EXISTS tool_calls (
                id TEXT PRIMARY KEY,
                session_id TEXT NOT NULL,
                event_id TEXT NOT NULL,
                tool_name TEXT NOT NULL,
                started_at TIMESTAMP NOT NULL,
                completed_at TIMESTAMP,
                duration_ms INTEGER,
                success BOOLEAN,
                error_message TEXT,
                FOREIGN KEY (session_id) REFERENCES sessions(id) ON DELETE CASCADE,
                FOREIGN KEY (event_id) REFERENCES events(id) ON DELETE CASCADE
            );

            -- Files touched table for file operation tracking
            CREATE TABLE IF NOT EXISTS files_touched (
                id TEXT PRIMARY KEY,
                session_id TEXT NOT NULL,
                file_path TEXT NOT NULL,
                operation TEXT NOT NULL,
                lines_added INTEGER NOT NULL DEFAULT 0,
                lines_removed INTEGER NOT NULL DEFAULT 0,
                touched_at TIMESTAMP NOT NULL,
                FOREIGN KEY (session_id) REFERENCES sessions(id) ON DELETE CASCADE
            );

            -- Indexes for performance
            CREATE INDEX IF NOT EXISTS idx_session_metrics_session ON session_metrics(session_id);
            CREATE INDEX IF NOT EXISTS idx_tool_calls_session ON tool_calls(session_id);
            CREATE INDEX IF NOT EXISTS idx_tool_calls_name ON tool_calls(tool_name);
            CREATE INDEX IF NOT EXISTS idx_tool_calls_duration ON tool_calls(duration_ms);
            CREATE INDEX IF NOT EXISTS idx_files_touched_session ON files_touched(session_id);
            CREATE INDEX IF NOT EXISTS idx_files_touched_path ON files_touched(file_path);
        "#;

pub const MIGRATION_004_ADD_EVENTS_COMPOSITE_INDEX: &'static str = r#"
            -- Composite index for activity queries filtering by kind and timestamp
            CREATE INDEX IF NOT EXISTS idx_events_kind_timestamp ON events(kind, timestamp);
        "#;

pub const MIGRATION_005_ADD_COST_AND_LATENCY_METRICS: &'static str = r#"
            -- Add cost and latency metrics to session_metrics table
            ALTER TABLE session_metrics ADD COLUMN model TEXT;
            ALTER TABLE session_metrics ADD COLUMN provider TEXT;
            ALTER TABLE session_metrics ADD COLUMN input_tokens INTEGER;
            ALTER TABLE session_metrics ADD COLUMN output_tokens INTEGER;
            ALTER TABLE session_metrics ADD COLUMN estimated_cost REAL;
            ALTER TABLE session_metrics ADD COLUMN total_latency_ms INTEGER;
            ALTER TABLE session_metrics ADD COLUMN avg_latency_ms REAL;
            ALTER TABLE session_metrics ADD COLUMN p50_latency_ms INTEGER;
            ALTER TABLE session_metrics ADD COLUMN p95_latency_ms INTEGER;

            -- Index for cost queries
            CREATE INDEX IF NOT EXISTS idx_session_metrics_cost ON session_metrics(estimated_cost);
            CREATE INDEX IF NOT EXISTS idx_session_metrics_model ON session_metrics(model);
            CREATE INDEX IF NOT EXISTS idx_session_metrics_provider ON session_metrics(provider);
        "#;

/// A named schema change, applied at most once.
pub struct Migration {
    pub name: &'static str,
    pub sql: &'static str,
}

/// The names of the schema changes, in the order they apply.
pub open spec fn migration_names() -> Seq<Seq<char>> {
    seq![
        "001_initial_schema"@,
        "002_fts5_virtual_tables"@,
        "003_session_metrics_and_tool_calls"@,
        "004_add_events_composite_index"@,
        "005_add_cost_and_latency_metrics"@,
    ]
}

/// The schema changes, in the order they apply.
pub fn migrations() -> (r: Vec<Migration>)
    ensures
        r@.len() == 5,
        forall|i: int| 0 <= i < 5 ==> (#[trigger] r@[i]).name@ == migration_names()[i],
        r@[0].sql@ == MIGRATION_001_INITIAL_SCHEMA@,
        r@[1].sql@ == MIGRATION_002_FTS5_VIRTUAL_TABLES@,
        r@[2].sql@ == MIGRATION_003_SESSION_METRICS_AND_TOOL_CALLS@,
        r@[3].sql@ == MIGRATION_004_ADD_EVENTS_COMPOSITE_INDEX@,
        r@[4].sql@ == MIGRATION_005_ADD_COST_AND_LATENCY_METRICS@,
{
    let mut v: Vec<Migration> = Vec::new();
    v.push(Migration { name: "001_initial_schema", sql: MIGRATION_001_INITIAL_SCHEMA });
    v.push(Migration { name: "002_fts5_virtual_tables", sql: MIGRATION_002_FTS5_VIRTUAL_TABLES });
    v.push(Migration { name: "003_session_metrics_and_tool_calls", sql: MIGRATION_003_SESSION_METRICS_AND_TOOL_CALLS });
    v.push(Migration { name: "004_add_events_composite_index", sql: MIGRATION_004_ADD_EVENTS_COMPOSITE_INDEX });
    v.push(Migration { name: "005_add_cost_and_latency_metrics", sql: MIGRATION_005_ADD_COST_AND_LATENCY_METRICS });
    v
}

} // verus!
