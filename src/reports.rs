//! Values that the presentation layer receives: sessions as text, the
//! outcome of recomputations, leaderboards, and the export formats.

use vstd::prelude::*;
use vstd::string::*;
use crate::store::SessionRow;
use crate::text::{lower_of, lowercase, same_text};

verus! {

/// A session as the presentation layer shows it.
pub struct SessionData {
    pub id: String,
    pub source: String,
    pub external_id: String,
    pub project: Option<String>,
    pub title: Option<String>,
    pub created_at: String,
    pub updated_at: String,
}

impl SessionData {
    /// The shown fields of a stored session.
    pub fn from_row(row: &SessionRow) -> (r: SessionData)
        ensures
            r.id == row.id,
            r.source == row.source,
            r.external_id == row.external_id,
            r.project == row.project,
            r.title == row.title,
            r.created_at == row.created_at,
            r.updated_at == row.updated_at,
    {
        SessionData {
            id: row.id.clone(),
            source: row.source.clone(),
            external_id: row.external_id.clone(),
            project: match &row.project {
                Some(p) => Some(p.clone()),
                None => None,
            },
            title: match &row.title {
                Some(t) => Some(t.clone()),
                None => None,
            },
            created_at: row.created_at.clone(),
            updated_at: row.updated_at.clone(),
        }
    }
}

/// How many sessions a recomputation of metrics covered.
pub struct RecomputeResult {
    pub total: usize,
}

/// A file with how often and how much it was changed.
pub struct FileLeaderboardEntry {
    pub file_path: String,
    pub touch_count: i64,
    pub sessions: i64,
    pub total_lines_added: i64,
    pub total_lines_removed: i64,
}

impl FileLeaderboardEntry {
    /// Lines added less lines removed.
    pub fn net_churn(&self) -> (r: i128)
        ensures
            r == self.total_lines_added - self.total_lines_removed,
    {
        self.total_lines_added as i128 - self.total_lines_removed as i128
    }
}

/// Line churn of one day.
pub struct PatchChurnStats {
    pub day: String,
    pub lines_added: i64,
    pub lines_removed: i64,
    pub files_changed: i64,
    pub sessions: i64,
}

/// A tool call that ran longer than a threshold.
pub struct LongRunningToolCall {
    pub tool_name: String,
    pub duration_ms: i64,
    pub started_at: String,
    pub session_external_id: String,
    pub project: Option<String>,
    pub error_message: Option<String>,
}

/// The formats that a session or search result can be exported in.
#[derive(Debug, Clone, Copy, PartialEq, Eq, Structural)]
pub enum ExportFormat {
    Markdown,
    Json,
    Jsonl,
}

impl ExportFormat {
    /// The format that a lower-case name denotes.
    pub open spec fn named(t: Seq<char>) -> Option<ExportFormat> {
        if t == "md"@ || t == "markdown"@ {
            Some(ExportFormat::Markdown)
        } else if t == "json"@ {
            Some(ExportFormat::Json)
        } else if t == "jsonl"@ {
            Some(ExportFormat::Jsonl)
        } else {
            None
        }
    }

    /// Case-insensitive parse of a format name.
    pub fn from_str(s: &str) -> (r: Result<ExportFormat, String>)
        ensures
            match r {
                Ok(x) => ExportFormat::named(lower_of(s@)) == Some(x),
                Err(e) => ExportFormat::named(lower_of(s@)) is None
                    && e@ == "Unknown format: "@ + s@ + ". Use 'md', 'json', or 'jsonl'"@,
            },
    {
        let lower = lowercase(s);
        let t = lower.as_str();
        if same_text(t, "md") || same_text(t, "markdown") {
            Ok(ExportFormat::Markdown)
        } else if same_text(t, "json") {
            Ok(ExportFormat::Json)
        } else if same_text(t, "jsonl") {
            Ok(ExportFormat::Jsonl)
        } else {
            Err(String::from_str("Unknown format: ").concat(s).concat(". Use 'md', 'json', or 'jsonl'"))
        }
    }
}

} // verus!
