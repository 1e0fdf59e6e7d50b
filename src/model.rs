//! The canonical vocabulary shared by every adapter: sources, event kinds,
//! roles, sessions, events and health diagnostics.

use vstd::prelude::*;
use vstd::string::*;
use crate::json::Json;
use crate::text::{lower_of, lowercase, same_text};

verus! {

/// Which agent tool produced a session.
#[derive(Debug, Clone, Copy, PartialEq, Eq, Structural)]
pub enum Source {
    Journal,
    Codex,
    OpenCode,
    Crush,
}

/// What an event within a session is.
#[derive(Debug, Clone, Copy, PartialEq, Eq, Structural)]
pub enum EventKind {
    Message,
    ToolCall,
    ToolResult,
    Error,
    System,
}

/// Who sent a conversational entry.
#[derive(Debug, Clone, Copy, PartialEq, Eq, Structural)]
pub enum Role {
    User,
    Assistant,
    System,
}

/// Health of one data source, computed on demand.
#[derive(Debug, Clone, Copy, PartialEq, Eq, Structural)]
pub enum HealthStatus {
    Healthy,
    Degraded,
    Unhealthy,
    Unknown,
}

impl Source {
    /// The fixed lower-case name of a source.
    pub open spec fn spec_name(self) -> Seq<char> {
        match self {
            Source::Journal => "journal"@,
            Source::Codex => "codex"@,
            Source::OpenCode => "opencode"@,
            Source::Crush => "crush"@,
        }
    }

    /// The source whose lower-case name is `t`.
    pub open spec fn named(t: Seq<char>) -> Option<Source> {
        if t == "journal"@ {
            Some(Source::Journal)
        } else if t == "codex"@ {
            Some(Source::Codex)
        } else if t == "opencode"@ {
            Some(Source::OpenCode)
        } else if t == "crush"@ {
            Some(Source::Crush)
        } else {
            None
        }
    }

    /// The lower-case display form.
    pub fn as_str(&self) -> (r: &'static str)
        ensures
            r@ == self.spec_name(),
    {
        proof {
            reveal_strlit("journal");
            reveal_strlit("codex");
            reveal_strlit("opencode");
            reveal_strlit("crush");
        }
        match self {
            Source::Journal => "journal",
            Source::Codex => "codex",
            Source::OpenCode => "opencode",
            Source::Crush => "crush",
        }
    }

    /// Case-insensitive parse of a source name.
    pub fn from_str(s: &str) -> (r: Result<Source, String>)
        ensures
            match r {
                Ok(x) => Source::named(lower_of(s@)) == Some(x),
                Err(e) => Source::named(lower_of(s@)) is None && e@ == "Unknown source: "@ + s@,
            },
    {
        let lower = lowercase(s);
        let t = lower.as_str();
        proof {
            reveal_strlit("journal");
            reveal_strlit("codex");
            reveal_strlit("opencode");
            reveal_strlit("crush");
        }
        if same_text(t, "journal") {
            Ok(Source::Journal)
        } else if same_text(t, "codex") {
            Ok(Source::Codex)
        } else if same_text(t, "opencode") {
            Ok(Source::OpenCode)
        } else if same_text(t, "crush") {
            Ok(Source::Crush)
        } else {
            Err(String::from_str("Unknown source: ").concat(s))
        }
    }
}

impl EventKind {
    pub open spec fn spec_name(self) -> Seq<char> {
        match self {
            EventKind::Message => "message"@,
            EventKind::ToolCall => "tool_call"@,
            EventKind::ToolResult => "tool_result"@,
            EventKind::Error => "error"@,
            EventKind::System => "system"@,
        }
    }

    pub open spec fn named(t: Seq<char>) -> Option<EventKind> {
        if t == "message"@ {
            Some(EventKind::Message)
        } else if t == "tool_call"@ {
            Some(EventKind::ToolCall)
        } else if t == "tool_result"@ {
            Some(EventKind::ToolResult)
        } else if t == "error"@ {
            Some(EventKind::Error)
        } else if t == "system"@ {
            Some(EventKind::System)
        } else {
            None
        }
    }

    /// The lower-case display form.
    pub fn as_str(&self) -> (r: &'static str)
        ensures
            r@ == self.spec_name(),
    {
        proof {
            reveal_strlit("message");
            reveal_strlit("tool_call");
            reveal_strlit("tool_result");
            reveal_strlit("error");
            reveal_strlit("system");
        }
        match self {
            EventKind::Message => "message",
            EventKind::ToolCall => "tool_call",
            EventKind::ToolResult => "tool_result",
            EventKind::Error => "error",
            EventKind::System => "system",
        }
    }

    /// Case-insensitive parse of an event kind name.
    pub fn from_str(s: &str) -> (r: Result<EventKind, String>)
        ensures
            match r {
                Ok(x) => EventKind::named(lower_of(s@)) == Some(x),
                Err(e) => EventKind::named(lower_of(s@)) is None && e@ == "unknown variant: "@ + s@,
            },
    {
        let lower = lowercase(s);
        let t = lower.as_str();
        proof {
            reveal_strlit("message");
            reveal_strlit("tool_call");
            reveal_strlit("tool_result");
            reveal_strlit("error");
            reveal_strlit("system");
        }
        if same_text(t, "message") {
            Ok(EventKind::Message)
        } else if same_text(t, "tool_call") {
            Ok(EventKind::ToolCall)
        } else if same_text(t, "tool_result") {
            Ok(EventKind::ToolResult)
        } else if same_text(t, "error") {
            Ok(EventKind::Error)
        } else if same_text(t, "system") {
            Ok(EventKind::System)
        } else {
            Err(String::from_str("unknown variant: ").concat(s))
        }
    }
}

impl Role {
    pub open spec fn spec_name(self) -> Seq<char> {
        match self {
            Role::User => "user"@,
            Role::Assistant => "assistant"@,
            Role::System => "system"@,
        }
    }

    pub open spec fn named(t: Seq<char>) -> Option<Role> {
        if t == "user"@ {
            Some(Role::User)
        } else if t == "assistant"@ {
            Some(Role::Assistant)
        } else if t == "system"@ {
            Some(Role::System)
        } else {
            None
        }
    }

    /// The lower-case display form.
    pub fn as_str(&self) -> (r: &'static str)
        ensures
            r@ == self.spec_name(),
    {
        proof {
            reveal_strlit("user");
            reveal_strlit("assistant");
            reveal_strlit("system");
        }
        match self {
            Role::User => "user",
            Role::Assistant => "assistant",
            Role::System => "system",
        }
    }

    /// Case-insensitive parse of a role name.
    pub fn from_str(s: &str) -> (r: Result<Role, String>)
        ensures
            match r {
                Ok(x) => Role::named(lower_of(s@)) == Some(x),
                Err(e) => Role::named(lower_of(s@)) is None && e@ == "unknown variant: "@ + s@,
            },
    {
        let lower = lowercase(s);
        let t = lower.as_str();
        proof {
            reveal_strlit("user");
            reveal_strlit("assistant");
            reveal_strlit("system");
        }
        if same_text(t, "user") {
            Ok(Role::User)
        } else if same_text(t, "assistant") {
            Ok(Role::Assistant)
        } else if same_text(t, "system") {
            Ok(Role::System)
        } else {
            Err(String::from_str("unknown variant: ").concat(s))
        }
    }

    /// The role that a source writes as an exact lower-case word.
    pub fn from_exact(s: &str) -> (r: Option<Role>)
        ensures
            r == Role::named(s@),
    {
        proof {
            reveal_strlit("user");
            reveal_strlit("assistant");
            reveal_strlit("system");
        }
        if same_text(s, "user") {
            Some(Role::User)
        } else if same_text(s, "assistant") {
            Some(Role::Assistant)
        } else if same_text(s, "system") {
            Some(Role::System)
        } else {
            None
        }
    }
}

impl HealthStatus {
    pub open spec fn spec_name(self) -> Seq<char> {
        match self {
            HealthStatus::Healthy => "healthy"@,
            HealthStatus::Degraded => "degraded"@,
            HealthStatus::Unhealthy => "unhealthy"@,
            HealthStatus::Unknown => "unknown"@,
        }
    }

    /// The lower-case display form.
    pub fn as_str(&self) -> (r: &'static str)
        ensures
            r@ == self.spec_name(),
    {
        proof {
            reveal_strlit("healthy");
            reveal_strlit("degraded");
            reveal_strlit("unhealthy");
            reveal_strlit("unknown");
        }
        match self {
            HealthStatus::Healthy => "healthy",
            HealthStatus::Degraded => "degraded",
            HealthStatus::Unhealthy => "unhealthy",
            HealthStatus::Unknown => "unknown",
        }
    }
}

/// Parsing the display form of a source gives the source back.
pub proof fn lemma_source_name_round_trip(x: Source)
    ensures
        Source::named(x.spec_name()) == Some(x),
{
    reveal_strlit("journal");
    reveal_strlit("codex");
    reveal_strlit("opencode");
    reveal_strlit("crush");
    assert("journal"@.len() == 7);
    assert("codex"@.len() == 5);
    assert("opencode"@.len() == 8);
    assert("crush"@[1] != "codex"@[1]);
}

/// Parsing the display form of an event kind gives the kind back.
pub proof fn lemma_event_kind_name_round_trip(x: EventKind)
    ensures
        EventKind::named(x.spec_name()) == Some(x),
{
    reveal_strlit("message");
    reveal_strlit("tool_call");
    reveal_strlit("tool_result");
    reveal_strlit("error");
    reveal_strlit("system");
    assert("message"@.len() == 7);
    assert("tool_call"@.len() == 9);
    assert("tool_result"@.len() == 11);
    assert("error"@.len() == 5);
}

/// Parsing the display form of a role gives the role back.
pub proof fn lemma_role_name_round_trip(x: Role)
    ensures
        Role::named(x.spec_name()) == Some(x),
{
    reveal_strlit("user");
    reveal_strlit("assistant");
    reveal_strlit("system");
    assert("user"@.len() == 4);
    assert("assistant"@.len() == 9);
}

/// Health of one data source, with the path checked and a diagnostic message.
pub struct SourceHealth {
    pub source: Source,
    pub status: HealthStatus,
    pub path: Option<String>,
    pub message: Option<String>,
}

/// One external conversation or run. Instants are whole seconds since the
/// Unix epoch, in UTC.
pub struct Session {
    pub id: String,
    pub source: Source,
    pub external_id: String,
    pub project: Option<String>,
    pub title: Option<String>,
    pub created_at: i64,
    pub updated_at: i64,
    pub raw_payload: Json,
}

impl Session {
    /// A session never ends before it starts.
    pub open spec fn wf(&self) -> bool {
        self.created_at <= self.updated_at
    }
}

/// One atomic occurrence inside a session.
pub struct Event {
    pub id: String,
    pub session_id: String,
    pub kind: EventKind,
    pub role: Option<Role>,
    pub content: Option<String>,
    pub timestamp: i64,
    pub raw_payload: Json,
}

/// What an event states, apart from its ids and payload.
pub open spec fn event_view(e: Event) -> (EventKind, Option<Role>, Option<Seq<char>>, i64) {
    (e.kind, e.role, crate::json::opt_view(e.content), e.timestamp)
}

/// The event with its session id set.
pub fn with_session(e: Event, sid: &String) -> (r: Event)
    ensures
        r.session_id == *sid,
        r.id == e.id,
        event_view(r) == event_view(e),
        r.raw_payload == e.raw_payload,
{
    Event {
        id: e.id,
        session_id: sid.clone(),
        kind: e.kind,
        role: e.role,
        content: e.content,
        timestamp: e.timestamp,
        raw_payload: e.raw_payload,
    }
}

/// What a sequence of events states, in order.
pub open spec fn event_views(es: Seq<Event>) -> Seq<(EventKind, Option<Role>, Option<Seq<char>>, i64)> {
    es.map_values(|e: Event| event_view(e))
}

} // verus!
