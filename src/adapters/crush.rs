//! The Crush adapter: an embedded SQLite database whose schema has grown over
//! time. The columns present select one of a fixed set of queries, so older
//! databases import with the missing fields defaulted.

use vstd::prelude::*;
use crate::ids::{new_id, nil_id, NIL_ID};
use crate::json::{
    Json, member, member_from, text_of, int_of, text_member, text_member_of, opt_view, str_value, opt_str_value,
    int_value, parse_json, json_of_text, text_is,
};
use crate::model::{Event, EventKind, Role, Session, Source, event_view};
use crate::text::{joined, join_lines, to_owned_text, same_text, text_views};
use crate::timestamp::{epoch_instant, epoch_to_instant};
use crate::paths::{grandparent_name, grandparent_dir_name, home_dir, join_path};

verus! {

pub const CHECK_SESSIONS_TABLE: &'static str = "SELECT COUNT(*) FROM sqlite_master WHERE type='table' AND name='sessions'";

pub const LIST_SESSIONS: &'static str = "SELECT id FROM sessions WHERE parent_session_id IS NULL ORDER BY updated_at DESC";

pub const GET_SESSION_WITH_TODOS: &'static str = "SELECT id, parent_session_id, title, message_count, prompt_tokens, completion_tokens, cost, updated_at, created_at, summary_message_id, todos FROM sessions WHERE id = ?";

pub const GET_SESSION_WITHOUT_TODOS: &'static str = "SELECT id, parent_session_id, title, message_count, prompt_tokens, completion_tokens, cost, updated_at, created_at, summary_message_id, NULL as todos FROM sessions WHERE id = ?";

pub const GET_MESSAGES_FULL: &'static str = "SELECT id, session_id, role, parts, model, provider, created_at, updated_at, finished_at, is_summary_message FROM messages WHERE session_id = ? ORDER BY created_at ASC";

pub const GET_MESSAGES_NO_PROVIDER: &'static str = "SELECT id, session_id, role, parts, model, NULL as provider, created_at, updated_at, finished_at, is_summary_message FROM messages WHERE session_id = ? ORDER BY created_at ASC";

pub const GET_MESSAGES_NO_SUMMARY_FLAG: &'static str = "SELECT id, session_id, role, parts, model, provider, created_at, updated_at, finished_at, 0 as is_summary_message FROM messages WHERE session_id = ? ORDER BY created_at ASC";

pub const GET_MESSAGES_MINIMAL: &'static str = "SELECT id, session_id, role, parts, model, NULL as provider, created_at, updated_at, finished_at, 0 as is_summary_message FROM messages WHERE session_id = ? ORDER BY created_at ASC";

pub const CHECK_PROVIDER_COLUMN: &'static str = "SELECT COUNT(*) FROM pragma_table_info('messages') WHERE name='provider'";

pub const CHECK_SUMMARY_COLUMN: &'static str = "SELECT COUNT(*) FROM pragma_table_info('messages') WHERE name='is_summary_message'";

pub const CHECK_TODOS_COLUMN: &'static str = "SELECT COUNT(*) FROM pragma_table_info('sessions') WHERE name='todos'";

pub const CHECK_READ_FILES_TABLE: &'static str = "SELECT COUNT(*) FROM sqlite_master WHERE type='table' AND name='read_files'";

pub const GET_READ_FILES: &'static str = "SELECT session_id, path, read_at FROM read_files WHERE session_id = ? ORDER BY read_at ASC";

/// One session of a Crush database.
pub struct CrushSessionFile {
    pub path: String,
    pub session_id: String,
}

/// The optional parts of the schema that a database has.
#[derive(Debug, Clone, Copy, PartialEq, Eq, Structural)]
pub struct SchemaFeatures {
    pub has_provider_column: bool,
    pub has_is_summary_message: bool,
    pub has_todos_column: bool,
    pub has_read_files_table: bool,
}

/// The query variant for messages that a schema supports.
#[derive(Debug, Clone, Copy, PartialEq, Eq, Structural)]
pub enum MessagesQuery {
    Full,
    NoSummaryFlag,
    NoProvider,
    Minimal,
}

/// A row of the messages table; columns that a schema lacks come as
/// `None` and 0.
pub struct CrushMessage {
    pub id: String,
    pub session_id: String,
    pub role: String,
    pub parts: String,
    pub model: Option<String>,
    pub provider: Option<String>,
    pub created_at: i64,
    pub updated_at: i64,
    pub finished_at: Option<i64>,
    pub is_summary_message: i64,
}

/// A row of the read-files table.
pub struct CrushReadFile {
    pub session_id: String,
    pub path: String,
    pub read_at: i64,
}

/// A row of the sessions table. The cost is kept as the JSON number that the
/// database holds.
pub struct CrushSession {
    pub id: String,
    pub parent_session_id: Option<String>,
    pub title: String,
    pub message_count: i64,
    pub prompt_tokens: i64,
    pub completion_tokens: i64,
    pub cost: Json,
    pub updated_at: i64,
    pub created_at: i64,
    pub summary_message_id: Option<String>,
    pub todos: Option<String>,
}

/// Directories that the search for databases does not enter: build output,
/// vendored code, version control and caches.
pub open spec fn skipped_dir(name: Seq<char>) -> bool {
    name == "node_modules"@ || name == "target"@ || name == "vendor"@ || name == "build"@ || name == "dist"@
        || name == ".git"@ || name == "Cache"@
}

/// Whether the search for databases skips a directory of this name.
pub fn skips_directory(name: &str) -> (r: bool)
    ensures
        r == skipped_dir(name@),
{
    same_text(name, "node_modules") || same_text(name, "target") || same_text(name, "vendor") || same_text(
        name,
        "build",
    ) || same_text(name, "dist") || same_text(name, ".git") || same_text(name, "Cache")
}

/// Whether a file is a database of this source: `crush.db` in a `.crush`
/// directory.
pub fn is_crush_database(file_name: &str, parent_name: &str) -> (r: bool)
    ensures
        r == (file_name@ == "crush.db"@ && parent_name@ == ".crush"@),
{
    same_text(file_name, "crush.db") && same_text(parent_name, ".crush")
}

/// The adapter, with the database it reads.
pub struct CrushAdapter {
    pub(crate) db_path: String,
}

/// The schema features that the four probe counts show: a count above zero
/// means that the column or table is there.
pub fn detect_schema_features(provider: i64, summary: i64, todos: i64, read_files: i64) -> (r: SchemaFeatures)
    ensures
        r == (SchemaFeatures {
            has_provider_column: provider > 0,
            has_is_summary_message: summary > 0,
            has_todos_column: todos > 0,
            has_read_files_table: read_files > 0,
        }),
{
    SchemaFeatures {
        has_provider_column: provider > 0,
        has_is_summary_message: summary > 0,
        has_todos_column: todos > 0,
        has_read_files_table: read_files > 0,
    }
}

impl MessagesQuery {
    /// The variant for a schema: each missing column is read as its default.
    pub open spec fn spec_for(f: SchemaFeatures) -> MessagesQuery {
        match (f.has_provider_column, f.has_is_summary_message) {
            (true, true) => MessagesQuery::Full,
            (true, false) => MessagesQuery::NoSummaryFlag,
            (false, true) => MessagesQuery::NoProvider,
            (false, false) => MessagesQuery::Minimal,
        }
    }

    pub fn for_features(f: &SchemaFeatures) -> (r: MessagesQuery)
        ensures
            r == MessagesQuery::spec_for(*f),
    {
        match (f.has_provider_column, f.has_is_summary_message) {
            (true, true) => MessagesQuery::Full,
            (true, false) => MessagesQuery::NoSummaryFlag,
            (false, true) => MessagesQuery::NoProvider,
            (false, false) => MessagesQuery::Minimal,
        }
    }

    /// The SQL text of the variant.
    pub fn sql(&self) -> (r: &'static str)
        ensures
            r@ == (match self {
                MessagesQuery::Full => GET_MESSAGES_FULL@,
                MessagesQuery::NoSummaryFlag => GET_MESSAGES_NO_SUMMARY_FLAG@,
                MessagesQuery::NoProvider => GET_MESSAGES_NO_PROVIDER@,
                MessagesQuery::Minimal => GET_MESSAGES_MINIMAL@,
            }),
    {
        match self {
            MessagesQuery::Full => GET_MESSAGES_FULL,
            MessagesQuery::NoSummaryFlag => GET_MESSAGES_NO_SUMMARY_FLAG,
            MessagesQuery::NoProvider => GET_MESSAGES_NO_PROVIDER,
            MessagesQuery::Minimal => GET_MESSAGES_MINIMAL,
        }
    }
}

/// The session query that a schema supports.
pub fn session_query(f: &SchemaFeatures) -> (r: &'static str)
    ensures
        r@ == (if f.has_todos_column { GET_SESSION_WITH_TODOS@ } else { GET_SESSION_WITHOUT_TODOS@ }),
{
    if f.has_todos_column {
        GET_SESSION_WITH_TODOS
    } else {
        GET_SESSION_WITHOUT_TODOS
    }
}

/// The `data` object of a part.
pub open spec fn data_of(p: Json) -> Option<Json> {
    member(p, "data"@)
}

/// The text member `key` of a part's data.
pub open spec fn data_text(p: Json, key: Seq<char>) -> Option<Seq<char>> {
    text_member_of(data_of(p), key)
}

/// Whether a part is well formed for its type; a part of an unknown type is.
pub open spec fn valid_part(p: Json) -> bool {
    match text_member(p, "type"@) {
        Some(t) => if t == "text"@ {
            data_text(p, "text"@) is Some
        } else if t == "reasoning"@ {
            data_text(p, "thinking"@) is Some
        } else if t == "tool_use"@ {
            data_text(p, "id"@) is Some && data_text(p, "name"@) is Some
        } else if t == "tool_result"@ {
            data_text(p, "tool_use_id"@) is Some && data_text(p, "content"@) is Some
                && match member_of_data(p, "is_error"@) {
                    Some(Json::Bool(_)) | Some(Json::Null) | None => true,
                    _ => false,
                }
        } else if t == "image"@ {
            data_of(p) is Some
        } else if t == "finish"@ {
            data_text(p, "reason"@) is Some && match member_of_data(p, "time"@) {
                Some(Json::Number(Some(n), _)) => n >= 0,
                _ => false,
            }
        } else {
            true
        },
        None => false,
    }
}

/// The member `key` of a part's data.
pub open spec fn member_of_data(p: Json, key: Seq<char>) -> Option<Json> {
    match data_of(p) {
        Some(d) => member(d, key),
        None => None,
    }
}

/// Every part is well formed.
pub open spec fn all_valid(ps: Seq<Json>) -> bool {
    forall|i: int| 0 <= i < ps.len() ==> valid_part(#[trigger] ps[i])
}

/// The parts of a message's `parts` column: a JSON array of well-formed
/// parts, else none at all.
pub open spec fn parts_of(text: Seq<char>) -> Seq<Json> {
    match json_of_text(text) {
        Some(Json::Array(ps)) => if all_valid(ps@) {
            ps@
        } else {
            Seq::empty()
        },
        _ => Seq::empty(),
    }
}

/// The line that a part contributes to the text.
pub open spec fn part_line(p: Json) -> Option<Seq<char>> {
    let t = text_member(p, "type"@).unwrap();
    if t == "text"@ {
        data_text(p, "text"@)
    } else if t == "reasoning"@ {
        Some("[Thinking: "@ + data_text(p, "thinking"@).unwrap() + "]"@)
    } else if t == "tool_use"@ {
        Some("[Tool: "@ + data_text(p, "name"@).unwrap() + "]"@)
    } else if t == "tool_result"@ {
        Some(
            (if member_of_data(p, "is_error"@) == Some(Json::Bool(true)) {
                "[Error]"@
            } else {
                "[Result]"@
            }) + " "@ + data_text(p, "content"@).unwrap(),
        )
    } else if t == "image"@ {
        Some("[Image]"@)
    } else if t == "finish"@ {
        Some("[Finished: "@ + data_text(p, "reason"@).unwrap() + "]"@)
    } else {
        None
    }
}

/// The lines of the parts, in order.
pub open spec fn part_lines(ps: Seq<Json>) -> Seq<Seq<char>>
    decreases ps.len(),
{
    if ps.len() == 0 {
        Seq::empty()
    } else {
        let rest = part_lines(ps.drop_last());
        match part_line(ps.last()) {
            Some(l) => rest.push(l),
            None => rest,
        }
    }
}

/// Some part is a tool invocation.
pub open spec fn has_tool_use(ps: Seq<Json>) -> bool {
    exists|i: int| 0 <= i < ps.len() && text_member(#[trigger] ps[i], "type"@) == Some("tool_use"@)
}

/// Kind and text of a message with the given parts: a message that invokes a
/// tool is a tool call.
pub open spec fn content_fields(ps: Seq<Json>) -> (EventKind, Option<Seq<char>>) {
    (
        if has_tool_use(ps) { EventKind::ToolCall } else { EventKind::Message },
        if part_lines(ps).len() == 0 { None } else { Some(joined(part_lines(ps))) },
    )
}

/// A payload member that holds an optional text: the string where there is
/// one, else null.
pub open spec fn holds_optional_text(v: Option<Json>, t: Option<String>) -> bool {
    match t {
        Some(x) => text_of(v) == Some(x@),
        None => v == Some(Json::Null),
    }
}

/// What the raw payload of a message's event records of the columns that a
/// schema may lack: the provider, the summary flag and the model.
pub open spec fn message_payload(raw: Json, msg: CrushMessage) -> bool {
    &&& holds_optional_text(member(raw, "provider"@), msg.provider)
    &&& int_of(member(raw, "is_summary_message"@)) == Some(msg.is_summary_message)
    &&& holds_optional_text(member(raw, "model"@), msg.model)
}

/// What the raw payload of a session records of the parts that a schema may
/// lack: the todos, and one entry per read-file row.
pub open spec fn session_payload(raw: Json, row: CrushSession, read_files: Seq<CrushReadFile>) -> bool {
    &&& holds_optional_text(member(raw, "todos"@), row.todos)
    &&& member(raw, "read_files"@) matches Some(Json::Array(a)) && a@.len() == read_files.len()
}

/// The line of a well-formed part.
fn format_part(p: &Json) -> (r: Option<String>)
    requires
        valid_part(*p),
    ensures
        opt_view(r) == part_line(*p),
{
    let t = p.text_member("type");
    let data = p.get("data");
    let field = |key: &str| -> (r: Option<String>)
        ensures
            opt_view(r) == data_text(*p, key@),
    {
        match data {
            Some(d) => d.text_member(key),
            None => None,
        }
    };
    if text_is(&t, "text") {
        field("text")
    } else if text_is(&t, "reasoning") {
        match field("thinking") {
            Some(x) => Some(to_owned_text("[Thinking: ").concat(x.as_str()).concat("]")),
            None => None,
        }
    } else if text_is(&t, "tool_use") {
        match field("name") {
            Some(x) => Some(to_owned_text("[Tool: ").concat(x.as_str()).concat("]")),
            None => None,
        }
    } else if text_is(&t, "tool_result") {
        let is_error = match data {
            Some(d) => match d.get("is_error") {
                Some(Json::Bool(b)) => *b,
                _ => false,
            },
            None => false,
        };
        let prefix = if is_error {
            to_owned_text("[Error]")
        } else {
            to_owned_text("[Result]")
        };
        match field("content") {
            Some(x) => Some(prefix.concat(" ").concat(x.as_str())),
            None => None,
        }
    } else if text_is(&t, "image") {
        Some(to_owned_text("[Image]"))
    } else if text_is(&t, "finish") {
        match field("reason") {
            Some(x) => Some(to_owned_text("[Finished: ").concat(x.as_str()).concat("]")),
            None => None,
        }
    } else {
        None
    }
}

/// Whether a part is well formed for its type.
fn check_part(p: &Json) -> (r: bool)
    ensures
        r == valid_part(*p),
{
    let t = match p.text_member("type") {
        Some(t) => t,
        None => {
            return false;
        },
    };
    let data = p.get("data");
    let has = |key: &str| -> (r: bool)
        ensures
            r == (data_text(*p, key@) is Some),
    {
        match data {
            Some(d) => d.text_member(key).is_some(),
            None => false,
        }
    };
    let s = t.as_str();
    if same_text(s, "text") {
        has("text")
    } else if same_text(s, "reasoning") {
        has("thinking")
    } else if same_text(s, "tool_use") {
        has("id") && has("name")
    } else if same_text(s, "tool_result") {
        let flag_ok = match data {
            Some(d) => match d.get("is_error") {
                Some(Json::Bool(_)) | Some(Json::Null) | None => true,
                _ => false,
            },
            None => true,
        };
        has("tool_use_id") && has("content") && flag_ok
    } else if same_text(s, "image") {
        data.is_some()
    } else if same_text(s, "finish") {
        let time_ok = match data {
            Some(d) => match d.get("time") {
                Some(Json::Number(Some(n), _)) => *n >= 0,
                _ => false,
            },
            None => false,
        };
        has("reason") && time_ok
    } else {
        true
    }
}

/// Kind and text of a message from its parts: the parts' lines joined by
/// newlines, and a tool call where the message invokes a tool.
pub fn extract_content_from_parts(parts: &Vec<Json>) -> (r: (EventKind, Option<String>))
    requires
        all_valid(parts@),
    ensures
        r.0 == content_fields(parts@).0,
        opt_view(r.1) == content_fields(parts@).1,
{
    let mut lines: Vec<String> = Vec::new();
    let mut tool_use = false;
    let mut i: usize = 0;
    while i < parts.len()
        invariant
            i <= parts.len(),
            all_valid(parts@),
            text_views(lines@) == part_lines(parts@.subrange(0, i as int)),
            tool_use == has_tool_use(parts@.subrange(0, i as int)),
        decreases parts.len() - i,
    {
        let ghost next = parts@.subrange(0, i + 1);
        assert(next.drop_last() == parts@.subrange(0, i as int));
        assert(valid_part(parts@[i as int]));
        match format_part(&parts[i]) {
            Some(l) => {
                lines.push(l);
            },
            None => {},
        }
        let t = parts[i].text_member("type");
        if text_is(&t, "tool_use") {
            tool_use = true;
        }
        proof {
            assert(text_views(lines@) =~= part_lines(next));
            if has_tool_use(next) && !has_tool_use(parts@.subrange(0, i as int)) {
                let w = choose|k: int| 0 <= k < next.len() && text_member(#[trigger] next[k], "type"@) == Some("tool_use"@);
                if w < i {
                    assert(parts@.subrange(0, i as int)[w] == next[w]);
                }
            }
            if has_tool_use(parts@.subrange(0, i as int)) {
                let w = choose|k: int| 0 <= k < i && text_member(#[trigger] parts@.subrange(0, i as int)[k], "type"@) == Some("tool_use"@);
                assert(next[w] == parts@.subrange(0, i as int)[w]);
            }
            if text_is_spec(t, "tool_use"@) {
                assert(next[i as int] == parts@[i as int]);
            }
        }
        i = i + 1;
    }
    assert(parts@.subrange(0, parts.len() as int) == parts@);
    let kind = if tool_use {
        EventKind::ToolCall
    } else {
        EventKind::Message
    };
    let content = if lines.len() == 0 {
        None
    } else {
        Some(join_lines(&lines))
    };
    (kind, content)
}

pub open spec fn text_is_spec(s: Option<String>, k: Seq<char>) -> bool {
    opt_view(s) == Some(k)
}

/// The parts of a message's `parts` column.
pub fn read_parts(text: &str) -> (r: Vec<Json>)
    ensures
        r@ == parts_of(text@),
        all_valid(r@),
{
    match parse_json(text) {
        Some(Json::Array(ps)) => {
            let mut i: usize = 0;
            while i < ps.len()
                invariant
                    i <= ps.len(),
                    forall|k: int| 0 <= k < i ==> valid_part(#[trigger] ps@[k]),
                    json_of_text(text@) == Some(Json::Array(ps)),
                decreases ps.len() - i,
            {
                if !check_part(&ps[i]) {
                    assert(!all_valid(ps@)) by {
                        assert(!valid_part(ps@[i as int]));
                    }
                    return Vec::new();
                }
                i = i + 1;
            }
            ps
        },
        _ => Vec::new(),
    }
}

/// The event of a message row: none for a summary message. Its session id
/// is the placeholder until the session is known.
pub fn message_to_event(msg: CrushMessage, now: i64) -> (r: Option<Event>)
    ensures
        msg.is_summary_message > 0 ==> r is None,
        msg.is_summary_message <= 0 ==> (r matches Some(e) && e.kind == content_fields(parts_of(msg.parts@)).0
            && opt_view(e.content) == content_fields(parts_of(msg.parts@)).1
            && e.role == Role::named(msg.role@) && e.timestamp == epoch_instant(msg.created_at, now)
            && e.session_id@ == NIL_ID@ && message_payload(e.raw_payload, msg)),
{
    if msg.is_summary_message > 0 {
        return None;
    }
    let timestamp = epoch_to_instant(msg.created_at, now);
    let parts = read_parts(msg.parts.as_str());
    let role = Role::from_exact(msg.role.as_str());
    let (kind, content) = extract_content_from_parts(&parts);
    let opt_int = |v: Option<i64>| -> (r: Json)
    {
        match v {
            Some(x) => int_value(x),
            None => Json::Null,
        }
    };
    let mut payload: Vec<(String, Json)> = Vec::new();
    payload.push((to_owned_text("provider"), opt_str_value(&msg.provider)));
    payload.push((to_owned_text("is_summary_message"), int_value(msg.is_summary_message)));
    payload.push((to_owned_text("model"), opt_str_value(&msg.model)));
    payload.push((to_owned_text("id"), Json::Str(msg.id)));
    payload.push((to_owned_text("session_id"), Json::Str(msg.session_id)));
    payload.push((to_owned_text("role"), Json::Str(msg.role)));
    payload.push((to_owned_text("parts"), Json::Str(msg.parts)));
    payload.push((to_owned_text("created_at"), int_value(msg.created_at)));
    payload.push((to_owned_text("updated_at"), int_value(msg.updated_at)));
    payload.push((to_owned_text("finished_at"), opt_int(msg.finished_at)));
    proof {
        reveal_strlit("provider");
        reveal_strlit("is_summary_message");
        reveal_strlit("model");
        assert("provider"@.len() == 8);
        assert("is_summary_message"@.len() == 18);
        assert("model"@.len() == 5);
        assert(member_from(payload@, "provider"@, 0) == Some(payload@[0].1));
        assert(member_from(payload@, "is_summary_message"@, 1) == Some(payload@[1].1));
        assert(member_from(payload@, "is_summary_message"@, 0) == Some(payload@[1].1));
        assert(member_from(payload@, "model"@, 2) == Some(payload@[2].1));
        assert(member_from(payload@, "model"@, 1) == Some(payload@[2].1));
        assert(member_from(payload@, "model"@, 0) == Some(payload@[2].1));
    }
    Some(Event {
        id: new_id(),
        session_id: nil_id(),
        kind,
        role,
        content,
        timestamp,
        raw_payload: Json::Object(payload),
    })
}

/// The JSON of the read-file rows.
fn read_files_json(files: Vec<CrushReadFile>) -> (r: Json)
    ensures
        r matches Json::Array(a) && a@.len() == files@.len(),
{
    let ghost total = files@.len();
    let mut rest = files;
    let mut items: Vec<Json> = Vec::new();
    while rest.len() > 0
        invariant
            items@.len() + rest@.len() == total,
        decreases rest.len(),
    {
        let f = rest.remove(0);
        let mut obj: Vec<(String, Json)> = Vec::new();
        obj.push((to_owned_text("session_id"), Json::Str(f.session_id)));
        obj.push((to_owned_text("path"), Json::Str(f.path)));
        obj.push((to_owned_text("read_at"), int_value(f.read_at)));
        items.push(Json::Object(obj));
    }
    Json::Array(items)
}

/// The message rows that become events: all but summary messages, in order.
pub open spec fn kept_messages(ms: Seq<CrushMessage>) -> Seq<CrushMessage>
    decreases ms.len(),
{
    if ms.len() == 0 {
        Seq::empty()
    } else if ms.last().is_summary_message > 0 {
        kept_messages(ms.drop_last())
    } else {
        kept_messages(ms.drop_last()).push(ms.last())
    }
}

/// What the events of message rows state, in order; summary messages give none.
pub open spec fn message_events(ms: Seq<CrushMessage>, now: i64) -> Seq<(EventKind, Option<Role>, Option<Seq<char>>, i64)>
    decreases ms.len(),
{
    if ms.len() == 0 {
        Seq::empty()
    } else {
        let rest = message_events(ms.drop_last(), now);
        let m = ms.last();
        if m.is_summary_message > 0 {
            rest
        } else {
            let f = content_fields(parts_of(m.parts@));
            rest.push((f.0, Role::named(m.role@), f.1, epoch_instant(m.created_at, now)))
        }
    }
}

/// A database without the provider column and the summary flag is read with
/// the minimal message query, which gives a null provider and a flag of 0 for
/// every row; each such row then becomes an event, none is refused, and
/// `parse_session_rows` records the defaults in each event's payload.
pub proof fn lemma_minimal_schema_imports(f: SchemaFeatures, msgs: Seq<CrushMessage>, now: i64)
    requires
        !f.has_provider_column,
        !f.has_is_summary_message,
        forall|i: int| 0 <= i < msgs.len() ==> (#[trigger] msgs[i]).is_summary_message == 0,
    ensures
        MessagesQuery::spec_for(f) == MessagesQuery::Minimal,
        message_events(msgs, now).len() == msgs.len(),
        kept_messages(msgs) == msgs,
    decreases msgs.len(),
{
    if msgs.len() > 0 {
        assert forall|i: int| 0 <= i < msgs.drop_last().len() implies (#[trigger] msgs.drop_last()[i]).is_summary_message == 0 by {
            assert(msgs.drop_last()[i] == msgs[i]);
        }
        lemma_minimal_schema_imports(f, msgs.drop_last(), now);
        assert(msgs.last().is_summary_message == 0);
        assert(msgs.drop_last().push(msgs.last()) == msgs);
    }
}

impl CrushAdapter {
    /// The database path, as text.
    pub closed spec fn path(&self) -> Seq<char> {
        self.db_path@
    }

    /// An adapter reading the given database.
    pub fn with_db_path(db_path: String) -> (r: CrushAdapter)
        ensures
            r.path() == db_path@,
    {
        CrushAdapter { db_path }
    }

    /// The database path.
    pub fn db_path(&self) -> (r: &String)
        ensures
            r@ == self.path(),
    {
        &self.db_path
    }

    /// An adapter reading `.crush/crush.db` under the home directory, or
    /// under the working directory where there is no home.
    pub fn new() -> (r: CrushAdapter) {
        let db_path = match home_dir() {
            Some(h) => {
                let dir = join_path(h.as_str(), ".crush");
                join_path(dir.as_str(), "crush.db")
            },
            None => to_owned_text(".crush/crush.db"),
        };
        CrushAdapter { db_path }
    }

    /// The session and events of a database session from its rows. The
    /// project is the directory that holds the `.crush` directory; an update
    /// time before the creation time is taken as the creation time.
    pub fn parse_session_rows(
        &self,
        file: &CrushSessionFile,
        row: CrushSession,
        messages: Vec<CrushMessage>,
        read_files: Vec<CrushReadFile>,
        now: i64,
    ) -> (r: (Session, Vec<Event>))
        ensures
            r.0.source == Source::Crush,
            r.0.external_id@ == row.id@,
            opt_view(r.0.title) == Some(row.title@),
            opt_view(r.0.project) == grandparent_name(file.path@),
            r.0.created_at == epoch_instant(row.created_at, now),
            r.0.updated_at == (if epoch_instant(row.updated_at, now) < r.0.created_at {
                r.0.created_at
            } else {
                epoch_instant(row.updated_at, now)
            }),
            r.0.wf(),
            r.1@.map_values(|e: Event| event_view(e)) == message_events(messages@, now),
            forall|i: int| 0 <= i < r.1@.len() ==> (#[trigger] r.1@[i]).session_id == r.0.id,
            r.1@.len() == kept_messages(messages@).len(),
            forall|i: int| 0 <= i < r.1@.len() ==> message_payload(
                (#[trigger] r.1@[i]).raw_payload,
                kept_messages(messages@)[i],
            ),
            session_payload(r.0.raw_payload, row, read_files@),
    {
        let sid = new_id();
        let created_at = epoch_to_instant(row.created_at, now);
        let later = epoch_to_instant(row.updated_at, now);
        let updated_at = if later < created_at {
            created_at
        } else {
            later
        };
        let ghost orig = messages@;
        let mut rest = messages;
        let total = rest.len();
        let mut events: Vec<Event> = Vec::new();
        let mut k: usize = 0;
        proof {
            assert(orig.subrange(0, 0) =~= Seq::<CrushMessage>::empty());
            assert(events@.map_values(|e: Event| event_view(e)) =~= Seq::empty());
        }
        while rest.len() > 0
            invariant
                k <= orig.len(),
                orig.len() == total,
                rest@ == orig.subrange(k as int, orig.len() as int),
                events@.map_values(|e: Event| event_view(e)) == message_events(orig.subrange(0, k as int), now),
                forall|i: int| 0 <= i < events@.len() ==> (#[trigger] events@[i]).session_id == sid,
                events@.len() == kept_messages(orig.subrange(0, k as int)).len(),
                forall|i: int| 0 <= i < events@.len() ==> message_payload(
                    (#[trigger] events@[i]).raw_payload,
                    kept_messages(orig.subrange(0, k as int))[i],
                ),
            decreases rest.len(),
        {
            assert(rest@.len() == orig.len() - k);
            let m = rest.remove(0);
            let ghost gm = m;
            let ghost before = events@;
            let ghost next = orig.subrange(0, k + 1);
            assert(next.drop_last() == orig.subrange(0, k as int));
            assert(next.last() == m);
            match message_to_event(m, now) {
                Some(e) => {
                    events.push(crate::model::with_session(e, &sid));
                },
                None => {},
            }
            assert(events@.map_values(|e: Event| event_view(e)) =~= message_events(next, now));
            proof {
                let kb = kept_messages(orig.subrange(0, k as int));
                let kn = kept_messages(next);
                assert forall|i: int| 0 <= i < events@.len() implies message_payload(
                    (#[trigger] events@[i]).raw_payload,
                    kn[i],
                ) by {
                    if i < before.len() {
                        assert(events@[i] == before[i]);
                        assert(kn[i] == kb[i]);
                    } else {
                        assert(kn[i] == gm);
                    }
                }
            }
            k = k + 1;
        }
        assert(orig.subrange(0, orig.len() as int) == orig);
        let project = grandparent_dir_name(file.path.as_str());
        let mut payload: Vec<(String, Json)> = Vec::new();
        payload.push((to_owned_text("todos"), opt_str_value(&row.todos)));
        payload.push((to_owned_text("read_files"), read_files_json(read_files)));
        payload.push((to_owned_text("source"), str_value("crush")));
        payload.push((to_owned_text("db_path"), str_value(file.path.as_str())));
        payload.push((to_owned_text("session_id"), str_value(row.id.as_str())));
        payload.push((to_owned_text("parent_session_id"), opt_str_value(&row.parent_session_id)));
        payload.push((to_owned_text("message_count"), int_value(row.message_count)));
        payload.push((to_owned_text("prompt_tokens"), int_value(row.prompt_tokens)));
        payload.push((to_owned_text("completion_tokens"), int_value(row.completion_tokens)));
        let external_id = row.id;
        let title = row.title;
        payload.push((to_owned_text("cost"), row.cost));
        proof {
            reveal_strlit("todos");
            reveal_strlit("read_files");
            assert("todos"@.len() == 5);
            assert("read_files"@.len() == 10);
            assert(member_from(payload@, "todos"@, 0) == Some(payload@[0].1));
            assert(member_from(payload@, "read_files"@, 1) == Some(payload@[1].1));
            assert(member_from(payload@, "read_files"@, 0) == Some(payload@[1].1));
        }
        let session = Session {
            id: sid,
            source: Source::Crush,
            external_id,
            project,
            title: Some(title),
            created_at,
            updated_at,
            raw_payload: Json::Object(payload),
        };
        (session, events)
    }
}

} // verus!
