//! The project-journal adapter: one JSON Lines file per session, one
//! directory per project, one JSON object per line.

use vstd::prelude::*;
use crate::ids::{new_id, nil_id, NIL_ID};
use crate::json::{
    has_json_line, any_json_line,
    Json, member, member_of, text_member, text_member_of, items_of, opt_view, text_of_json, json_text,
    str_value, opt_str_value, int_value, parse_json, json_of_text, text_is,
};
use crate::model::{Event, EventKind, Role, Session, Source, event_view, with_session};
use crate::text::{joined, join_lines, to_owned_text, same_text, text_views, ends_with_text, ends_with_str, text_set, distinct_texts, insert_distinct_opt};
use crate::timestamp::{json_instant, json_stamp, json_to_instant, json_to_stamp};

verus! {

/// A discovered session file: its path, the project directory it lies in, and
/// the session id that its file name carries.
pub struct JournalSessionFile {
    pub path: String,
    pub project: String,
    pub session_id: String,
}

/// A tool invocation found in an assistant message, with its input as JSON text.
pub struct ToolCall {
    pub id: String,
    pub name: String,
    pub arguments: String,
}

/// The adapter, rooted at the directory that holds one directory per project.
pub struct JournalAdapter {
    pub(crate) projects_dir: String,
}

/// The text of a user entry: `message.content` where it is a string, else
/// the entry's own `content`.
pub open spec fn user_content(v: Json) -> Option<Seq<char>> {
    match text_member_of(member(v, "message"@), "content"@) {
        Some(c) => Some(c),
        None => text_member(v, "content"@),
    }
}

/// The text of a `text` block.
pub open spec fn block_text(b: Json) -> Option<Seq<char>> {
    if text_member(b, "type"@) == Some("text"@) {
        text_member(b, "text"@)
    } else {
        None
    }
}

/// The texts of the `text` blocks, in order.
pub open spec fn block_texts(bs: Seq<Json>) -> Seq<Seq<char>>
    decreases bs.len(),
{
    if bs.len() == 0 {
        Seq::empty()
    } else {
        let rest = block_texts(bs.drop_last());
        match block_text(bs.last()) {
            Some(t) => rest.push(t),
            None => rest,
        }
    }
}

/// The reasoning text of a `thinking` block.
pub open spec fn block_thinking(b: Json) -> Option<Seq<char>> {
    if text_member(b, "type"@) == Some("thinking"@) {
        text_member(b, "thinking"@)
    } else {
        None
    }
}

/// The reasoning text of the last `thinking` block that has one.
pub open spec fn last_thinking(bs: Seq<Json>) -> Option<Seq<char>>
    decreases bs.len(),
{
    if bs.len() == 0 {
        None
    } else {
        match block_thinking(bs.last()) {
            Some(t) => Some(t),
            None => last_thinking(bs.drop_last()),
        }
    }
}

/// Id and name of a `tool_use` block that has both.
pub open spec fn block_tool(b: Json) -> Option<(Seq<char>, Seq<char>)> {
    if text_member(b, "type"@) == Some("tool_use"@) && text_member(b, "id"@) is Some
        && text_member(b, "name"@) is Some {
        Some((text_member(b, "id"@).unwrap(), text_member(b, "name"@).unwrap()))
    } else {
        None
    }
}

/// Ids and names of the `tool_use` blocks, in order.
pub open spec fn block_tools(bs: Seq<Json>) -> Seq<(Seq<char>, Seq<char>)>
    decreases bs.len(),
{
    if bs.len() == 0 {
        Seq::empty()
    } else {
        let rest = block_tools(bs.drop_last());
        match block_tool(bs.last()) {
            Some(t) => rest.push(t),
            None => rest,
        }
    }
}

/// The content blocks of an assistant entry, where `message.content` is an array.
pub open spec fn assistant_blocks(v: Json) -> Option<Seq<Json>> {
    items_of(member_of(member(v, "message"@), "content"@))
}

/// The text parts of an assistant entry: its `text` blocks, or
/// `message.content` itself where that is a string.
pub open spec fn assistant_parts(v: Json) -> Seq<Seq<char>> {
    match assistant_blocks(v) {
        Some(bs) => block_texts(bs),
        None => match text_member_of(member(v, "message"@), "content"@) {
            Some(c) => seq![c],
            None => Seq::empty(),
        },
    }
}

/// The text of an assistant entry: its parts joined by newlines, or none.
pub open spec fn assistant_content(v: Json) -> Option<Seq<char>> {
    if assistant_parts(v).len() == 0 {
        None
    } else {
        Some(joined(assistant_parts(v)))
    }
}

/// The text of a progress entry: `data.message.content`, else the JSON text
/// of `data`.
pub open spec fn progress_content(v: Json) -> Option<Seq<char>> {
    match text_member_of(member_of(member(v, "data"@), "message"@), "content"@) {
        Some(c) => Some(c),
        None => match member(v, "data"@) {
            Some(d) => Some(text_of_json(d)),
            None => None,
        },
    }
}

/// Kind, role and text of an entry whose `type` is `t`.
pub open spec fn entry_fields(v: Json, t: Seq<char>) -> (EventKind, Option<Role>, Option<Seq<char>>) {
    if t == "user"@ {
        (EventKind::Message, Some(Role::User), user_content(v))
    } else if t == "assistant"@ {
        (EventKind::Message, Some(Role::Assistant), assistant_content(v))
    } else if t == "system"@ {
        (EventKind::System, Some(Role::System), text_member(v, "content"@))
    } else if t == "progress"@ {
        (EventKind::System, None, progress_content(v))
    } else if t == "file-history-snapshot"@ {
        (
            EventKind::System,
            None,
            match member(v, "snapshot"@) {
                Some(s) => Some(text_of_json(s)),
                None => None,
            },
        )
    } else if t == "queue-operation"@ {
        (EventKind::System, None, text_member(v, "content"@))
    } else if t == "error"@ {
        (EventKind::Error, None, text_member(v, "message"@))
    } else {
        (EventKind::System, None, Some("Unknown type: "@ + t))
    }
}

/// The instant of an entry: its `timestamp` in any of the three encodings,
/// else `now`.
pub open spec fn entry_instant(v: Json, now: i64) -> i64 {
    json_instant(member(v, "timestamp"@), now)
}

/// The event that an entry becomes, as `event_view` shows it: every entry
/// with a `type` becomes one.
pub open spec fn entry_event(v: Json, now: i64) -> Option<(EventKind, Option<Role>, Option<Seq<char>>, i64)> {
    match text_member(v, "type"@) {
        Some(t) => {
            let f = entry_fields(v, t);
            Some((f.0, f.1, f.2, entry_instant(v, now)))
        },
        None => None,
    }
}

/// The text of a user entry.
pub fn extract_user_content(value: &Json) -> (r: Option<String>)
    ensures
        opt_view(r) == user_content(*value),
{
    let from_message = match value.get("message") {
        Some(m) => m.text_member("content"),
        None => None,
    };
    match from_message {
        Some(c) => Some(c),
        None => value.text_member("content"),
    }
}

/// Text, tool calls and reasoning of an assistant entry.
pub fn extract_assistant_content(value: &Json) -> (r: (Option<String>, Vec<ToolCall>, Option<String>))
    ensures
        opt_view(r.0) == assistant_content(*value),
        match assistant_blocks(*value) {
            Some(bs) => r.1@.map_values(|c: ToolCall| (c.id@, c.name@)) == block_tools(bs)
                && opt_view(r.2) == last_thinking(bs),
            None => r.1@.len() == 0 && r.2 is None,
        },
{
    let mut parts: Vec<String> = Vec::new();
    let mut tools: Vec<ToolCall> = Vec::new();
    let mut thinking: Option<String> = None;
    let message = value.get("message");
    let blocks = match message {
        Some(m) => match m.get("content") {
            Some(c) => c.as_array(),
            None => None,
        },
        None => None,
    };
    match blocks {
        Some(bs) => {
            let mut i: usize = 0;
            while i < bs.len()
                invariant
                    i <= bs.len(),
                    parts@.map_values(|p: String| p@) == block_texts(bs@.subrange(0, i as int)),
                    tools@.map_values(|c: ToolCall| (c.id@, c.name@)) == block_tools(bs@.subrange(0, i as int)),
                    opt_view(thinking) == last_thinking(bs@.subrange(0, i as int)),
                decreases bs.len() - i,
            {
                let b = &bs[i];
                let ghost pre = bs@.subrange(0, i as int);
                let ghost next = bs@.subrange(0, i + 1);
                assert(next.drop_last() == pre);
                assert(next.last() == *b);
                let kind = b.text_member("type");
                if text_is(&kind, "text") {
                    match b.text_member("text") {
                        Some(t) => {
                            parts.push(t);
                        },
                        None => {},
                    }
                } else if text_is(&kind, "thinking") {
                    match b.text_member("thinking") {
                        Some(t) => {
                            thinking = Some(t);
                        },
                        None => {},
                    }
                } else if text_is(&kind, "tool_use") {
                    let id = b.text_member("id");
                    let name = b.text_member("name");
                    match (id, name) {
                        (Some(id), Some(name)) => {
                            let arguments = match b.get("input") {
                                Some(input) => json_text(input),
                                None => to_owned_text("null"),
                            };
                            tools.push(ToolCall { id, name, arguments });
                        },
                        _ => {},
                    }
                }
                proof {
                    reveal_strlit("text");
                    reveal_strlit("thinking");
                    reveal_strlit("tool_use");
                    assert("text"@.len() == 4);
                    assert("thinking"@[1] != "tool_use"@[1]);
                    assert(parts@.map_values(|p: String| p@) == block_texts(next));
                    assert(tools@.map_values(|c: ToolCall| (c.id@, c.name@)) == block_tools(next));
                }
                i = i + 1;
            }
            assert(bs@.subrange(0, bs.len() as int) == bs@);
        },
        None => {
            match message {
                Some(m) => match m.text_member("content") {
                    Some(c) => {
                        parts.push(c);
                    },
                    None => {},
                },
                None => {},
            }
        },
    }
    let content = if parts.len() == 0 {
        None
    } else {
        Some(join_lines(&parts))
    };
    (content, tools, thinking)
}


/// The event that an entry becomes; `None` for an entry without a `type`.
/// Its session id is the placeholder until the session is known.
pub fn parse_event_line(value: Json, now: i64) -> (r: Option<Event>)
    ensures
        match entry_event(value, now) {
            Some(ev) => r matches Some(e) && event_view(e) == ev && e.raw_payload == value
                && e.session_id@ == NIL_ID@,
            None => r is None,
        },
{
    let entry_type = match value.text_member("type") {
        Some(t) => t,
        None => {
            return None;
        },
    };
    let timestamp = json_to_instant(value.get("timestamp"), now);
    let t = entry_type.as_str();
    let (kind, role, content) = if same_text(t, "user") {
        (EventKind::Message, Some(Role::User), extract_user_content(&value))
    } else if same_text(t, "assistant") {
        let (content, _, _) = extract_assistant_content(&value);
        (EventKind::Message, Some(Role::Assistant), content)
    } else if same_text(t, "system") {
        (EventKind::System, Some(Role::System), value.text_member("content"))
    } else if same_text(t, "progress") {
        let from_data = match value.get("data") {
            Some(d) => match d.get("message") {
                Some(m) => m.text_member("content"),
                None => None,
            },
            None => None,
        };
        let content = match from_data {
            Some(c) => Some(c),
            None => match value.get("data") {
                Some(d) => Some(json_text(d)),
                None => None,
            },
        };
        (EventKind::System, None, content)
    } else if same_text(t, "file-history-snapshot") {
        let content = match value.get("snapshot") {
            Some(snap) => Some(json_text(snap)),
            None => None,
        };
        (EventKind::System, None, content)
    } else if same_text(t, "queue-operation") {
        (EventKind::System, None, value.text_member("content"))
    } else if same_text(t, "error") {
        (EventKind::Error, None, value.text_member("message"))
    } else {
        (EventKind::System, None, Some(to_owned_text("Unknown type: ").concat(t)))
    };
    Some(Event { id: new_id(), session_id: nil_id(), kind, role, content, timestamp, raw_payload: value })
}

/// Whether an entry carries session metadata rather than an event.
pub open spec fn is_summary(v: Json) -> bool {
    text_member(v, "type"@) == Some("summary"@)
}

/// The events of the lines of a session file, in order. A line that is not
/// JSON and a metadata entry give none.
pub open spec fn line_events(ls: Seq<Seq<char>>, now: i64) -> Seq<(EventKind, Option<Role>, Option<Seq<char>>, i64)>
    decreases ls.len(),
{
    if ls.len() == 0 {
        Seq::empty()
    } else {
        let rest = line_events(ls.drop_last(), now);
        match json_of_text(ls.last()) {
            Some(v) => if is_summary(v) {
                rest
            } else {
                match entry_event(v, now) {
                    Some(e) => rest.push(e),
                    None => rest,
                }
            },
            None => rest,
        }
    }
}

/// The lines that give no event: those that are not JSON, metadata entries,
/// and entries without a `type`.
pub open spec fn skipped_lines(ls: Seq<Seq<char>>) -> nat
    decreases ls.len(),
{
    if ls.len() == 0 {
        0
    } else {
        skipped_lines(ls.drop_last()) + match json_of_text(ls.last()) {
            Some(v) => if is_summary(v) || text_member(v, "type"@) is None { 1nat } else { 0nat },
            None => 1nat,
        }
    }
}

/// Every line of a session file either becomes an event or is an accounted
/// skip, so event counts can be audited against line counts.
pub proof fn lemma_lines_are_accounted(ls: Seq<Seq<char>>, now: i64)
    ensures
        line_events(ls, now).len() + skipped_lines(ls) == ls.len(),
    decreases ls.len(),
{
    if ls.len() > 0 {
        lemma_lines_are_accounted(ls.drop_last(), now);
    }
}

/// The title of a session: the `summary` text of its last metadata entry that has one.
pub open spec fn line_title(ls: Seq<Seq<char>>) -> Option<Seq<char>>
    decreases ls.len(),
{
    if ls.len() == 0 {
        None
    } else {
        let rest = line_title(ls.drop_last());
        match json_of_text(ls.last()) {
            Some(v) => if is_summary(v) && text_member(v, "summary"@) is Some {
                text_member(v, "summary"@)
            } else {
                rest
            },
            None => rest,
        }
    }
}

/// The instant of a line's `timestamp`, where it has a readable one.
pub open spec fn line_stamp(l: Seq<char>) -> Option<i64> {
    match json_of_text(l) {
        Some(v) => json_stamp(member(v, "timestamp"@)),
        None => None,
    }
}

/// The earliest instant that the lines carry.
pub open spec fn earliest(ls: Seq<Seq<char>>) -> Option<i64>
    decreases ls.len(),
{
    if ls.len() == 0 {
        None
    } else {
        let rest = earliest(ls.drop_last());
        match line_stamp(ls.last()) {
            Some(t) => match rest {
                Some(e) => Some(if t < e { t } else { e }),
                None => Some(t),
            },
            None => rest,
        }
    }
}

/// The latest instant that the lines carry.
pub open spec fn latest(ls: Seq<Seq<char>>) -> Option<i64>
    decreases ls.len(),
{
    if ls.len() == 0 {
        None
    } else {
        let rest = latest(ls.drop_last());
        match line_stamp(ls.last()) {
            Some(t) => match rest {
                Some(e) => Some(if t > e { t } else { e }),
                None => Some(t),
            },
            None => rest,
        }
    }
}

/// The session id that a session file name carries: the name without its
/// `.jsonl` extension.
pub open spec fn session_log_id(name: Seq<char>) -> Option<Seq<char>> {
    if name.len() > 6 && ends_with_text(name, ".jsonl"@) {
        Some(name.subrange(0, name.len() - 6))
    } else {
        None
    }
}

/// The session id of a file in a project directory, where it is a session log.
pub fn session_log(file_name: &str) -> (r: Option<String>)
    ensures
        opt_view(r) == session_log_id(file_name@),
{
    let n = file_name.unicode_len();
    if n > 6 && ends_with_str(file_name, ".jsonl") {
        Some(to_owned_text(file_name.substring_char(0, n - 6)))
    } else {
        None
    }
}

/// Statistics of a session file.
pub struct SessionStats {
    pub total_lines: usize,
    pub user_messages: usize,
    pub assistant_messages: usize,
    pub system_messages: usize,
    pub progress_messages: usize,
    pub tool_calls: usize,
    pub file_snapshots: usize,
    pub git_branches: Vec<String>,
    pub working_directories: Vec<String>,
}

/// User, assistant, system, progress, tool-use and snapshot counts.
pub type Counts = (nat, nat, nat, nat, nat, nat);

/// The number of `tool_use` blocks.
pub open spec fn tool_uses(bs: Seq<Json>) -> nat
    decreases bs.len(),
{
    if bs.len() == 0 {
        0
    } else {
        tool_uses(bs.drop_last()) + if text_member(bs.last(), "type"@) == Some("tool_use"@) { 1nat } else { 0nat }
    }
}

/// What one entry adds to the counts.
pub open spec fn entry_counts(v: Json) -> Counts {
    let t = text_member(v, "type"@);
    if t == Some("user"@) {
        (1, 0, 0, 0, 0, 0)
    } else if t == Some("assistant"@) {
        (0, 1, 0, 0, match assistant_blocks(v) {
            Some(bs) => tool_uses(bs),
            None => 0,
        }, 0)
    } else if t == Some("system"@) {
        (0, 0, 1, 0, 0, 0)
    } else if t == Some("progress"@) {
        (0, 0, 0, 1, 0, 0)
    } else if t == Some("file-history-snapshot"@) {
        (0, 0, 0, 0, 0, 1)
    } else {
        (0, 0, 0, 0, 0, 0)
    }
}

/// The counts of the lines that are JSON.
pub open spec fn line_counts(ls: Seq<Seq<char>>) -> Counts
    decreases ls.len(),
{
    if ls.len() == 0 {
        (0, 0, 0, 0, 0, 0)
    } else {
        let r = line_counts(ls.drop_last());
        match json_of_text(ls.last()) {
            Some(v) => {
                let c = entry_counts(v);
                (r.0 + c.0, r.1 + c.1, r.2 + c.2, r.3 + c.3, r.4 + c.4, r.5 + c.5)
            },
            None => r,
        }
    }
}

/// The texts of the string member `key` over the lines that are JSON.
pub open spec fn line_values(ls: Seq<Seq<char>>, key: Seq<char>) -> Set<Seq<char>>
    decreases ls.len(),
{
    if ls.len() == 0 {
        Set::empty()
    } else {
        let r = line_values(ls.drop_last(), key);
        match json_of_text(ls.last()) {
            Some(v) => match text_member(v, key) {
                Some(x) => r.insert(x),
                None => r,
            },
            None => r,
        }
    }
}

/// A count capped at the largest `usize`.
pub open spec fn capped(n: int) -> usize {
    if n > usize::MAX { usize::MAX } else { n as usize }
}

/// The number of `tool_use` blocks, capped.
fn count_tool_uses(bs: &Vec<Json>, start: usize) -> (r: usize)
    requires
        start <= usize::MAX,
    ensures
        r == capped(start + tool_uses(bs@)),
{
    let mut n: usize = start;
    let mut i: usize = 0;
    while i < bs.len()
        invariant
            i <= bs.len(),
            n == capped(start + tool_uses(bs@.subrange(0, i as int))),
        decreases bs.len() - i,
    {
        assert(bs@.subrange(0, i + 1).drop_last() == bs@.subrange(0, i as int));
        let t = bs[i].text_member("type");
        if text_is(&t, "tool_use") && n < usize::MAX {
            n = n + 1;
        }
        i = i + 1;
    }
    assert(bs@.subrange(0, bs.len() as int) == bs@);
    n
}

impl JournalAdapter {
    /// Statistics of the lines of a session file: entries by type, tool
    /// invocations, and the distinct branches and working directories named.
    pub fn session_stats(&self, lines: &Vec<String>) -> (r: SessionStats)
        ensures
            r.total_lines == lines@.len(),
            r.user_messages == line_counts(text_views(lines@)).0,
            r.assistant_messages == line_counts(text_views(lines@)).1,
            r.system_messages == line_counts(text_views(lines@)).2,
            r.progress_messages == line_counts(text_views(lines@)).3,
            r.tool_calls == capped(line_counts(text_views(lines@)).4 as int),
            r.file_snapshots == line_counts(text_views(lines@)).5,
            distinct_texts(r.git_branches@),
            text_set(r.git_branches@) == line_values(text_views(lines@), "gitBranch"@),
            distinct_texts(r.working_directories@),
            text_set(r.working_directories@) == line_values(text_views(lines@), "cwd"@),
    {
        let ghost lv = text_views(lines@);
        let mut st = SessionStats {
            total_lines: lines.len(),
            user_messages: 0,
            assistant_messages: 0,
            system_messages: 0,
            progress_messages: 0,
            tool_calls: 0,
            file_snapshots: 0,
            git_branches: Vec::new(),
            working_directories: Vec::new(),
        };
        proof {
            assert(text_set(st.git_branches@) =~= Set::<Seq<char>>::empty());
            assert(text_set(st.working_directories@) =~= Set::<Seq<char>>::empty());
        }
        let mut i: usize = 0;
        while i < lines.len()
            invariant
                i <= lines.len(),
                lv == text_views(lines@),
                st.total_lines == lines@.len(),
                st.user_messages + st.assistant_messages + st.system_messages + st.progress_messages
                    + st.file_snapshots <= i,
                st.user_messages == line_counts(lv.subrange(0, i as int)).0,
                st.assistant_messages == line_counts(lv.subrange(0, i as int)).1,
                st.system_messages == line_counts(lv.subrange(0, i as int)).2,
                st.progress_messages == line_counts(lv.subrange(0, i as int)).3,
                st.tool_calls == capped(line_counts(lv.subrange(0, i as int)).4 as int),
                st.file_snapshots == line_counts(lv.subrange(0, i as int)).5,
                distinct_texts(st.git_branches@),
                text_set(st.git_branches@) == line_values(lv.subrange(0, i as int), "gitBranch"@),
                distinct_texts(st.working_directories@),
                text_set(st.working_directories@) == line_values(lv.subrange(0, i as int), "cwd"@),
            decreases lines.len() - i,
        {
            let ghost next = lv.subrange(0, i + 1);
            assert(next.drop_last() == lv.subrange(0, i as int));
            assert(next.last() == lines@[i as int]@);
            match parse_json(lines[i].as_str()) {
                Some(v) => {
                    let t = v.text_member("type");
                    if text_is(&t, "user") {
                        st.user_messages = st.user_messages + 1;
                    } else if text_is(&t, "assistant") {
                        st.assistant_messages = st.assistant_messages + 1;
                        let blocks = match v.get("message") {
                            Some(m) => match m.get("content") {
                                Some(c) => c.as_array(),
                                None => None,
                            },
                            None => None,
                        };
                        match blocks {
                            Some(bs) => {
                                let ghost before: int = line_counts(lv.subrange(0, i as int)).4 as int;
                                st.tool_calls = count_tool_uses(bs, st.tool_calls);
                                assert(st.tool_calls == capped(before + tool_uses(bs@) as int));
                            },
                            None => {},
                        }
                    } else if text_is(&t, "system") {
                        st.system_messages = st.system_messages + 1;
                    } else if text_is(&t, "progress") {
                        st.progress_messages = st.progress_messages + 1;
                    } else if text_is(&t, "file-history-snapshot") {
                        st.file_snapshots = st.file_snapshots + 1;
                    }
                    insert_distinct_opt(&mut st.git_branches, v.text_member("gitBranch"));
                    insert_distinct_opt(&mut st.working_directories, v.text_member("cwd"));
                },
                None => {},
            }
            i = i + 1;
        }
        assert(lv.subrange(0, lines.len() as int) == lv);
        st
    }

    /// The projects directory, as text.
    pub closed spec fn dir(&self) -> Seq<char> {
        self.projects_dir@
    }

    /// An adapter rooted at the given projects directory.
    pub fn with_projects_dir(projects_dir: String) -> (r: JournalAdapter)
        ensures
            r.dir() == projects_dir@,
    {
        JournalAdapter { projects_dir }
    }

    /// The projects directory.
    pub fn projects_dir(&self) -> (r: &String)
        ensures
            r@ == self.dir(),
    {
        &self.projects_dir
    }

    /// The session and events of a file, where some line of it is JSON; a
    /// file of which no line is, is malformed and gives none.
    pub fn parse_session_file(&self, file: &JournalSessionFile, lines: &Vec<String>, now: i64) -> (r: Option<(Session, Vec<Event>)>)
        ensures
            r is None <==> !has_json_line(text_views(lines@)),
            r matches Some(x) ==> x.0.source == Source::Journal && x.0.external_id@ == file.session_id@
                && x.0.wf() && x.1@.map_values(|e: Event| event_view(e)) == line_events(text_views(lines@), now)
                && forall|i: int| 0 <= i < x.1@.len() ==> (#[trigger] x.1@[i]).session_id == x.0.id,
    {
        if any_json_line(lines) {
            Some(self.parse_session_lines(file, lines, now))
        } else {
            None
        }
    }

    /// The session and events of the lines of a session file. `now` stands for
    /// the instants that the file does not give.
    pub fn parse_session_lines(&self, file: &JournalSessionFile, lines: &Vec<String>, now: i64) -> (r: (Session, Vec<Event>))
        ensures
            r.0.source == Source::Journal,
            r.0.external_id@ == file.session_id@,
            opt_view(r.0.project) == Some(file.project@),
            opt_view(r.0.title) == line_title(text_views(lines@)),
            r.0.created_at == (match earliest(text_views(lines@)) {
                Some(t) => t,
                None => now,
            }),
            r.0.updated_at == (match latest(text_views(lines@)) {
                Some(t) => t,
                None => r.0.created_at,
            }),
            r.0.wf(),
            r.1@.map_values(|e: Event| event_view(e)) == line_events(text_views(lines@), now),
            forall|i: int| 0 <= i < r.1@.len() ==> (#[trigger] r.1@[i]).session_id == r.0.id,
    {
        let ghost lv = text_views(lines@);
        let sid = new_id();
        let mut events: Vec<Event> = Vec::new();
        let mut title: Option<String> = None;
        let mut leaf: Option<String> = None;
        let mut first: Option<i64> = None;
        let mut last: Option<i64> = None;
        let mut i: usize = 0;
        while i < lines.len()
            invariant
                i <= lines.len(),
                lv == text_views(lines@),
                events@.map_values(|e: Event| event_view(e)) == line_events(lv.subrange(0, i as int), now),
                forall|k: int| 0 <= k < events@.len() ==> (#[trigger] events@[k]).session_id == sid,
                opt_view(title) == line_title(lv.subrange(0, i as int)),
                first == earliest(lv.subrange(0, i as int)),
                last == latest(lv.subrange(0, i as int)),
                first is Some <==> last is Some,
                first is Some ==> first.unwrap() <= last.unwrap(),
            decreases lines.len() - i,
        {
            let ghost pre = lv.subrange(0, i as int);
            let ghost next = lv.subrange(0, i + 1);
            assert(next.drop_last() == pre);
            assert(next.last() == lines@[i as int]@);
            match parse_json(lines[i].as_str()) {
                Some(v) => {
                    let stamp = json_to_stamp(v.get("timestamp"));
                    match stamp {
                        Some(t) => {
                            first = match first {
                                Some(e) => Some(if t < e { t } else { e }),
                                None => Some(t),
                            };
                            last = match last {
                                Some(e) => Some(if t > e { t } else { e }),
                                None => Some(t),
                            };
                        },
                        None => {},
                    }
                    let ty = v.text_member("type");
                    if text_is(&ty, "summary") {
                        match v.text_member("summary") {
                            Some(s) => {
                                title = Some(s);
                            },
                            None => {},
                        }
                        match v.text_member("leafUuid") {
                            Some(l) => {
                                leaf = Some(l);
                            },
                            None => {},
                        }
                    } else {
                        match parse_event_line(v, now) {
                            Some(e) => {
                                events.push(with_session(e, &sid));
                            },
                            None => {},
                        }
                    }
                },
                None => {},
            }
            proof {
                assert(events@.map_values(|e: Event| event_view(e)) == line_events(next, now));
            }
            i = i + 1;
        }
        assert(lv.subrange(0, lines.len() as int) == lv);
        let created_at = match first {
            Some(t) => t,
            None => now,
        };
        let updated_at = match last {
            Some(t) => t,
            None => created_at,
        };
        let mut payload: Vec<(String, Json)> = Vec::new();
        payload.push((to_owned_text("source"), str_value("journal")));
        payload.push((to_owned_text("project"), str_value(file.project.as_str())));
        payload.push((to_owned_text("session_id"), str_value(file.session_id.as_str())));
        payload.push((to_owned_text("file_path"), str_value(file.path.as_str())));
        payload.push((to_owned_text("line_count"), int_value(lines.len() as i64)));
        payload.push((to_owned_text("leaf_uuid"), opt_str_value(&leaf)));
        let session = Session {
            id: sid,
            source: Source::Journal,
            external_id: file.session_id.clone(),
            project: Some(file.project.clone()),
            title,
            created_at,
            updated_at,
            raw_payload: Json::Object(payload),
        };
        (session, events)
    }
}


/// One entry of a conversation, with its place in the parent/child graph.
pub struct ConversationNode {
    pub uuid: String,
    pub parent_uuid: Option<String>,
    pub event_type: String,
    pub timestamp: i64,
    pub content: Option<String>,
    pub role: Option<Role>,
    pub tool_calls: Vec<ToolCall>,
    pub thinking: Option<String>,
    pub git_branch: Option<String>,
    pub cwd: Option<String>,
}

/// A conversation thread: the uuid of its root and the nodes of the session
/// in time order.
pub struct ConversationThread {
    pub root_uuid: String,
    pub nodes: Vec<ConversationNode>,
}

/// What a node states: uuid, parent, entry type, instant, text and role.
pub type NodeView = (Seq<char>, Option<Seq<char>>, Seq<char>, i64, Option<Seq<char>>, Option<Role>);

pub open spec fn node_view(n: ConversationNode) -> NodeView {
    (n.uuid@, opt_view(n.parent_uuid), n.event_type@, n.timestamp, opt_view(n.content), n.role)
}

pub open spec fn node_views(ns: Seq<ConversationNode>) -> Seq<NodeView> {
    ns.map_values(|n: ConversationNode| node_view(n))
}

/// The node that an event becomes: an event whose payload has a `uuid` and a
/// `type` becomes one; its text and role are read again from the payload for
/// user, assistant and system entries.
pub open spec fn event_node(e: Event) -> Option<NodeView> {
    let raw = e.raw_payload;
    match (text_member(raw, "uuid"@), text_member(raw, "type"@)) {
        (Some(u), Some(t)) => {
            let (content, role) = if t == "user"@ {
                (user_content(raw), Some(Role::User))
            } else if t == "assistant"@ {
                (assistant_content(raw), Some(Role::Assistant))
            } else if t == "system"@ {
                (text_member(raw, "content"@), Some(Role::System))
            } else {
                (opt_view(e.content), e.role)
            };
            Some((u, text_member(raw, "parentUuid"@), t, e.timestamp, content, role))
        },
        _ => None,
    }
}

/// The nodes of a sequence of events, in order.
pub open spec fn event_nodes(es: Seq<Event>) -> Seq<NodeView>
    decreases es.len(),
{
    if es.len() == 0 {
        Seq::empty()
    } else {
        let rest = event_nodes(es.drop_last());
        match event_node(es.last()) {
            Some(n) => rest.push(n),
            None => rest,
        }
    }
}

/// The root uuids of threads.
pub open spec fn root_views(ts: Seq<ConversationThread>) -> Seq<Seq<char>> {
    ts.map_values(|t: ConversationThread| t.root_uuid@)
}

/// Nodes in time order.
pub open spec fn sorted_by_time(ns: Seq<NodeView>) -> bool {
    forall|i: int, j: int| 0 <= i < j < ns.len() ==> ns[i].3 <= ns[j].3
}

/// Some node has the uuid `u`.
pub open spec fn has_uuid(ns: Seq<NodeView>, u: Seq<char>) -> bool {
    exists|i: int| 0 <= i < ns.len() && (#[trigger] ns[i]).0 == u
}

/// A root: a node whose parent is absent or not among the nodes.
pub open spec fn is_root(ns: Seq<NodeView>, n: NodeView) -> bool {
    match n.1 {
        Some(p) => !has_uuid(ns, p),
        None => true,
    }
}

/// The uuids of the roots among the first `k` nodes, in order.
pub open spec fn roots_upto(ns: Seq<NodeView>, k: int) -> Seq<Seq<char>>
    decreases k,
{
    if k <= 0 || k > ns.len() {
        Seq::empty()
    } else if is_root(ns, ns[k - 1]) {
        roots_upto(ns, k - 1).push(ns[k - 1].0)
    } else {
        roots_upto(ns, k - 1)
    }
}

/// The uuids of the roots, in node order.
pub open spec fn root_ids(ns: Seq<NodeView>) -> Seq<Seq<char>> {
    roots_upto(ns, ns.len() as int)
}

fn copy_text(s: &Option<String>) -> (r: Option<String>)
    ensures
        r == *s,
{
    match s {
        Some(t) => Some(t.clone()),
        None => None,
    }
}

fn copy_tool_calls(cs: &Vec<ToolCall>) -> (r: Vec<ToolCall>)
    ensures
        r@.len() == cs@.len(),
{
    let mut out: Vec<ToolCall> = Vec::new();
    let mut i: usize = 0;
    while i < cs.len()
        invariant
            i <= cs.len(),
            out@.len() == i,
        decreases cs.len() - i,
    {
        out.push(ToolCall { id: cs[i].id.clone(), name: cs[i].name.clone(), arguments: cs[i].arguments.clone() });
        i = i + 1;
    }
    out
}

fn copy_node(n: &ConversationNode) -> (r: ConversationNode)
    ensures
        node_view(r) == node_view(*n),
{
    ConversationNode {
        uuid: n.uuid.clone(),
        parent_uuid: copy_text(&n.parent_uuid),
        event_type: n.event_type.clone(),
        timestamp: n.timestamp,
        content: copy_text(&n.content),
        role: n.role,
        tool_calls: copy_tool_calls(&n.tool_calls),
        thinking: copy_text(&n.thinking),
        git_branch: copy_text(&n.git_branch),
        cwd: copy_text(&n.cwd),
    }
}

fn copy_nodes(ns: &Vec<ConversationNode>) -> (r: Vec<ConversationNode>)
    ensures
        node_views(r@) == node_views(ns@),
{
    let mut out: Vec<ConversationNode> = Vec::new();
    let mut i: usize = 0;
    while i < ns.len()
        invariant
            i <= ns.len(),
            out@.len() == i,
            node_views(out@) == node_views(ns@.subrange(0, i as int)),
        decreases ns.len() - i,
    {
        let c = copy_node(&ns[i]);
        let ghost prev = out@;
        out.push(c);
        assert(out@ == prev.push(c));
        assert forall|k: int| 0 <= k < i + 1 implies #[trigger] node_views(out@)[k] == node_views(ns@.subrange(0, i + 1))[k] by {
            if k < i {
                assert(node_views(prev)[k] == node_views(ns@.subrange(0, i as int))[k]);
            }
        }
        assert(node_views(out@) =~= node_views(ns@.subrange(0, i + 1)));
        i = i + 1;
    }
    assert(ns@.subrange(0, ns.len() as int) == ns@);
    out
}

/// The node of an event whose payload has a `uuid` and a `type`.
pub fn event_to_node(event: &Event) -> (r: Option<ConversationNode>)
    ensures
        match event_node(*event) {
            Some(v) => r matches Some(n) && node_view(n) == v,
            None => r is None,
        },
{
    let raw = &event.raw_payload;
    let uuid = match raw.text_member("uuid") {
        Some(u) => u,
        None => {
            return None;
        },
    };
    let event_type = match raw.text_member("type") {
        Some(t) => t,
        None => {
            return None;
        },
    };
    let t = event_type.as_str();
    let (content, role, tool_calls, thinking) = if same_text(t, "user") {
        (extract_user_content(raw), Some(Role::User), Vec::new(), None)
    } else if same_text(t, "assistant") {
        let (content, tool_calls, thinking) = extract_assistant_content(raw);
        (content, Some(Role::Assistant), tool_calls, thinking)
    } else if same_text(t, "system") {
        (raw.text_member("content"), Some(Role::System), Vec::new(), None)
    } else {
        (copy_text(&event.content), event.role, Vec::new(), None)
    };
    Some(ConversationNode {
        uuid,
        parent_uuid: raw.text_member("parentUuid"),
        event_type,
        timestamp: event.timestamp,
        content,
        role,
        tool_calls,
        thinking,
        git_branch: raw.text_member("gitBranch"),
        cwd: raw.text_member("cwd"),
    })
}

/// `v` placed after every node with an instant not later than its own.
pub open spec fn insert_node(s: Seq<NodeView>, v: NodeView) -> Seq<NodeView>
    decreases s.len(),
{
    if s.len() == 0 {
        seq![v]
    } else if s[0].3 <= v.3 {
        seq![s[0]] + insert_node(s.drop_first(), v)
    } else {
        seq![v] + s
    }
}

/// The nodes in time order, nodes with the same instant in the order given
/// (a stable sort).
pub open spec fn stable_by_time(s: Seq<NodeView>) -> Seq<NodeView>
    decreases s.len(),
{
    if s.len() == 0 {
        Seq::empty()
    } else {
        insert_node(stable_by_time(s.drop_last()), s.last())
    }
}

proof fn lemma_insert_node_at(s: Seq<NodeView>, v: NodeView, pos: int)
    requires
        0 <= pos <= s.len(),
        forall|k: int| 0 <= k < pos ==> s[k].3 <= v.3,
        pos < s.len() ==> s[pos].3 > v.3,
    ensures
        insert_node(s, v) == s.insert(pos, v),
    decreases pos,
{
    if pos == 0 {
        if s.len() == 0 {
            assert(s.insert(0, v) =~= seq![v]);
        } else {
            assert(s.insert(0, v) =~= seq![v] + s);
        }
    } else {
        let t = s.drop_first();
        assert forall|k: int| 0 <= k < pos - 1 implies t[k].3 <= v.3 by {
            assert(t[k] == s[k + 1]);
        }
        if pos - 1 < t.len() {
            assert(t[pos - 1] == s[pos]);
        }
        lemma_insert_node_at(t, v, pos - 1);
        assert(seq![s[0]] + t.insert(pos - 1, v) =~= s.insert(pos, v));
    }
}

/// Inserts a node after every node with an instant not later than its own.
fn insert_by_time(ns: &mut Vec<ConversationNode>, n: ConversationNode)
    requires
        sorted_by_time(node_views(old(ns)@)),
    ensures
        sorted_by_time(node_views(final(ns)@)),
        node_views(final(ns)@).to_multiset() == node_views(old(ns)@).to_multiset().insert(node_view(n)),
        node_views(final(ns)@) == insert_node(node_views(old(ns)@), node_view(n)),
{
    let ghost before = node_views(ns@);
    let mut pos: usize = 0;
    while pos < ns.len() && ns[pos].timestamp <= n.timestamp
        invariant
            pos <= ns.len(),
            before == node_views(ns@),
            forall|k: int| 0 <= k < pos ==> before[k].3 <= n.timestamp,
        decreases ns.len() - pos,
    {
        pos = pos + 1;
    }
    let ghost v = node_view(n);
    proof {
        if pos < before.len() {
            assert forall|k: int| pos <= k < before.len() implies before[k].3 > v.3 by {
                if k > pos {
                    assert(before[pos as int].3 <= before[k].3);
                }
            }
        }
    }
    ns.insert(pos, n);
    proof {
        let after = before.insert(pos as int, v);
        assert(node_views(ns@) =~= after);
        assert forall|i: int, j: int| 0 <= i < j < after.len() implies after[i].3 <= after[j].3 by {
            if j < pos {
            } else if j == pos {
            } else if i < pos {
                assert(after[j] == before[j - 1]);
            } else if i == pos {
                assert(after[j] == before[j - 1]);
            } else {
                assert(after[i] == before[i - 1]);
                assert(after[j] == before[j - 1]);
            }
        }
        vstd::seq_lib::to_multiset_insert(before, pos as int, v);
        lemma_insert_node_at(before, v, pos as int);
    }
}

/// The nodes of the events, in time order.
pub fn conversation_nodes(events: &Vec<Event>) -> (r: Vec<ConversationNode>)
    ensures
        sorted_by_time(node_views(r@)),
        node_views(r@).to_multiset() == event_nodes(events@).to_multiset(),
        node_views(r@) == stable_by_time(event_nodes(events@)),
{
    let mut nodes: Vec<ConversationNode> = Vec::new();
    let mut i: usize = 0;
    proof {
        assert(events@.subrange(0, 0) =~= Seq::<Event>::empty());
        assert(node_views(nodes@) =~= Seq::<NodeView>::empty());
        assert(event_nodes(events@.subrange(0, 0)) == Seq::<NodeView>::empty());
    }
    while i < events.len()
        invariant
            i <= events.len(),
            sorted_by_time(node_views(nodes@)),
            node_views(nodes@).to_multiset() == event_nodes(events@.subrange(0, i as int)).to_multiset(),
            node_views(nodes@) == stable_by_time(event_nodes(events@.subrange(0, i as int))),
        decreases events.len() - i,
    {
        let ghost pre = events@.subrange(0, i as int);
        let ghost next = events@.subrange(0, i + 1);
        assert(next.drop_last() == pre);
        match event_to_node(&events[i]) {
            Some(n) => {
                insert_by_time(&mut nodes, n);
                proof {
                    vstd::seq_lib::to_multiset_build(event_nodes(pre), event_node(events@[i as int]).unwrap());
                    assert(event_nodes(next).drop_last() == event_nodes(pre));
                }
            },
            None => {},
        }
        i = i + 1;
    }
    assert(events@.subrange(0, events.len() as int) == events@);
    nodes
}

/// Whether some node has the uuid `u`.
fn any_uuid(ns: &Vec<ConversationNode>, u: &String) -> (r: bool)
    ensures
        r == has_uuid(node_views(ns@), u@),
{
    let ghost vs = node_views(ns@);
    let mut i: usize = 0;
    while i < ns.len()
        invariant
            i <= ns.len(),
            vs == node_views(ns@),
            forall|k: int| 0 <= k < i ==> vs[k].0 != u@,
        decreases ns.len() - i,
    {
        if same_text(ns[i].uuid.as_str(), u.as_str()) {
            assert(vs[i as int].0 == u@);
            return true;
        }
        i = i + 1;
    }
    false
}

/// The uuids of the roots among the nodes, in node order.
pub fn thread_roots(nodes: &Vec<ConversationNode>) -> (r: Vec<String>)
    ensures
        r@.map_values(|s: String| s@) == root_ids(node_views(nodes@)),
{
    let ghost vs = node_views(nodes@);
    let mut roots: Vec<String> = Vec::new();
    let mut i: usize = 0;
    while i < nodes.len()
        invariant
            i <= nodes.len(),
            vs == node_views(nodes@),
            roots@.map_values(|s: String| s@) == roots_upto(vs, i as int),
        decreases nodes.len() - i,
    {
        let root = match &nodes[i].parent_uuid {
            Some(p) => !any_uuid(nodes, p),
            None => true,
        };
        if root {
            roots.push(nodes[i].uuid.clone());
        }
        assert(roots@.map_values(|s: String| s@) =~= roots_upto(vs, i + 1));
        i = i + 1;
    }
    roots
}

impl JournalAdapter {
    /// Conversation threads of a session: one per root, each holding every
    /// node of the session in time order.
    pub fn rebuild_conversations(&self, events: &Vec<Event>) -> (r: Vec<ConversationThread>)
        ensures
            sorted_by_time(stable_by_time(event_nodes(events@))),
            stable_by_time(event_nodes(events@)).to_multiset() == event_nodes(events@).to_multiset(),
            root_views(r@) == root_ids(stable_by_time(event_nodes(events@))),
            forall|k: int| 0 <= k < r@.len() ==> node_views((#[trigger] r@[k]).nodes@) == stable_by_time(event_nodes(events@)),
    {
        let nodes = conversation_nodes(events);
        let roots = thread_roots(&nodes);
        let ghost ns = node_views(nodes@);
        let mut threads: Vec<ConversationThread> = Vec::new();
        let mut i: usize = 0;
        while i < roots.len()
            invariant
                i <= roots.len(),
                ns == node_views(nodes@),
                threads@.len() == i,
                root_views(threads@)
                    == text_views(roots@.subrange(0, i as int)),
                forall|k: int| 0 <= k < threads@.len() ==> node_views((#[trigger] threads@[k]).nodes@) == ns,
            decreases roots.len() - i,
        {
            let ghost prev = threads@;
            let t = ConversationThread { root_uuid: roots[i].clone(), nodes: copy_nodes(&nodes) };
            threads.push(t);
            assert(threads@ == prev.push(t));
            assert forall|k: int| 0 <= k < i + 1 implies #[trigger] root_views(threads@)[k]
                == text_views(roots@.subrange(0, i + 1))[k] by {
                if k < i {
                    assert(root_views(prev)[k]
                        == text_views(roots@.subrange(0, i as int))[k]);
                }
            }
            assert(root_views(threads@)
                =~= text_views(roots@.subrange(0, i + 1)));
            i = i + 1;
        }
        assert(roots@.subrange(0, roots.len() as int) == roots@);
        assert(root_views(threads@) == root_ids(ns));
        threads
    }
}

} // verus!
