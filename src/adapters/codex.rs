//! The Codex adapter: rollout files of one JSON event per line, each with a
//! `timestamp`, a `type` and a `payload`.

use vstd::prelude::*;
use crate::ids::{new_id, nil_id, NIL_ID};
use crate::json::{
    has_json_line, any_json_line,
    Json, member, text_member, text_member_of, items_of, opt_view, str_value,
    int_value, parse_json, json_of_text, text_is,
};
use crate::model::{Event, EventKind, Role, Session, Source, event_view, with_session};
use crate::text::{
    joined, join_lines, to_owned_text, same_text, text_views, ends_with_text, ends_with_str, last_segment, last_segment_of, text_set,
    distinct_texts, insert_distinct_opt,
};
use crate::timestamp::{json_instant, json_stamp, json_to_instant, json_to_stamp};
use crate::paths::{home_dir, join_path};

verus! {

/// A discovered rollout file: its path, the session id in its name and the
/// date directory it lies in.
pub struct CodexSessionFile {
    pub path: String,
    pub session_id: String,
    pub date: String,
}

/// The session id that a rollout file name carries: the text between the
/// `rollout-` prefix and the `.jsonl` suffix.
pub open spec fn rollout_id(name: Seq<char>) -> Option<Seq<char>> {
    if name.len() >= 14 && name.subrange(0, 8) == "rollout-"@ && ends_with_text(name, ".jsonl"@) {
        Some(name.subrange(8, name.len() - 6))
    } else {
        None
    }
}

/// The rollout file at `path`, named `file_name`, in the directory of day
/// `day` of month `month` of year `year`; none where the name is not that of
/// a rollout file.
pub fn rollout_session(path: String, file_name: &str, year: &str, month: &str, day: &str) -> (r: Option<CodexSessionFile>)
    ensures
        match rollout_id(file_name@) {
            Some(id) => r matches Some(f) && f.path == path && f.session_id@ == id
                && f.date@ == year@ + "/"@ + month@ + "/"@ + day@,
            None => r is None,
        },
{
    proof {
        reveal_strlit("rollout-");
        reveal_strlit(".jsonl");
    }
    let n = file_name.unicode_len();
    if n < 14 {
        return None;
    }
    let head = file_name.substring_char(0, 8);
    if !same_text(head, "rollout-") || !ends_with_str(file_name, ".jsonl") {
        return None;
    }
    let id = to_owned_text(file_name.substring_char(8, n - 6));
    let date = to_owned_text(year).concat("/").concat(month).concat("/").concat(day);
    Some(CodexSessionFile { path, session_id: id, date })
}

/// The adapter, rooted at the directory of dated rollout files.
pub struct CodexAdapter {
    pub(crate) sessions_dir: String,
}

/// What an event states: kind, role, text.
pub type Fields = (EventKind, Option<Role>, Option<Seq<char>>);

/// A line that has the three members of a rollout event.
pub open spec fn is_event_line(v: Json) -> bool {
    member(v, "timestamp"@) is Some && text_member(v, "type"@) is Some && member(v, "payload"@) is Some
}

/// The role that a message names.
pub open spec fn role_named(t: Option<Seq<char>>) -> Option<Role> {
    match t {
        Some(x) => Role::named(x),
        None => None,
    }
}

/// The text of an `input_text` or `output_text` block.
pub open spec fn block_text(b: Json) -> Option<Seq<char>> {
    if text_member(b, "type"@) == Some("input_text"@) || text_member(b, "type"@) == Some("output_text"@) {
        text_member(b, "text"@)
    } else {
        None
    }
}

/// The texts of the text blocks, in order.
pub open spec fn block_texts(bs: Seq<Json>) -> Seq<Seq<char>>
    decreases bs.len(),
{
    if bs.len() == 0 {
        Seq::empty()
    } else {
        let rest = block_texts(bs.drop_last());
        match block_text(bs.last()) {
            Some(t) => rest.push(t),
            None => rest,
        }
    }
}

/// A text member, or a default where it is absent.
pub open spec fn text_or(p: Json, key: Seq<char>, default: Seq<char>) -> Seq<char> {
    match text_member(p, key) {
        Some(t) => t,
        None => default,
    }
}

/// What a `response_item` payload becomes.
pub open spec fn response_fields(p: Json) -> Option<Fields> {
    match text_member(p, "type"@) {
        Some(t) => if t == "message"@ {
            Some((
                EventKind::Message,
                role_named(text_member(p, "role"@)),
                match items_of(member(p, "content"@)) {
                    Some(bs) => Some(joined(block_texts(bs))),
                    None => None,
                },
            ))
        } else if t == "function_call"@ {
            Some((
                EventKind::ToolCall,
                Some(Role::Assistant),
                Some("Called "@ + text_or(p, "name"@, "unknown"@) + " with arguments: "@ + text_or(p, "arguments"@, "{}"@)),
            ))
        } else if t == "function_call_output"@ {
            Some((EventKind::ToolResult, None, Some(text_or(p, "output"@, Seq::empty()))))
        } else if t == "reasoning"@ {
            Some((EventKind::System, Some(Role::Assistant), Some("[Reasoning content encrypted by Codex]"@)))
        } else {
            None
        },
        None => None,
    }
}

/// What an `event_msg` payload becomes.
pub open spec fn message_fields(p: Json) -> Option<Fields> {
    match text_member(p, "type"@) {
        Some(t) => if t == "user_message"@ {
            Some((EventKind::Message, Some(Role::User), text_member(p, "message"@)))
        } else if t == "agent_reasoning"@ {
            Some((
                EventKind::System,
                Some(Role::Assistant),
                match text_member(p, "message"@) {
                    Some(m) => Some("[Thinking] "@ + m),
                    None => None,
                },
            ))
        } else {
            None
        },
        None => None,
    }
}

/// The instant of a rollout event: its `timestamp` in any of the three
/// encodings, else `now`.
pub open spec fn line_instant(v: Json, now: i64) -> i64 {
    json_instant(member(v, "timestamp"@), now)
}

/// The event that a rollout event becomes, as `event_view` shows it.
pub open spec fn line_event(v: Json, now: i64) -> Option<(EventKind, Option<Role>, Option<Seq<char>>, i64)> {
    if !is_event_line(v) {
        None
    } else {
        let t = text_member(v, "type"@).unwrap();
        let p = member(v, "payload"@).unwrap();
        let f = if t == "response_item"@ {
            response_fields(p)
        } else if t == "event_msg"@ {
            message_fields(p)
        } else {
            None
        };
        match f {
            Some(x) => Some((x.0, x.1, x.2, line_instant(v, now))),
            None => None,
        }
    }
}

/// The events of the lines of a rollout file, in order.
pub open spec fn line_events(ls: Seq<Seq<char>>, now: i64) -> Seq<(EventKind, Option<Role>, Option<Seq<char>>, i64)>
    decreases ls.len(),
{
    if ls.len() == 0 {
        Seq::empty()
    } else {
        let rest = line_events(ls.drop_last(), now);
        match json_of_text(ls.last()) {
            Some(v) => match line_event(v, now) {
                Some(e) => rest.push(e),
                None => rest,
            },
            None => rest,
        }
    }
}

/// The project that session metadata names: `<repository>/<branch>` where it
/// gives a repository url, the branch defaulting to `main`; else its `cwd`.
pub open spec fn meta_project(p: Json) -> Option<Seq<char>> {
    match text_member_of(member(p, "git"@), "repository_url"@) {
        Some(url) => Some(
            last_segment(url, '/') + "/"@ + match text_member_of(member(p, "git"@), "branch"@) {
                Some(b) => b,
                None => "main"@,
            },
        ),
        None => text_member(p, "cwd"@),
    }
}

/// Session metadata: a `session_meta` event whose payload has an `id`.
pub open spec fn meta_payload(v: Json) -> Option<Json> {
    if is_event_line(v) && text_member(v, "type"@) == Some("session_meta"@)
        && text_member(member(v, "payload"@).unwrap(), "id"@) is Some {
        member(v, "payload"@)
    } else {
        None
    }
}

/// The project of a rollout file: that of its last session metadata.
pub open spec fn line_project(ls: Seq<Seq<char>>) -> Option<Seq<char>>
    decreases ls.len(),
{
    if ls.len() == 0 {
        None
    } else {
        match json_of_text(ls.last()) {
            Some(v) => match meta_payload(v) {
                Some(p) => meta_project(p),
                None => line_project(ls.drop_last()),
            },
            None => line_project(ls.drop_last()),
        }
    }
}

/// The instant of a rollout event's `timestamp`, where it is readable.
pub open spec fn line_stamp(l: Seq<char>) -> Option<i64> {
    match json_of_text(l) {
        Some(v) => if is_event_line(v) {
            json_stamp(member(v, "timestamp"@))
        } else {
            None
        },
        None => None,
    }
}

/// The earliest instant that the lines carry.
pub open spec fn earliest(ls: Seq<Seq<char>>) -> Option<i64>
    decreases ls.len(),
{
    if ls.len() == 0 {
        None
    } else {
        let rest = earliest(ls.drop_last());
        match line_stamp(ls.last()) {
            Some(t) => match rest {
                Some(e) => Some(if t < e { t } else { e }),
                None => Some(t),
            },
            None => rest,
        }
    }
}

/// The latest instant that the lines carry.
pub open spec fn latest(ls: Seq<Seq<char>>) -> Option<i64>
    decreases ls.len(),
{
    if ls.len() == 0 {
        None
    } else {
        let rest = latest(ls.drop_last());
        match line_stamp(ls.last()) {
            Some(t) => match rest {
                Some(e) => Some(if t > e { t } else { e }),
                None => Some(t),
            },
            None => rest,
        }
    }
}

/// A text member, or a default where it is absent.
fn text_or_default(p: &Json, key: &str, default: &str) -> (r: String)
    ensures
        r@ == text_or(*p, key@, default@),
{
    match p.text_member(key) {
        Some(t) => t,
        None => to_owned_text(default),
    }
}

/// Kind, role and text of a `response_item` payload.
pub fn parse_response_item(p: &Json) -> (r: Option<(EventKind, Option<Role>, Option<String>)>)
    ensures
        match response_fields(*p) {
            Some(f) => r matches Some(x) && x.0 == f.0 && x.1 == f.1 && opt_view(x.2) == f.2,
            None => r is None,
        },
{
    let ty = match p.text_member("type") {
        Some(t) => t,
        None => {
            return None;
        },
    };
    let t = ty.as_str();
    if same_text(t, "message") {
        let role = match p.text_member("role") {
            Some(x) => Role::from_exact(x.as_str()),
            None => None,
        };
        let blocks = match p.get("content") {
            Some(c) => c.as_array(),
            None => None,
        };
        let content = match blocks {
            Some(bs) => {
                let mut parts: Vec<String> = Vec::new();
                let mut i: usize = 0;
                while i < bs.len()
                    invariant
                        i <= bs.len(),
                        text_views(parts@) == block_texts(bs@.subrange(0, i as int)),
                    decreases bs.len() - i,
                {
                    let ghost next = bs@.subrange(0, i + 1);
                    assert(next.drop_last() == bs@.subrange(0, i as int));
                    let kind = bs[i].text_member("type");
                    if text_is(&kind, "input_text") || text_is(&kind, "output_text") {
                        match bs[i].text_member("text") {
                            Some(x) => {
                                parts.push(x);
                            },
                            None => {},
                        }
                    }
                    assert(text_views(parts@) =~= block_texts(next));
                    i = i + 1;
                }
                assert(bs@.subrange(0, bs.len() as int) == bs@);
                Some(join_lines(&parts))
            },
            None => None,
        };
        Some((EventKind::Message, role, content))
    } else if same_text(t, "function_call") {
        let name = text_or_default(p, "name", "unknown");
        let arguments = text_or_default(p, "arguments", "{}");
        let content = to_owned_text("Called ").concat(name.as_str()).concat(" with arguments: ").concat(arguments.as_str());
        Some((EventKind::ToolCall, Some(Role::Assistant), Some(content)))
    } else if same_text(t, "function_call_output") {
        let output = text_or_default(p, "output", "");
        proof {
            reveal_strlit("");
        }
        Some((EventKind::ToolResult, None, Some(output)))
    } else if same_text(t, "reasoning") {
        Some((EventKind::System, Some(Role::Assistant), Some(to_owned_text("[Reasoning content encrypted by Codex]"))))
    } else {
        None
    }
}

/// Kind, role and text of an `event_msg` payload.
pub fn parse_event_msg(p: &Json) -> (r: Option<(EventKind, Option<Role>, Option<String>)>)
    ensures
        match message_fields(*p) {
            Some(f) => r matches Some(x) && x.0 == f.0 && x.1 == f.1 && opt_view(x.2) == f.2,
            None => r is None,
        },
{
    let ty = match p.text_member("type") {
        Some(t) => t,
        None => {
            return None;
        },
    };
    let t = ty.as_str();
    if same_text(t, "user_message") {
        Some((EventKind::Message, Some(Role::User), p.text_member("message")))
    } else if same_text(t, "agent_reasoning") {
        let content = match p.text_member("message") {
            Some(m) => Some(to_owned_text("[Thinking] ").concat(m.as_str())),
            None => None,
        };
        Some((EventKind::System, Some(Role::Assistant), content))
    } else {
        None
    }
}

/// The project that a session metadata payload names.
pub fn project_of_meta(p: &Json) -> (r: Option<String>)
    ensures
        opt_view(r) == meta_project(*p),
{
    let url = match p.get("git") {
        Some(g) => g.text_member("repository_url"),
        None => None,
    };
    match url {
        Some(u) => {
            let branch = match p.get("git") {
                Some(g) => g.text_member("branch"),
                None => None,
            };
            let b = match branch {
                Some(b) => b,
                None => to_owned_text("main"),
            };
            Some(last_segment_of(u.as_str(), '/').concat("/").concat(b.as_str()))
        },
        None => p.text_member("cwd"),
    }
}

/// The event of a rollout event, with the payload as its raw payload.
pub fn parse_line_event(v: Json, now: i64) -> (r: Option<Event>)
    ensures
        match line_event(v, now) {
            Some(ev) => r matches Some(e) && event_view(e) == ev && e.raw_payload == v
                && e.session_id@ == NIL_ID@,
            None => r is None,
        },
{
    if v.get("timestamp").is_none() {
        return None;
    }
    let ty = match v.text_member("type") {
        Some(t) => t,
        None => {
            return None;
        },
    };
    let fields = match v.get("payload") {
        Some(p) => if same_text(ty.as_str(), "response_item") {
            parse_response_item(p)
        } else if same_text(ty.as_str(), "event_msg") {
            parse_event_msg(p)
        } else {
            None
        },
        None => {
            return None;
        },
    };
    match fields {
        Some((kind, role, content)) => {
            let timestamp = json_to_instant(v.get("timestamp"), now);
            Some(Event { id: new_id(), session_id: nil_id(), kind, role, content, timestamp, raw_payload: v })
        },
        None => None,
    }
}

/// Statistics of a rollout file.
pub struct SessionStats {
    pub total_lines: usize,
    pub user_messages: usize,
    pub assistant_messages: usize,
    pub system_messages: usize,
    pub tool_calls: usize,
    pub git_branches: Vec<String>,
    pub working_directories: Vec<String>,
}

/// User, assistant, system and tool-call counts.
pub type Counts = (nat, nat, nat, nat);

/// What one rollout event adds to the counts.
pub open spec fn event_counts(v: Json) -> Counts {
    if !is_event_line(v) {
        (0, 0, 0, 0)
    } else {
        let t = text_member(v, "type"@).unwrap();
        let p = member(v, "payload"@).unwrap();
        let it = text_member(p, "type"@);
        if t == "response_item"@ {
            if it == Some("message"@) {
                let role = text_member(p, "role"@);
                if role == Some("user"@) {
                    (1, 0, 0, 0)
                } else if role == Some("assistant"@) {
                    (0, 1, 0, 0)
                } else if role == Some("system"@) {
                    (0, 0, 1, 0)
                } else {
                    (0, 0, 0, 0)
                }
            } else if it == Some("function_call"@) {
                (0, 0, 0, 1)
            } else {
                (0, 0, 0, 0)
            }
        } else if t == "event_msg"@ {
            if it == Some("user_message"@) {
                (1, 0, 0, 0)
            } else if it == Some("agent_reasoning"@) {
                (0, 0, 1, 0)
            } else {
                (0, 0, 0, 0)
            }
        } else {
            (0, 0, 0, 0)
        }
    }
}

/// The counts of the rollout events among the lines.
pub open spec fn line_counts(ls: Seq<Seq<char>>) -> Counts
    decreases ls.len(),
{
    if ls.len() == 0 {
        (0, 0, 0, 0)
    } else {
        let r = line_counts(ls.drop_last());
        match json_of_text(ls.last()) {
            Some(v) => {
                let c = event_counts(v);
                (r.0 + c.0, r.1 + c.1, r.2 + c.2, r.3 + c.3)
            },
            None => r,
        }
    }
}

/// The working directory that a rollout event names: that of a turn
/// context, or of session metadata.
pub open spec fn event_dir(v: Json) -> Option<Seq<char>> {
    if is_event_line(v) && text_member(v, "type"@) == Some("turn_context"@) {
        text_member(member(v, "payload"@).unwrap(), "cwd"@)
    } else {
        match meta_payload(v) {
            Some(p) => text_member(p, "cwd"@),
            None => None,
        }
    }
}

/// The branch that session metadata names.
pub open spec fn event_branch(v: Json) -> Option<Seq<char>> {
    match meta_payload(v) {
        Some(p) => text_member_of(member(p, "git"@), "branch"@),
        None => None,
    }
}

/// The working directories named by the lines.
pub open spec fn line_dirs(ls: Seq<Seq<char>>) -> Set<Seq<char>>
    decreases ls.len(),
{
    if ls.len() == 0 {
        Set::empty()
    } else {
        let r = line_dirs(ls.drop_last());
        match json_of_text(ls.last()) {
            Some(v) => match event_dir(v) {
                Some(d) => r.insert(d),
                None => r,
            },
            None => r,
        }
    }
}

/// The branches named by the lines.
pub open spec fn line_branches(ls: Seq<Seq<char>>) -> Set<Seq<char>>
    decreases ls.len(),
{
    if ls.len() == 0 {
        Set::empty()
    } else {
        let r = line_branches(ls.drop_last());
        match json_of_text(ls.last()) {
            Some(v) => match event_branch(v) {
                Some(b) => r.insert(b),
                None => r,
            },
            None => r,
        }
    }
}

impl CodexAdapter {
    /// Statistics of the lines of a rollout file: messages by role, tool
    /// calls, and the distinct branches and working directories named.
    pub fn session_stats(&self, lines: &Vec<String>) -> (r: SessionStats)
        ensures
            r.total_lines == lines@.len(),
            r.user_messages == line_counts(text_views(lines@)).0,
            r.assistant_messages == line_counts(text_views(lines@)).1,
            r.system_messages == line_counts(text_views(lines@)).2,
            r.tool_calls == line_counts(text_views(lines@)).3,
            distinct_texts(r.git_branches@),
            text_set(r.git_branches@) == line_branches(text_views(lines@)),
            distinct_texts(r.working_directories@),
            text_set(r.working_directories@) == line_dirs(text_views(lines@)),
    {
        let ghost lv = text_views(lines@);
        let mut st = SessionStats {
            total_lines: lines.len(),
            user_messages: 0,
            assistant_messages: 0,
            system_messages: 0,
            tool_calls: 0,
            git_branches: Vec::new(),
            working_directories: Vec::new(),
        };
        proof {
            assert(text_set(st.git_branches@) =~= Set::<Seq<char>>::empty());
            assert(text_set(st.working_directories@) =~= Set::<Seq<char>>::empty());
        }
        let mut i: usize = 0;
        while i < lines.len()
            invariant
                i <= lines.len(),
                lv == text_views(lines@),
                st.total_lines == lines@.len(),
                st.user_messages + st.assistant_messages + st.system_messages + st.tool_calls <= i,
                st.user_messages == line_counts(lv.subrange(0, i as int)).0,
                st.assistant_messages == line_counts(lv.subrange(0, i as int)).1,
                st.system_messages == line_counts(lv.subrange(0, i as int)).2,
                st.tool_calls == line_counts(lv.subrange(0, i as int)).3,
                distinct_texts(st.git_branches@),
                text_set(st.git_branches@) == line_branches(lv.subrange(0, i as int)),
                distinct_texts(st.working_directories@),
                text_set(st.working_directories@) == line_dirs(lv.subrange(0, i as int)),
            decreases lines.len() - i,
        {
            let ghost next = lv.subrange(0, i + 1);
            assert(next.drop_last() == lv.subrange(0, i as int));
            assert(next.last() == lines@[i as int]@);
            match parse_json(lines[i].as_str()) {
                Some(v) => {
                    let complete = v.get("timestamp").is_some() && v.get("payload").is_some();
                    let t = v.text_member("type");
                    if complete && t.is_some() {
                        match v.get("payload") {
                            Some(p) => {
                                let it = p.text_member("type");
                                if text_is(&t, "response_item") {
                                    if text_is(&it, "message") {
                                        let role = p.text_member("role");
                                        if text_is(&role, "user") {
                                            st.user_messages = st.user_messages + 1;
                                        } else if text_is(&role, "assistant") {
                                            st.assistant_messages = st.assistant_messages + 1;
                                        } else if text_is(&role, "system") {
                                            st.system_messages = st.system_messages + 1;
                                        }
                                    } else if text_is(&it, "function_call") {
                                        st.tool_calls = st.tool_calls + 1;
                                    }
                                } else if text_is(&t, "event_msg") {
                                    if text_is(&it, "user_message") {
                                        st.user_messages = st.user_messages + 1;
                                    } else if text_is(&it, "agent_reasoning") {
                                        st.system_messages = st.system_messages + 1;
                                    }
                                } else if text_is(&t, "turn_context") {
                                    insert_distinct_opt(&mut st.working_directories, p.text_member("cwd"));
                                } else if text_is(&t, "session_meta") && p.text_member("id").is_some() {
                                    insert_distinct_opt(&mut st.working_directories, p.text_member("cwd"));
                                    let branch = match p.get("git") {
                                        Some(g) => g.text_member("branch"),
                                        None => None,
                                    };
                                    insert_distinct_opt(&mut st.git_branches, branch);
                                }
                            },
                            None => {},
                        }
                    }
                    proof {
                        reveal_strlit("turn_context");
                        reveal_strlit("session_meta");
                        reveal_strlit("response_item");
                        reveal_strlit("event_msg");
                        assert("turn_context"@.len() == 12);
                        assert("turn_context"@[0] != "session_meta"@[0]);
                        assert("response_item"@.len() == 13);
                        assert("event_msg"@.len() == 9);
                    }
                },
                None => {},
            }
            i = i + 1;
        }
        assert(lv.subrange(0, lines.len() as int) == lv);
        st
    }
}

impl CodexAdapter {
    /// The sessions directory, as text.
    pub closed spec fn dir(&self) -> Seq<char> {
        self.sessions_dir@
    }

    /// An adapter rooted at `codex_home` where it is given (the `CODEX_HOME`
    /// setting), else at `~/.codex/sessions`, else at `.codex/sessions`.
    pub fn with_codex_home(codex_home: Option<String>) -> (r: CodexAdapter)
        ensures
            codex_home matches Some(h) ==> r.dir() == h@,
    {
        let sessions_dir = match codex_home {
            Some(h) => h,
            None => match home_dir() {
                Some(h) => {
                    let base = join_path(h.as_str(), ".codex");
                    join_path(base.as_str(), "sessions")
                },
                None => to_owned_text(".codex/sessions"),
            },
        };
        CodexAdapter { sessions_dir }
    }

    /// An adapter rooted at the given sessions directory.
    pub fn with_sessions_dir(sessions_dir: String) -> (r: CodexAdapter)
        ensures
            r.dir() == sessions_dir@,
    {
        CodexAdapter { sessions_dir }
    }

    /// The sessions directory.
    pub fn sessions_dir(&self) -> (r: &String)
        ensures
            r@ == self.dir(),
    {
        &self.sessions_dir
    }

    /// The session and events of a file, where some line of it is JSON; a
    /// file of which no line is, is malformed and gives none.
    pub fn parse_session_file(&self, file: &CodexSessionFile, lines: &Vec<String>, now: i64) -> (r: Option<(Session, Vec<Event>)>)
        ensures
            r is None <==> !has_json_line(text_views(lines@)),
            r matches Some(x) ==> x.0.source == Source::Codex && x.0.external_id@ == file.session_id@
                && x.0.wf() && x.1@.map_values(|e: Event| event_view(e)) == line_events(text_views(lines@), now)
                && forall|i: int| 0 <= i < x.1@.len() ==> (#[trigger] x.1@[i]).session_id == x.0.id,
    {
        if any_json_line(lines) {
            Some(self.parse_session_lines(file, lines, now))
        } else {
            None
        }
    }

    /// The session and events of the lines of a rollout file. `now` stands for
    /// the instants that the file does not give.
    pub fn parse_session_lines(&self, file: &CodexSessionFile, lines: &Vec<String>, now: i64) -> (r: (Session, Vec<Event>))
        ensures
            r.0.source == Source::Codex,
            r.0.external_id@ == file.session_id@,
            opt_view(r.0.project) == line_project(text_views(lines@)),
            r.0.title is None,
            r.0.created_at == (match earliest(text_views(lines@)) {
                Some(t) => t,
                None => now,
            }),
            r.0.updated_at == (match latest(text_views(lines@)) {
                Some(t) => t,
                None => r.0.created_at,
            }),
            r.0.wf(),
            r.1@.map_values(|e: Event| event_view(e)) == line_events(text_views(lines@), now),
            forall|i: int| 0 <= i < r.1@.len() ==> (#[trigger] r.1@[i]).session_id == r.0.id,
    {
        let ghost lv = text_views(lines@);
        let sid = new_id();
        let mut events: Vec<Event> = Vec::new();
        let mut project: Option<String> = None;
        let mut first: Option<i64> = None;
        let mut last: Option<i64> = None;
        let mut i: usize = 0;
        while i < lines.len()
            invariant
                i <= lines.len(),
                lv == text_views(lines@),
                events@.map_values(|e: Event| event_view(e)) == line_events(lv.subrange(0, i as int), now),
                forall|k: int| 0 <= k < events@.len() ==> (#[trigger] events@[k]).session_id == sid,
                opt_view(project) == line_project(lv.subrange(0, i as int)),
                first == earliest(lv.subrange(0, i as int)),
                last == latest(lv.subrange(0, i as int)),
                first is Some <==> last is Some,
                first is Some ==> first.unwrap() <= last.unwrap(),
            decreases lines.len() - i,
        {
            let ghost pre = lv.subrange(0, i as int);
            let ghost next = lv.subrange(0, i + 1);
            assert(next.drop_last() == pre);
            assert(next.last() == lines@[i as int]@);
            match parse_json(lines[i].as_str()) {
                Some(v) => {
                    let complete = v.get("timestamp").is_some() && v.get("payload").is_some();
                    let ty = v.text_member("type");
                    if complete && ty.is_some() {
                        let stamp = json_to_stamp(v.get("timestamp"));
                        match stamp {
                            Some(t) => {
                                first = match first {
                                    Some(e) => Some(if t < e { t } else { e }),
                                    None => Some(t),
                                };
                                last = match last {
                                    Some(e) => Some(if t > e { t } else { e }),
                                    None => Some(t),
                                };
                            },
                            None => {},
                        }
                        if text_is(&ty, "session_meta") {
                            match v.get("payload") {
                                Some(p) => if p.text_member("id").is_some() {
                                    project = project_of_meta(p);
                                },
                                None => {},
                            }
                        }
                    }
                    match parse_line_event(v, now) {
                        Some(e) => {
                            events.push(with_session(e, &sid));
                        },
                        None => {},
                    }
                },
                None => {},
            }
            proof {
                reveal_strlit("session_meta");
                reveal_strlit("response_item");
                reveal_strlit("event_msg");
                assert("session_meta"@.len() == 12);
                assert("response_item"@.len() == 13);
                assert("event_msg"@.len() == 9);
                assert(events@.map_values(|e: Event| event_view(e)) == line_events(next, now));
            }
            i = i + 1;
        }
        assert(lv.subrange(0, lines.len() as int) == lv);
        let created_at = match first {
            Some(t) => t,
            None => now,
        };
        let updated_at = match last {
            Some(t) => t,
            None => created_at,
        };
        let mut payload: Vec<(String, Json)> = Vec::new();
        payload.push((to_owned_text("source"), str_value("codex")));
        payload.push((to_owned_text("session_id"), str_value(file.session_id.as_str())));
        payload.push((to_owned_text("date"), str_value(file.date.as_str())));
        payload.push((to_owned_text("file_path"), str_value(file.path.as_str())));
        payload.push((to_owned_text("line_count"), int_value(lines.len() as i64)));
        let session = Session {
            id: sid,
            source: Source::Codex,
            external_id: file.session_id.clone(),
            project,
            title: None,
            created_at,
            updated_at,
            raw_payload: Json::Object(payload),
        };
        (session, events)
    }
}

} // verus!
