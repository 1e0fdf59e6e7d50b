//! The OpenCode adapter: a storage tree of one JSON file per session, per
//! message and per message part.

use vstd::prelude::*;
use crate::ids::new_id;
use crate::json::{
    Json, member, member_of, text_member, text_member_of, int_of, opt_view, text_of_json, json_text,
    text_is,
};
use crate::model::{Event, EventKind, Role, Session, Source, event_view};
use crate::text::{
    joined_by, join_with, to_owned_text, text_views, path_exists, text_lt, text_less,
    lemma_text_lt_transitive, lemma_text_lt_asymmetric,
};
use crate::timestamp::{millis_seconds, millis_to_instant, representable};
use crate::paths::{home_dir, join_path};

verus! {

/// The adapter, reading the storage tree and the credentials file.
pub struct OpenCodeAdapter {
    pub(crate) storage_path: String,
    pub(crate) auth_path: String,
}

/// The integer member `key` of the `time` object.
pub open spec fn time_of(v: Json, key: Seq<char>) -> Option<i64> {
    int_of(member_of(member(v, "time"@), key))
}

/// A message file that has what a message needs: ids, role and creation time.
pub open spec fn is_message(m: Json) -> bool {
    text_member(m, "id"@) is Some && text_member(m, "sessionID"@) is Some
        && text_member(m, "role"@) is Some && time_of(m, "created"@) is Some
}

/// A part's `state`, where it has one that is not null.
pub open spec fn state_of(p: Json) -> Option<Json> {
    match member(p, "state"@) {
        Some(Json::Null) => None,
        Some(s) => Some(s),
        None => None,
    }
}

/// A text member, or the empty text where it is absent.
pub open spec fn text_or_empty(v: Json, key: Seq<char>) -> Seq<char> {
    match text_member(v, key) {
        Some(t) => t,
        None => Seq::empty(),
    }
}

/// The line that a part contributes to its message's text.
pub open spec fn part_line(p: Json) -> Option<Seq<char>> {
    let t = text_member(p, "type"@);
    if t == Some("text"@) {
        text_member(p, "text"@)
    } else if t == Some("file"@) {
        match text_member(p, "filename"@) {
            Some(f) => Some("[\u{1F4CE} "@ + f + "]"@),
            None => None,
        }
    } else if t == Some("tool"@) {
        match text_member(p, "tool"@) {
            Some(tool) => match state_of(p) {
                Some(st) => Some("\u{1F527} "@ + tool + " (status: "@ + text_or_empty(st, "status"@) + ")"@),
                None => Some("\u{1F527} "@ + tool),
            },
            None => None,
        }
    } else {
        None
    }
}

/// The lines of the parts, in order.
pub open spec fn part_lines(ps: Seq<Json>) -> Seq<Seq<char>>
    decreases ps.len(),
{
    if ps.len() == 0 {
        Seq::empty()
    } else {
        let rest = part_lines(ps.drop_last());
        match part_line(ps.last()) {
            Some(l) => rest.push(l),
            None => rest,
        }
    }
}

/// The text of a message: its part lines separated by blank lines, or the
/// title of its summary where no part gives a line.
pub open spec fn message_text(ps: Seq<Json>, m: Json) -> Seq<char> {
    let lines = part_lines(ps);
    let title = text_member_of(member(m, "summary"@), "title"@);
    if lines.len() == 0 && title is Some && title.unwrap().len() > 0 {
        title.unwrap()
    } else {
        joined_by(lines, "\n\n"@)
    }
}

/// The text of a tool part's event: the JSON object of its tool, status,
/// input, output and metadata, keys in order.
pub open spec fn tool_state_text(p: Json, st: Json) -> Seq<char> {
    let or_null = |x: Option<Json>| match x {
        Some(v) => text_of_json(v),
        None => "null"@,
    };
    "{\"input\":"@ + or_null(member(st, "input"@)) + ",\"metadata\":"@ + or_null(member(st, "metadata"@))
        + ",\"output\":"@ + or_null(member(st, "output"@)) + ",\"status\":"@
        + status_text(st) + ",\"tool\":"@ + or_null(member(p, "tool"@))
        + "}"@
}

/// The JSON text of a state's status; an absent status is the empty string.
pub open spec fn status_text(st: Json) -> Seq<char> {
    match member(st, "status"@) {
        Some(Json::Str(s)) => text_of_json(Json::Str(s)),
        _ => "\"\""@,
    }
}

/// The instant of a count of milliseconds, or `fallback` where it is out of range.
pub open spec fn millis_instant(ms: i64, fallback: i64) -> i64 {
    if representable(millis_seconds(ms)) {
        millis_seconds(ms)
    } else {
        fallback
    }
}

/// The line that a part contributes, where it contributes one.
pub fn format_part(p: &Json) -> (r: Option<String>)
    ensures
        opt_view(r) == part_line(*p),
{
    let t = p.text_member("type");
    if text_is(&t, "text") {
        p.text_member("text")
    } else if text_is(&t, "file") {
        match p.text_member("filename") {
            Some(f) => Some(to_owned_text("[\u{1F4CE} ").concat(f.as_str()).concat("]")),
            None => None,
        }
    } else if text_is(&t, "tool") {
        match p.text_member("tool") {
            Some(tool) => {
                let state = match p.get("state") {
                    Some(s) => match s {
                        Json::Null => None,
                        _ => Some(s),
                    },
                    None => None,
                };
                match state {
                    Some(st) => {
                        let status = match st.text_member("status") {
                            Some(x) => x,
                            None => String::new(),
                        };
                        Some(
                            to_owned_text("\u{1F527} ").concat(tool.as_str()).concat(" (status: ").concat(
                                status.as_str(),
                            ).concat(")"),
                        )
                    },
                    None => Some(to_owned_text("\u{1F527} ").concat(tool.as_str())),
                }
            },
            None => None,
        }
    } else {
        None
    }
}

/// The text of a message from its parts, in the order given.
pub fn format_message_content(parts: &Vec<Json>, message: &Json) -> (r: String)
    ensures
        r@ == message_text(parts@, *message),
{
    let mut lines: Vec<String> = Vec::new();
    let mut i: usize = 0;
    while i < parts.len()
        invariant
            i <= parts.len(),
            text_views(lines@) == part_lines(parts@.subrange(0, i as int)),
        decreases parts.len() - i,
    {
        let ghost next = parts@.subrange(0, i + 1);
        assert(next.drop_last() == parts@.subrange(0, i as int));
        match format_part(&parts[i]) {
            Some(l) => {
                lines.push(l);
            },
            None => {},
        }
        assert(text_views(lines@) =~= part_lines(next));
        i = i + 1;
    }
    assert(parts@.subrange(0, parts.len() as int) == parts@);
    if lines.len() == 0 {
        let title = match message.get("summary") {
            Some(s) => s.text_member("title"),
            None => None,
        };
        match title {
            Some(t) => if t.as_str().unicode_len() > 0 {
                return t;
            },
            None => {},
        }
    }
    join_with(&lines, "\n\n")
}

/// The JSON text of a member, or `null`.
fn member_text(v: &Json, key: &str) -> (r: String)
    ensures
        r@ == (match member(*v, key@) {
            Some(x) => text_of_json(x),
            None => "null"@,
        }),
{
    match v.get(key) {
        Some(x) => json_text(x),
        None => to_owned_text("null"),
    }
}

/// The event of a tool part at the instant of its message.
pub fn tool_part_event(part: Json, session_id: &String, timestamp: i64) -> (r: Event)
    ensures
        r.kind == EventKind::ToolCall,
        r.role == Some(Role::Assistant),
        r.timestamp == timestamp,
        r.session_id == *session_id,
        r.raw_payload == part,
        opt_view(r.content) == (match state_of(part) {
            Some(st) => Some(tool_state_text(part, st)),
            None => text_member(part, "tool"@),
        }),
{
    let state = match part.get("state") {
        Some(s) => match s {
            Json::Null => None,
            _ => Some(s),
        },
        None => None,
    };
    let content = match state {
        Some(st) => {
            let status = match st.get("status") {
                Some(Json::Str(x)) => json_text(&Json::Str(x.clone())),
                _ => to_owned_text("\"\""),
            };
            Some(
                to_owned_text("{\"input\":").concat(member_text(st, "input").as_str()).concat(",\"metadata\":").concat(
                    member_text(st, "metadata").as_str(),
                ).concat(",\"output\":").concat(member_text(st, "output").as_str()).concat(",\"status\":").concat(
                    status.as_str(),
                ).concat(",\"tool\":").concat(member_text(&part, "tool").as_str()).concat("}"),
            )
        },
        None => part.text_member("tool"),
    };
    Event {
        id: new_id(),
        session_id: session_id.clone(),
        kind: EventKind::ToolCall,
        role: Some(Role::Assistant),
        content,
        timestamp,
        raw_payload: part,
    }
}

/// A credential entry of a known kind: an API key, or an OAuth grant.
pub open spec fn valid_provider(v: Json) -> bool {
    let t = text_member(v, "type"@);
    (t == Some("api"@) && text_member(v, "key"@) is Some) || t == Some("oauth"@)
}

/// The keys of object members, in order.
pub open spec fn entry_keys(es: Seq<(String, Json)>) -> Seq<Seq<char>> {
    es.map_values(|e: (String, Json)| e.0@)
}

/// The providers that a credentials file names: the keys of its object where
/// every entry is a credential of a known kind, else none.
pub open spec fn auth_providers(auth: Json) -> Seq<Seq<char>> {
    match auth {
        Json::Object(es) => if forall|i: int| 0 <= i < es@.len() ==> valid_provider(#[trigger] es@[i].1) {
            entry_keys(es@)
        } else {
            Seq::empty()
        },
        _ => Seq::empty(),
    }
}

/// The providers of a credentials file.
pub fn providers_in_auth(auth: &Json) -> (r: Vec<String>)
    ensures
        text_views(r@) == auth_providers(*auth),
{
    match auth {
        Json::Object(es) => {
            let mut out: Vec<String> = Vec::new();
            let mut i: usize = 0;
            while i < es.len()
                invariant
                    i <= es.len(),
                    *auth == Json::Object(*es),
                    forall|k: int| 0 <= k < i ==> valid_provider(#[trigger] es@[k].1),
                    out@.len() == i,
                    text_views(out@) == entry_keys(es@.subrange(0, i as int)),
                decreases es.len() - i,
            {
                let v = &es[i].1;
                let t = v.text_member("type");
                let ok = (text_is(&t, "api") && v.text_member("key").is_some()) || text_is(&t, "oauth");
                if !ok {
                    assert(!valid_provider(es@[i as int].1));
                    return Vec::new();
                }
                let ghost prev = out@;
                let key = es[i].0.clone();
                out.push(key);
                assert(out@ == prev.push(key));
                assert forall|k: int| 0 <= k < i + 1 implies #[trigger] text_views(out@)[k] == entry_keys(es@.subrange(0, i + 1))[k] by {
                    if k < i {
                        assert(text_views(prev)[k] == entry_keys(es@.subrange(0, i as int))[k]);
                        assert(out@[k] == prev[k]);
                    } else {
                        assert(out@[k] == key);
                    }
                }
                assert(text_views(out@) =~= entry_keys(es@.subrange(0, i + 1)));
                i = i + 1;
            }
            assert(es@.subrange(0, es.len() as int) == es@);
            out
        },
        _ => Vec::new(),
    }
}

impl OpenCodeAdapter {
    /// The storage directory, as text.
    pub closed spec fn storage(&self) -> Seq<char> {
        self.storage_path@
    }

    /// The credentials file, as text.
    pub closed spec fn auth(&self) -> Seq<char> {
        self.auth_path@
    }

    /// An adapter reading `~/.local/share/opencode`.
    pub fn new() -> (r: OpenCodeAdapter) {
        let (storage_path, auth_path) = match home_dir() {
            Some(h) => (
                join_path(h.as_str(), ".local/share/opencode/storage"),
                join_path(h.as_str(), ".local/share/opencode/auth.json"),
            ),
            None => (
                to_owned_text("~/.local/share/opencode/storage"),
                to_owned_text("~/.local/share/opencode/auth.json"),
            ),
        };
        OpenCodeAdapter { storage_path, auth_path }
    }

    /// An adapter reading the given storage tree and credentials file.
    pub fn with_paths(storage_path: String, auth_path: String) -> (r: OpenCodeAdapter)
        ensures
            r.storage() == storage_path@,
            r.auth() == auth_path@,
    {
        OpenCodeAdapter { storage_path, auth_path }
    }

    /// The storage directory.
    pub fn storage_path(&self) -> (r: &String)
        ensures
            r@ == self.storage(),
    {
        &self.storage_path
    }

    /// The credentials file.
    pub fn auth_path(&self) -> (r: &String)
        ensures
            r@ == self.auth(),
    {
        &self.auth_path
    }

    /// Whether the storage tree is on disk.
    pub fn is_available(&self) -> bool {
        path_exists(self.storage_path.as_str())
    }

    /// The session of a session file, where it has an id, a title and its
    /// creation and update times in milliseconds. An update time out of range,
    /// or before the creation time, is taken as the creation time.
    pub fn session_from_storage(&self, data: Json, now: i64) -> (r: Option<Session>)
        ensures
            match (text_member(data, "id"@), text_member(data, "title"@), time_of(data, "created"@), time_of(data, "updated"@)) {
                (Some(id), Some(title), Some(c), Some(u)) => r matches Some(s) && s.source == Source::OpenCode
                    && s.external_id@ == id && opt_view(s.title) == Some(title)
                    && opt_view(s.project) == text_member(data, "directory"@)
                    && s.created_at == millis_instant(c, now)
                    && s.updated_at == (if millis_instant(u, s.created_at) < s.created_at {
                        s.created_at
                    } else {
                        millis_instant(u, s.created_at)
                    })
                    && s.wf() && s.raw_payload == data,
                _ => r is None,
            },
    {
        let id = match data.text_member("id") {
            Some(x) => x,
            None => {
                return None;
            },
        };
        let title = match data.text_member("title") {
            Some(x) => x,
            None => {
                return None;
            },
        };
        let time = data.get("time");
        let created = match time {
            Some(t) => match t.get("created") {
                Some(c) => c.as_i64(),
                None => None,
            },
            None => None,
        };
        let updated = match time {
            Some(t) => match t.get("updated") {
                Some(u) => u.as_i64(),
                None => None,
            },
            None => None,
        };
        match (created, updated) {
            (Some(c), Some(u)) => {
                let created_at = millis_to_instant(c, now);
                let later = millis_to_instant(u, created_at);
                let updated_at = if later < created_at {
                    created_at
                } else {
                    later
                };
                Some(Session {
                    id: new_id(),
                    source: Source::OpenCode,
                    external_id: id,
                    project: data.text_member("directory"),
                    title: Some(title),
                    created_at,
                    updated_at,
                    raw_payload: data,
                })
            },
            _ => None,
        }
    }
}

/// The creation time of a message.
pub open spec fn created_of(m: Json) -> i64 {
    time_of(m, "created"@).unwrap()
}

/// A message with its parts.
pub type MessageFiles = (Json, Vec<Json>);

/// The messages that have what a message needs, in order.
pub open spec fn valid_messages(ms: Seq<MessageFiles>) -> Seq<MessageFiles>
    decreases ms.len(),
{
    if ms.len() == 0 {
        Seq::empty()
    } else if is_message(ms.last().0) {
        valid_messages(ms.drop_last()).push(ms.last())
    } else {
        valid_messages(ms.drop_last())
    }
}

/// Messages in order of creation.
pub open spec fn sorted_by_creation(ms: Seq<MessageFiles>) -> bool {
    forall|i: int, j: int| 0 <= i < j < ms.len() ==> created_of(ms[i].0) <= created_of(ms[j].0)
}

/// `m` placed after every message created no later than it.
pub open spec fn insert_message(s: Seq<MessageFiles>, m: MessageFiles) -> Seq<MessageFiles>
    decreases s.len(),
{
    if s.len() == 0 {
        seq![m]
    } else if created_of(s[0].0) <= created_of(m.0) {
        seq![s[0]] + insert_message(s.drop_first(), m)
    } else {
        seq![m] + s
    }
}

/// The messages in order of creation, those created at the same time in the
/// order given (a stable sort).
pub open spec fn stable_by_creation(s: Seq<MessageFiles>) -> Seq<MessageFiles>
    decreases s.len(),
{
    if s.len() == 0 {
        Seq::empty()
    } else {
        insert_message(stable_by_creation(s.drop_last()), s.last())
    }
}

proof fn lemma_insert_message_at(s: Seq<MessageFiles>, m: MessageFiles, pos: int)
    requires
        0 <= pos <= s.len(),
        forall|k: int| 0 <= k < pos ==> created_of(s[k].0) <= created_of(m.0),
        pos < s.len() ==> created_of(s[pos].0) > created_of(m.0),
    ensures
        insert_message(s, m) == s.insert(pos, m),
    decreases pos,
{
    if pos == 0 {
        if s.len() == 0 {
            assert(s.insert(0, m) =~= seq![m]);
        } else {
            assert(s.insert(0, m) =~= seq![m] + s);
        }
    } else {
        let t = s.drop_first();
        assert forall|k: int| 0 <= k < pos - 1 implies created_of(t[k].0) <= created_of(m.0) by {
            assert(t[k] == s[k + 1]);
        }
        if pos - 1 < t.len() {
            assert(t[pos - 1] == s[pos]);
        }
        lemma_insert_message_at(t, m, pos - 1);
        assert(seq![s[0]] + t.insert(pos - 1, m) =~= s.insert(pos, m));
    }
}

/// The messages that have what a message needs, in order of creation; those
/// created at the same time keep their order.
pub fn order_messages(messages: Vec<MessageFiles>) -> (r: Vec<MessageFiles>)
    ensures
        forall|i: int| 0 <= i < r@.len() ==> is_message((#[trigger] r@[i]).0),
        sorted_by_creation(r@),
        r@.to_multiset() == valid_messages(messages@).to_multiset(),
        r@ == stable_by_creation(valid_messages(messages@)),
{
    let ghost orig = messages@;
    let mut rest = messages;
    let total = rest.len();
    let mut out: Vec<MessageFiles> = Vec::new();
    let mut k: usize = 0;
    proof {
        assert(orig.subrange(0, 0) =~= Seq::<MessageFiles>::empty());
        assert(out@ =~= Seq::<MessageFiles>::empty());
    }
    while rest.len() > 0
        invariant
            k <= orig.len(),
            orig.len() == total,
            rest@ == orig.subrange(k as int, orig.len() as int),
            forall|i: int| 0 <= i < out@.len() ==> is_message((#[trigger] out@[i]).0),
            sorted_by_creation(out@),
            out@.to_multiset() == valid_messages(orig.subrange(0, k as int)).to_multiset(),
            out@ == stable_by_creation(valid_messages(orig.subrange(0, k as int))),
        decreases rest.len(),
    {
        assert(rest@.len() == orig.len() - k);
        let x = rest.remove(0);
        let ghost next = orig.subrange(0, k + 1);
        assert(next.drop_last() == orig.subrange(0, k as int));
        assert(next.last() == x);
        let valid = x.0.text_member("id").is_some() && x.0.text_member("sessionID").is_some()
            && x.0.text_member("role").is_some();
        let created = match x.0.get("time") {
            Some(t) => match t.get("created") {
                Some(c) => c.as_i64(),
                None => None,
            },
            None => None,
        };
        match created {
            Some(key) => if valid {
                let mut pos: usize = 0;
                while pos < out.len() && created_key(&out[pos].0) <= key
                    invariant
                        pos <= out@.len(),
                        forall|i: int| 0 <= i < out@.len() ==> is_message((#[trigger] out@[i]).0),
                        forall|i: int| 0 <= i < pos ==> created_of(out@[i].0) <= key,
                    decreases out.len() - pos,
                {
                    pos = pos + 1;
                }
                let ghost before = out@;
                proof {
                    if pos < before.len() {
                        assert forall|i: int| pos <= i < before.len() implies created_of(before[i].0) > key by {
                            if i > pos {
                                assert(created_of(before[pos as int].0) <= created_of(before[i].0));
                            }
                        }
                    }
                }
                out.insert(pos, x);
                proof {
                    let after = before.insert(pos as int, x);
                    assert(out@ == after);
                    assert forall|i: int, j: int| 0 <= i < j < after.len() implies created_of(after[i].0) <= created_of(after[j].0) by {
                        if j < pos {
                        } else if j == pos {
                        } else if i < pos {
                            assert(after[j] == before[j - 1]);
                        } else if i == pos {
                            assert(after[j] == before[j - 1]);
                        } else {
                            assert(after[i] == before[i - 1]);
                            assert(after[j] == before[j - 1]);
                        }
                    }
                    assert forall|i: int| 0 <= i < after.len() implies is_message((#[trigger] after[i]).0) by {
                        if i > pos {
                            assert(after[i] == before[i - 1]);
                        }
                    }
                    vstd::seq_lib::to_multiset_insert(before, pos as int, x);
                    vstd::seq_lib::to_multiset_build(valid_messages(orig.subrange(0, k as int)), x);
                    lemma_insert_message_at(before, x, pos as int);
                    assert(valid_messages(next) == valid_messages(orig.subrange(0, k as int)).push(x));
                    assert(valid_messages(next).drop_last() == valid_messages(orig.subrange(0, k as int)));
                }
            },
            None => {},
        }
        k = k + 1;
    }
    assert(orig.subrange(0, orig.len() as int) == orig);
    out
}

/// A part file that has ids and a type.
pub open spec fn is_part(p: Json) -> bool {
    text_member(p, "id"@) is Some && text_member(p, "sessionID"@) is Some
        && text_member(p, "messageID"@) is Some && text_member(p, "type"@) is Some
}

/// The id of a part.
pub open spec fn part_id(p: Json) -> Seq<char> {
    text_member(p, "id"@).unwrap()
}

/// The parts that have ids and a type, in order.
pub open spec fn valid_parts(ps: Seq<Json>) -> Seq<Json>
    decreases ps.len(),
{
    if ps.len() == 0 {
        Seq::empty()
    } else if is_part(ps.last()) {
        valid_parts(ps.drop_last()).push(ps.last())
    } else {
        valid_parts(ps.drop_last())
    }
}

/// Parts in order of their ids.
pub open spec fn sorted_by_id(ps: Seq<Json>) -> bool {
    forall|i: int, j: int| 0 <= i < j < ps.len() ==> !text_lt(part_id(ps[j]), part_id(ps[i]))
}

/// The parts that have ids and a type, in order of their ids.
pub fn order_parts(parts: Vec<Json>) -> (r: Vec<Json>)
    ensures
        forall|i: int| 0 <= i < r@.len() ==> is_part(#[trigger] r@[i]),
        sorted_by_id(r@),
        r@.to_multiset() == valid_parts(parts@).to_multiset(),
{
    let ghost orig = parts@;
    let mut rest = parts;
    let total = rest.len();
    let mut out: Vec<Json> = Vec::new();
    let mut k: usize = 0;
    proof {
        assert(orig.subrange(0, 0) =~= Seq::<Json>::empty());
        assert(out@ =~= Seq::<Json>::empty());
    }
    while rest.len() > 0
        invariant
            k <= orig.len(),
            orig.len() == total,
            rest@ == orig.subrange(k as int, orig.len() as int),
            forall|i: int| 0 <= i < out@.len() ==> is_part(#[trigger] out@[i]),
            sorted_by_id(out@),
            out@.to_multiset() == valid_parts(orig.subrange(0, k as int)).to_multiset(),
        decreases rest.len(),
    {
        assert(rest@.len() == orig.len() - k);
        let x = rest.remove(0);
        let ghost next = orig.subrange(0, k + 1);
        assert(next.drop_last() == orig.subrange(0, k as int));
        assert(next.last() == x);
        let valid = x.text_member("sessionID").is_some() && x.text_member("messageID").is_some()
            && x.text_member("type").is_some();
        match x.text_member("id") {
            Some(key) => if valid {
                let mut pos: usize = 0;
                while pos < out.len() && !text_less(key.as_str(), part_key(&out[pos]).as_str())
                    invariant
                        pos <= out@.len(),
                        key@ == part_id(x),
                        forall|i: int| 0 <= i < out@.len() ==> is_part(#[trigger] out@[i]),
                        forall|i: int| 0 <= i < pos ==> !text_lt(key@, part_id(#[trigger] out@[i])),
                    decreases out.len() - pos,
                {
                    pos = pos + 1;
                }
                let ghost before = out@;
                proof {
                    if pos < before.len() {
                        assert forall|i: int| pos <= i < before.len() implies !text_lt(part_id(#[trigger] before[i]), key@) by {
                            if i == pos {
                                lemma_text_lt_asymmetric(key@, part_id(before[i]));
                            }
                            if i > pos && text_lt(part_id(before[i]), key@) {
                                lemma_text_lt_transitive(part_id(before[i]), key@, part_id(before[pos as int]));
                            }
                        }
                    }
                }
                out.insert(pos, x);
                proof {
                    let after = before.insert(pos as int, x);
                    assert(out@ == after);
                    assert forall|i: int, j: int| 0 <= i < j < after.len() implies !text_lt(part_id(after[j]), part_id(after[i])) by {
                        if j < pos {
                        } else if j == pos {
                        } else if i < pos {
                            assert(after[j] == before[j - 1]);
                        } else if i == pos {
                            assert(after[j] == before[j - 1]);
                        } else {
                            assert(after[i] == before[i - 1]);
                            assert(after[j] == before[j - 1]);
                        }
                    }
                    assert forall|i: int| 0 <= i < after.len() implies is_part(#[trigger] after[i]) by {
                        if i > pos {
                            assert(after[i] == before[i - 1]);
                        }
                    }
                    vstd::seq_lib::to_multiset_insert(before, pos as int, x);
                    vstd::seq_lib::to_multiset_build(valid_parts(orig.subrange(0, k as int)), x);
                }
            },
            None => {},
        }
        k = k + 1;
    }
    assert(orig.subrange(0, orig.len() as int) == orig);
    out
}

/// The creation time of a message that has one.
fn created_key(m: &Json) -> (r: i64)
    requires
        is_message(*m),
    ensures
        r == created_of(*m),
{
    let created = match m.get("time") {
        Some(t) => match t.get("created") {
            Some(c) => c.as_i64(),
            None => None,
        },
        None => None,
    };
    match created {
        Some(c) => c,
        None => 0,
    }
}

/// The id of a part that has one.
fn part_key(p: &Json) -> (r: String)
    requires
        is_part(*p),
    ensures
        r@ == part_id(*p),
{
    match p.text_member("id") {
        Some(k) => k,
        None => String::new(),
    }
}

/// What the event of a tool part says.
pub open spec fn tool_content(p: Json) -> Option<Seq<char>> {
    match state_of(p) {
        Some(st) => Some(tool_state_text(p, st)),
        None => text_member(p, "tool"@),
    }
}

/// The events of the tool parts among `ps`, at instant `ts`.
pub open spec fn tool_views(ps: Seq<Json>, ts: i64) -> Seq<(EventKind, Option<Role>, Option<Seq<char>>, i64)>
    decreases ps.len(),
{
    if ps.len() == 0 {
        Seq::empty()
    } else if text_member(ps.last(), "type"@) == Some("tool"@) {
        tool_views(ps.drop_last(), ts).push((EventKind::ToolCall, Some(Role::Assistant), tool_content(ps.last()), ts))
    } else {
        tool_views(ps.drop_last(), ts)
    }
}

/// The event of a message: a message where it names a known role, else a
/// system event.
pub open spec fn message_view(m: Json, ps: Seq<Json>, now: i64) -> (EventKind, Option<Role>, Option<Seq<char>>, i64) {
    let role = Role::named(text_member(m, "role"@).unwrap());
    (
        if role is Some { EventKind::Message } else { EventKind::System },
        role,
        Some(message_text(ps, m)),
        millis_instant(created_of(m), now),
    )
}

/// The events of messages in the order given: each valid message's event,
/// followed by one for each of its tool parts.
pub open spec fn session_events(ms: Seq<MessageFiles>, now: i64) -> Seq<(EventKind, Option<Role>, Option<Seq<char>>, i64)>
    decreases ms.len(),
{
    if ms.len() == 0 {
        Seq::empty()
    } else {
        let rest = session_events(ms.drop_last(), now);
        let (m, ps) = ms.last();
        if is_message(m) {
            let v = message_view(m, ps@, now);
            rest.push(v) + tool_views(ps@, v.3)
        } else {
            rest
        }
    }
}

/// The events of messages in the order given, each carrying `session_id`.
pub fn parse_messages(session_id: &String, messages: Vec<MessageFiles>, now: i64) -> (r: Vec<Event>)
    ensures
        r@.map_values(|e: Event| event_view(e)) == session_events(messages@, now),
        forall|i: int| 0 <= i < r@.len() ==> (#[trigger] r@[i]).session_id == *session_id,
{
    let ghost orig = messages@;
    let mut rest = messages;
    let total = rest.len();
    let mut events: Vec<Event> = Vec::new();
    let mut k: usize = 0;
    proof {
        assert(orig.subrange(0, 0) =~= Seq::<MessageFiles>::empty());
        assert(events@.map_values(|e: Event| event_view(e)) =~= Seq::empty());
    }
    while rest.len() > 0
        invariant
            k <= orig.len(),
            orig.len() == total,
            rest@ == orig.subrange(k as int, orig.len() as int),
            events@.map_values(|e: Event| event_view(e)) == session_events(orig.subrange(0, k as int), now),
            forall|i: int| 0 <= i < events@.len() ==> (#[trigger] events@[i]).session_id == *session_id,
        decreases rest.len(),
    {
        assert(rest@.len() == orig.len() - k);
        let (m, ps) = rest.remove(0);
        let ghost next = orig.subrange(0, k + 1);
        assert(next.drop_last() == orig.subrange(0, k as int));
        assert(next.last() == (m, ps));
        let valid = m.text_member("id").is_some() && m.text_member("sessionID").is_some();
        let role_text = m.text_member("role");
        let created = match m.get("time") {
            Some(t) => match t.get("created") {
                Some(c) => c.as_i64(),
                None => None,
            },
            None => None,
        };
        match (role_text, created) {
            (Some(rt), Some(c)) => if valid {
                let timestamp = millis_to_instant(c, now);
                let role = Role::from_exact(rt.as_str());
                let kind = if role.is_some() {
                    EventKind::Message
                } else {
                    EventKind::System
                };
                let content = format_message_content(&ps, &m);
                let ghost base = events@.map_values(|e: Event| event_view(e));
                events.push(Event {
                    id: new_id(),
                    session_id: session_id.clone(),
                    kind,
                    role,
                    content: Some(content),
                    timestamp,
                    raw_payload: m,
                });
                let ghost head = base.push(message_view(next.last().0, ps@, now));
                assert(events@.map_values(|e: Event| event_view(e)) =~= head);
                let ghost porig = ps@;
                let mut prest = ps;
                let ptotal = prest.len();
                let mut j: usize = 0;
                proof {
                    assert(porig.subrange(0, 0) =~= Seq::<Json>::empty());
                    assert(head + tool_views(porig.subrange(0, 0), timestamp) =~= head);
                }
                while prest.len() > 0
                    invariant
                        j <= porig.len(),
                        porig.len() == ptotal,
                        prest@ == porig.subrange(j as int, porig.len() as int),
                        events@.map_values(|e: Event| event_view(e)) == head + tool_views(porig.subrange(0, j as int), timestamp),
                        forall|i: int| 0 <= i < events@.len() ==> (#[trigger] events@[i]).session_id == *session_id,
                    decreases prest.len(),
                {
                    assert(prest@.len() == porig.len() - j);
                    let p = prest.remove(0);
                    let ghost pnext = porig.subrange(0, j + 1);
                    assert(pnext.drop_last() == porig.subrange(0, j as int));
                    assert(pnext.last() == p);
                    let ty = p.text_member("type");
                    if text_is(&ty, "tool") {
                        let ghost prev = events@.map_values(|e: Event| event_view(e));
                        events.push(tool_part_event(p, session_id, timestamp));
                        assert(events@.map_values(|e: Event| event_view(e)) =~= prev.push(
                            (EventKind::ToolCall, Some(Role::Assistant), tool_content(pnext.last()), timestamp),
                        ));
                    }
                    assert(head + tool_views(pnext, timestamp) =~= events@.map_values(|e: Event| event_view(e)));
                    j = j + 1;
                }
                assert(porig.subrange(0, porig.len() as int) == porig);
            },
            _ => {},
        }
        k = k + 1;
    }
    assert(orig.subrange(0, orig.len() as int) == orig);
    events
}

} // verus!
