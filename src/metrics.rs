//! Session metrics, recomputed in full from a session's events and facts:
//! counts by kind and role, the time span, estimated tokens and cost, file
//! churn, and tool-call latency percentiles.

use vstd::prelude::*;
use crate::json::{opt_view, member, text_member, text_member_of};
use crate::model::{Event, EventKind, Role};
use crate::pricing::{ModelMetadata, cost_of, utf8_len};

verus! {

/// Lines added and removed in one file change.
pub struct FileChange {
    pub lines_added: u64,
    pub lines_removed: u64,
}

/// The metrics of one session.
pub struct SessionMetrics {
    pub total_events: usize,
    pub message_count: usize,
    pub tool_call_count: usize,
    pub tool_result_count: usize,
    pub error_count: usize,
    pub user_messages: usize,
    pub assistant_messages: usize,
    pub duration_seconds: Option<i128>,
    pub files_touched: usize,
    pub lines_added: u128,
    pub lines_removed: u128,
    pub input_tokens: u64,
    pub output_tokens: u64,
    pub estimated_cost: Option<u128>,
    pub total_latency_ms: u128,
    pub p50_latency_ms: Option<u64>,
    pub p95_latency_ms: Option<u64>,
}

/// Events of a kind.
pub open spec fn count_kind(es: Seq<Event>, k: EventKind) -> nat
    decreases es.len(),
{
    if es.len() == 0 {
        0
    } else {
        count_kind(es.drop_last(), k) + if es.last().kind == k { 1nat } else { 0nat }
    }
}

/// Messages with a role.
pub open spec fn count_role(es: Seq<Event>, r: Role) -> nat
    decreases es.len(),
{
    if es.len() == 0 {
        0
    } else {
        count_role(es.drop_last(), r) + if es.last().kind == EventKind::Message && es.last().role == Some(r) {
            1nat
        } else {
            0nat
        }
    }
}

/// The estimated tokens of an event's text.
pub open spec fn text_tokens(e: Event) -> nat {
    match opt_view(e.content) {
        Some(t) => (utf8_len(t) + 3) / 4,
        None => 0,
    }
}

/// Estimated tokens of the messages with a role.
pub open spec fn role_tokens(es: Seq<Event>, r: Role) -> nat
    decreases es.len(),
{
    if es.len() == 0 {
        0
    } else {
        role_tokens(es.drop_last(), r) + if es.last().kind == EventKind::Message && es.last().role == Some(r) {
            text_tokens(es.last())
        } else {
            0nat
        }
    }
}

/// The earliest and latest instants of the events.
pub open spec fn span(es: Seq<Event>) -> Option<(i64, i64)>
    decreases es.len(),
{
    if es.len() == 0 {
        None
    } else {
        let t = es.last().timestamp;
        match span(es.drop_last()) {
            Some((lo, hi)) => Some((if t < lo { t } else { lo }, if t > hi { t } else { hi })),
            None => Some((t, t)),
        }
    }
}

/// A count capped at the largest `u64`.
pub open spec fn cap64(n: nat) -> u64 {
    if n > u64::MAX { u64::MAX } else { n as u64 }
}

/// The sum of the durations.
pub open spec fn total(ds: Seq<u64>) -> nat
    decreases ds.len(),
{
    if ds.len() == 0 {
        0
    } else {
        total(ds.drop_last()) + ds.last() as nat
    }
}

/// Lines added, or removed, over the changes.
pub open spec fn churn(fs: Seq<FileChange>, added: bool) -> nat
    decreases fs.len(),
{
    if fs.len() == 0 {
        0
    } else {
        churn(fs.drop_last(), added) + if added { fs.last().lines_added as nat } else { fs.last().lines_removed as nat }
    }
}

/// Ascending order.
pub open spec fn ascending(s: Seq<u64>) -> bool {
    forall|i: int, j: int| 0 <= i < j < s.len() ==> s[i] <= s[j]
}

/// The nearest-rank `p`-th percentile of an ascending sequence: the value at
/// rank ceil(p * n / 100).
pub open spec fn percentile(s: Seq<u64>, p: nat) -> Option<u64> {
    if s.len() == 0 {
        None
    } else {
        let rank = (p * s.len() + 99) / 100;
        Some(s[if rank == 0 { 0 } else { rank - 1 }])
    }
}

/// The metrics that the events alone decide.
pub open spec fn event_part(m: SessionMetrics, es: Seq<Event>) -> bool {
    &&& m.total_events == es.len()
    &&& m.message_count == count_kind(es, EventKind::Message)
    &&& m.tool_call_count == count_kind(es, EventKind::ToolCall)
    &&& m.tool_result_count == count_kind(es, EventKind::ToolResult)
    &&& m.error_count == count_kind(es, EventKind::Error)
    &&& m.user_messages == count_role(es, Role::User)
    &&& m.assistant_messages == count_role(es, Role::Assistant)
    &&& m.duration_seconds == (match span(es) {
        Some((lo, hi)) => Some((hi - lo) as i128),
        None => None,
    })
    &&& m.input_tokens == cap64(role_tokens(es, Role::User))
    &&& m.output_tokens == cap64(role_tokens(es, Role::Assistant))
}

/// The model that an event's payload names: its `model`, or that of its
/// `message`.
pub open spec fn event_model(e: Event) -> Option<Seq<char>> {
    match text_member(e.raw_payload, "model"@) {
        Some(m) => Some(m),
        None => text_member_of(member(e.raw_payload, "message"@), "model"@),
    }
}

/// The model named last among the events.
pub open spec fn last_model(es: Seq<Event>) -> Option<Seq<char>>
    decreases es.len(),
{
    if es.len() == 0 {
        None
    } else {
        match event_model(es.last()) {
            Some(m) => Some(m),
            None => last_model(es.drop_last()),
        }
    }
}

/// The model that a session used, as its events name it last.
pub fn session_model(events: &Vec<Event>) -> (r: Option<String>)
    ensures
        opt_view(r) == last_model(events@),
{
    let mut found: Option<String> = None;
    let mut i: usize = 0;
    while i < events.len()
        invariant
            i <= events.len(),
            opt_view(found) == last_model(events@.subrange(0, i as int)),
        decreases events.len() - i,
    {
        let ghost next = events@.subrange(0, i + 1);
        assert(next.drop_last() == events@.subrange(0, i as int));
        assert(next.last() == events@[i as int]);
        let raw = &events[i].raw_payload;
        let named = match raw.text_member("model") {
            Some(m) => Some(m),
            None => match raw.get("message") {
                Some(msg) => msg.text_member("model"),
                None => None,
            },
        };
        match named {
            Some(m) => {
                found = Some(m);
            },
            None => {},
        }
        i = i + 1;
    }
    assert(events@.subrange(0, events.len() as int) == events@);
    found
}

/// The durations in ascending order.
pub fn sort_durations(ds: &Vec<u64>) -> (r: Vec<u64>)
    ensures
        ascending(r@),
        r@.to_multiset() == ds@.to_multiset(),
{
    let mut out: Vec<u64> = Vec::new();
    let mut i: usize = 0;
    proof {
        assert(ds@.subrange(0, 0) =~= Seq::<u64>::empty());
        assert(out@ =~= Seq::<u64>::empty());
    }
    while i < ds.len()
        invariant
            i <= ds.len(),
            ascending(out@),
            out@.to_multiset() == ds@.subrange(0, i as int).to_multiset(),
        decreases ds.len() - i,
    {
        let x = ds[i];
        let mut pos: usize = 0;
        while pos < out.len() && out[pos] <= x
            invariant
                pos <= out@.len(),
                forall|k: int| 0 <= k < pos ==> out@[k] <= x,
            decreases out.len() - pos,
        {
            pos = pos + 1;
        }
        let ghost before = out@;
        proof {
            if pos < before.len() {
                assert forall|k: int| pos <= k < before.len() implies before[k] > x by {
                    if k > pos {
                        assert(before[pos as int] <= before[k]);
                    }
                }
            }
        }
        out.insert(pos, x);
        proof {
            let after = before.insert(pos as int, x);
            assert(out@ == after);
            assert forall|a: int, b: int| 0 <= a < b < after.len() implies after[a] <= after[b] by {
                if b < pos {
                } else if b == pos {
                } else if a < pos {
                    assert(after[b] == before[b - 1]);
                } else if a == pos {
                    assert(after[b] == before[b - 1]);
                } else {
                    assert(after[a] == before[a - 1]);
                    assert(after[b] == before[b - 1]);
                }
            }
            vstd::seq_lib::to_multiset_insert(before, pos as int, x);
            assert(ds@.subrange(0, i + 1) == ds@.subrange(0, i as int).push(x));
            vstd::seq_lib::to_multiset_build(ds@.subrange(0, i as int), x);
        }
        i = i + 1;
    }
    assert(ds@.subrange(0, ds.len() as int) == ds@);
    out
}

/// The nearest-rank percentile of an ascending sequence.
pub fn percentile_of(s: &Vec<u64>, p: u64) -> (r: Option<u64>)
    requires
        p <= 100,
    ensures
        r == percentile(s@, p as nat),
{
    if s.len() == 0 {
        return None;
    }
    let n = s.len() as u128;
    assert((p as u128) * n <= 100 * 0xFFFF_FFFF_FFFF_FFFF) by (nonlinear_arith)
        requires
            p <= 100,
            n <= 0xFFFF_FFFF_FFFF_FFFF,
    ;
    let rank = ((p as u128) * n + 99) / 100;
    assert(rank <= n) by (nonlinear_arith)
        requires
            rank == ((p as u128) * n + 99) / 100,
            p <= 100,
            n >= 1,
    ;
    let idx: usize = if rank == 0 { 0 } else { (rank - 1) as usize };
    Some(s[idx])
}

/// The number of estimated tokens of an optional text.
fn tokens_of(content: &Option<String>) -> (r: u64)
    ensures
        r == cap64(match opt_view(*content) {
            Some(t) => (utf8_len(t) + 3) / 4,
            None => 0,
        }),
{
    match content {
        Some(t) => {
            let n = ModelMetadata::estimate_tokens(t.as_str());
            if (n as u128) > (u64::MAX as u128) {
                u64::MAX
            } else {
                n as u64
            }
        },
        None => 0,
    }
}

/// The metrics of a session, recomputed from its events, the durations of
/// its tool calls in milliseconds, its file changes, and the pricing of its
/// model where it is known. Tokens are estimated from the text of user
/// messages (input) and assistant messages (output).
pub fn compute_session_metrics(
    events: &Vec<Event>,
    durations: &Vec<u64>,
    files: &Vec<FileChange>,
    model: Option<&ModelMetadata>,
) -> (r: SessionMetrics)
    ensures
        r.total_events == events@.len(),
        r.message_count == count_kind(events@, EventKind::Message),
        r.tool_call_count == count_kind(events@, EventKind::ToolCall),
        r.tool_result_count == count_kind(events@, EventKind::ToolResult),
        r.error_count == count_kind(events@, EventKind::Error),
        r.user_messages == count_role(events@, Role::User),
        r.assistant_messages == count_role(events@, Role::Assistant),
        r.duration_seconds == (match span(events@) {
            Some((lo, hi)) => Some((hi - lo) as i128),
            None => None,
        }),
        r.files_touched == files@.len(),
        r.lines_added == churn(files@, true),
        r.lines_removed == churn(files@, false),
        r.input_tokens == cap64(role_tokens(events@, Role::User)),
        r.output_tokens == cap64(role_tokens(events@, Role::Assistant)),
        r.estimated_cost == (match model {
            Some(m) => Some(cost_of(*m, r.input_tokens, r.output_tokens) as u128),
            None => None,
        }),
        r.total_latency_ms == total(durations@),
        exists|s: Seq<u64>| ascending(s) && #[trigger] s.to_multiset() == durations@.to_multiset()
            && r.p50_latency_ms == percentile(s, 50) && r.p95_latency_ms == percentile(s, 95),
{
    let mut m = SessionMetrics {
        total_events: events.len(),
        message_count: 0,
        tool_call_count: 0,
        tool_result_count: 0,
        error_count: 0,
        user_messages: 0,
        assistant_messages: 0,
        duration_seconds: None,
        files_touched: files.len(),
        lines_added: 0,
        lines_removed: 0,
        input_tokens: 0,
        output_tokens: 0,
        estimated_cost: None,
        total_latency_ms: 0,
        p50_latency_ms: None,
        p95_latency_ms: None,
    };
    let mut lo: i64 = 0;
    let mut hi: i64 = 0;
    let mut i: usize = 0;
    while i < events.len()
        invariant
            i <= events.len(),
            m.total_events == events@.len(),
            m.files_touched == files@.len(),
            m.message_count + m.tool_call_count + m.tool_result_count + m.error_count <= i,
            m.user_messages <= i,
            m.assistant_messages <= i,
            m.message_count == count_kind(events@.subrange(0, i as int), EventKind::Message),
            m.tool_call_count == count_kind(events@.subrange(0, i as int), EventKind::ToolCall),
            m.tool_result_count == count_kind(events@.subrange(0, i as int), EventKind::ToolResult),
            m.error_count == count_kind(events@.subrange(0, i as int), EventKind::Error),
            m.user_messages == count_role(events@.subrange(0, i as int), Role::User),
            m.assistant_messages == count_role(events@.subrange(0, i as int), Role::Assistant),
            m.input_tokens == cap64(role_tokens(events@.subrange(0, i as int), Role::User)),
            m.output_tokens == cap64(role_tokens(events@.subrange(0, i as int), Role::Assistant)),
            m.lines_added == 0,
            m.lines_removed == 0,
            m.total_latency_ms == 0,
            m.duration_seconds is None,
            i == 0 ==> span(events@.subrange(0, i as int)) is None,
            i > 0 ==> span(events@.subrange(0, i as int)) == Some((lo, hi)),
            lo <= hi,
        decreases events.len() - i,
    {
        let ghost next = events@.subrange(0, i + 1);
        assert(next.drop_last() == events@.subrange(0, i as int));
        let e = &events[i];
        assert(next.last() == *e);
        match e.kind {
            EventKind::Message => {
                m.message_count = m.message_count + 1;
                match e.role {
                    Some(Role::User) => {
                        m.user_messages = m.user_messages + 1;
                        let t = tokens_of(&e.content);
                        m.input_tokens = if (m.input_tokens as u128) + (t as u128) > (u64::MAX as u128) {
                            u64::MAX
                        } else {
                            m.input_tokens + t
                        };
                    },
                    Some(Role::Assistant) => {
                        m.assistant_messages = m.assistant_messages + 1;
                        let t = tokens_of(&e.content);
                        m.output_tokens = if (m.output_tokens as u128) + (t as u128) > (u64::MAX as u128) {
                            u64::MAX
                        } else {
                            m.output_tokens + t
                        };
                    },
                    _ => {},
                }
            },
            EventKind::ToolCall => {
                m.tool_call_count = m.tool_call_count + 1;
            },
            EventKind::ToolResult => {
                m.tool_result_count = m.tool_result_count + 1;
            },
            EventKind::Error => {
                m.error_count = m.error_count + 1;
            },
            EventKind::System => {},
        }
        let t = e.timestamp;
        if i == 0 {
            lo = t;
            hi = t;
        } else {
            if t < lo {
                lo = t;
            }
            if t > hi {
                hi = t;
            }
        }
        i = i + 1;
    }
    assert(events@.subrange(0, events.len() as int) == events@);
    if events.len() > 0 {
        m.duration_seconds = Some(hi as i128 - lo as i128);
    }
    let mut j: usize = 0;
    assert(files@.subrange(0, 0) =~= Seq::<FileChange>::empty());
    while j < files.len()
        invariant
            j <= files.len(),
            m.lines_added == churn(files@.subrange(0, j as int), true),
            m.lines_removed == churn(files@.subrange(0, j as int), false),
            m.lines_added <= j * (u64::MAX as int),
            m.lines_removed <= j * (u64::MAX as int),
            j <= usize::MAX,
            m.total_latency_ms == 0,
            event_part(m, events@),
            m.files_touched == files@.len(),
        decreases files.len() - j,
    {
        assert(files@.subrange(0, j + 1).drop_last() == files@.subrange(0, j as int));
        assert((j + 1) * (u64::MAX as int) == j * (u64::MAX as int) + u64::MAX) by (nonlinear_arith);
        assert(j * (u64::MAX as int) + u64::MAX <= u128::MAX) by (nonlinear_arith)
            requires j <= usize::MAX;
        m.lines_added = m.lines_added + files[j].lines_added as u128;
        m.lines_removed = m.lines_removed + files[j].lines_removed as u128;
        j = j + 1;
    }
    assert(files@.subrange(0, files.len() as int) == files@);
    let mut k: usize = 0;
    assert(durations@.subrange(0, 0) =~= Seq::<u64>::empty());
    while k < durations.len()
        invariant
            k <= durations.len(),
            m.total_latency_ms == total(durations@.subrange(0, k as int)),
            m.total_latency_ms <= k * (u64::MAX as int),
            k <= usize::MAX,
            event_part(m, events@),
            m.files_touched == files@.len(),
            m.lines_added == churn(files@, true),
            m.lines_removed == churn(files@, false),
        decreases durations.len() - k,
    {
        assert(durations@.subrange(0, k + 1).drop_last() == durations@.subrange(0, k as int));
        assert((k + 1) * (u64::MAX as int) == k * (u64::MAX as int) + u64::MAX) by (nonlinear_arith);
        assert(k * (u64::MAX as int) + u64::MAX <= u128::MAX) by (nonlinear_arith)
            requires k <= usize::MAX;
        m.total_latency_ms = m.total_latency_ms + durations[k] as u128;
        k = k + 1;
    }
    assert(durations@.subrange(0, durations.len() as int) == durations@);
    let sorted = sort_durations(durations);
    m.p50_latency_ms = percentile_of(&sorted, 50);
    m.p95_latency_ms = percentile_of(&sorted, 95);
    m.estimated_cost = match model {
        Some(meta) => Some(meta.calculate_cost(m.input_tokens, m.output_tokens)),
        None => None,
    };
    assert(ascending(sorted@) && sorted@.to_multiset() == durations@.to_multiset());
    m
}

} // verus!
