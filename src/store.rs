//! The decisions of the store: which migrations still apply, what row an
//! upsert writes, which hits a faceted search keeps, and the tally of an
//! ingestion run. The SQL itself runs in SQLite.

use vstd::prelude::*;
use crate::json::opt_view;
use crate::model::{Event, Source, event_views};
use crate::sql::Migration;
use crate::text::{same_text};

verus! {

/// A stored session; instants are RFC 3339 text.
pub struct SessionRow {
    pub id: String,
    pub source: String,
    pub external_id: String,
    pub project: Option<String>,
    pub title: Option<String>,
    pub created_at: String,
    pub updated_at: String,
    pub raw_payload: String,
}

/// A stored event.
pub struct EventRow {
    pub id: String,
    pub session_id: String,
    pub kind: String,
    pub role: Option<String>,
    pub content: Option<String>,
    pub timestamp: String,
    pub raw_payload: String,
}

/// Stored metrics of one session.
pub struct SessionMetricsRow {
    pub session_id: String,
    pub total_events: i64,
    pub message_count: i64,
    pub tool_call_count: i64,
    pub tool_result_count: i64,
    pub error_count: i64,
    pub user_messages: i64,
    pub assistant_messages: i64,
    pub duration_seconds: Option<i64>,
    pub files_touched: i64,
    pub lines_added: i64,
    pub lines_removed: i64,
    pub computed_at: String,
}

/// A stored tool invocation.
pub struct ToolCallRow {
    pub id: String,
    pub session_id: String,
    pub event_id: String,
    pub tool_name: String,
    pub started_at: String,
    pub completed_at: Option<String>,
    pub duration_ms: Option<i64>,
    pub success: Option<bool>,
    pub error_message: Option<String>,
}

/// A stored file change.
pub struct FileTouchedRow {
    pub id: String,
    pub session_id: String,
    pub file_path: String,
    pub operation: String,
    pub lines_added: i64,
    pub lines_removed: i64,
    pub touched_at: String,
}

/// Counts grouped by one dimension (a source, a project, a kind, a tool).
pub struct GroupedStats {
    pub dimension: String,
    pub count: i64,
    pub sessions: Option<i64>,
    pub earliest: Option<String>,
    pub latest: Option<String>,
}

/// The names among `applied`.
pub open spec fn is_applied(applied: Seq<String>, name: Seq<char>) -> bool {
    exists|i: int| 0 <= i < applied.len() && (#[trigger] applied[i])@ == name
}

/// The indices of the first `k` migrations that are not applied, in order.
pub open spec fn pending_upto(all: Seq<Migration>, applied: Seq<String>, k: int) -> Seq<usize>
    decreases k,
{
    if k <= 0 || k > all.len() {
        Seq::empty()
    } else if is_applied(applied, all[k - 1].name@) {
        pending_upto(all, applied, k - 1)
    } else {
        pending_upto(all, applied, k - 1).push((k - 1) as usize)
    }
}

/// The indices of the migrations that are not applied, in order.
pub open spec fn pending(all: Seq<Migration>, applied: Seq<String>) -> Seq<usize> {
    pending_upto(all, applied, all.len() as int)
}

fn applied_contains(applied: &Vec<String>, name: &str) -> (r: bool)
    ensures
        r == is_applied(applied@, name@),
{
    let mut i: usize = 0;
    while i < applied.len()
        invariant
            i <= applied.len(),
            forall|k: int| 0 <= k < i ==> (#[trigger] applied@[k])@ != name@,
        decreases applied.len() - i,
    {
        if same_text(applied[i].as_str(), name) {
            return true;
        }
        i = i + 1;
    }
    false
}

/// The migrations still to apply, by index, in order: those whose name is
/// not among the applied ones.
pub fn pending_migrations(all: &Vec<Migration>, applied: &Vec<String>) -> (r: Vec<usize>)
    ensures
        r@ == pending(all@, applied@),
{
    let mut out: Vec<usize> = Vec::new();
    let mut i: usize = 0;
    while i < all.len()
        invariant
            i <= all.len(),
            out@ == pending_upto(all@, applied@, i as int),
        decreases all.len() - i,
    {
        if !applied_contains(applied, all[i].name) {
            out.push(i);
        }
        i = i + 1;
    }
    out
}

proof fn lemma_pending_upto_empty(all: Seq<Migration>, applied: Seq<String>, k: int)
    requires
        forall|i: int| 0 <= i < all.len() ==> is_applied(applied, (#[trigger] all[i]).name@),
    ensures
        pending_upto(all, applied, k) == Seq::<usize>::empty(),
    decreases k,
{
    if k > 0 && k <= all.len() {
        assert(is_applied(applied, all[k - 1].name@));
        lemma_pending_upto_empty(all, applied, k - 1);
    }
}

/// Once every pending migration is recorded as applied, none is pending:
/// migrating again changes nothing.
pub proof fn lemma_migrate_is_idempotent(all: Seq<Migration>, applied: Seq<String>, recorded: Seq<String>)
    requires
        forall|i: int| 0 <= i < all.len() ==> is_applied(applied, (#[trigger] all[i]).name@)
            || is_applied(recorded, all[i].name@),
    ensures
        pending(all, applied + recorded) == Seq::<usize>::empty(),
{
    assert forall|i: int| 0 <= i < all.len() implies is_applied(applied + recorded, (#[trigger] all[i]).name@) by {
        if is_applied(applied, all[i].name@) {
            let j = choose|j: int| 0 <= j < applied.len() && (#[trigger] applied[j])@ == all[i].name@;
            assert((applied + recorded)[j] == applied[j]);
        } else {
            let j = choose|j: int| 0 <= j < recorded.len() && (#[trigger] recorded[j])@ == all[i].name@;
            assert((applied + recorded)[applied.len() + j] == recorded[j]);
        }
    }
    lemma_pending_upto_empty(all, applied + recorded, all.len() as int);
}

/// Two rows share the natural key `(source, external_id)`.
pub open spec fn same_key(a: SessionRow, b: SessionRow) -> bool {
    a.source@ == b.source@ && a.external_id@ == b.external_id@
}

/// The row that an upsert leaves where a row with the same key was stored:
/// the stored id, source, key, project and creation time, with the new
/// title, update time and payload.
pub open spec fn merged(old: SessionRow, new: SessionRow) -> SessionRow {
    SessionRow {
        id: old.id,
        source: old.source,
        external_id: old.external_id,
        project: old.project,
        title: new.title,
        created_at: old.created_at,
        updated_at: new.updated_at,
        raw_payload: new.raw_payload,
    }
}

/// What to write for a session: the row, and whether the session's stored
/// events are to be replaced by the new ones (they are where the session was
/// stored before, so that ingesting a file again does not duplicate them).
pub struct UpsertPlan {
    pub row: SessionRow,
    pub replace_events: bool,
}

/// The plan for storing `incoming`, given the row stored under its natural
/// key, if any.
pub fn plan_upsert(existing: Option<SessionRow>, incoming: SessionRow) -> (r: UpsertPlan)
    requires
        existing matches Some(o) ==> same_key(o, incoming),
    ensures
        match existing {
            Some(o) => r.row == merged(o, incoming) && r.replace_events,
            None => r.row == incoming && !r.replace_events,
        },
{
    match existing {
        Some(o) => UpsertPlan {
            row: SessionRow {
                id: o.id,
                source: o.source,
                external_id: o.external_id,
                project: o.project,
                title: incoming.title,
                created_at: o.created_at,
                updated_at: incoming.updated_at,
                raw_payload: incoming.raw_payload,
            },
            replace_events: true,
        },
        None => UpsertPlan { row: incoming, replace_events: false },
    }
}

/// The index of the first row from `i` on with the key of `new`.
pub open spec fn key_index_from(table: Seq<SessionRow>, new: SessionRow, i: int) -> Option<int>
    decreases table.len() - i,
{
    if i < 0 || i >= table.len() {
        None
    } else if same_key(table[i], new) {
        Some(i)
    } else {
        key_index_from(table, new, i + 1)
    }
}

/// The session table after an upsert of `new`.
pub open spec fn upserted(table: Seq<SessionRow>, new: SessionRow) -> Seq<SessionRow> {
    match key_index_from(table, new, 0) {
        Some(i) => table.update(i, merged(table[i], new)),
        None => table.push(new),
    }
}

/// No two rows share a natural key.
pub open spec fn keys_unique(table: Seq<SessionRow>) -> bool {
    forall|i: int, j: int| 0 <= i < j < table.len() ==> !same_key(table[i], table[j])
}

proof fn lemma_key_index_from(table: Seq<SessionRow>, new: SessionRow, i: int)
    requires
        0 <= i <= table.len(),
    ensures
        match key_index_from(table, new, i) {
            Some(k) => i <= k < table.len() && same_key(table[k], new),
            None => forall|k: int| i <= k < table.len() ==> !same_key(#[trigger] table[k], new),
        },
    decreases table.len() - i,
{
    if i < table.len() {
        lemma_key_index_from(table, new, i + 1);
    }
}

/// Ingesting a session twice leaves one row under its natural key, with the
/// id and creation time of the first run and the update time of the second;
/// and an upsert keeps natural keys unique.
pub proof fn lemma_upsert_is_idempotent(table: Seq<SessionRow>, first: SessionRow, second: SessionRow)
    requires
        keys_unique(table),
        same_key(first, second),
    ensures
        keys_unique(upserted(table, first)),
        upserted(upserted(Seq::empty(), first), second).len() == 1,
        upserted(upserted(Seq::empty(), first), second)[0].id == first.id,
        upserted(upserted(Seq::empty(), first), second)[0].created_at == first.created_at,
        upserted(upserted(Seq::empty(), first), second)[0].updated_at == second.updated_at,
{
    lemma_key_index_from(table, first, 0);
    let t = upserted(table, first);
    match key_index_from(table, first, 0) {
        Some(k) => {
            assert forall|x: int| 0 <= x < t.len() implies #[trigger] t[x].source == table[x].source
                && t[x].external_id == table[x].external_id by {
                if x == k {
                    assert(t[x] == merged(table[k], first));
                }
            }
            assert forall|i: int, j: int| 0 <= i < j < t.len() implies !same_key(t[i], t[j]) by {
                assert(t[i].source == table[i].source && t[i].external_id == table[i].external_id);
                assert(t[j].source == table[j].source && t[j].external_id == table[j].external_id);
                assert(!same_key(table[i], table[j]));
            }
        },
        None => {
            assert forall|i: int, j: int| 0 <= i < j < t.len() implies !same_key(t[i], t[j]) by {
                if j == table.len() {
                    assert(!same_key(table[i], first));
                }
            }
        },
    }
    let one = upserted(Seq::empty(), first);
    assert(key_index_from(Seq::<SessionRow>::empty(), first, 0) is None);
    assert(one == seq![first]);
    assert(key_index_from(one, second, 0) == Some(0int));
}

/// The events of a session, each carrying the id under which the session is
/// stored.
pub fn bind_events(events: Vec<Event>, session_id: &String) -> (r: Vec<Event>)
    ensures
        event_views(r@) == event_views(events@),
        forall|i: int| 0 <= i < r@.len() ==> (#[trigger] r@[i]).session_id == *session_id,
{
    let ghost orig = events@;
    let mut rest = events;
    let total = rest.len();
    let mut out: Vec<Event> = Vec::new();
    let mut k: usize = 0;
    while rest.len() > 0
        invariant
            k <= orig.len(),
            orig.len() == total,
            rest@ == orig.subrange(k as int, orig.len() as int),
            out@.len() == k,
            event_views(out@) == event_views(orig.subrange(0, k as int)),
            forall|i: int| 0 <= i < out@.len() ==> (#[trigger] out@[i]).session_id == *session_id,
        decreases rest.len(),
    {
        assert(rest@.len() == orig.len() - k);
        let e = rest.remove(0);
        assert(e == orig[k as int]);
        let ghost prev = out@;
        let bound = crate::model::with_session(e, session_id);
        out.push(bound);
        assert(out@ == prev.push(bound));
        assert forall|i: int| 0 <= i < k + 1 implies #[trigger] event_views(out@)[i]
            == event_views(orig.subrange(0, k + 1))[i] by {
            if i < k {
                assert(event_views(prev)[i] == event_views(orig.subrange(0, k as int))[i]);
                assert(orig.subrange(0, k as int)[i] == orig.subrange(0, k + 1)[i]);
                assert(out@[i] == prev[i]);
            } else {
                assert(orig.subrange(0, k + 1)[i] == orig[k as int]);
                assert(out@[i] == bound);
            }
        }
        assert(event_views(out@) =~= event_views(orig.subrange(0, k + 1)));
        k = k + 1;
    }
    assert(orig.subrange(0, orig.len() as int) == orig);
    out
}

/// Optional filters of a search: source, project and kind by name, and the
/// earliest instant.
pub struct SearchFacets {
    pub source: Option<String>,
    pub project: Option<String>,
    pub kind: Option<String>,
    pub since: Option<i64>,
}

/// A candidate hit of a full-text search, with what the facets look at.
pub struct SearchHit {
    pub event: EventRow,
    pub source: String,
    pub project: Option<String>,
    pub timestamp: i64,
}

/// The text that binds a facet: the empty string where it is absent.
pub open spec fn facet_text(f: Option<String>) -> Seq<char> {
    match f {
        Some(s) => s@,
        None => Seq::empty(),
    }
}

/// A facet bound as `param` admits a column value: the empty string admits
/// every value, any other text the equal value only; a null column equals
/// nothing.
pub open spec fn admits(param: Seq<char>, value: Option<Seq<char>>) -> bool {
    param.len() == 0 || value == Some(param)
}

/// A hit passes every facet.
pub open spec fn hit_matches(f: SearchFacets, h: SearchHit) -> bool {
    admits(facet_text(f.source), Some(h.source@)) && admits(facet_text(f.project), opt_view(h.project))
        && admits(facet_text(f.kind), Some(h.event.kind@)) && match f.since {
        Some(t) => h.timestamp >= t,
        None => true,
    }
}

/// The hits that pass every facet, in order.
pub open spec fn kept_hits(f: SearchFacets, hs: Seq<SearchHit>) -> Seq<SearchHit>
    decreases hs.len(),
{
    if hs.len() == 0 {
        Seq::empty()
    } else if hit_matches(f, hs.last()) {
        kept_hits(f, hs.drop_last()).push(hs.last())
    } else {
        kept_hits(f, hs.drop_last())
    }
}

/// The text that binds a facet.
pub fn facet_param(f: &Option<String>) -> (r: String)
    ensures
        r@ == facet_text(*f),
{
    match f {
        Some(s) => s.clone(),
        None => String::new(),
    }
}

fn admits_value(param: &String, value: &Option<String>) -> (r: bool)
    ensures
        r == admits(param@, opt_view(*value)),
{
    if param.as_str().unicode_len() == 0 {
        return true;
    }
    match value {
        Some(v) => same_text(v.as_str(), param.as_str()),
        None => false,
    }
}

/// Whether a hit passes every facet.
pub fn matches_facets(f: &SearchFacets, h: &SearchHit) -> (r: bool)
    ensures
        r == hit_matches(*f, *h),
{
    let source = facet_param(&f.source);
    let project = facet_param(&f.project);
    let kind = facet_param(&f.kind);
    let s = Some(h.source.clone());
    let k = Some(h.event.kind.clone());
    admits_value(&source, &s) && admits_value(&project, &h.project) && admits_value(&kind, &k)
        && match f.since {
        Some(t) => h.timestamp >= t,
        None => true,
    }
}

/// The hits that pass every facet, in the order of relevance given.
pub fn apply_facets(f: &SearchFacets, hits: Vec<SearchHit>) -> (r: Vec<SearchHit>)
    ensures
        r@ == kept_hits(*f, hits@),
{
    let ghost orig = hits@;
    let mut rest = hits;
    let total = rest.len();
    let mut out: Vec<SearchHit> = Vec::new();
    let mut k: usize = 0;
    proof {
        assert(orig.subrange(0, 0) =~= Seq::<SearchHit>::empty());
    }
    while rest.len() > 0
        invariant
            k <= orig.len(),
            orig.len() == total,
            rest@ == orig.subrange(k as int, orig.len() as int),
            out@ == kept_hits(*f, orig.subrange(0, k as int)),
        decreases rest.len(),
    {
        assert(rest@.len() == orig.len() - k);
        let h = rest.remove(0);
        let ghost next = orig.subrange(0, k + 1);
        assert(next.drop_last() == orig.subrange(0, k as int));
        assert(next.last() == h);
        if matches_facets(f, &h) {
            out.push(h);
        }
        k = k + 1;
    }
    assert(orig.subrange(0, orig.len() as int) == orig);
    out
}

/// The facets with the project unset.
pub open spec fn without_project(f: SearchFacets) -> SearchFacets {
    SearchFacets { source: f.source, project: None, kind: f.kind, since: f.since }
}

/// The facets with the project set to `p`.
pub open spec fn with_project(f: SearchFacets, p: String) -> SearchFacets {
    SearchFacets { source: f.source, project: Some(p), kind: f.kind, since: f.since }
}

/// An unset project facet keeps a hit exactly where a facet naming some
/// project keeps it (the union across projects), or where the hit's session
/// has no project; a project facet that no hit's session has keeps nothing.
pub proof fn lemma_project_facet(f: SearchFacets, hs: Seq<SearchHit>, h: SearchHit, p: String)
    requires
        p@.len() > 0,
        forall|i: int| 0 <= i < hs.len() ==> opt_view((#[trigger] hs[i]).project) != Some(p@),
    ensures
        hit_matches(without_project(f), h) <==> (
            (exists|q: String| q@.len() > 0 && #[trigger] hit_matches(with_project(f, q), h))
            || (hit_matches(without_project(f), h) && !(h.project matches Some(x) && x@.len() > 0))
        ),
        kept_hits(with_project(f, p), hs) == Seq::<SearchHit>::empty(),
    decreases hs.len(),
{
    if hit_matches(without_project(f), h) {
        match h.project {
            Some(q) => {
                if q@.len() > 0 {
                    assert(hit_matches(with_project(f, q), h));
                }
            },
            None => {},
        }
    }
    if exists|q: String| q@.len() > 0 && #[trigger] hit_matches(with_project(f, q), h) {
        let q = choose|q: String| q@.len() > 0 && #[trigger] hit_matches(with_project(f, q), h);
        assert(hit_matches(without_project(f), h));
    }
    if hs.len() > 0 {
        assert forall|i: int| 0 <= i < hs.drop_last().len() implies opt_view((#[trigger] hs.drop_last()[i]).project) != Some(p@) by {
            assert(hs.drop_last()[i] == hs[i]);
        }
        lemma_project_facet(f, hs.drop_last(), h, p);
        assert(opt_view(hs.last().project) != Some(p@));
    }
}

/// The outcome of one ingestion run: sessions stored, sessions that failed,
/// and sessions tried.
#[derive(Debug, Clone, Copy, PartialEq, Eq, Structural)]
pub struct IngestResult {
    pub source: Source,
    pub imported: usize,
    pub failed: usize,
    pub total: usize,
}

/// The number of `true` outcomes.
pub open spec fn successes(outcomes: Seq<bool>) -> nat
    decreases outcomes.len(),
{
    if outcomes.len() == 0 {
        0
    } else {
        successes(outcomes.drop_last()) + if outcomes.last() { 1nat } else { 0nat }
    }
}

proof fn lemma_successes_bound(outcomes: Seq<bool>)
    ensures
        successes(outcomes) <= outcomes.len(),
    decreases outcomes.len(),
{
    if outcomes.len() > 0 {
        lemma_successes_bound(outcomes.drop_last());
    }
}

impl IngestResult {
    /// A run over `source` that has tried nothing yet.
    pub fn new(source: Source) -> (r: IngestResult)
        ensures
            r == (IngestResult { source, imported: 0, failed: 0, total: 0 }),
    {
        IngestResult { source, imported: 0, failed: 0, total: 0 }
    }

    /// Counts one more session, stored or failed.
    pub fn record(&mut self, stored: bool)
        requires
            old(self).total < usize::MAX,
            old(self).imported + old(self).failed == old(self).total,
        ensures
            final(self).source == old(self).source,
            final(self).total == old(self).total + 1,
            final(self).imported == old(self).imported + if stored { 1usize } else { 0usize },
            final(self).failed == old(self).failed + if stored { 0usize } else { 1usize },
    {
        if stored {
            self.imported = self.imported + 1;
        } else {
            self.failed = self.failed + 1;
        }
        self.total = self.total + 1;
    }

    /// The outcome of a run over `source` from the outcome of each session,
    /// in order.
    pub fn tally(source: Source, outcomes: &Vec<bool>) -> (r: IngestResult)
        ensures
            r.source == source,
            r.total == outcomes@.len(),
            r.imported == successes(outcomes@),
            r.failed == outcomes@.len() - successes(outcomes@),
    {
        let mut r = IngestResult::new(source);
        let mut i: usize = 0;
        while i < outcomes.len()
            invariant
                i <= outcomes.len(),
                r.source == source,
                r.total == i,
                r.imported == successes(outcomes@.subrange(0, i as int)),
                r.imported + r.failed == r.total,
            decreases outcomes.len() - i,
        {
            assert(outcomes@.subrange(0, i + 1).drop_last() == outcomes@.subrange(0, i as int));
            r.record(outcomes[i]);
            i = i + 1;
        }
        assert(outcomes@.subrange(0, outcomes.len() as int) == outcomes@);
        r
    }
}

/// A run counts every session once, as stored or as failed: one failure
/// never hides the others.
pub proof fn lemma_ingest_counts_partition(outcomes: Seq<bool>)
    ensures
        successes(outcomes) + (outcomes.len() - successes(outcomes)) == outcomes.len(),
        successes(outcomes) <= outcomes.len(),
{
    lemma_successes_bound(outcomes);
}

} // verus!
