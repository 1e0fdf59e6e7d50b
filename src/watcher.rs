//! The decisions of the watcher: coalescing bursts of change notifications
//! into one ingestion per source after a quiet period, and deciding from
//! modification times whether a polled database changed. The host runs the
//! timers and the notifications and hands their results in.

use vstd::prelude::*;
use crate::model::Source;

verus! {

/// Intervals of the watcher, in milliseconds.
#[derive(Debug, Clone, Copy, PartialEq, Eq, Structural)]
pub struct WatcherConfig {
    /// How often the database source is polled.
    pub crush_poll_interval_ms: u64,
    /// How long a source must stay quiet before it is ingested.
    pub debounce_ms: u64,
}

impl WatcherConfig {
    /// Polling every 30 s, a quiet period of 2 s.
    pub fn default_config() -> (r: WatcherConfig)
        ensures
            r.crush_poll_interval_ms == 30_000,
            r.debounce_ms == 2_000,
    {
        WatcherConfig { crush_poll_interval_ms: 30_000, debounce_ms: 2_000 }
    }
}

/// One ingestion that the watcher triggered.
pub struct IngestStats {
    pub source: String,
    pub imported: usize,
    pub failed: usize,
    pub timestamp: i64,
}

/// How a source is kept current.
#[derive(Debug, Clone, Copy, PartialEq, Eq, Structural)]
pub enum WatchMode {
    /// Filesystem notifications on its directories.
    FileEvents,
    /// Polling of database modification times.
    Polled,
}

/// How each source is kept current: the embedded database is polled, the
/// file-based sources are watched.
pub fn watch_mode(source: Source) -> (r: WatchMode)
    ensures
        r == (if source == Source::Crush { WatchMode::Polled } else { WatchMode::FileEvents }),
{
    match source {
        Source::Crush => WatchMode::Polled,
        _ => WatchMode::FileEvents,
    }
}

/// Sources with a change not yet ingested, each with the time of its latest
/// change notification.
pub struct Debouncer {
    pub pending: Vec<(Source, u64)>,
}

/// A source has quieted down: its last change is at least `window` before
/// `now` (a change stamped after `now` counts as no time at all).
pub open spec fn is_quiet(last: u64, now: u64, window: u64) -> bool {
    if now >= last {
        now - last >= window
    } else {
        window == 0
    }
}

/// The sources of `ps` that have quieted down, in order.
pub open spec fn quiet_sources(ps: Seq<(Source, u64)>, now: u64, window: u64) -> Seq<Source>
    decreases ps.len(),
{
    if ps.len() == 0 {
        Seq::empty()
    } else if is_quiet(ps.last().1, now, window) {
        quiet_sources(ps.drop_last(), now, window).push(ps.last().0)
    } else {
        quiet_sources(ps.drop_last(), now, window)
    }
}

/// The entries of `ps` still waiting, in order.
pub open spec fn still_pending(ps: Seq<(Source, u64)>, now: u64, window: u64) -> Seq<(Source, u64)>
    decreases ps.len(),
{
    if ps.len() == 0 {
        Seq::empty()
    } else if is_quiet(ps.last().1, now, window) {
        still_pending(ps.drop_last(), now, window)
    } else {
        still_pending(ps.drop_last(), now, window).push(ps.last())
    }
}

/// The position of a source among the pending entries.
pub open spec fn index_of(ps: Seq<(Source, u64)>, s: Source) -> Option<int> {
    if exists|i: int| 0 <= i < ps.len() && (#[trigger] ps[i]).0 == s {
        Some(choose|i: int| 0 <= i < ps.len() && (#[trigger] ps[i]).0 == s)
    } else {
        None
    }
}

/// Each source appears at most once.
pub open spec fn unique_sources(ps: Seq<(Source, u64)>) -> bool {
    forall|i: int, j: int| 0 <= i < j < ps.len() ==> ps[i].0 != ps[j].0
}

proof fn lemma_still_pending_unique(ps: Seq<(Source, u64)>, now: u64, window: u64)
    requires
        unique_sources(ps),
    ensures
        unique_sources(still_pending(ps, now, window)),
        forall|i: int| 0 <= i < still_pending(ps, now, window).len() ==> exists|j: int| 0 <= j < ps.len()
            && #[trigger] still_pending(ps, now, window)[i] == ps[j],
    decreases ps.len(),
{
    if ps.len() > 0 {
        let d = ps.drop_last();
        assert(unique_sources(d)) by {
            assert forall|i: int, j: int| 0 <= i < j < d.len() implies d[i].0 != d[j].0 by {
                assert(d[i] == ps[i] && d[j] == ps[j]);
            }
        }
        lemma_still_pending_unique(d, now, window);
        let rest = still_pending(d, now, window);
        assert forall|i: int| 0 <= i < rest.len() implies exists|j: int| 0 <= j < ps.len() && #[trigger] rest[i] == ps[j] by {
            let j = choose|j: int| 0 <= j < d.len() && rest[i] == d[j];
            assert(d[j] == ps[j]);
        }
        if !is_quiet(ps.last().1, now, window) {
            let r = rest.push(ps.last());
            assert forall|i: int, j: int| 0 <= i < j < r.len() implies r[i].0 != r[j].0 by {
                if j == rest.len() {
                    let k = choose|k: int| 0 <= k < d.len() && rest[i] == d[k];
                    assert(d[k] == ps[k]);
                    assert(ps[k].0 != ps[ps.len() - 1].0);
                }
            }
            assert forall|i: int| 0 <= i < r.len() implies exists|j: int| 0 <= j < ps.len() && #[trigger] r[i] == ps[j] by {
                if i == rest.len() {
                    assert(r[i] == ps[ps.len() - 1]);
                } else {
                    assert(r[i] == rest[i]);
                }
            }
        }
    }
}

impl Debouncer {
    /// No source pending.
    pub fn new() -> (r: Debouncer)
        ensures
            r.pending@ == Seq::<(Source, u64)>::empty(),
    {
        Debouncer { pending: Vec::new() }
    }

    /// Each source is pending at most once.
    pub open spec fn wf(&self) -> bool {
        unique_sources(self.pending@)
    }

    /// Records a change notification for `source` at `now`: its pending time
    /// becomes `now`, and it is added where it was not pending.
    pub fn note_change(&mut self, source: Source, now: u64)
        requires
            old(self).wf(),
        ensures
            final(self).wf(),
            match index_of(old(self).pending@, source) {
                Some(i) => final(self).pending@ == old(self).pending@.update(i, (source, now)),
                None => final(self).pending@ == old(self).pending@.push((source, now)),
            },
    {
        let ghost before = self.pending@;
        let mut i: usize = 0;
        while i < self.pending.len()
            invariant
                i <= self.pending@.len(),
                self.pending@ == before,
                before == old(self).pending@,
                unique_sources(before),
                forall|k: int| 0 <= k < i ==> (#[trigger] before[k]).0 != source,
            decreases self.pending.len() - i,
        {
            if self.pending[i].0 == source {
                proof {
                    assert(before[i as int].0 == source);
                    assert(exists|j: int| 0 <= j < before.len() && (#[trigger] before[j]).0 == source);
                    let j = choose|j: int| 0 <= j < before.len() && (#[trigger] before[j]).0 == source;
                    if j < i {
                        assert(before[j].0 != before[i as int].0);
                    } else if j > i {
                        assert(before[i as int].0 != before[j].0);
                    }
                    assert(j == i);
                    assert(index_of(before, source) == Some(i as int));
                }
                self.pending.set(i, (source, now));
                proof {
                    let after = before.update(i as int, (source, now));
                    assert(self.pending@ == after);
                    assert forall|a: int, b: int| 0 <= a < b < after.len() implies after[a].0 != after[b].0 by {
                        if a != i && b != i {
                            assert(before[a].0 != before[b].0);
                        } else if a == i {
                            assert(before[a].0 != before[b].0);
                        } else {
                            assert(before[a].0 != before[b].0);
                        }
                    }
                }
                return;
            }
            i = i + 1;
        }
        assert(index_of(before, source) is None);
        self.pending.push((source, now));
        proof {
            let after = before.push((source, now));
            assert(self.pending@ == after);
            assert forall|a: int, b: int| 0 <= a < b < after.len() implies after[a].0 != after[b].0 by {
                if b == before.len() {
                    assert(before[a].0 != source);
                } else {
                    assert(before[a].0 != before[b].0);
                }
            }
        }
    }

    /// Takes out the sources that have been quiet for at least `window`
    /// milliseconds at `now`, in order; the others stay pending.
    pub fn take_ready(&mut self, now: u64, window: u64) -> (r: Vec<Source>)
        requires
            old(self).wf(),
        ensures
            final(self).wf(),
            r@ == quiet_sources(old(self).pending@, now, window),
            final(self).pending@ == still_pending(old(self).pending@, now, window),
    {
        let ghost before = self.pending@;
        let mut ready: Vec<Source> = Vec::new();
        let mut kept: Vec<(Source, u64)> = Vec::new();
        let mut i: usize = 0;
        while i < self.pending.len()
            invariant
                i <= self.pending@.len(),
                self.pending@ == before,
                ready@ == quiet_sources(before.subrange(0, i as int), now, window),
                kept@ == still_pending(before.subrange(0, i as int), now, window),
            decreases self.pending.len() - i,
        {
            let ghost next = before.subrange(0, i + 1);
            assert(next.drop_last() == before.subrange(0, i as int));
            let (s, last) = self.pending[i];
            let quiet = if now >= last {
                now - last >= window
            } else {
                window == 0
            };
            if quiet {
                ready.push(s);
            } else {
                kept.push((s, last));
            }
            i = i + 1;
        }
        assert(before.subrange(0, before.len() as int) == before);
        proof {
            lemma_still_pending_unique(before, now, window);
        }
        self.pending = kept;
        ready
    }
}

/// A burst coalesces: with each source pending at most once, one tick takes
/// each source at most once, so it triggers at most one ingestion.
pub proof fn lemma_tick_takes_each_source_once(ps: Seq<(Source, u64)>, now: u64, window: u64)
    requires
        unique_sources(ps),
    ensures
        forall|i: int, j: int| 0 <= i < j < quiet_sources(ps, now, window).len()
            ==> quiet_sources(ps, now, window)[i] != quiet_sources(ps, now, window)[j],
        forall|i: int| 0 <= i < quiet_sources(ps, now, window).len() ==> exists|k: int| 0 <= k < ps.len()
            && (#[trigger] quiet_sources(ps, now, window)[i]) == ps[k].0,
    decreases ps.len(),
{
    if ps.len() > 0 {
        let d = ps.drop_last();
        assert(unique_sources(d)) by {
            assert forall|i: int, j: int| 0 <= i < j < d.len() implies d[i].0 != d[j].0 by {
                assert(d[i] == ps[i] && d[j] == ps[j]);
            }
        }
        lemma_tick_takes_each_source_once(d, now, window);
        let rest = quiet_sources(d, now, window);
        assert forall|i: int| 0 <= i < rest.len() implies exists|k: int| 0 <= k < ps.len() && #[trigger] rest[i] == ps[k].0 by {
            let k = choose|k: int| 0 <= k < d.len() && rest[i] == d[k].0;
            assert(d[k] == ps[k]);
        }
        if is_quiet(ps.last().1, now, window) {
            let r = rest.push(ps.last().0);
            assert forall|i: int, j: int| 0 <= i < j < r.len() implies r[i] != r[j] by {
                if j == rest.len() {
                    let k = choose|k: int| 0 <= k < d.len() && rest[i] == d[k].0;
                    assert(d[k] == ps[k]);
                    assert(ps[k].0 != ps[ps.len() - 1].0);
                } else {
                    assert(r[i] == rest[i] && r[j] == rest[j]);
                }
            }
            assert forall|i: int| 0 <= i < r.len() implies exists|k: int| 0 <= k < ps.len() && #[trigger] r[i] == ps[k].0 by {
                if i == rest.len() {
                    assert(r[i] == ps[ps.len() - 1].0);
                } else {
                    assert(r[i] == rest[i]);
                }
            }
        }
    }
}

/// A modification time after the last check.
pub open spec fn changed_after(m: Option<u64>, last_check: u64) -> bool {
    match m {
        Some(t) => t > last_check,
        None => false,
    }
}

/// Whether any database was modified after the last check.
pub fn poll_needs_ingest(modified: &Vec<Option<u64>>, last_check: u64) -> (r: bool)
    ensures
        r == exists|i: int| 0 <= i < modified@.len() && changed_after(#[trigger] modified@[i], last_check),
{
    let mut i: usize = 0;
    while i < modified.len()
        invariant
            i <= modified.len(),
            forall|k: int| 0 <= k < i ==> !changed_after(#[trigger] modified@[k], last_check),
        decreases modified.len() - i,
    {
        match modified[i] {
            Some(m) => if m > last_check {
                assert(changed_after(modified@[i as int], last_check));
                return true;
            },
            None => {},
        }
        i = i + 1;
    }
    false
}

} // verus!
