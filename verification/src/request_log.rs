//! Per-request log of model calls, indexed by agent and by user.
//!
//! Each agent keeps a window of its last 1000 requests and each user of its
//! last 500, with running totals; the collector also keeps global totals
//! (counted modulo 2^64) and a bounded list of placeholder entries whose
//! length tracks how many requests the window holds.

use vstd::prelude::*;
use std::collections::VecDeque;
use crate::text::{chars_of, chars_eq};

verus! {

/// Requests an agent's window holds.
pub const AGENT_WINDOW: usize = 1000;
/// Requests a user's window holds.
pub const USER_WINDOW: usize = 500;
/// Default size of the global list.
pub const DEFAULT_MAX_RECORDS: usize = 10_000;

/// One model request.
#[derive(Debug, Clone)]
pub struct RequestRecord {
    pub agent_id: String,
    pub user_id: String,
    pub provider: String,
    pub latency_ms: u64,
    pub cached: bool,
    pub success: bool,
    pub timestamp: i64,
}

/// A record as plain values.
pub type RecordView = (Seq<char>, Seq<char>, Seq<char>, u64, bool, bool, i64);

/// The plain values of a record.
pub open spec fn record_view(r: RequestRecord) -> RecordView {
    (r.agent_id@, r.user_id@, r.provider@, r.latency_ms, r.cached, r.success, r.timestamp)
}

/// A copy of `r`.
pub fn copy_record(r: &RequestRecord) -> (c: RequestRecord)
    ensures
        record_view(c) == record_view(*r),
{
    RequestRecord {
        agent_id: r.agent_id.clone(),
        user_id: r.user_id.clone(),
        provider: r.provider.clone(),
        latency_ms: r.latency_ms,
        cached: r.cached,
        success: r.success,
        timestamp: r.timestamp,
    }
}

/// The placeholder stored in the global list for every request.
pub open spec fn placeholder_view() -> RecordView {
    (Seq::empty(), Seq::empty(), Seq::empty(), 0, false, true, 0)
}

/// The window after one more request: the oldest entry leaves when the
/// window is full.
pub open spec fn push_window<T>(tl: Seq<T>, r: T, cap: nat) -> Seq<T> {
    if tl.len() >= cap && tl.len() > 0 {
        tl.drop_first().push(r)
    } else {
        tl.push(r)
    }
}

/// The window and totals of one agent or user.
pub struct IndexedRecords {
    timeline: VecDeque<RequestRecord>,
    total_latency: u64,
    total_errors: u64,
    total_cached: u64,
}

/// An index entry as plain values: the window, then the latency, error and
/// cache-hit totals.
pub type IndexView = (Seq<RecordView>, u64, u64, u64);

/// The plain values of an index entry.
pub closed spec fn index_view(e: IndexedRecords) -> IndexView {
    (e.timeline@.map_values(|r: RequestRecord| record_view(r)), e.total_latency, e.total_errors, e.total_cached)
}

/// An entry after one more request `r`, with window size `cap`.
pub open spec fn index_after(e: IndexView, r: RecordView, cap: nat) -> IndexView {
    (
        push_window(e.0, r, cap),
        e.1.wrapping_add(r.3),
        if !r.5 { e.2.wrapping_add(1) } else { e.2 },
        if r.4 { e.3.wrapping_add(1) } else { e.3 },
    )
}

/// The entry made for a first request `r`.
pub open spec fn index_first(r: RecordView) -> IndexView {
    (seq![r], r.3, if !r.5 { 1 } else { 0 }, if r.4 { 1 } else { 0 })
}

/// The index as a list of keys and entries, in order of first request.
pub open spec fn index_seq(v: Seq<(String, IndexedRecords)>) -> Seq<(Seq<char>, IndexView)> {
    v.map_values(|p: (String, IndexedRecords)| (p.0@, index_view(p.1)))
}

/// The position of `key` in an index list, if present.
pub open spec fn key_pos(idx: Seq<(Seq<char>, IndexView)>, key: Seq<char>) -> Option<int> {
    if exists|i: int| 0 <= i < idx.len() && idx[i].0 == key {
        Some(choose|i: int| 0 <= i < idx.len() && idx[i].0 == key)
    } else {
        None
    }
}

/// No key appears twice.
pub open spec fn keys_distinct(idx: Seq<(Seq<char>, IndexView)>) -> bool {
    forall|i: int, j: int| 0 <= i < j < idx.len() ==> idx[i].0 != idx[j].0
}

/// The index after a request `r` under `key`: the key's entry is updated,
/// or a new one is added at the end.
pub open spec fn index_record(idx: Seq<(Seq<char>, IndexView)>, key: Seq<char>, r: RecordView, cap: nat) -> Seq<(Seq<char>, IndexView)> {
    match key_pos(idx, key) {
        Some(i) => idx.update(i, (key, index_after(idx[i].1, r, cap))),
        None => idx.push((key, index_first(r))),
    }
}

/// Updates the entry of `key` in `index` with request `r`.
fn index_insert(index: &mut Vec<(String, IndexedRecords)>, key: &String, r: &RequestRecord, cap: usize)
    requires
        keys_distinct(index_seq(old(index)@)),
        cap > 0,
    ensures
        keys_distinct(index_seq(final(index)@)),
        index_seq(final(index)@) == index_record(index_seq(old(index)@), key@, record_view(*r), cap as nat),
{
    let ghost old_idx = index_seq(index@);
    let k = chars_of(key.as_str());
    let mut i: usize = 0;
    while i < index.len()
        invariant
            i <= index@.len(),
            index@ == old(index)@,
            old_idx == index_seq(index@),
            keys_distinct(old_idx),
            k@ == key@,
            forall|j: int| 0 <= j < i ==> old_idx[j].0 != key@,
        decreases index.len() - i,
    {
        let found = chars_eq(&chars_of(index[i].0.as_str()), &k);
        if found {
            proof {
                assert(old_idx[i as int].0 == key@);
                assert(key_pos(old_idx, key@) == Some(i as int)) by {
                    let c = choose|j: int| 0 <= j < old_idx.len() && old_idx[j].0 == key@;
                    if c != i as int {
                        if c < i {
                        } else {
                            assert(old_idx[i as int].0 != old_idx[c].0);
                        }
                    }
                }
            }
            let (name, mut entry) = index.remove(i);
            let ghost e0 = index_view(entry);
            if entry.timeline.len() >= cap {
                entry.timeline.pop_front();
            }
            entry.timeline.push_back(copy_record(r));
            entry.total_latency = entry.total_latency.wrapping_add(r.latency_ms);
            if !r.success {
                entry.total_errors = entry.total_errors.wrapping_add(1);
            }
            if r.cached {
                entry.total_cached = entry.total_cached.wrapping_add(1);
            }
            proof {
                let tl = e0.0;
                if tl.len() >= cap && tl.len() > 0 {
                    assert(index_view(entry).0 =~= tl.drop_first().push(record_view(*r)));
                } else {
                    assert(index_view(entry).0 =~= tl.push(record_view(*r)));
                }
            }
            index.insert(i, (name, entry));
            proof {
                assert(index_seq(index@) =~= old_idx.update(i as int, (key@, index_after(old_idx[i as int].1, record_view(*r), cap as nat))));
                let ni = index_seq(index@);
                assert forall|a: int, b: int| 0 <= a < b < ni.len() implies ni[a].0 != ni[b].0 by {
                    assert(ni[a].0 == old_idx[a].0);
                    assert(ni[b].0 == old_idx[b].0);
                }
            }
            return;
        }
        i += 1;
    }
    proof {
        assert(key_pos(old_idx, key@) is None);
    }
    let mut timeline: VecDeque<RequestRecord> = VecDeque::new();
    timeline.push_back(copy_record(r));
    let entry = IndexedRecords {
        timeline,
        total_latency: r.latency_ms,
        total_errors: if !r.success { 1 } else { 0 },
        total_cached: if r.cached { 1 } else { 0 },
    };
    proof {
        assert(index_view(entry).0 =~= seq![record_view(*r)]);
    }
    index.push((key.clone(), entry));
    proof {
        assert(index_seq(index@) =~= old_idx.push((key@, index_first(record_view(*r)))));
    }
}

/// `std::primitive::slice::select_nth_unstable`: reorders `v` so that the
/// element at `k` is the one a sort would put there, with no greater
/// element before it and no smaller one after it. Panics when `k` is out of
/// bounds, which `requires` rules out.
#[verifier::external_body]
fn select_nth(v: &mut Vec<u64>, k: usize)
    requires
        k < old(v)@.len(),
    ensures
        final(v)@.len() == old(v)@.len(),
        final(v)@.to_multiset() == old(v)@.to_multiset(),
        forall|i: int| 0 <= i < k ==> final(v)@[i] <= final(v)@[k as int],
        forall|i: int| k < i < final(v)@.len() ==> final(v)@[i] >= final(v)@[k as int],
{
    v.select_nth_unstable(k);
}

/// `v` is the value at rank `k` (from 0) of the values `s` in sorted order.
pub open spec fn order_statistic(s: Seq<u64>, k: int, v: u64) -> bool {
    exists|w: Seq<u64>| {
        &&& #[trigger] w.to_multiset() == s.to_multiset()
        &&& w.len() == s.len()
        &&& 0 <= k < w.len()
        &&& w[k] == v
        &&& forall|i: int| 0 <= i < k ==> w[i] <= v
        &&& forall|i: int| k < i < w.len() ==> w[i] >= v
    }
}

/// The latencies of a window, in order.
pub open spec fn latencies(tl: Seq<RecordView>) -> Seq<u64> {
    tl.map_values(|r: RecordView| r.3)
}

/// Sum of the latencies of a window.
pub open spec fn latency_sum(s: Seq<u64>) -> int
    decreases s.len(),
{
    if s.len() == 0 {
        0
    } else {
        latency_sum(s.drop_last()) + s.last()
    }
}

/// The rank of the median (and of the 99th percentile) in a window of `n`.
pub open spec fn percentile_rank(n: int, pct: int) -> int {
    if n * pct / 100 < n - 1 {
        n * pct / 100
    } else {
        n - 1
    }
}

/// Request statistics of one agent's window.
#[derive(Debug, Clone)]
pub struct AgentStats {
    pub agent_id: String,
    /// Requests in the window.
    pub total_requests: u64,
    /// Errors ever recorded for the agent.
    pub total_errors: u64,
    /// Cache hits ever recorded for the agent.
    pub total_cached: u64,
    /// Sum of the window's latencies.
    pub window_latency_ms: u128,
    pub p50_latency_ms: u64,
    pub p99_latency_ms: u64,
}

/// Request statistics of one user's window.
#[derive(Debug, Clone)]
pub struct UserStats {
    pub user_id: String,
    /// Requests in the window.
    pub total_requests: u64,
    /// Errors ever recorded for the user.
    pub total_errors: u64,
    /// Cache hits ever recorded for the user.
    pub total_cached: u64,
    /// Latency total ever recorded for the user (modulo 2^64).
    pub total_latency_ms: u64,
}

/// Collector-wide counts.
#[derive(Debug, Clone, Copy)]
pub struct GlobalCounts {
    pub total_requests: u64,
    pub total_errors: u64,
    pub total_cached: u64,
    pub total_latency_ms: u64,
    pub active_agents: usize,
    pub active_users: usize,
}

/// `s` describes the window `e` of agent `key`.
pub open spec fn agent_stats_of(s: AgentStats, key: Seq<char>, e: IndexView) -> bool {
    let lats = latencies(e.0);
    let n = lats.len() as int;
    &&& s.agent_id@ == key
    &&& s.total_requests == n
    &&& s.total_errors == e.2
    &&& s.total_cached == e.3
    &&& s.window_latency_ms == latency_sum(lats)
    &&& order_statistic(lats, percentile_rank(n, 50), s.p50_latency_ms)
    &&& order_statistic(lats, percentile_rank(n, 99), s.p99_latency_ms)
}

/// Sum of a window's latencies.
fn sum_latencies(tl: &VecDeque<RequestRecord>) -> (total: u128)
    requires
        tl@.len() <= AGENT_WINDOW,
    ensures
        total == latency_sum(latencies(tl@.map_values(|r: RequestRecord| record_view(r)))),
{
    let ghost lats = latencies(tl@.map_values(|r: RequestRecord| record_view(r)));
    let mut total: u128 = 0;
    let mut i: usize = 0;
    while i < tl.len()
        invariant
            i <= tl@.len() <= AGENT_WINDOW,
            lats == latencies(tl@.map_values(|r: RequestRecord| record_view(r))),
            total == latency_sum(lats.take(i as int)),
            total <= i * 0x1_0000_0000_0000_0000,
        decreases tl.len() - i,
    {
        assert(lats.take(i + 1).drop_last() =~= lats.take(i as int));
        assert(lats[i as int] == tl@[i as int].latency_ms);
        total = total + tl[i].latency_ms as u128;
        i += 1;
    }
    assert(lats.take(tl@.len() as int) =~= lats);
    total
}

/// Statistics of the window of agent `key`.
fn agent_stats(key: &String, e: &IndexedRecords) -> (s: AgentStats)
    requires
        e.timeline@.len() > 0,
        e.timeline@.len() <= AGENT_WINDOW,
    ensures
        agent_stats_of(s, key@, index_view(*e)),
{
    let ghost lats = latencies(index_view(*e).0);
    let n = e.timeline.len();
    let mut values: Vec<u64> = Vec::new();
    let mut i: usize = 0;
    while i < n
        invariant
            n == e.timeline@.len(),
            i <= n,
            lats == latencies(index_view(*e).0),
            values@ == lats.take(i as int),
        decreases n - i,
    {
        values.push(e.timeline[i].latency_ms);
        assert(values@ =~= lats.take(i + 1));
        i += 1;
    }
    assert(values@ =~= lats);
    let p50_idx = if n * 50 / 100 < n - 1 { n * 50 / 100 } else { n - 1 };
    let p99_idx = if n * 99 / 100 < n - 1 { n * 99 / 100 } else { n - 1 };
    select_nth(&mut values, p50_idx);
    let p50 = values[p50_idx];
    proof {
        assert(order_statistic(lats, percentile_rank(n as int, 50), p50)) by {
            let w = values@;
            assert(w.to_multiset() == lats.to_multiset());
        }
    }
    select_nth(&mut values, p99_idx);
    let p99 = values[p99_idx];
    proof {
        assert(order_statistic(lats, percentile_rank(n as int, 99), p99)) by {
            let w = values@;
            assert(w.to_multiset() == lats.to_multiset());
        }
    }
    let total_lat = sum_latencies(&e.timeline);
    AgentStats {
        agent_id: key.clone(),
        total_requests: n as u64,
        total_errors: e.total_errors,
        total_cached: e.total_cached,
        window_latency_ms: total_lat,
        p50_latency_ms: p50,
        p99_latency_ms: p99,
    }
}

/// Every window holds between 1 and `cap` requests.
pub open spec fn windows_ok(idx: Seq<(Seq<char>, IndexView)>, cap: nat) -> bool {
    forall|i: int| 0 <= i < idx.len() ==> 0 < (#[trigger] idx[i]).1.0.len() <= cap
}

/// Keeps request records, indexed by agent and by user.
pub struct RequestMetricsCollector {
    records: VecDeque<RequestRecord>,
    agent_index: Vec<(String, IndexedRecords)>,
    user_index: Vec<(String, IndexedRecords)>,
    max_records: usize,
    total_requests: u64,
    total_errors: u64,
    total_cached: u64,
    total_latency_ms: u64,
}

impl RequestMetricsCollector {
    /// The global list.
    pub closed spec fn log(&self) -> Seq<RecordView> {
        self.records@.map_values(|r: RequestRecord| record_view(r))
    }

    /// The agents' windows, in order of first request.
    pub closed spec fn agents(&self) -> Seq<(Seq<char>, IndexView)> {
        index_seq(self.agent_index@)
    }

    /// The users' windows, in order of first request.
    pub closed spec fn users(&self) -> Seq<(Seq<char>, IndexView)> {
        index_seq(self.user_index@)
    }

    /// Size of the global list.
    pub closed spec fn capacity(&self) -> usize {
        self.max_records
    }

    /// Global totals: requests, errors, cache hits and latency.
    pub closed spec fn totals(&self) -> (u64, u64, u64, u64) {
        (self.total_requests, self.total_errors, self.total_cached, self.total_latency_ms)
    }

    /// The collector's invariant.
    pub open spec fn wf(&self) -> bool {
        &&& keys_distinct(self.agents())
        &&& keys_distinct(self.users())
        &&& windows_ok(self.agents(), AGENT_WINDOW as nat)
        &&& windows_ok(self.users(), USER_WINDOW as nat)
    }

    /// A collector whose global list holds 10 000 entries.
    pub fn new() -> (c: Self)
        ensures
            c.wf(),
            c.capacity() == DEFAULT_MAX_RECORDS,
            c.log().len() == 0,
            c.agents().len() == 0,
            c.users().len() == 0,
            c.totals() == (0u64, 0u64, 0u64, 0u64),
    {
        Self::with_capacity(DEFAULT_MAX_RECORDS)
    }

    /// A collector whose global list holds `max_records` entries.
    pub fn with_capacity(max_records: usize) -> (c: Self)
        ensures
            c.wf(),
            c.capacity() == max_records,
            c.log().len() == 0,
            c.agents().len() == 0,
            c.users().len() == 0,
            c.totals() == (0u64, 0u64, 0u64, 0u64),
    {
        let c = RequestMetricsCollector {
            records: VecDeque::new(),
            agent_index: Vec::new(),
            user_index: Vec::new(),
            max_records,
            total_requests: 0,
            total_errors: 0,
            total_cached: 0,
            total_latency_ms: 0,
        };
        assert(c.agents() =~= Seq::empty());
        assert(c.users() =~= Seq::empty());
        c
    }

    /// Records one request.
    pub fn record(&mut self, record: RequestRecord)
        requires
            old(self).wf(),
        ensures
            final(self).wf(),
            final(self).capacity() == old(self).capacity(),
            final(self).totals() == (
                old(self).totals().0.wrapping_add(1),
                if !record.success { old(self).totals().1.wrapping_add(1) } else { old(self).totals().1 },
                if record.cached { old(self).totals().2.wrapping_add(1) } else { old(self).totals().2 },
                old(self).totals().3.wrapping_add(record.latency_ms),
            ),
            final(self).agents() == index_record(old(self).agents(), record.agent_id@, record_view(record), AGENT_WINDOW as nat),
            final(self).users() == index_record(old(self).users(), record.user_id@, record_view(record), USER_WINDOW as nat),
            final(self).log() == push_window(old(self).log(), placeholder_view(), old(self).capacity() as nat),
    {
        if record.cached {
            self.total_cached = self.total_cached.wrapping_add(1);
        }
        if !record.success {
            self.total_errors = self.total_errors.wrapping_add(1);
        }
        self.total_requests = self.total_requests.wrapping_add(1);
        self.total_latency_ms = self.total_latency_ms.wrapping_add(record.latency_ms);

        let ghost old_agents = index_seq(self.agent_index@);
        let ghost old_users = index_seq(self.user_index@);
        index_insert(&mut self.agent_index, &record.agent_id, &record, AGENT_WINDOW);
        index_insert(&mut self.user_index, &record.user_id, &record, USER_WINDOW);
        proof {
            lemma_windows_after(old_agents, record.agent_id@, record_view(record), AGENT_WINDOW as nat);
            lemma_windows_after(old_users, record.user_id@, record_view(record), USER_WINDOW as nat);
        }

        let ghost old_log = self.log();
        if self.records.len() >= self.max_records {
            self.records.pop_front();
        }
        let placeholder = RequestRecord {
            agent_id: String::new(),
            user_id: String::new(),
            provider: String::new(),
            latency_ms: 0,
            cached: false,
            success: true,
            timestamp: 0,
        };
        self.records.push_back(placeholder);
        proof {
            if old_log.len() >= self.max_records && old_log.len() > 0 {
                assert(self.log() =~= old_log.drop_first().push(placeholder_view()));
            } else {
                assert(self.log() =~= old_log.push(placeholder_view()));
            }
        }
    }

    /// The window of agent `agent_id` (empty when the agent is unknown).
    pub fn get_by_agent(&self, agent_id: &str) -> (v: Vec<RequestRecord>)
        requires
            self.wf(),
        ensures
            v@.map_values(|r: RequestRecord| record_view(r)) == match key_pos(self.agents(), agent_id@) {
                Some(i) => self.agents()[i].1.0,
                None => Seq::empty(),
            },
    {
        window_of(&self.agent_index, agent_id)
    }

    /// The window of user `user_id` (empty when the user is unknown).
    pub fn get_by_user(&self, user_id: &str) -> (v: Vec<RequestRecord>)
        requires
            self.wf(),
        ensures
            v@.map_values(|r: RequestRecord| record_view(r)) == match key_pos(self.users(), user_id@) {
                Some(i) => self.users()[i].1.0,
                None => Seq::empty(),
            },
    {
        window_of(&self.user_index, user_id)
    }

    /// Statistics of agent `agent_id`'s window, if it is known.
    pub fn agent_summary(&self, agent_id: &str) -> (s: Option<AgentStats>)
        requires
            self.wf(),
        ensures
            match (s, key_pos(self.agents(), agent_id@)) {
                (None, None) => true,
                (Some(st), Some(i)) => agent_stats_of(st, agent_id@, self.agents()[i].1),
                _ => false,
            },
    {
        match position_of(&self.agent_index, agent_id) {
            None => None,
            Some(i) => {
                proof {
                    assert(0 < self.agents()[i as int].1.0.len() <= AGENT_WINDOW);
                }
                let st = agent_stats(&self.agent_index[i].0, &self.agent_index[i].1);
                Some(AgentStats { agent_id: agent_id.to_string(), ..st })
            },
        }
    }

    /// Statistics of user `user_id`, if the user is known.
    pub fn user_summary(&self, user_id: &str) -> (s: Option<UserStats>)
        requires
            self.wf(),
        ensures
            match (s, key_pos(self.users(), user_id@)) {
                (None, None) => true,
                (Some(st), Some(i)) => {
                    let e = self.users()[i].1;
                    &&& st.user_id@ == user_id@
                    &&& st.total_requests == e.0.len()
                    &&& st.total_errors == e.2
                    &&& st.total_cached == e.3
                    &&& st.total_latency_ms == e.1
                },
                _ => false,
            },
    {
        match position_of(&self.user_index, user_id) {
            None => None,
            Some(i) => {
                proof {
                    assert(0 < self.users()[i as int].1.0.len() <= USER_WINDOW);
                }
                let e = &self.user_index[i].1;
                Some(UserStats {
                    user_id: user_id.to_string(),
                    total_requests: e.timeline.len() as u64,
                    total_errors: e.total_errors,
                    total_cached: e.total_cached,
                    total_latency_ms: e.total_latency,
                })
            },
        }
    }

    /// Collector-wide counts.
    pub fn global_summary(&self) -> (g: GlobalCounts)
        ensures
            g.total_requests == self.totals().0,
            g.total_errors == self.totals().1,
            g.total_cached == self.totals().2,
            g.total_latency_ms == self.totals().3,
            g.active_agents == self.agents().len(),
            g.active_users == self.users().len(),
    {
        GlobalCounts {
            total_requests: self.total_requests,
            total_errors: self.total_errors,
            total_cached: self.total_cached,
            total_latency_ms: self.total_latency_ms,
            active_agents: self.agent_index.len(),
            active_users: self.user_index.len(),
        }
    }

    /// Statistics of the `limit` agents with the most requests in their
    /// windows, most first (agents with equal counts in no fixed order).
    pub fn top_agents(&self, limit: usize) -> (v: Vec<AgentStats>)
        requires
            self.wf(),
        ensures
            v@.len() == if limit < self.agents().len() { limit as int } else { self.agents().len() as int },
            forall|k: int| 0 <= k < v@.len() ==> describes_agent(self.agents(), #[trigger] v@[k]),
            forall|i: int, j: int| 0 <= i < j < v@.len() ==> v@[i].agent_id@ != v@[j].agent_id@,
            forall|i: int, j: int| 0 <= i < j < v@.len() ==> v@[i].total_requests >= v@[j].total_requests,
            forall|p: int, k: int| #![trigger self.agents()[p], v@[k]]
                0 <= p < self.agents().len() && 0 <= k < v@.len()
                && (forall|j: int| 0 <= j < v@.len() ==> v@[j].agent_id@ != self.agents()[p].0)
                ==> self.agents()[p].1.0.len() <= v@[k].total_requests,
    {
        let ghost agents = self.agents();
        let n = self.agent_index.len();
        let m = if limit < n { limit } else { n };
        let mut ord: Vec<usize> = Vec::new();
        let mut i: usize = 0;
        while i < n
            invariant
                i <= n,
                ord@.len() == i,
                forall|j: int| 0 <= j < i ==> ord@[j] == j,
            decreases n - i,
        {
            ord.push(i);
            i += 1;
        }
        assert forall|p: int| 0 <= p < n implies #[trigger] occurs(ord@, p) by {
            assert(ord@[p] == p);
        }
        let mut out: usize = 0;
        while out < m
            invariant
                m <= n,
                n == self.agent_index@.len(),
                agents == self.agents(),
                agents.len() == n,
                out <= m,
                ord@.len() == n,
                forall|j: int| 0 <= j < n ==> ord@[j] < n,
                forall|a: int, b: int| 0 <= a < b < n ==> ord@[a] != ord@[b],
                forall|p: int| 0 <= p < n ==> #[trigger] occurs(ord@, p),
                forall|a: int, b: int| 0 <= a < out && a < b < n
                    ==> agents[ord@[a] as int].1.0.len() >= agents[ord@[b] as int].1.0.len(),
            decreases m - out,
        {
            let mut best: usize = out;
            let mut j: usize = out + 1;
            while j < n
                invariant
                    out < n,
                    n == self.agent_index@.len(),
                    agents == self.agents(),
                    ord@.len() == n,
                    forall|x: int| 0 <= x < n ==> ord@[x] < n,
                    out <= best < j <= n,
                    forall|x: int| out <= x < j ==> agents[ord@[x] as int].1.0.len() <= agents[ord@[best as int] as int].1.0.len(),
                decreases n - j,
            {
                if self.agent_index[ord[j]].1.timeline.len() > self.agent_index[ord[best]].1.timeline.len() {
                    best = j;
                }
                j += 1;
            }
            let ghost before = ord@;
            let a = ord[out];
            let b = ord[best];
            ord.set(out, b);
            ord.set(best, a);
            proof {
                assert forall|p: int| 0 <= p < n implies #[trigger] occurs(ord@, p) by {
                    assert(occurs(before, p));
                    let x = choose|x: int| 0 <= x < before.len() && before[x] == p;
                    if x == out as int {
                        assert(ord@[best as int] == p);
                    } else if x == best as int {
                        assert(ord@[out as int] == p);
                    } else {
                        assert(ord@[x] == p);
                    }
                }
            }
            out += 1;
        }
        let mut v: Vec<AgentStats> = Vec::new();
        let mut k: usize = 0;
        while k < m
            invariant
                m <= n,
                n == self.agent_index@.len(),
                agents == self.agents(),
                self.wf(),
                k <= m,
                ord@.len() == n,
                v@.len() == k,
                forall|j: int| 0 <= j < n ==> ord@[j] < n,
                forall|a: int, b: int| 0 <= a < b < n ==> ord@[a] != ord@[b],
                forall|j: int| 0 <= j < k ==> (#[trigger] v@[j]).agent_id@ == agents[ord@[j] as int].0,
                forall|j: int| 0 <= j < k ==> agent_stats_of(#[trigger] v@[j], agents[ord@[j] as int].0, agents[ord@[j] as int].1),
            decreases m - k,
        {
            let p = ord[k];
            proof {
                assert(0 < agents[p as int].1.0.len() <= AGENT_WINDOW);
            }
            let st = agent_stats(&self.agent_index[p].0, &self.agent_index[p].1);
            v.push(st);
            k += 1;
        }
        proof {
            assert forall|x: int| 0 <= x < v@.len() implies describes_agent(agents, #[trigger] v@[x]) by {
                lemma_key_pos(agents, ord@[x] as int);
            }
            assert forall|a: int, b: int| 0 <= a < b < v@.len() implies v@[a].agent_id@ != v@[b].agent_id@ by {
                assert(v@[a].agent_id@ == agents[ord@[a] as int].0);
                assert(v@[b].agent_id@ == agents[ord@[b] as int].0);
            }
            assert forall|p: int, x: int| #![trigger agents[p], v@[x]]
                0 <= p < agents.len() && 0 <= x < v@.len()
                && (forall|j: int| 0 <= j < v@.len() ==> v@[j].agent_id@ != agents[p].0)
                implies agents[p].1.0.len() <= v@[x].total_requests by {
                assert(occurs(ord@, p));
                let y = choose|y: int| 0 <= y < ord@.len() && ord@[y] == p;
                if y < m {
                    assert(v@[y].agent_id@ == agents[p].0);
                }
                assert(v@[x].total_requests == agents[ord@[x] as int].1.0.len());
            }
        }
        v
    }

    /// The last `limit` entries of the global list, newest first.
    pub fn recent_records(&self, limit: usize) -> (v: Vec<RequestRecord>)
        ensures
            v@.len() == if limit < self.log().len() { limit as int } else { self.log().len() as int },
            forall|i: int| 0 <= i < v@.len() ==> record_view(#[trigger] v@[i]) == self.log()[self.log().len() - 1 - i],
    {
        let n = self.records.len();
        let mut v: Vec<RequestRecord> = Vec::new();
        let mut i: usize = 0;
        while i < limit && i < n
            invariant
                n == self.records@.len(),
                i <= n,
                i <= limit,
                v@.len() == i,
                forall|j: int| 0 <= j < i ==> record_view(#[trigger] v@[j]) == self.log()[n - 1 - j],
            decreases n - i,
        {
            v.push(copy_record(&self.records[n - 1 - i]));
            i += 1;
        }
        v
    }

    /// Length of the global list.
    pub fn record_count(&self) -> (n: usize)
        ensures
            n == self.log().len(),
    {
        self.records.len()
    }
}

/// `s` gives the statistics of an agent that `agents` knows.
pub open spec fn describes_agent(agents: Seq<(Seq<char>, IndexView)>, s: AgentStats) -> bool {
    match key_pos(agents, s.agent_id@) {
        Some(p) => agent_stats_of(s, s.agent_id@, agents[p].1),
        None => false,
    }
}

/// `p` is one of the entries of `s`.
spec fn occurs(s: Seq<usize>, p: int) -> bool {
    exists|j: int| 0 <= j < s.len() && s[j] == p
}

proof fn lemma_key_pos(idx: Seq<(Seq<char>, IndexView)>, p: int)
    requires
        keys_distinct(idx),
        0 <= p < idx.len(),
    ensures
        key_pos(idx, idx[p].0) == Some(p),
{
    let c = choose|i: int| 0 <= i < idx.len() && idx[i].0 == idx[p].0;
    if c != p {
        if c < p {
            assert(idx[c].0 != idx[p].0);
        } else {
            assert(idx[p].0 != idx[c].0);
        }
    }
}

proof fn lemma_windows_after(idx: Seq<(Seq<char>, IndexView)>, key: Seq<char>, r: RecordView, cap: nat)
    requires
        windows_ok(idx, cap),
        cap > 0,
    ensures
        windows_ok(index_record(idx, key, r, cap), cap),
{
    let n = index_record(idx, key, r, cap);
    match key_pos(idx, key) {
        Some(i) => {
            assert forall|j: int| 0 <= j < n.len() implies 0 < (#[trigger] n[j]).1.0.len() <= cap by {
                if j != i {
                    assert(n[j] == idx[j]);
                }
            }
        },
        None => {
            assert forall|j: int| 0 <= j < n.len() implies 0 < (#[trigger] n[j]).1.0.len() <= cap by {
                if j < idx.len() {
                    assert(n[j] == idx[j]);
                }
            }
        },
    }
}

/// The position of `key` in an index.
fn position_of(index: &Vec<(String, IndexedRecords)>, key: &str) -> (r: Option<usize>)
    requires
        keys_distinct(index_seq(index@)),
    ensures
        match r {
            Some(i) => key_pos(index_seq(index@), key@) == Some(i as int) && i < index@.len(),
            None => key_pos(index_seq(index@), key@) is None,
        },
{
    let ghost idx = index_seq(index@);
    let k = chars_of(key);
    let mut i: usize = 0;
    while i < index.len()
        invariant
            i <= index@.len(),
            idx == index_seq(index@),
            keys_distinct(idx),
            k@ == key@,
            forall|j: int| 0 <= j < i ==> idx[j].0 != key@,
        decreases index.len() - i,
    {
        if chars_eq(&chars_of(index[i].0.as_str()), &k) {
            proof {
                assert(idx[i as int].0 == key@);
                let c = choose|j: int| 0 <= j < idx.len() && idx[j].0 == key@;
                if c != i as int {
                    if c > i as int {
                        assert(idx[i as int].0 != idx[c].0);
                    }
                }
            }
            return Some(i);
        }
        i += 1;
    }
    None
}

/// A copy of the window of `key`, or an empty list.
fn window_of(index: &Vec<(String, IndexedRecords)>, key: &str) -> (v: Vec<RequestRecord>)
    requires
        keys_distinct(index_seq(index@)),
    ensures
        v@.map_values(|r: RequestRecord| record_view(r)) == match key_pos(index_seq(index@), key@) {
            Some(i) => index_seq(index@)[i].1.0,
            None => Seq::empty(),
        },
{
    match position_of(index, key) {
        None => Vec::new(),
        Some(i) => {
            let tl = &index[i].1.timeline;
            let ghost w = tl@.map_values(|r: RequestRecord| record_view(r));
            let mut v: Vec<RequestRecord> = Vec::new();
            let mut j: usize = 0;
            while j < tl.len()
                invariant
                    j <= tl@.len(),
                    v@.len() == j,
                    w == tl@.map_values(|r: RequestRecord| record_view(r)),
                    v@.map_values(|r: RequestRecord| record_view(r)) == w.take(j as int),
                decreases tl.len() - j,
            {
                let ghost before = v@;
                v.push(copy_record(&tl[j]));
                proof {
                    assert forall|k: int| 0 <= k < j + 1 implies #[trigger] record_view(v@[k]) == w[k] by {
                        if k < j {
                            assert(v@[k] == before[k]);
                            assert(before.map_values(|r: RequestRecord| record_view(r))[k] == record_view(before[k]));
                        }
                    }
                    assert(v@.map_values(|r: RequestRecord| record_view(r)) =~= w.take(j + 1));
                }
                j += 1;
            }
            assert(w.take(tl@.len() as int) =~= w);
            v
        },
    }
}

} // verus!
