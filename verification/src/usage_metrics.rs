//! Usage counts per agent and per user, with a bounded list of the most
//! recent requests.
//!
//! Average latencies are exponential moving averages with weight 3/10 for
//! the newest request, kept in thousandths of a millisecond.

use vstd::prelude::*;
use std::collections::VecDeque;
use std::time::Instant;
use crate::ordering::{is_arrangement, positions_by_key, lemma_map_push, lemma_map_update, lemma_take_push};
use crate::provider_health::instant_now;
use crate::text::same_text;

verus! {

/// One request, as the usage tracker sees it.
#[derive(Debug)]
pub struct RequestMetrics {
    pub agent_id: String,
    pub user_id: String,
    pub provider: String,
    pub latency_ms: u64,
    pub cached: bool,
    pub timestamp: Instant,
    pub success: bool,
    pub error_type: Option<String>,
}

impl RequestMetrics {
    /// A successful request made now.
    pub fn new(agent_id: String, user_id: String, provider: String, latency_ms: u64, cached: bool) -> (m: Self)
        ensures
            m.agent_id == agent_id,
            m.user_id == user_id,
            m.provider == provider,
            m.latency_ms == latency_ms,
            m.cached == cached,
            m.success,
            m.error_type is None,
    {
        RequestMetrics { agent_id, user_id, provider, latency_ms, cached, timestamp: instant_now(), success: true, error_type: None }
    }

    /// The same request, failed with `error_type`.
    pub fn with_error(self, error_type: String) -> (m: Self)
        ensures
            m.agent_id == self.agent_id,
            m.user_id == self.user_id,
            m.provider == self.provider,
            m.latency_ms == self.latency_ms,
            m.cached == self.cached,
            m.timestamp == self.timestamp,
            !m.success,
            m.error_type == Some(error_type),
    {
        RequestMetrics { success: false, error_type: Some(error_type), ..self }
    }
}

/// Whether two request records hold the same values.
pub open spec fn same_metrics(c: RequestMetrics, m: RequestMetrics) -> bool {
    &&& c.agent_id@ == m.agent_id@
    &&& c.user_id@ == m.user_id@
    &&& c.provider@ == m.provider@
    &&& c.latency_ms == m.latency_ms
    &&& c.cached == m.cached
    &&& c.timestamp == m.timestamp
    &&& c.success == m.success
    &&& match (c.error_type, m.error_type) {
        (Some(a), Some(b)) => a@ == b@,
        (None, None) => true,
        _ => false,
    }
}

/// A copy of `m`.
pub fn copy_metrics(m: &RequestMetrics) -> (c: RequestMetrics)
    ensures
        same_metrics(c, *m),
{
    RequestMetrics {
        agent_id: m.agent_id.clone(),
        user_id: m.user_id.clone(),
        provider: m.provider.clone(),
        latency_ms: m.latency_ms,
        cached: m.cached,
        timestamp: m.timestamp,
        success: m.success,
        error_type: match &m.error_type {
            Some(e) => Some(e.clone()),
            None => None,
        },
    }
}

/// Counts by name, in order of first appearance.
pub type CountsView = Seq<(Seq<char>, u64)>;

/// The counts after one more for `key` (counted modulo 2^64).
pub open spec fn counts_bump(c: CountsView, key: Seq<char>) -> CountsView {
    if exists|i: int| 0 <= i < c.len() && c[i].0 == key {
        let i = choose|i: int| 0 <= i < c.len() && c[i].0 == key;
        c.update(i, (key, c[i].1.wrapping_add(1)))
    } else {
        c.push((key, 1))
    }
}

/// No name is counted twice.
pub open spec fn counts_distinct(c: CountsView) -> bool {
    forall|i: int, j: int| 0 <= i < j < c.len() ==> c[i].0 != c[j].0
}

/// The moving average after a request of `latency_ms` milliseconds: 3/10 of
/// the new latency and 7/10 of the old average, in thousandths of a
/// millisecond, rounded down.
pub open spec fn ema_next(avg_milli: u128, latency_ms: u64) -> u128 {
    ((3 * (latency_ms as int) * 1000 + 7 * (avg_milli as int)) / 10) as u128
}

/// Largest average, in thousandths of a millisecond, that a latency can
/// give.
pub open spec fn ema_bound() -> int {
    (u64::MAX as int) * 1000
}

/// Usage counts of one agent.
#[derive(Debug, Clone)]
pub struct AgentMetrics {
    pub total_requests: u64,
    pub total_errors: u64,
    /// Moving average latency, in thousandths of a millisecond.
    pub avg_latency_milli: u128,
    pub cache_hits: u64,
    pub cache_misses: u64,
    /// Requests per provider, in order of first use.
    pub providers_used: Vec<(String, u64)>,
}

/// Usage counts of one user.
#[derive(Debug, Clone)]
pub struct UserMetrics {
    pub total_requests: u64,
    /// Requests per agent, in order of first contact.
    pub agents_interacted: Vec<(String, u64)>,
    /// Moving average latency, in thousandths of a millisecond.
    pub avg_latency_milli: u128,
}

/// Counts as plain values.
pub open spec fn counts_view(v: Seq<(String, u64)>) -> CountsView {
    v.map_values(|p: (String, u64)| (p.0@, p.1))
}

/// An agent's counts as plain values: requests, errors, average, hits,
/// misses and providers.
pub type AgentView = (u64, u64, u128, u64, u64, CountsView);

/// An agent's counts as plain values.
pub open spec fn agent_view(m: AgentMetrics) -> AgentView {
    (m.total_requests, m.total_errors, m.avg_latency_milli, m.cache_hits, m.cache_misses, counts_view(m.providers_used@))
}

/// A user's counts as plain values: requests, agents and average.
pub type UserView = (u64, CountsView, u128);

/// A user's counts as plain values.
pub open spec fn user_view(m: UserMetrics) -> UserView {
    (m.total_requests, counts_view(m.agents_interacted@), m.avg_latency_milli)
}

/// An agent's counts before any request.
pub open spec fn agent_zero() -> AgentView {
    (0, 0, 0, 0, 0, Seq::empty())
}

/// A user's counts before any request.
pub open spec fn user_zero() -> UserView {
    (0, Seq::empty(), 0)
}

/// An agent's counts after a request with the given outcome, latency,
/// cache flag and provider.
pub open spec fn agent_after(a: AgentView, success: bool, latency_ms: u64, cached: bool, provider: Seq<char>) -> AgentView {
    (
        a.0.wrapping_add(1),
        if !success { a.1.wrapping_add(1) } else { a.1 },
        ema_next(a.2, latency_ms),
        if cached { a.3.wrapping_add(1) } else { a.3 },
        if cached { a.4 } else { a.4.wrapping_add(1) },
        counts_bump(a.5, provider),
    )
}

/// A user's counts after a request to `agent` with the given latency.
pub open spec fn user_after(u: UserView, agent: Seq<char>, latency_ms: u64) -> UserView {
    (u.0.wrapping_add(1), counts_bump(u.1, agent), ema_next(u.2, latency_ms))
}

/// Entries by name, in order of first appearance.
pub type TableView<V> = Seq<(Seq<char>, V)>;

/// The position of `key`, if present.
pub open spec fn table_pos<V>(t: TableView<V>, key: Seq<char>) -> Option<int> {
    if exists|i: int| 0 <= i < t.len() && t[i].0 == key {
        Some(choose|i: int| 0 <= i < t.len() && t[i].0 == key)
    } else {
        None
    }
}

/// No name appears twice.
pub open spec fn table_distinct<V>(t: TableView<V>) -> bool {
    forall|i: int, j: int| 0 <= i < j < t.len() ==> t[i].0 != t[j].0
}

/// Every average in range.
pub open spec fn agents_in_range(t: TableView<AgentView>) -> bool {
    forall|i: int| 0 <= i < t.len() ==> (#[trigger] t[i]).1.2 <= ema_bound() && counts_distinct(t[i].1.5)
}

/// Every average in range.
pub open spec fn users_in_range(t: TableView<UserView>) -> bool {
    forall|i: int| 0 <= i < t.len() ==> (#[trigger] t[i]).1.2 <= ema_bound() && counts_distinct(t[i].1.1)
}

/// The agents' table after a request by agent `key`: its entry is updated,
/// or one is added from zero counts.
pub open spec fn agents_after(t: TableView<AgentView>, key: Seq<char>, success: bool, latency_ms: u64, cached: bool, provider: Seq<char>) -> TableView<AgentView> {
    match table_pos(t, key) {
        Some(i) => t.update(i, (key, agent_after(t[i].1, success, latency_ms, cached, provider))),
        None => t.push((key, agent_after(agent_zero(), success, latency_ms, cached, provider))),
    }
}

/// The users' table after a request by user `key` to `agent`: its entry is
/// updated, or one is added from zero counts.
pub open spec fn users_after(t: TableView<UserView>, key: Seq<char>, agent: Seq<char>, latency_ms: u64) -> TableView<UserView> {
    match table_pos(t, key) {
        Some(i) => t.update(i, (key, user_after(t[i].1, agent, latency_ms))),
        None => t.push((key, user_after(user_zero(), agent, latency_ms))),
    }
}

/// One more for `key` in `counts`.
fn bump(counts: &mut Vec<(String, u64)>, key: &str)
    requires
        counts_distinct(counts_view(old(counts)@)),
    ensures
        counts_distinct(counts_view(final(counts)@)),
        counts_view(final(counts)@) == counts_bump(counts_view(old(counts)@), key@),
{
    let ghost c = counts_view(counts@);
    let mut i: usize = 0;
    while i < counts.len()
        invariant
            i <= counts@.len(),
            counts@ == old(counts)@,
            c == counts_view(counts@),
            counts_distinct(c),
            forall|j: int| 0 <= j < i ==> c[j].0 != key@,
        decreases counts.len() - i,
    {
        if same_text(counts[i].0.as_str(), key) {
            let n = counts[i].1.wrapping_add(1);
            let name = counts[i].0.clone();
            counts.set(i, (name, n));
            proof {
                assert(c[i as int].0 == key@);
                let w = choose|w: int| 0 <= w < c.len() && c[w].0 == key@;
                if w != i as int {
                    if w < i {
                    } else {
                        assert(c[i as int].0 != c[w].0);
                    }
                }
                assert(counts_view(counts@) =~= c.update(i as int, (key@, c[i as int].1.wrapping_add(1))));
                let nc = counts_view(counts@);
                assert forall|a: int, b: int| 0 <= a < b < nc.len() implies nc[a].0 != nc[b].0 by {
                    assert(nc[a].0 == c[a].0);
                    assert(nc[b].0 == c[b].0);
                }
            }
            return;
        }
        i += 1;
    }
    counts.push((key.to_string(), 1));
    proof {
        assert(counts_view(counts@) =~= c.push((key@, 1u64)));
    }
}

/// The tracker's limit on recent requests and its tables.
pub struct MetricsTracker {
    agent_metrics: Vec<(String, AgentMetrics)>,
    user_metrics: Vec<(String, UserMetrics)>,
    recent_requests: VecDeque<RequestMetrics>,
    max_recent: usize,
}

/// The recent list after one more request, keeping at most `max` (an empty
/// list when `max` is 0).
pub open spec fn recent_after<T>(r: Seq<T>, m: T, max: nat) -> Seq<T> {
    let pushed = r.push(m);
    if pushed.len() > max { pushed.skip(pushed.len() - max) } else { pushed }
}

impl MetricsTracker {
    /// Agents' counts, in order of first request.
    pub closed spec fn agents(&self) -> TableView<AgentView> {
        self.agent_metrics@.map_values(|p: (String, AgentMetrics)| (p.0@, agent_view(p.1)))
    }

    /// Users' counts, in order of first request.
    pub closed spec fn users(&self) -> TableView<UserView> {
        self.user_metrics@.map_values(|p: (String, UserMetrics)| (p.0@, user_view(p.1)))
    }

    /// The recent requests, oldest first.
    pub closed spec fn recent(&self) -> Seq<RequestMetrics> {
        self.recent_requests@
    }

    /// How many recent requests are kept.
    pub closed spec fn max_recent(&self) -> usize {
        self.max_recent
    }

    /// Names are distinct, averages in range, and the recent list within
    /// its limit.
    pub open spec fn wf(&self) -> bool {
        &&& table_distinct(self.agents())
        &&& table_distinct(self.users())
        &&& agents_in_range(self.agents())
        &&& users_in_range(self.users())
        &&& self.recent().len() <= self.max_recent()
    }

    /// An empty tracker keeping `max_recent` recent requests.
    pub fn new(max_recent: usize) -> (t: Self)
        ensures
            t.wf(),
            t.agents().len() == 0,
            t.users().len() == 0,
            t.recent().len() == 0,
            t.max_recent() == max_recent,
    {
        let t = MetricsTracker {
            agent_metrics: Vec::new(),
            user_metrics: Vec::new(),
            recent_requests: VecDeque::new(),
            max_recent,
        };
        assert(t.agents() =~= Seq::empty());
        assert(t.users() =~= Seq::empty());
        t
    }

    /// Records one request.
    pub fn record(&mut self, metric: RequestMetrics)
        requires
            old(self).wf(),
        ensures
            final(self).wf(),
            final(self).max_recent() == old(self).max_recent(),
            final(self).agents() == agents_after(old(self).agents(), metric.agent_id@, metric.success, metric.latency_ms,
                metric.cached, metric.provider@),
            final(self).users() == users_after(old(self).users(), metric.user_id@, metric.agent_id@, metric.latency_ms),
            final(self).recent() == recent_after(old(self).recent(), metric, old(self).max_recent() as nat),
    {
        let ghost m0 = metric;
        record_agent(&mut self.agent_metrics, &metric);
        record_user(&mut self.user_metrics, &metric);
        let ghost before = self.recent_requests@;
        let ghost agents_now = self.agent_metrics@;
        let ghost users_now = self.user_metrics@;
        self.recent_requests.push_back(metric);
        let ghost pushed = before.push(m0);
        if self.recent_requests.len() > self.max_recent {
            proof {
                assert(pushed.skip(0) =~= pushed);
            }
            while self.recent_requests.len() > self.max_recent
                invariant
                    pushed.len() == before.len() + 1,
                    before.len() <= self.max_recent,
                    self.max_recent == old(self).max_recent,
                    self.agent_metrics@ == agents_now,
                    self.user_metrics@ == users_now,
                    self.recent_requests@.len() >= self.max_recent,
                    self.recent_requests@.len() <= pushed.len(),
                    self.recent_requests@ == pushed.skip(pushed.len() - self.recent_requests@.len()),
                decreases self.recent_requests@.len(),
            {
                self.recent_requests.pop_front();
                proof {
                    assert(self.recent_requests@ =~= pushed.skip(pushed.len() - self.recent_requests@.len()));
                }
            }
        }
    }

    /// The counts of agent `agent_id`, if it made any request.
    pub fn get_agent_metrics(&self, agent_id: &str) -> (m: Option<AgentMetrics>)
        requires
            self.wf(),
        ensures
            match (m, table_pos(self.agents(), agent_id@)) {
                (Some(a), Some(i)) => agent_view(a) == self.agents()[i].1,
                (None, None) => true,
                _ => false,
            },
    {
        let ghost t = self.agents();
        let mut i: usize = 0;
        while i < self.agent_metrics.len()
            invariant
                i <= self.agent_metrics@.len(),
                t == self.agents(),
                t.len() == self.agent_metrics@.len(),
                table_distinct(t),
                forall|j: int| 0 <= j < i ==> t[j].0 != agent_id@,
            decreases self.agent_metrics.len() - i,
        {
            if same_text(self.agent_metrics[i].0.as_str(), agent_id) {
                proof {
                    lemma_table_pos(t, i as int);
                }
                return Some(copy_agent(&self.agent_metrics[i].1));
            }
            i += 1;
        }
        None
    }

    /// The counts of user `user_id`, if they made any request.
    pub fn get_user_metrics(&self, user_id: &str) -> (m: Option<UserMetrics>)
        requires
            self.wf(),
        ensures
            match (m, table_pos(self.users(), user_id@)) {
                (Some(u), Some(i)) => user_view(u) == self.users()[i].1,
                (None, None) => true,
                _ => false,
            },
    {
        let ghost t = self.users();
        let mut i: usize = 0;
        while i < self.user_metrics.len()
            invariant
                i <= self.user_metrics@.len(),
                t == self.users(),
                t.len() == self.user_metrics@.len(),
                table_distinct(t),
                forall|j: int| 0 <= j < i ==> t[j].0 != user_id@,
            decreases self.user_metrics.len() - i,
        {
            if same_text(self.user_metrics[i].0.as_str(), user_id) {
                proof {
                    lemma_table_pos(t, i as int);
                }
                return Some(copy_user(&self.user_metrics[i].1));
            }
            i += 1;
        }
        None
    }

    /// The counts of every agent, in order of first request.
    pub fn get_all_agent_metrics(&self) -> (v: Vec<(String, AgentMetrics)>)
        ensures
            v@.map_values(|p: (String, AgentMetrics)| (p.0@, agent_view(p.1))) == self.agents(),
    {
        let ghost t = self.agents();
        let mut v: Vec<(String, AgentMetrics)> = Vec::new();
        let mut i: usize = 0;
        while i < self.agent_metrics.len()
            invariant
                i <= self.agent_metrics@.len(),
                t == self.agents(),
                v@.map_values(|p: (String, AgentMetrics)| (p.0@, agent_view(p.1))) == t.take(i as int),
            decreases self.agent_metrics.len() - i,
        {
            let ghost before = v@;
            let item = (self.agent_metrics[i].0.clone(), copy_agent(&self.agent_metrics[i].1));
            v.push(item);
            proof {
                lemma_map_push(before, item, |p: (String, AgentMetrics)| (p.0@, agent_view(p.1)));
                lemma_take_push(t, i as int);
            }
            i += 1;
        }
        assert(t.take(t.len() as int) =~= t);
        v
    }

    /// The counts of every user, in order of first request.
    pub fn get_all_user_metrics(&self) -> (v: Vec<(String, UserMetrics)>)
        ensures
            v@.map_values(|p: (String, UserMetrics)| (p.0@, user_view(p.1))) == self.users(),
    {
        let ghost t = self.users();
        let mut v: Vec<(String, UserMetrics)> = Vec::new();
        let mut i: usize = 0;
        while i < self.user_metrics.len()
            invariant
                i <= self.user_metrics@.len(),
                t == self.users(),
                v@.map_values(|p: (String, UserMetrics)| (p.0@, user_view(p.1))) == t.take(i as int),
            decreases self.user_metrics.len() - i,
        {
            let ghost before = v@;
            let item = (self.user_metrics[i].0.clone(), copy_user(&self.user_metrics[i].1));
            v.push(item);
            proof {
                lemma_map_push(before, item, |p: (String, UserMetrics)| (p.0@, user_view(p.1)));
                lemma_take_push(t, i as int);
            }
            i += 1;
        }
        assert(t.take(t.len() as int) =~= t);
        v
    }

    /// The last `limit` recent requests, oldest first.
    pub fn get_recent_requests(&self, limit: usize) -> (v: Vec<RequestMetrics>)
        ensures
            v@.len() == if limit < self.recent().len() { limit as int } else { self.recent().len() as int },
            forall|i: int| 0 <= i < v@.len() ==> same_metrics(#[trigger] v@[i], self.recent()[self.recent().len() - v@.len() + i]),
    {
        let n = self.recent_requests.len();
        let start = if n > limit { n - limit } else { 0 };
        let mut v: Vec<RequestMetrics> = Vec::new();
        let mut i: usize = start;
        while i < n
            invariant
                n == self.recent_requests@.len(),
                start <= i <= n,
                start == if n > limit { n - limit } else { 0 },
                v@.len() == i - start,
                forall|j: int| 0 <= j < v@.len() ==> same_metrics(#[trigger] v@[j], self.recent()[start + j]),
            decreases n - i,
        {
            v.push(copy_metrics(&self.recent_requests[i]));
            i += 1;
        }
        v
    }

    /// The `limit` agents with the most requests, with their counts, most
    /// first (agents with equal counts in no fixed order).
    pub fn get_top_agents(&self, limit: usize) -> (v: Vec<(String, u64)>)
        requires
            self.wf(),
        ensures
            v@.len() == if limit < self.agents().len() { limit as int } else { self.agents().len() as int },
            top_of(v@.map_values(|p: (String, u64)| (p.0@, p.1)), self.agents().map_values(|e: (Seq<char>, AgentView)| (e.0, e.1.0))),
    {
        let mut keys: Vec<(String, u64)> = Vec::new();
        let mut i: usize = 0;
        while i < self.agent_metrics.len()
            invariant
                i <= self.agent_metrics@.len(),
                keys@.map_values(|p: (String, u64)| (p.0@, p.1)) == self.agents().map_values(|e: (Seq<char>, AgentView)| (e.0, e.1.0)).take(i as int),
            decreases self.agent_metrics.len() - i,
        {
            let ghost before = keys@;
            let item = (self.agent_metrics[i].0.clone(), self.agent_metrics[i].1.total_requests);
            keys.push(item);
            proof {
                lemma_map_push(before, item, |p: (String, u64)| (p.0@, p.1));
                lemma_take_push(self.agents().map_values(|e: (Seq<char>, AgentView)| (e.0, e.1.0)), i as int);
            }
            i += 1;
        }
        let ghost all = self.agents().map_values(|e: (Seq<char>, AgentView)| (e.0, e.1.0));
        assert(all.take(all.len() as int) =~= all);
        top_counts(&keys, limit)
    }

    /// The `limit` users with the most requests, with their counts, most
    /// first (users with equal counts in no fixed order).
    pub fn get_top_users(&self, limit: usize) -> (v: Vec<(String, u64)>)
        requires
            self.wf(),
        ensures
            v@.len() == if limit < self.users().len() { limit as int } else { self.users().len() as int },
            top_of(v@.map_values(|p: (String, u64)| (p.0@, p.1)), self.users().map_values(|e: (Seq<char>, UserView)| (e.0, e.1.0))),
    {
        let mut keys: Vec<(String, u64)> = Vec::new();
        let mut i: usize = 0;
        while i < self.user_metrics.len()
            invariant
                i <= self.user_metrics@.len(),
                keys@.map_values(|p: (String, u64)| (p.0@, p.1)) == self.users().map_values(|e: (Seq<char>, UserView)| (e.0, e.1.0)).take(i as int),
            decreases self.user_metrics.len() - i,
        {
            let ghost before = keys@;
            let item = (self.user_metrics[i].0.clone(), self.user_metrics[i].1.total_requests);
            keys.push(item);
            proof {
                lemma_map_push(before, item, |p: (String, u64)| (p.0@, p.1));
                lemma_take_push(self.users().map_values(|e: (Seq<char>, UserView)| (e.0, e.1.0)), i as int);
            }
            i += 1;
        }
        let ghost all = self.users().map_values(|e: (Seq<char>, UserView)| (e.0, e.1.0));
        assert(all.take(all.len() as int) =~= all);
        top_counts(&keys, limit)
    }

    /// Totals over all agents (each counted modulo 2^64), the number of
    /// agents and users, the sum of the agents' average latencies, and the
    /// number of recent requests.
    pub fn get_global_stats(&self) -> (g: GlobalStats)
        ensures
            g.total_agents == self.agents().len(),
            g.total_users == self.users().len(),
            g.recent_requests_count == self.recent().len(),
            g.total_requests == sum_field(self.agents(), 0),
            g.total_errors == sum_field(self.agents(), 1),
            g.total_cache_hits == sum_field(self.agents(), 3),
            g.total_cache_misses == sum_field(self.agents(), 4),
            g.latency_sum_milli == avg_sum(self.agents()),
    {
        let ghost t = self.agents();
        let mut g = GlobalStats {
            total_requests: 0,
            total_errors: 0,
            total_cache_hits: 0,
            total_cache_misses: 0,
            total_agents: self.agent_metrics.len(),
            total_users: self.user_metrics.len(),
            latency_sum_milli: 0,
            recent_requests_count: self.recent_requests.len(),
        };
        let mut i: usize = 0;
        while i < self.agent_metrics.len()
            invariant
                i <= self.agent_metrics@.len(),
                t == self.agents(),
                t.len() == self.agent_metrics@.len(),
                g.total_agents == t.len(),
                g.total_users == self.users().len(),
                g.recent_requests_count == self.recent().len(),
                g.total_requests == sum_field(t.take(i as int), 0),
                g.total_errors == sum_field(t.take(i as int), 1),
                g.total_cache_hits == sum_field(t.take(i as int), 3),
                g.total_cache_misses == sum_field(t.take(i as int), 4),
                g.latency_sum_milli == avg_sum(t.take(i as int)),
            decreases self.agent_metrics.len() - i,
        {
            proof {
                assert(t.take(i + 1).drop_last() =~= t.take(i as int));
            }
            let m = &self.agent_metrics[i].1;
            g.total_requests = g.total_requests.wrapping_add(m.total_requests);
            g.total_errors = g.total_errors.wrapping_add(m.total_errors);
            g.total_cache_hits = g.total_cache_hits.wrapping_add(m.cache_hits);
            g.total_cache_misses = g.total_cache_misses.wrapping_add(m.cache_misses);
            g.latency_sum_milli = g.latency_sum_milli.wrapping_add(m.avg_latency_milli);
            i += 1;
        }
        assert(t.take(t.len() as int) =~= t);
        g
    }
}

/// Sum, modulo 2^64, of a counter of the agents' counts: 0 requests, 1
/// errors, 3 cache hits, 4 cache misses.
pub open spec fn sum_field(t: TableView<AgentView>, field: int) -> u64
    decreases t.len(),
{
    if t.len() == 0 {
        0
    } else {
        let a = t.last().1;
        let v = if field == 0 { a.0 } else if field == 1 { a.1 } else if field == 3 { a.3 } else { a.4 };
        sum_field(t.drop_last(), field).wrapping_add(v)
    }
}

/// Sum, modulo 2^128, of the agents' average latencies.
pub open spec fn avg_sum(t: TableView<AgentView>) -> u128
    decreases t.len(),
{
    if t.len() == 0 {
        0
    } else {
        avg_sum(t.drop_last()).wrapping_add(t.last().1.2)
    }
}

/// Collector-wide figures.
#[derive(Debug, Clone, Copy)]
pub struct GlobalStats {
    pub total_requests: u64,
    pub total_errors: u64,
    pub total_cache_hits: u64,
    pub total_cache_misses: u64,
    pub total_agents: usize,
    pub total_users: usize,
    /// Sum of the agents' average latencies, in thousandths of a millisecond.
    pub latency_sum_milli: u128,
    pub recent_requests_count: usize,
}

/// `top` lists some of the names of `all` with their counts, each at most
/// once, most first, and no name left out has more than any listed.
pub open spec fn top_of(top: Seq<(Seq<char>, u64)>, all: Seq<(Seq<char>, u64)>) -> bool {
    exists|perm: Seq<usize>| {
        &&& #[trigger] is_arrangement(perm, all.len())
        &&& forall|j: int| 0 <= j < top.len() ==> top[j] == all[perm[j] as int]
        &&& forall|a: int, b: int| 0 <= a < b < top.len() ==> top[a].1 >= top[b].1
        &&& forall|a: int, b: int| 0 <= a < top.len() && top.len() <= b < all.len() ==> top[a].1 >= all[perm[b] as int].1
    }
}

/// The `limit` entries with the largest counts, largest first.
fn top_counts(entries: &Vec<(String, u64)>, limit: usize) -> (v: Vec<(String, u64)>)
    ensures
        v@.len() == if limit < entries@.len() { limit as int } else { entries@.len() as int },
        top_of(v@.map_values(|p: (String, u64)| (p.0@, p.1)), entries@.map_values(|p: (String, u64)| (p.0@, p.1))),
{
    let ghost all = entries@.map_values(|p: (String, u64)| (p.0@, p.1));
    let mut keys: Vec<u64> = Vec::new();
    let mut i: usize = 0;
    while i < entries.len()
        invariant
            i <= entries@.len(),
            keys@.len() == i,
            forall|j: int| 0 <= j < i ==> keys@[j] == u64::MAX - entries@[j].1,
        decreases entries.len() - i,
    {
        keys.push(u64::MAX - entries[i].1);
        i += 1;
    }
    let order = positions_by_key(&keys);
    let n = entries.len();
    let m = if limit < n { limit } else { n };
    let mut v: Vec<(String, u64)> = Vec::new();
    let mut k: usize = 0;
    while k < m
        invariant
            m <= n,
            n == entries@.len(),
            k <= m,
            is_arrangement(order@, n as nat),
            all == entries@.map_values(|p: (String, u64)| (p.0@, p.1)),
            v@.len() == k,
            forall|j: int| 0 <= j < k ==> (#[trigger] v@[j]).0@ == all[order@[j] as int].0 && v@[j].1 == all[order@[j] as int].1,
        decreases m - k,
    {
        let p = order[k];
        v.push((entries[p].0.clone(), entries[p].1));
        k += 1;
    }
    proof {
        let top = v@.map_values(|p: (String, u64)| (p.0@, p.1));
        assert forall|j: int| 0 <= j < top.len() implies top[j] == all[order@[j] as int] by {
            assert(v@[j].0@ == all[order@[j] as int].0);
        }
        assert forall|a: int, b: int| 0 <= a < b < top.len() implies top[a].1 >= top[b].1 by {
            assert(keys@[order@[a] as int] <= keys@[order@[b] as int]);
            assert(top[a] == all[order@[a] as int]);
            assert(top[b] == all[order@[b] as int]);
        }
        assert forall|a: int, b: int| 0 <= a < top.len() && top.len() <= b < all.len() implies top[a].1 >= all[order@[b] as int].1 by {
            assert(keys@[order@[a] as int] <= keys@[order@[b] as int]);
            assert(top[a] == all[order@[a] as int]);
        }
        assert(is_arrangement(order@, all.len()));
    }
    v
}

/// A copy of `m`.
pub fn copy_counts(v: &Vec<(String, u64)>) -> (c: Vec<(String, u64)>)
    ensures
        counts_view(c@) == counts_view(v@),
{
    let mut c: Vec<(String, u64)> = Vec::new();
    let mut i: usize = 0;
    while i < v.len()
        invariant
            i <= v@.len(),
            counts_view(c@) == counts_view(v@).take(i as int),
        decreases v.len() - i,
    {
        let ghost before = c@;
        let item = (v[i].0.clone(), v[i].1);
        c.push(item);
        proof {
            lemma_map_push(before, item, |p: (String, u64)| (p.0@, p.1));
            lemma_take_push(counts_view(v@), i as int);
        }
        i += 1;
    }
    assert(counts_view(v@).take(v@.len() as int) =~= counts_view(v@));
    c
}

/// A copy of `m`.
pub fn copy_agent(m: &AgentMetrics) -> (c: AgentMetrics)
    ensures
        agent_view(c) == agent_view(*m),
{
    AgentMetrics {
        total_requests: m.total_requests,
        total_errors: m.total_errors,
        avg_latency_milli: m.avg_latency_milli,
        cache_hits: m.cache_hits,
        cache_misses: m.cache_misses,
        providers_used: copy_counts(&m.providers_used),
    }
}

/// A copy of `m`.
pub fn copy_user(m: &UserMetrics) -> (c: UserMetrics)
    ensures
        user_view(c) == user_view(*m),
{
    UserMetrics {
        total_requests: m.total_requests,
        agents_interacted: copy_counts(&m.agents_interacted),
        avg_latency_milli: m.avg_latency_milli,
    }
}

/// The moving average after a request of `latency_ms` (see `ema_next`).
fn ema(avg_milli: u128, latency_ms: u64) -> (r: u128)
    requires
        avg_milli <= ema_bound(),
    ensures
        r == ema_next(avg_milli, latency_ms),
        r <= ema_bound(),
{
    (3 * (latency_ms as u128) * 1000 + 7 * avg_milli) / 10
}

/// Updates (or adds) the counts of the request's agent.
fn record_agent(table: &mut Vec<(String, AgentMetrics)>, metric: &RequestMetrics)
    requires
        table_distinct(old(table)@.map_values(|p: (String, AgentMetrics)| (p.0@, agent_view(p.1)))),
        agents_in_range(old(table)@.map_values(|p: (String, AgentMetrics)| (p.0@, agent_view(p.1)))),
    ensures
        table_distinct(final(table)@.map_values(|p: (String, AgentMetrics)| (p.0@, agent_view(p.1)))),
        agents_in_range(final(table)@.map_values(|p: (String, AgentMetrics)| (p.0@, agent_view(p.1)))),
        final(table)@.map_values(|p: (String, AgentMetrics)| (p.0@, agent_view(p.1))) == agents_after(
            old(table)@.map_values(|p: (String, AgentMetrics)| (p.0@, agent_view(p.1))), metric.agent_id@, metric.success,
            metric.latency_ms, metric.cached, metric.provider@),
{
    let ghost t = table@.map_values(|p: (String, AgentMetrics)| (p.0@, agent_view(p.1)));
    let mut i: usize = 0;
    while i < table.len()
        invariant
            i <= table@.len(),
            table@ == old(table)@,
            t == table@.map_values(|p: (String, AgentMetrics)| (p.0@, agent_view(p.1))),
            table_distinct(t),
            agents_in_range(t),
            forall|j: int| 0 <= j < i ==> t[j].0 != metric.agent_id@,
        decreases table.len() - i,
    {
        if same_text(table[i].0.as_str(), metric.agent_id.as_str()) {
            proof {
                lemma_table_pos(t, i as int);
                assert(t[i as int].1.2 <= ema_bound() && counts_distinct(t[i as int].1.5));
            }
            let mut m = copy_agent(&table[i].1);
            let ghost m_before = agent_view(m);
            update_agent(&mut m, metric);
            proof {
                assert(m_before == t[i as int].1);
                assert(agent_view(m) == agent_after(m_before, metric.success, metric.latency_ms, metric.cached, metric.provider@));
            }
            let name = table[i].0.clone();
            let ghost before = table@;
            let item = (name, m);
            table.set(i, item);
            proof {
                lemma_map_update(before, i as int, item, |p: (String, AgentMetrics)| (p.0@, agent_view(p.1)));
                let nt = table@.map_values(|p: (String, AgentMetrics)| (p.0@, agent_view(p.1)));
                assert(t[i as int] == (before[i as int].0@, agent_view(before[i as int].1)));
                assert(item.0@ == metric.agent_id@);
                assert(nt =~= t.update(i as int, (metric.agent_id@, agent_after(t[i as int].1, metric.success, metric.latency_ms, metric.cached, metric.provider@))));
                assert forall|a: int, b: int| 0 <= a < b < nt.len() implies nt[a].0 != nt[b].0 by {
                    assert(nt[a].0 == t[a].0);
                    assert(nt[b].0 == t[b].0);
                }
                assert forall|j: int| 0 <= j < nt.len() implies (#[trigger] nt[j]).1.2 <= ema_bound() && counts_distinct(nt[j].1.5) by {
                    if j != i as int {
                        assert(nt[j] == t[j]);
                    }
                }
            }
            return;
        }
        i += 1;
    }
    proof {
        assert(table_pos(t, metric.agent_id@) is None);
    }
    let mut m = AgentMetrics {
        total_requests: 0,
        total_errors: 0,
        avg_latency_milli: 0,
        cache_hits: 0,
        cache_misses: 0,
        providers_used: Vec::new(),
    };
    proof {
        assert(agent_view(m) == agent_zero()) by {
            assert(counts_view(m.providers_used@) =~= Seq::empty());
        }
    }
    update_agent(&mut m, metric);
    let ghost before = table@;
    let item = (metric.agent_id.clone(), m);
    table.push(item);
    proof {
        lemma_map_push(before, item, |p: (String, AgentMetrics)| (p.0@, agent_view(p.1)));
        let nt = table@.map_values(|p: (String, AgentMetrics)| (p.0@, agent_view(p.1)));
        assert(nt =~= t.push((metric.agent_id@, agent_after(agent_zero(), metric.success, metric.latency_ms, metric.cached, metric.provider@))));
        assert forall|j: int| 0 <= j < nt.len() implies (#[trigger] nt[j]).1.2 <= ema_bound() && counts_distinct(nt[j].1.5) by {
            if j < t.len() {
                assert(nt[j] == t[j]);
            }
        }
    }
}

/// Applies one request to an agent's counts.
fn update_agent(m: &mut AgentMetrics, metric: &RequestMetrics)
    requires
        old(m).avg_latency_milli <= ema_bound(),
        counts_distinct(counts_view(old(m).providers_used@)),
    ensures
        agent_view(*final(m)) == agent_after(agent_view(*old(m)), metric.success, metric.latency_ms, metric.cached, metric.provider@),
        final(m).avg_latency_milli <= ema_bound(),
        counts_distinct(counts_view(final(m).providers_used@)),
{
    m.total_requests = m.total_requests.wrapping_add(1);
    if !metric.success {
        m.total_errors = m.total_errors.wrapping_add(1);
    }
    if metric.cached {
        m.cache_hits = m.cache_hits.wrapping_add(1);
    } else {
        m.cache_misses = m.cache_misses.wrapping_add(1);
    }
    m.avg_latency_milli = ema(m.avg_latency_milli, metric.latency_ms);
    bump(&mut m.providers_used, metric.provider.as_str());
}

/// Updates (or adds) the counts of the request's user.
fn record_user(table: &mut Vec<(String, UserMetrics)>, metric: &RequestMetrics)
    requires
        table_distinct(old(table)@.map_values(|p: (String, UserMetrics)| (p.0@, user_view(p.1)))),
        users_in_range(old(table)@.map_values(|p: (String, UserMetrics)| (p.0@, user_view(p.1)))),
    ensures
        table_distinct(final(table)@.map_values(|p: (String, UserMetrics)| (p.0@, user_view(p.1)))),
        users_in_range(final(table)@.map_values(|p: (String, UserMetrics)| (p.0@, user_view(p.1)))),
        final(table)@.map_values(|p: (String, UserMetrics)| (p.0@, user_view(p.1))) == users_after(
            old(table)@.map_values(|p: (String, UserMetrics)| (p.0@, user_view(p.1))), metric.user_id@, metric.agent_id@,
            metric.latency_ms),
{
    let ghost t = table@.map_values(|p: (String, UserMetrics)| (p.0@, user_view(p.1)));
    let mut i: usize = 0;
    while i < table.len()
        invariant
            i <= table@.len(),
            table@ == old(table)@,
            t == table@.map_values(|p: (String, UserMetrics)| (p.0@, user_view(p.1))),
            table_distinct(t),
            users_in_range(t),
            forall|j: int| 0 <= j < i ==> t[j].0 != metric.user_id@,
        decreases table.len() - i,
    {
        if same_text(table[i].0.as_str(), metric.user_id.as_str()) {
            proof {
                lemma_table_pos(t, i as int);
                assert(t[i as int].1.2 <= ema_bound() && counts_distinct(t[i as int].1.1));
            }
            let mut m = copy_user(&table[i].1);
            let ghost m_before = user_view(m);
            update_user(&mut m, metric);
            proof {
                assert(m_before == t[i as int].1);
                assert(user_view(m) == user_after(m_before, metric.agent_id@, metric.latency_ms));
            }
            let name = table[i].0.clone();
            let ghost before = table@;
            let item = (name, m);
            table.set(i, item);
            proof {
                lemma_map_update(before, i as int, item, |p: (String, UserMetrics)| (p.0@, user_view(p.1)));
                let nt = table@.map_values(|p: (String, UserMetrics)| (p.0@, user_view(p.1)));
                assert(t[i as int] == (before[i as int].0@, user_view(before[i as int].1)));
                assert(item.0@ == metric.user_id@);
                assert(nt =~= t.update(i as int, (metric.user_id@, user_after(t[i as int].1, metric.agent_id@, metric.latency_ms))));
                assert forall|a: int, b: int| 0 <= a < b < nt.len() implies nt[a].0 != nt[b].0 by {
                    assert(nt[a].0 == t[a].0);
                    assert(nt[b].0 == t[b].0);
                }
                assert forall|j: int| 0 <= j < nt.len() implies (#[trigger] nt[j]).1.2 <= ema_bound() && counts_distinct(nt[j].1.1) by {
                    if j != i as int {
                        assert(nt[j] == t[j]);
                    }
                }
            }
            return;
        }
        i += 1;
    }
    proof {
        assert(table_pos(t, metric.user_id@) is None);
    }
    let mut m = UserMetrics { total_requests: 0, agents_interacted: Vec::new(), avg_latency_milli: 0 };
    proof {
        assert(user_view(m) == user_zero()) by {
            assert(counts_view(m.agents_interacted@) =~= Seq::empty());
        }
    }
    update_user(&mut m, metric);
    let ghost before = table@;
    let item = (metric.user_id.clone(), m);
    table.push(item);
    proof {
        lemma_map_push(before, item, |p: (String, UserMetrics)| (p.0@, user_view(p.1)));
        let nt = table@.map_values(|p: (String, UserMetrics)| (p.0@, user_view(p.1)));
        assert(nt =~= t.push((metric.user_id@, user_after(user_zero(), metric.agent_id@, metric.latency_ms))));
        assert forall|j: int| 0 <= j < nt.len() implies (#[trigger] nt[j]).1.2 <= ema_bound() && counts_distinct(nt[j].1.1) by {
            if j < t.len() {
                assert(nt[j] == t[j]);
            }
        }
    }
}

/// Applies one request to a user's counts.
fn update_user(m: &mut UserMetrics, metric: &RequestMetrics)
    requires
        old(m).avg_latency_milli <= ema_bound(),
        counts_distinct(counts_view(old(m).agents_interacted@)),
    ensures
        user_view(*final(m)) == user_after(user_view(*old(m)), metric.agent_id@, metric.latency_ms),
        final(m).avg_latency_milli <= ema_bound(),
        counts_distinct(counts_view(final(m).agents_interacted@)),
{
    m.total_requests = m.total_requests.wrapping_add(1);
    bump(&mut m.agents_interacted, metric.agent_id.as_str());
    m.avg_latency_milli = ema(m.avg_latency_milli, metric.latency_ms);
}

proof fn lemma_table_pos<V>(t: TableView<V>, i: int)
    requires
        table_distinct(t),
        0 <= i < t.len(),
    ensures
        table_pos(t, t[i].0) == Some(i),
{
    let c = choose|c: int| 0 <= c < t.len() && t[c].0 == t[i].0;
    if c != i {
        if c < i {
            assert(t[c].0 != t[i].0);
        } else {
            assert(t[i].0 != t[c].0);
        }
    }
}

} // verus!
