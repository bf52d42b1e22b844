//! The set of configured language-model providers, and the choices made
//! when a chat request is spread over them: the order in which providers are
//! tried under each failover strategy, and the request log kept on the way.
//!
//! The registry holds each provider's client as an opaque value; the calls
//! into the clients are made by the caller, in the order the registry gives.

use vstd::prelude::*;
use rand::seq::SliceRandom;
use crate::chat::ChatResponse;
use crate::ordering::{occurs, is_arrangement, positions_by_key};
use crate::provider_health::clock_secs;
use crate::request_log::{RequestMetricsCollector, RequestRecord, record_view, index_record, push_window,
    placeholder_view, AGENT_WINDOW, USER_WINDOW, RecordView};
use crate::text::same_text;
use crate::llm_flow::LLMError;

verus! {

/// Most providers a registry holds.
pub const MAX_PROVIDERS: usize = 20;

/// How a chat request is spread over the providers.
#[derive(Debug, Clone, Copy, PartialEq, Eq, Structural)]
pub enum FailoverStrategy {
    /// Enabled providers in priority order, until one answers.
    Priority,
    /// The next enabled provider in turn, then the others.
    RoundRobin,
    /// Healthy enabled providers, fastest on average first.
    LeastLatency,
    /// Enabled providers in a random order.
    Random,
}

/// The strategy a setting names: `round_robin`, `least_latency` or
/// `random`; anything else, or no setting, means `Priority`.
pub open spec fn strategy_named(value: Option<Seq<char>>) -> FailoverStrategy {
    match value {
        Some(v) => if v == "round_robin"@ {
            FailoverStrategy::RoundRobin
        } else if v == "least_latency"@ {
            FailoverStrategy::LeastLatency
        } else if v == "random"@ {
            FailoverStrategy::Random
        } else {
            FailoverStrategy::Priority
        },
        None => FailoverStrategy::Priority,
    }
}

/// The strategy a setting names (see `strategy_named`).
pub fn strategy_from_setting(value: Option<&str>) -> (s: FailoverStrategy)
    ensures
        s == strategy_named(match value { Some(v) => Some(v@), None => None }),
{
    match value {
        Some(v) => {
            if same_text(v, "round_robin") {
                FailoverStrategy::RoundRobin
            } else if same_text(v, "least_latency") {
                FailoverStrategy::LeastLatency
            } else if same_text(v, "random") {
                FailoverStrategy::Random
            } else {
                FailoverStrategy::Priority
            }
        },
        None => FailoverStrategy::Priority,
    }
}

/// One registered provider: its name, priority (lower is tried first),
/// whether it is enabled, and its client.
pub struct ProviderSlot<C> {
    pub name: String,
    pub priority: u32,
    pub enabled: bool,
    pub client: C,
}

/// A provider as plain values: name, priority and enabled flag.
pub type SlotView = (Seq<char>, u32, bool);

/// The message of a registration refused for want of room.
pub open spec fn registry_full_text() -> Seq<char> {
    "Maximum number of providers (20) reached"@
}

/// The position of provider `name`, if registered.
pub open spec fn slot_pos(s: Seq<SlotView>, name: Seq<char>) -> Option<int> {
    if exists|i: int| 0 <= i < s.len() && s[i].0 == name {
        Some(choose|i: int| 0 <= i < s.len() && s[i].0 == name)
    } else {
        None
    }
}

/// No name is registered twice.
pub open spec fn names_distinct(s: Seq<SlotView>) -> bool {
    forall|i: int, j: int| 0 <= i < j < s.len() ==> s[i].0 != s[j].0
}

/// The providers after registering `v`: a provider of the same name is
/// replaced in place, or `v` is added at the end.
pub open spec fn slots_put(s: Seq<SlotView>, v: SlotView) -> Seq<SlotView> {
    match slot_pos(s, v.0) {
        Some(i) => s.update(i, v),
        None => s.push(v),
    }
}

/// Number of positions `i` where provider `i` is enabled and `healthy[i]`.
pub open spec fn count_ready(s: Seq<SlotView>, healthy: Seq<bool>) -> nat
    decreases s.len(),
{
    if s.len() == 0 || healthy.len() < s.len() {
        0
    } else {
        count_ready(s.drop_last(), healthy) + if s.last().2 && healthy[s.len() - 1] { 1nat } else { 0nat }
    }
}

/// A request record built from its parts.
pub open spec fn record_of(agent: Seq<char>, user: Seq<char>, provider: Seq<char>, latency: u64, cached: bool, success: bool, timestamp: i64) -> RecordView {
    (agent, user, provider, latency, cached, success, timestamp)
}

/// Whether a reply was served from a cache, `false` when it does not say.
/// `e` lists the positions of the enabled providers, each once.
pub open spec fn lists_enabled(s: Seq<SlotView>, e: Seq<usize>) -> bool {
    &&& forall|j: int| 0 <= j < e.len() ==> e[j] < s.len() && s[e[j] as int].2
    &&& forall|a: int, b: int| 0 <= a < b < e.len() ==> e[a] != e[b]
    &&& forall|p: int| 0 <= p < s.len() && s[p].2 ==> #[trigger] occurs(e, p)
}

pub open spec fn cached_flag(c: Option<bool>) -> bool {
    match c {
        Some(b) => b,
        None => false,
    }
}

/// The registered providers, with a failover strategy and a request log.
pub struct LLMProviderRegistry<C> {
    clients: Vec<ProviderSlot<C>>,
    strategy: FailoverStrategy,
    counter: usize,
    metrics: RequestMetricsCollector,
}

impl<C> LLMProviderRegistry<C> {
    /// The providers as plain values, in order of registration.
    pub closed spec fn slots(&self) -> Seq<SlotView> {
        self.clients@.map_values(|s: ProviderSlot<C>| (s.name@, s.priority, s.enabled))
    }

    /// The client of the provider at position `i`.
    pub closed spec fn client_at(&self, i: int) -> C {
        self.clients@[i].client
    }

    /// The failover strategy.
    pub closed spec fn strategy_spec(&self) -> FailoverStrategy {
        self.strategy
    }

    /// How many round-robin turns have been taken (modulo the word size).
    pub closed spec fn turns(&self) -> usize {
        self.counter
    }

    /// The request log.
    pub closed spec fn log(&self) -> RequestMetricsCollector {
        self.metrics
    }

    /// Names are distinct, there are at most `MAX_PROVIDERS` providers, and
    /// the request log is well formed.
    pub open spec fn wf(&self) -> bool {
        &&& names_distinct(self.slots())
        &&& self.slots().len() <= MAX_PROVIDERS
        &&& self.log().wf()
    }

    /// An empty registry using `strategy`.
    pub fn new(strategy: FailoverStrategy) -> (r: Self)
        ensures
            r.wf(),
            r.slots().len() == 0,
            r.strategy_spec() == strategy,
            r.turns() == 0,
            r.log().log().len() == 0,
            r.log().agents().len() == 0,
            r.log().users().len() == 0,
    {
        let r = LLMProviderRegistry {
            clients: Vec::new(),
            strategy,
            counter: 0,
            metrics: RequestMetricsCollector::new(),
        };
        assert(r.slots() =~= Seq::empty());
        r
    }

    /// The failover strategy.
    pub fn strategy(&self) -> (s: FailoverStrategy)
        ensures
            s == self.strategy_spec(),
    {
        self.strategy
    }

    /// The request log.
    pub fn metrics(&self) -> (m: &RequestMetricsCollector)
        ensures
            *m == self.log(),
    {
        &self.metrics
    }

    /// The providers, in order of registration.
    pub fn providers(&self) -> (v: &Vec<ProviderSlot<C>>)
        ensures
            v@.map_values(|s: ProviderSlot<C>| (s.name@, s.priority, s.enabled)) == self.slots(),
    {
        &self.clients
    }

    /// `Ok` when there is room for one more provider, else the error a
    /// registration would give.
    pub fn check_room(&self) -> (r: Result<(), String>)
        ensures
            r is Ok <==> self.slots().len() < MAX_PROVIDERS,
            match r {
                Err(msg) => msg@ == registry_full_text(),
                Ok(()) => true,
            },
    {
        if self.clients.len() >= MAX_PROVIDERS {
            Err("Maximum number of providers (20) reached".to_string())
        } else {
            Ok(())
        }
    }

    /// Position of provider `name`, if registered.
    fn find(&self, name: &str) -> (r: Option<usize>)
        requires
            names_distinct(self.slots()),
        ensures
            match r {
                Some(i) => i < self.slots().len() && slot_pos(self.slots(), name@) == Some(i as int),
                None => slot_pos(self.slots(), name@) is None,
            },
    {
        let ghost s = self.slots();
        let mut i: usize = 0;
        while i < self.clients.len()
            invariant
                i <= self.clients@.len(),
                s == self.slots(),
                s.len() == self.clients@.len(),
                names_distinct(s),
                forall|j: int| 0 <= j < i ==> s[j].0 != name@,
            decreases self.clients.len() - i,
        {
            if same_text(self.clients[i].name.as_str(), name) {
                proof {
                    assert(s[i as int].0 == name@);
                    lemma_slot_pos(s, i as int);
                }
                return Some(i);
            }
            i += 1;
        }
        None
    }

    /// Registers a provider, replacing one of the same name. Refused when
    /// the registry already holds `MAX_PROVIDERS` providers.
    pub fn register(&mut self, name: String, priority: u32, enabled: bool, client: C) -> (r: Result<(), String>)
        requires
            old(self).wf(),
        ensures
            final(self).wf(),
            final(self).strategy_spec() == old(self).strategy_spec(),
            final(self).turns() == old(self).turns(),
            final(self).log() == old(self).log(),
            r is Ok <==> old(self).slots().len() < MAX_PROVIDERS,
            match r {
                Err(msg) => msg@ == registry_full_text() && final(self).slots() == old(self).slots(),
                Ok(()) => final(self).slots() == slots_put(old(self).slots(), (name@, priority, enabled)),
            },
    {
        if self.clients.len() >= MAX_PROVIDERS {
            return Err("Maximum number of providers (20) reached".to_string());
        }
        let ghost s = self.slots();
        let ghost v: SlotView = (name@, priority, enabled);
        match self.find(name.as_str()) {
            Some(i) => {
                self.clients.set(i, ProviderSlot { name, priority, enabled, client });
                proof {
                    assert(self.slots() =~= s.update(i as int, v));
                    let ns = self.slots();
                    assert forall|a: int, b: int| 0 <= a < b < ns.len() implies ns[a].0 != ns[b].0 by {
                        assert(ns[a].0 == s[a].0);
                        assert(ns[b].0 == s[b].0);
                    }
                }
            },
            None => {
                self.clients.push(ProviderSlot { name, priority, enabled, client });
                proof {
                    assert(self.slots() =~= s.push(v));
                    let ns = self.slots();
                    assert forall|a: int, b: int| 0 <= a < b < ns.len() implies ns[a].0 != ns[b].0 by {
                        if b == s.len() {
                            if s[a].0 == v.0 {
                                assert(slot_pos(s, v.0) is Some);
                            }
                        }
                    }
                }
            },
        }
        Ok(())
    }

    /// Removes provider `name`; says whether it was registered.
    pub fn unregister(&mut self, name: &str) -> (found: bool)
        requires
            old(self).wf(),
        ensures
            final(self).wf(),
            final(self).strategy_spec() == old(self).strategy_spec(),
            final(self).turns() == old(self).turns(),
            final(self).log() == old(self).log(),
            found <==> slot_pos(old(self).slots(), name@) is Some,
            match slot_pos(old(self).slots(), name@) {
                Some(i) => final(self).slots() == old(self).slots().remove(i),
                None => final(self).slots() == old(self).slots(),
            },
    {
        let ghost s = self.slots();
        match self.find(name) {
            Some(i) => {
                let _ = self.clients.remove(i);
                proof {
                    assert(self.slots() =~= s.remove(i as int));
                    let ns = self.slots();
                    assert forall|a: int, b: int| 0 <= a < b < ns.len() implies ns[a].0 != ns[b].0 by {
                        let a0 = if a < i { a } else { a + 1 };
                        let b0 = if b < i { b } else { b + 1 };
                        assert(ns[a] == s[a0]);
                        assert(ns[b] == s[b0]);
                    }
                }
                true
            },
            None => false,
        }
    }

    /// The client of provider `name`, if registered.
    pub fn get(&self, name: &str) -> (c: Option<&C>)
        requires
            self.wf(),
        ensures
            c is Some <==> slot_pos(self.slots(), name@) is Some,
            match c {
                Some(client) => *client == self.client_at(slot_pos(self.slots(), name@)->0),
                None => true,
            },
    {
        match self.find(name) {
            Some(i) => Some(&self.clients[i].client),
            None => None,
        }
    }

    /// Number of providers registered.
    pub fn provider_count(&self) -> (n: usize)
        ensures
            n == self.slots().len(),
    {
        self.clients.len()
    }

    /// Number of providers that are enabled and, by `healthy` (one flag per
    /// provider, in order of registration), healthy.
    pub fn enabled_count(&self, healthy: &Vec<bool>) -> (n: usize)
        requires
            healthy@.len() == self.slots().len(),
        ensures
            n == count_ready(self.slots(), healthy@),
    {
        let ghost s = self.slots();
        let mut n: usize = 0;
        let mut i: usize = 0;
        while i < self.clients.len()
            invariant
                i <= self.clients@.len(),
                s == self.slots(),
                s.len() == self.clients@.len(),
                healthy@.len() == s.len(),
                n == count_ready(s.take(i as int), healthy@),
                n <= i,
            decreases self.clients.len() - i,
        {
            proof {
                assert(s.take(i + 1).drop_last() =~= s.take(i as int));
            }
            if self.clients[i].enabled && healthy[i] {
                n += 1;
            }
            i += 1;
        }
        proof {
            assert(s.take(s.len() as int) =~= s);
        }
        n
    }

    /// Positions of all providers, lowest priority value first.
    pub fn ordered(&self) -> (ord: Vec<usize>)
        ensures
            is_arrangement(ord@, self.slots().len()),
            forall|a: int, b: int| 0 <= a < b < ord@.len() ==> self.slots()[ord@[a] as int].1 <= self.slots()[ord@[b] as int].1,
    {
        let ghost s = self.slots();
        let mut keys: Vec<u64> = Vec::new();
        let mut i: usize = 0;
        while i < self.clients.len()
            invariant
                i <= self.clients@.len(),
                s == self.slots(),
                s.len() == self.clients@.len(),
                keys@.len() == i,
                forall|j: int| 0 <= j < i ==> keys@[j] == s[j].1,
            decreases self.clients.len() - i,
        {
            keys.push(self.clients[i].priority as u64);
            i += 1;
        }
        positions_by_key(&keys)
    }

    /// Positions of the enabled providers, lowest priority value first.
    pub fn enabled_ordered(&self) -> (ord: Vec<usize>)
        ensures
            forall|j: int| 0 <= j < ord@.len() ==> ord@[j] < self.slots().len() && self.slots()[ord@[j] as int].2,
            forall|a: int, b: int| 0 <= a < b < ord@.len() ==> ord@[a] != ord@[b],
            forall|p: int| 0 <= p < self.slots().len() && self.slots()[p].2 ==> #[trigger] occurs(ord@, p),
            forall|a: int, b: int| 0 <= a < b < ord@.len() ==> self.slots()[ord@[a] as int].1 <= self.slots()[ord@[b] as int].1,
    {
        let ghost s = self.slots();
        let mut picked: Vec<usize> = Vec::new();
        let mut keys: Vec<u64> = Vec::new();
        let mut i: usize = 0;
        while i < self.clients.len()
            invariant
                i <= self.clients@.len(),
                s == self.slots(),
                s.len() == self.clients@.len(),
                keys@.len() == picked@.len(),
                forall|j: int| 0 <= j < picked@.len() ==> #[trigger] picked@[j] < i && s[picked@[j] as int].2 && keys@[j] == s[picked@[j] as int].1,
                forall|a: int, b: int| 0 <= a < b < picked@.len() ==> #[trigger] picked@[a] < #[trigger] picked@[b],
                forall|p: int| 0 <= p < i && s[p].2 ==> #[trigger] occurs(picked@, p),
            decreases self.clients.len() - i,
        {
            if self.clients[i].enabled {
                let ghost before = picked@;
                let ghost before_keys = keys@;
                picked.push(i);
                keys.push(self.clients[i].priority as u64);
                proof {
                    assert(s[i as int] == (self.clients@[i as int].name@, self.clients@[i as int].priority, self.clients@[i as int].enabled));
                    assert forall|j: int| 0 <= j < picked@.len() implies picked@[j] < i + 1 && s[picked@[j] as int].2 && keys@[j] == s[picked@[j] as int].1 by {
                        if j < before.len() {
                            assert(picked@[j] == before[j]);
                            assert(keys@[j] == before_keys[j]);
                        }
                    }
                    assert forall|a: int, b: int| 0 <= a < b < picked@.len() implies picked@[a] < picked@[b] by {
                        if b < before.len() {
                            assert(picked@[a] == before[a]);
                            assert(picked@[b] == before[b]);
                        } else {
                            assert(picked@[a] == before[a]);
                        }
                    }
                    assert forall|p: int| 0 <= p < i + 1 && s[p].2 implies #[trigger] occurs(picked@, p) by {
                        if p < i {
                            assert(occurs(before, p));
                            let x = choose|x: int| 0 <= x < before.len() && before[x] == p;
                            assert(picked@[x] == p);
                        } else {
                            assert(picked@[before.len() as int] == p);
                        }
                    }
                }
            } else {
                proof {
                    assert forall|p: int| 0 <= p < i + 1 && s[p].2 implies #[trigger] occurs(picked@, p) by {
                        assert(p != i);
                    }
                }
            }
            i += 1;
        }
        let order = positions_by_key(&keys);
        let mut ord: Vec<usize> = Vec::new();
        let mut k: usize = 0;
        while k < order.len()
            invariant
                k <= order@.len(),
                is_arrangement(order@, keys@.len()),
                keys@.len() == picked@.len(),
                ord@.len() == k,
                forall|j: int| 0 <= j < k ==> #[trigger] ord@[j] == picked@[order@[j] as int],
            decreases order.len() - k,
        {
            ord.push(picked[order[k]]);
            k += 1;
        }
        proof {
            assert forall|j: int| 0 <= j < ord@.len() implies ord@[j] < s.len() && s[ord@[j] as int].2 by {
                assert(order@[j] < picked@.len());
                assert(ord@[j] == picked@[order@[j] as int]);
            }
            assert forall|a: int, b: int| 0 <= a < b < ord@.len() implies ord@[a] != ord@[b] by {
                assert(order@[a] != order@[b]);
                if order@[a] < order@[b] {
                    assert(picked@[order@[a] as int] < picked@[order@[b] as int]);
                } else {
                    assert(picked@[order@[b] as int] < picked@[order@[a] as int]);
                }
            }
            assert forall|p: int| 0 <= p < s.len() && s[p].2 implies #[trigger] occurs(ord@, p) by {
                assert(occurs(picked@, p));
                let x = choose|x: int| 0 <= x < picked@.len() && picked@[x] == p;
                assert(occurs(order@, x));
                let y = choose|y: int| 0 <= y < order@.len() && order@[y] == x;
                assert(ord@[y] == p);
            }
        }
        ord
    }

    /// Positions of the enabled providers in a random order: each enabled
    /// provider once; which order depends on chance.
    pub fn random_order(&self) -> (ord: Vec<usize>)
        ensures
            exists|e: Seq<usize>| #[trigger] lists_enabled(self.slots(), e) && ord@.to_multiset() == e.to_multiset(),
    {
        let e = self.enabled_ordered();
        proof {
            assert(lists_enabled(self.slots(), e@));
        }
        shuffled(e)
    }

    /// The position, among `n` enabled providers, whose turn it is, and
    /// advances the turn (the count wraps at the word size).
    pub fn next_turn(&mut self, n: usize) -> (idx: usize)
        requires
            n > 0,
        ensures
            idx == old(self).turns() % n,
            final(self).turns() == old(self).turns().wrapping_add(1),
            final(self).slots() == old(self).slots(),
            final(self).strategy_spec() == old(self).strategy_spec(),
            final(self).log() == old(self).log(),
    {
        let idx = self.counter % n;
        self.counter = self.counter.wrapping_add(1);
        idx
    }

    /// Logs a request that `response` answered.
    pub fn record_success(&mut self, agent_id: &str, user_id: &str, response: &ChatResponse)
        requires
            old(self).wf(),
        ensures
            final(self).wf(),
            final(self).slots() == old(self).slots(),
            final(self).strategy_spec() == old(self).strategy_spec(),
            final(self).turns() == old(self).turns(),
            exists|t: i64| {
                let r = #[trigger] record_of(agent_id@, user_id@, response.source@, response.latency_ms,
                    cached_flag(response.cached), true, t);
                &&& final(self).log().agents() == index_record(old(self).log().agents(), agent_id@, r, AGENT_WINDOW as nat)
                &&& final(self).log().users() == index_record(old(self).log().users(), user_id@, r, USER_WINDOW as nat)
            },
            final(self).log().log() == push_window(old(self).log().log(), placeholder_view(), old(self).log().capacity() as nat),
    {
        let record = RequestRecord {
            agent_id: agent_id.to_string(),
            user_id: user_id.to_string(),
            provider: response.source.clone(),
            latency_ms: response.latency_ms,
            cached: match response.cached { Some(c) => c, None => false },
            success: true,
            timestamp: clock_secs(),
        };
        let ghost t = record.timestamp;
        proof {
            assert(record_view(record) == record_of(agent_id@, user_id@, response.source@, response.latency_ms,
                cached_flag(response.cached), true, t));
        }
        self.metrics.record(record);
    }

    /// Logs a request that provider `provider` failed.
    pub fn record_failure(&mut self, agent_id: &str, user_id: &str, provider: &str)
        requires
            old(self).wf(),
        ensures
            final(self).wf(),
            final(self).slots() == old(self).slots(),
            final(self).strategy_spec() == old(self).strategy_spec(),
            final(self).turns() == old(self).turns(),
            exists|t: i64| {
                let r = #[trigger] record_of(agent_id@, user_id@, provider@, 0, false, false, t);
                &&& final(self).log().agents() == index_record(old(self).log().agents(), agent_id@, r, AGENT_WINDOW as nat)
                &&& final(self).log().users() == index_record(old(self).log().users(), user_id@, r, USER_WINDOW as nat)
            },
            final(self).log().log() == push_window(old(self).log().log(), placeholder_view(), old(self).log().capacity() as nat),
    {
        let record = RequestRecord {
            agent_id: agent_id.to_string(),
            user_id: user_id.to_string(),
            provider: provider.to_string(),
            latency_ms: 0,
            cached: false,
            success: false,
            timestamp: clock_secs(),
        };
        let ghost t = record.timestamp;
        proof {
            assert(record_view(record) == record_of(agent_id@, user_id@, provider@, 0, false, false, t));
        }
        self.metrics.record(record);
    }
}

/// The fallbacks after a failed round-robin turn: the positions of `order`
/// whose provider name differs from `failed`'s, in order.
pub fn round_robin_fallbacks<C>(providers: &Vec<ProviderSlot<C>>, order: &Vec<usize>, failed: usize) -> (rest: Vec<usize>)
    requires
        failed < providers@.len(),
        forall|j: int| 0 <= j < order@.len() ==> order@[j] < providers@.len(),
    ensures
        rest@ == order@.filter(|p: usize| providers@[p as int].name@ != providers@[failed as int].name@),
{
    let ghost keep = |p: usize| providers@[p as int].name@ != providers@[failed as int].name@;
    let mut rest: Vec<usize> = Vec::new();
    let mut k: usize = 0;
    while k < order.len()
        invariant
            k <= order@.len(),
            failed < providers@.len(),
            forall|j: int| 0 <= j < order@.len() ==> order@[j] < providers@.len(),
            keep == (|p: usize| providers@[p as int].name@ != providers@[failed as int].name@),
            rest@ == order@.take(k as int).filter(keep),
        decreases order.len() - k,
    {
        let p = order[k];
        let differs = !same_text(providers[p].name.as_str(), providers[failed].name.as_str());
        if differs {
            rest.push(p);
        }
        proof {
            let t = order@.take(k + 1);
            assert(t.drop_last() =~= order@.take(k as int));
            assert(t.last() == p);
            reveal(Seq::filter);
            assert(t.filter(keep) == if keep(p) { t.drop_last().filter(keep).push(p) } else { t.drop_last().filter(keep) });
        }
        k += 1;
    }
    proof {
        assert(order@.take(order@.len() as int) =~= order@);
    }
    rest
}

/// The candidates (provider position and average latency) fastest first.
pub fn by_latency(candidates: &Vec<(usize, u64)>) -> (ord: Vec<usize>)
    ensures
        ord@.len() == candidates@.len(),
        exists|perm: Seq<usize>| {
            &&& #[trigger] is_arrangement(perm, candidates@.len())
            &&& forall|j: int| 0 <= j < ord@.len() ==> ord@[j] == candidates@[perm[j] as int].0
            &&& forall|a: int, b: int| 0 <= a < b < perm.len() ==> candidates@[perm[a] as int].1 <= candidates@[perm[b] as int].1
        },
{
    let mut keys: Vec<u64> = Vec::new();
    let mut i: usize = 0;
    while i < candidates.len()
        invariant
            i <= candidates@.len(),
            keys@.len() == i,
            forall|j: int| 0 <= j < i ==> keys@[j] == candidates@[j].1,
        decreases candidates.len() - i,
    {
        keys.push(candidates[i].1);
        i += 1;
    }
    let order = positions_by_key(&keys);
    let mut ord: Vec<usize> = Vec::new();
    let mut k: usize = 0;
    while k < order.len()
        invariant
            k <= order@.len(),
            is_arrangement(order@, keys@.len()),
            keys@.len() == candidates@.len(),
            ord@.len() == k,
            forall|j: int| 0 <= j < k ==> ord@[j] == candidates@[order@[j] as int].0,
        decreases order.len() - k,
    {
        ord.push(candidates[order[k]].0);
        k += 1;
    }
    proof {
        assert(is_arrangement(order@, candidates@.len()));
    }
    ord
}

/// `SliceRandom::shuffle` from `rand`, with the thread's generator: puts
/// the positions in a random order. The result is a rearrangement of the
/// input; which one depends on chance.
#[verifier::external_body]
fn shuffled(v: Vec<usize>) -> (r: Vec<usize>)
    ensures
        r@.to_multiset() == v@.to_multiset(),
{
    let mut v = v;
    v.shuffle(&mut rand::thread_rng());
    v
}

proof fn lemma_slot_pos(s: Seq<SlotView>, i: int)
    requires
        names_distinct(s),
        0 <= i < s.len(),
    ensures
        slot_pos(s, s[i].0) == Some(i),
{
    let c = choose|c: int| 0 <= c < s.len() && s[c].0 == s[i].0;
    if c != i {
        if c < i {
            assert(s[c].0 != s[i].0);
        } else {
            assert(s[i].0 != s[c].0);
        }
    }
}

/// What a request says when there was no provider to try.
pub open spec fn none_left_text(strategy: FailoverStrategy) -> Seq<char> {
    match strategy {
        FailoverStrategy::Priority => "No providers available"@,
        FailoverStrategy::LeastLatency => "No healthy providers"@,
        _ => "No enabled providers"@,
    }
}

/// What a request answers when no provider it tried succeeded, given the
/// errors of the providers tried, in order: when none was tried, a failing
/// provider error saying there was none; after a round robin, the error of
/// the provider whose turn it was; otherwise the last error.
pub fn exhausted_error(strategy: FailoverStrategy, errors: Vec<LLMError>) -> (e: LLMError)
    ensures
        errors@.len() == 0 ==> (e matches LLMError::Unhealthy(m) && m@ == none_left_text(strategy)),
        errors@.len() > 0 && strategy == FailoverStrategy::RoundRobin ==> e == errors@[0],
        errors@.len() > 0 && strategy != FailoverStrategy::RoundRobin ==> e == errors@.last(),
{
    let mut errors = errors;
    if errors.len() == 0 {
        let m = match strategy {
            FailoverStrategy::Priority => "No providers available",
            FailoverStrategy::LeastLatency => "No healthy providers",
            _ => "No enabled providers",
        };
        return LLMError::Unhealthy(m.to_string());
    }
    if strategy == FailoverStrategy::RoundRobin {
        errors.remove(0)
    } else {
        match errors.pop() {
            Some(e) => e,
            None => LLMError::Unhealthy("No enabled providers".to_string()),
        }
    }
}

} // verus!
