//! The action system's bookkeeping: which texts an NPC's action settings
//! must carry, where they and the action counters are kept, how the
//! counters add up to an NPC's analytics, and which recorded actions a
//! history shows.

use vstd::prelude::*;
use crate::api_checks::ApiError;
use crate::text::{trim, trimmed_chars, join2, join3, chars_of, split_on, split_chars, string_of, same_text};
use crate::ordering::{occurs, is_arrangement};

verus! {

/// The three texts an NPC's action settings must carry are refused when
/// blank, the first blank one named.
pub fn check_action_texts(introduction: &str, action_explain: &str, movement_explain: &str) -> (r: Result<(), ApiError>)
    ensures
        trim(introduction@).len() == 0 ==> (r matches Err(ApiError::BadRequest(m))
            && m@ == "The 'introduction' field is required and cannot be empty"@),
        trim(introduction@).len() > 0 && trim(action_explain@).len() == 0 ==> (r matches Err(ApiError::BadRequest(m))
            && m@ == "The 'action_explain' field is required and cannot be empty"@),
        trim(introduction@).len() > 0 && trim(action_explain@).len() > 0 && trim(movement_explain@).len() == 0
            ==> (r matches Err(ApiError::BadRequest(m)) && m@ == "The 'movement_explain' field is required and cannot be empty"@),
        r is Ok <==> trim(introduction@).len() > 0 && trim(action_explain@).len() > 0 && trim(movement_explain@).len() > 0,
{
    if trimmed_chars(introduction).len() == 0 {
        return Err(ApiError::BadRequest("The 'introduction' field is required and cannot be empty".to_string()));
    }
    if trimmed_chars(action_explain).len() == 0 {
        return Err(ApiError::BadRequest("The 'action_explain' field is required and cannot be empty".to_string()));
    }
    if trimmed_chars(movement_explain).len() == 0 {
        return Err(ApiError::BadRequest("The 'movement_explain' field is required and cannot be empty".to_string()));
    }
    Ok(())
}

/// The key of an NPC's action settings.
pub fn action_config_key(agent_id: &str) -> (k: String)
    ensures
        k@ == "npc:"@ + agent_id@ + ":action_config"@,
{
    join3("npc:", agent_id, ":action_config")
}

/// The key of an NPC's navigation settings.
pub fn nav_config_key(agent_id: &str) -> (k: String)
    ensures
        k@ == "npc:"@ + agent_id@ + ":nav_config"@,
{
    join3("npc:", agent_id, ":nav_config")
}

/// The key of the text that tells a model what an NPC can do.
pub fn ai_context_key(agent_id: &str) -> (k: String)
    ensures
        k@ == "npc:"@ + agent_id@ + ":ai_context"@,
{
    join3("npc:", agent_id, ":ai_context")
}

/// The error for an NPC without action settings.
pub fn missing_action_config(agent_id: &str) -> (e: ApiError)
    ensures
        e matches ApiError::NotFound(m) && m@ == "Action system config not found for agent '"@ + agent_id@ + "'"@,
{
    ApiError::NotFound(join3("Action system config not found for agent '", agent_id, "'"))
}

/// The error for an NPC with neither a cached context nor settings to make
/// one from.
pub fn missing_ai_context(agent_id: &str) -> (e: ApiError)
    ensures
        e matches ApiError::NotFound(m) && m@ == "No AI context found for agent '"@ + agent_id@ + "'"@,
{
    ApiError::NotFound(join3("No AI context found for agent '", agent_id, "'"))
}

/// The counter of how often an NPC performed an action.
pub fn action_stats_key(agent_id: &str, action: &str) -> (k: String)
    ensures
        k@ == "action_stats:"@ + agent_id@ + ":"@ + action@,
{
    let head = join3("action_stats:", agent_id, ":");
    join2(head.as_str(), action)
}

/// The counter of an NPC's successes, or failures, with an action.
pub fn action_result_key(agent_id: &str, action: &str, success: bool) -> (k: String)
    ensures
        success ==> k@ == "action_success:"@ + agent_id@ + ":"@ + action@,
        !success ==> k@ == "action_failure:"@ + agent_id@ + ":"@ + action@,
{
    let head = if success {
        join3("action_success:", agent_id, ":")
    } else {
        join3("action_failure:", agent_id, ":")
    };
    join2(head.as_str(), action)
}

/// The pattern of the keys of an NPC's action counters.
pub fn action_stats_pattern(agent_id: &str) -> (p: String)
    ensures
        p@ == "action_stats:"@ + agent_id@ + ":*"@,
{
    join3("action_stats:", agent_id, ":*")
}

/// The pattern of the keys of an NPC's recorded actions.
pub fn action_history_pattern(agent_id: &str) -> (p: String)
    ensures
        p@ == "action_history:"@ + agent_id@ + ":*"@,
{
    join3("action_history:", agent_id, ":*")
}

/// The action a counter key names: its third colon-separated field.
pub open spec fn action_of_key(key: Seq<char>) -> Option<Seq<char>> {
    let parts = split_on(key, ':');
    if parts.len() > 2 {
        Some(parts[2])
    } else {
        None
    }
}

/// The action a counter key names (see `action_of_key`).
pub fn action_name_of_key(key: &str) -> (r: Option<String>)
    ensures
        match r {
            Some(n) => action_of_key(key@) == Some(n@),
            None => action_of_key(key@) is None,
        },
{
    let c = chars_of(key);
    let parts = split_chars(&c, ':');
    if parts.len() > 2 {
        let n = string_of(&parts[2], 0, parts[2].len());
        proof {
            assert(n@ =~= parts@[2]@);
        }
        Some(n)
    } else {
        None
    }
}

/// Where `name` stands in a list of named counts.
pub open spec fn count_pos(d: Seq<(Seq<char>, u64)>, name: Seq<char>) -> Option<int> {
    if exists|i: int| 0 <= i < d.len() && #[trigger] d[i].0 == name {
        Some(choose|i: int| 0 <= i < d.len() && #[trigger] d[i].0 == name)
    } else {
        None
    }
}

/// No name occurs twice in a list of named counts.
pub open spec fn names_unique(d: Seq<(Seq<char>, u64)>) -> bool {
    forall|i: int, j: int| 0 <= i < j < d.len() ==> d[i].0 != d[j].0
}

/// `d` with `name` set to `count`: in place when it is there, else added
/// at the end.
pub open spec fn put_count(d: Seq<(Seq<char>, u64)>, name: Seq<char>, count: u64) -> Seq<(Seq<char>, u64)> {
    match count_pos(d, name) {
        Some(i) => d.update(i, (name, count)),
        None => d.push((name, count)),
    }
}

/// An NPC's action analytics as its counters add up: how often each action
/// was performed, the successes and failures of the actions that had any,
/// and their totals.
pub struct ActionTally {
    distribution: Vec<(String, u64)>,
    successes: Vec<(String, u64)>,
    failures: Vec<(String, u64)>,
    total_successes: u64,
    total_failures: u64,
}

/// The plain values of named counts.
pub open spec fn counts_view(v: Seq<(String, u64)>) -> Seq<(Seq<char>, u64)> {
    v.map_values(|e: (String, u64)| (e.0@, e.1))
}

/// Where `name` stands in a list of named counts.
fn find_count(v: &Vec<(String, u64)>, name: &str) -> (r: Option<usize>)
    ensures
        match r {
            Some(i) => i < v@.len() && counts_view(v@)[i as int].0 == name@,
            None => forall|i: int| 0 <= i < v@.len() ==> counts_view(v@)[i].0 != name@,
        },
{
    let mut i: usize = 0;
    while i < v.len()
        invariant
            i <= v@.len(),
            forall|j: int| 0 <= j < i ==> counts_view(v@)[j].0 != name@,
        decreases v.len() - i,
    {
        if same_text(v[i].0.as_str(), name) {
            return Some(i);
        }
        i = i + 1;
    }
    None
}

/// Set `name` to `count` in a list of named counts (see `put_count`).
fn set_count(v: &mut Vec<(String, u64)>, name: &str, count: u64)
    requires
        names_unique(counts_view(old(v)@)),
    ensures
        names_unique(counts_view(final(v)@)),
        counts_view(final(v)@) == put_count(counts_view(old(v)@), name@, count),
{
    let ghost d = counts_view(v@);
    match find_count(v, name) {
        Some(i) => {
            proof {
                assert(d[i as int].0 == name@);
                let c = choose|c: int| 0 <= c < d.len() && #[trigger] d[c].0 == name@;
                if c != i as int {
                    if c < i as int {
                        assert(d[c].0 != d[i as int].0);
                    } else {
                        assert(d[i as int].0 != d[c].0);
                    }
                }
            }
            v.set(i, (name.to_string(), count));
            proof {
                assert(counts_view(v@) =~= d.update(i as int, (name@, count)));
            }
        },
        None => {
            v.push((name.to_string(), count));
            proof {
                assert(counts_view(v@) =~= d.push((name@, count)));
            }
        },
    }
}

impl ActionTally {
    pub closed spec fn distribution_spec(&self) -> Seq<(Seq<char>, u64)> {
        counts_view(self.distribution@)
    }

    pub closed spec fn successes_spec(&self) -> Seq<(Seq<char>, u64)> {
        counts_view(self.successes@)
    }

    pub closed spec fn failures_spec(&self) -> Seq<(Seq<char>, u64)> {
        counts_view(self.failures@)
    }

    pub closed spec fn total_successes_spec(&self) -> u64 {
        self.total_successes
    }

    pub closed spec fn total_failures_spec(&self) -> u64 {
        self.total_failures
    }

    /// Each list names each action once.
    pub open spec fn wf(&self) -> bool {
        &&& names_unique(self.distribution_spec())
        &&& names_unique(self.successes_spec())
        &&& names_unique(self.failures_spec())
    }

    /// Nothing counted yet.
    pub fn new() -> (t: Self)
        ensures
            t.wf(),
            t.distribution_spec().len() == 0,
            t.successes_spec().len() == 0,
            t.failures_spec().len() == 0,
            t.total_successes_spec() == 0,
            t.total_failures_spec() == 0,
    {
        let t = ActionTally {
            distribution: Vec::new(),
            successes: Vec::new(),
            failures: Vec::new(),
            total_successes: 0,
            total_failures: 0,
        };
        proof {
            assert(counts_view(t.distribution@) =~= Seq::<(Seq<char>, u64)>::empty());
            assert(counts_view(t.successes@) =~= Seq::<(Seq<char>, u64)>::empty());
            assert(counts_view(t.failures@) =~= Seq::<(Seq<char>, u64)>::empty());
        }
        t
    }

    /// Count one action's counters: how often it was performed, and its
    /// successes and failures, each kept only when there are any and added
    /// to its total.
    pub fn add(&mut self, action: &str, count: u64, successes: u64, failures: u64)
        requires
            old(self).wf(),
            old(self).total_successes_spec() + successes <= u64::MAX,
            old(self).total_failures_spec() + failures <= u64::MAX,
        ensures
            final(self).wf(),
            final(self).distribution_spec() == put_count(old(self).distribution_spec(), action@, count),
            final(self).successes_spec() == if successes > 0 {
                put_count(old(self).successes_spec(), action@, successes)
            } else {
                old(self).successes_spec()
            },
            final(self).failures_spec() == if failures > 0 {
                put_count(old(self).failures_spec(), action@, failures)
            } else {
                old(self).failures_spec()
            },
            final(self).total_successes_spec() == old(self).total_successes_spec() + successes,
            final(self).total_failures_spec() == old(self).total_failures_spec() + failures,
    {
        set_count(&mut self.distribution, action, count);
        if successes > 0 {
            set_count(&mut self.successes, action, successes);
            self.total_successes = self.total_successes + successes;
        }
        if failures > 0 {
            set_count(&mut self.failures, action, failures);
            self.total_failures = self.total_failures + failures;
        }
    }

    /// How often each action was performed.
    pub fn distribution(&self) -> (d: &Vec<(String, u64)>)
        ensures
            counts_view(d@) == self.distribution_spec(),
    {
        &self.distribution
    }

    /// The successes of the actions that had any.
    pub fn success_counts(&self) -> (d: &Vec<(String, u64)>)
        ensures
            counts_view(d@) == self.successes_spec(),
    {
        &self.successes
    }

    /// The failures of the actions that had any.
    pub fn failure_counts(&self) -> (d: &Vec<(String, u64)>)
        ensures
            counts_view(d@) == self.failures_spec(),
    {
        &self.failures
    }

    /// All successes.
    pub fn total_successes(&self) -> (n: u64)
        ensures
            n == self.total_successes_spec(),
    {
        self.total_successes
    }

    /// All successes and failures: the number of actions recorded.
    pub fn total_actions(&self) -> (n: u64)
        requires
            self.total_successes_spec() + self.total_failures_spec() <= u64::MAX,
        ensures
            n == self.total_successes_spec() + self.total_failures_spec(),
    {
        self.total_successes + self.total_failures
    }

    /// An action performed most often; none when nothing was counted.
    /// Among actions counted equally often, which one is named is left
    /// open.
    pub fn most_used_action(&self) -> (r: Option<String>)
        ensures
            match r {
                Some(n) => exists|i: int| 0 <= i < self.distribution_spec().len()
                    && #[trigger] self.distribution_spec()[i].0 == n@
                    && forall|j: int| 0 <= j < self.distribution_spec().len()
                        ==> #[trigger] self.distribution_spec()[j].1 <= self.distribution_spec()[i].1,
                None => self.distribution_spec().len() == 0,
            },
    {
        let d = &self.distribution;
        if d.len() == 0 {
            return None;
        }
        let ghost dv = counts_view(d@);
        let mut best: usize = 0;
        let mut i: usize = 1;
        while i < d.len()
            invariant
                dv == counts_view(d@),
                0 < d@.len(),
                best < i <= d@.len(),
                forall|j: int| 0 <= j < i ==> #[trigger] dv[j].1 <= dv[best as int].1,
            decreases d.len() - i,
        {
            if d[i].1 > d[best].1 {
                best = i;
            }
            i = i + 1;
        }
        let n = d[best].0.clone();
        proof {
            let ds = self.distribution_spec();
            assert(ds == dv);
            assert(ds[best as int].0 == n@);
            assert(forall|j: int| 0 <= j < ds.len() ==> #[trigger] ds[j].1 <= ds[best as int].1);
        }
        Some(n)
    }
}

/// Whether the recorded action `a` comes before `b` in a history: newer
/// first, and of two equally new ones, the one found first.
pub open spec fn shown_before(ts: Seq<i64>, a: int, b: int) -> bool {
    ts[a] > ts[b] || (ts[a] == ts[b] && a < b)
}

/// The positions of the recorded actions a history shows: newest first (of
/// equally new ones, the one found first), at most `limit` of them.
pub fn newest_first(timestamps: &Vec<i64>, limit: usize) -> (ord: Vec<usize>)
    ensures
        ord@.len() == if timestamps@.len() < limit { timestamps@.len() } else { limit as nat },
        forall|j: int| 0 <= j < ord@.len() ==> ord@[j] < timestamps@.len(),
        forall|a: int, b: int| 0 <= a < b < ord@.len() ==> shown_before(timestamps@, ord@[a] as int, ord@[b] as int),
        forall|a: int, p: int| 0 <= a < ord@.len() && 0 <= p < timestamps@.len() && !occurs(ord@, p)
            ==> shown_before(timestamps@, ord@[a] as int, p),
{
    let n = timestamps.len();
    let mut ord: Vec<usize> = Vec::new();
    let mut i: usize = 0;
    while i < n
        invariant
            n == timestamps@.len(),
            i <= n,
            ord@.len() == i,
            forall|j: int| 0 <= j < i ==> ord@[j] == j,
        decreases n - i,
    {
        ord.push(i);
        i += 1;
    }
    assert forall|p: int| 0 <= p < n implies #[trigger] occurs(ord@, p) by {
        assert(ord@[p] == p);
    }
    let ghost ts = timestamps@;
    let mut out: usize = 0;
    while out < n
        invariant
            n == timestamps@.len(),
            ts == timestamps@,
            out <= n,
            is_arrangement(ord@, n as nat),
            forall|a: int, b: int| 0 <= a < out && a < b < n ==> shown_before(ts, ord@[a] as int, ord@[b] as int),
        decreases n - out,
    {
        let mut best: usize = out;
        let mut j: usize = out + 1;
        while j < n
            invariant
                out < n,
                n == timestamps@.len(),
                ts == timestamps@,
                is_arrangement(ord@, n as nat),
                out <= best < j <= n,
                forall|x: int| out <= x < j && x != best ==> shown_before(ts, ord@[best as int] as int, ord@[x] as int),
            decreases n - j,
        {
            let cand = ord[j];
            let cur = ord[best];
            if timestamps[cand] > timestamps[cur] || (timestamps[cand] == timestamps[cur] && cand < cur) {
                proof {
                    assert forall|x: int| out <= x < j + 1 && x != j implies shown_before(ts, ord@[j as int] as int, ord@[x] as int) by {
                        if x != best as int {
                            assert(shown_before(ts, ord@[best as int] as int, ord@[x] as int));
                            assert(ord@[x] != ord@[j as int]);
                        }
                    }
                }
                best = j;
            } else {
                proof {
                    assert(ord@[j as int] != ord@[best as int]);
                }
            }
            j += 1;
        }
        let ghost before = ord@;
        let a = ord[out];
        let b = ord[best];
        ord.set(out, b);
        ord.set(best, a);
        proof {
            assert forall|p: int| 0 <= p < n implies #[trigger] occurs(ord@, p) by {
                assert(occurs(before, p));
                let x = choose|x: int| 0 <= x < before.len() && before[x] == p;
                if x == out as int {
                    assert(ord@[best as int] == p);
                } else if x == best as int {
                    assert(ord@[out as int] == p);
                } else {
                    assert(ord@[x] == p);
                }
            }
            assert forall|x: int, y: int| 0 <= x < y < n implies ord@[x] != ord@[y] by {
                assert(before[x] != before[y] || x == y);
            }
            assert forall|a2: int, b2: int| 0 <= a2 < out + 1 && a2 < b2 < n implies shown_before(ts, ord@[a2] as int, ord@[b2] as int) by {
                if a2 < out as int {
                    if b2 == best as int {
                        assert(shown_before(ts, before[a2] as int, before[out as int] as int));
                    } else if b2 == out as int {
                        assert(shown_before(ts, before[a2] as int, before[best as int] as int));
                    } else {
                        assert(shown_before(ts, before[a2] as int, before[b2] as int));
                    }
                } else {
                    if b2 == best as int {
                        assert(shown_before(ts, before[best as int] as int, before[out as int] as int));
                    } else {
                        assert(shown_before(ts, before[best as int] as int, before[b2] as int));
                    }
                }
            }
        }
        out += 1;
    }
    let keep = if n < limit { n } else { limit };
    let ghost full = ord@;
    ord.truncate(keep);
    proof {
        assert(ord@ =~= full.take(keep as int));
        assert forall|a: int, p: int| 0 <= a < ord@.len() && 0 <= p < n && !occurs(ord@, p)
            implies shown_before(ts, ord@[a] as int, p) by {
            assert(occurs(full, p));
            let x = choose|x: int| 0 <= x < full.len() && full[x] == p;
            if x < keep as int {
                assert(ord@[x] == p);
            } else {
                assert(a < x);
            }
        }
    }
    ord
}

/// How long an action takes when its plan gives no duration, in ms.
pub const DEFAULT_ACTION_MS: u64 = 1000;

/// The time a plan's actions take together: each its own duration, or the
/// default when it gives none.
pub open spec fn plan_ms(durations: Seq<Option<u64>>) -> nat
    decreases durations.len(),
{
    if durations.len() == 0 {
        0
    } else {
        plan_ms(durations.drop_last()) + match durations.last() {
            Some(d) => d as nat,
            None => DEFAULT_ACTION_MS as nat,
        }
    }
}

/// The time a plan's actions take together (see `plan_ms`).
pub fn plan_total_ms(durations: &Vec<Option<u64>>) -> (total: u64)
    requires
        plan_ms(durations@) <= u64::MAX,
    ensures
        total == plan_ms(durations@),
{
    let mut total: u64 = 0;
    let mut i: usize = 0;
    while i < durations.len()
        invariant
            i <= durations@.len(),
            total == plan_ms(durations@.take(i as int)),
            plan_ms(durations@) <= u64::MAX,
        decreases durations.len() - i,
    {
        proof {
            assert(durations@.take(i + 1).drop_last() =~= durations@.take(i as int));
            lemma_plan_ms_prefix(durations@, i + 1);
        }
        let d = match durations[i] {
            Some(d) => d,
            None => DEFAULT_ACTION_MS,
        };
        total = total + d;
        i = i + 1;
    }
    proof {
        assert(durations@.take(i as int) =~= durations@);
    }
    total
}

/// A prefix of a plan takes no longer than the whole plan.
proof fn lemma_plan_ms_prefix(d: Seq<Option<u64>>, k: int)
    requires
        0 <= k <= d.len(),
    ensures
        plan_ms(d.take(k)) <= plan_ms(d),
    decreases d.len() - k,
{
    if k < d.len() {
        lemma_plan_ms_prefix(d, k + 1);
        assert(d.take(k + 1).drop_last() =~= d.take(k));
    } else {
        assert(d.take(k) =~= d);
    }
}

/// The key of one of an NPC's action plans.
pub fn action_plan_key(agent_id: &str, plan_id: &str) -> (k: String)
    ensures
        k@ == "npc:"@ + agent_id@ + ":action_plan:"@ + plan_id@,
{
    let head = join3("npc:", agent_id, ":action_plan:");
    join2(head.as_str(), plan_id)
}

} // verus!
