//! Properties that hold across calls: what a sequence of requests does to a
//! rate limiter or a circuit breaker, what a read gives back after a write
//! in the caches and registries, and what bounds every operation keeps.

use vstd::prelude::*;
use crate::provider_health::{BucketState, acquire_spec, breaker_after_error, breaker_healthy, CIRCUIT_BREAKER_THRESHOLD};
use crate::request_log::{IndexView, RecordView, index_record, key_pos, keys_distinct, push_window};
use crate::request_queue::{heap_matches, entry_keys_distinct, entry_pos, EntryView};
use crate::provider_registry::{SlotView, slots_put, slot_pos, names_distinct};
use crate::memory_cache::{lru_put, key_at, keys_unique};
use crate::cache_strategy::{ttl_for_key_spec, CacheStrategy};
use crate::text::{lowercase, seq_starts_with, seq_contains, occurs_at, trim, index_of, split_on, trimmed_fields, lemma_index_of};
use crate::command_parser::{classify_tag, field_after_colon, BracketView, first_tag_content, next_tag, tag_at, close_found};
use crate::text::{is_space, leading_space, trailing_space};
use crate::request_queue::{priority_for, rank_of, DistanceBand, Priority};
use crate::provider_health::refill_spec;
use crate::dialogue::{classify_spec, is_greeting_spec, SmallTalk};
use crate::navigation::{NavigationMesh, PathfindOptions};
use crate::command_parser::{strip_commands_spec, strip_from, no_command_tags, settled_from, strip_from_clean, trim_clean, strip_from_clean_text, trim_twice};
use crate::usage_metrics::{TableView, AgentView, agents_after, agent_zero, table_pos, table_distinct};
use crate::api_checks::{admin_ids, may_administer};
use crate::env_setup::{EnvValues, env_list, u32_or, preset, configures, ENV_PRESET_COUNT};
use crate::llm_flow::{LLMError, RetryStep, retry_decision, next_backoff, MAX_RETRIES, MAX_BACKOFF_MS, INITIAL_BACKOFF_MS};

verus! {

/// How many of `k` requests made at time `now` a bucket lets through.
pub open spec fn grants(b: BucketState, now: i64, k: nat) -> nat
    decreases k,
{
    if k == 0 {
        0
    } else {
        let (next, ok) = acquire_spec(b, now);
        grants(next, now, (k - 1) as nat) + if ok { 1nat } else { 0nat }
    }
}

/// A bucket that was refilled at time `now` lets through, of `k` requests
/// made at that same time, as many as it holds tokens and no more.
pub proof fn law_bucket_grants_its_tokens(b: BucketState, now: i64, k: nat)
    requires
        b.max_tokens > 0,
        b.refill_interval_ms > 0,
        b.last_refill == now,
    ensures
        grants(b, now, k) == if k < b.tokens { k } else { b.tokens as nat },
    decreases k,
{
    if k > 0 {
        let (next, ok) = acquire_spec(b, now);
        assert(ok == (b.tokens > 0));
        assert(next.last_refill == now && next.max_tokens == b.max_tokens && next.refill_interval_ms == b.refill_interval_ms);
        assert(next.tokens == if b.tokens > 0 { b.tokens - 1 } else { 0 });
        law_bucket_grants_its_tokens(next, now, (k - 1) as nat);
    }
}

/// A bucket of size zero never turns a request away.
pub proof fn law_unlimited_bucket(b: BucketState, now: i64)
    requires
        b.max_tokens == 0,
    ensures
        acquire_spec(b, now) == (b, true),
{
}

/// The breaker after `n` errors in a row.
pub open spec fn errors_in_a_row(consecutive: u32, open: bool, n: nat) -> (u32, bool)
    decreases n,
{
    if n == 0 {
        (consecutive, open)
    } else {
        let (c, o) = errors_in_a_row(consecutive, open, (n - 1) as nat);
        breaker_after_error(c, o)
    }
}

/// After as many errors in a row as the threshold, the circuit is open and
/// the provider takes no request until the reset window has passed.
pub proof fn law_breaker_trips(consecutive: u32, open: bool)
    requires
        consecutive as int + CIRCUIT_BREAKER_THRESHOLD as int <= u32::MAX as int,
    ensures
        errors_in_a_row(consecutive, open, CIRCUIT_BREAKER_THRESHOLD as nat).1,
        !breaker_healthy(errors_in_a_row(consecutive, open, CIRCUIT_BREAKER_THRESHOLD as nat).0,
            errors_in_a_row(consecutive, open, CIRCUIT_BREAKER_THRESHOLD as nat).1, false),
{
    lemma_streak(consecutive, open, CIRCUIT_BREAKER_THRESHOLD as nat);
}

proof fn lemma_streak(consecutive: u32, open: bool, n: nat)
    requires
        consecutive as int + n <= u32::MAX as int,
    ensures
        errors_in_a_row(consecutive, open, n).0 == consecutive + n,
        errors_in_a_row(consecutive, open, n).1 == (open || (n > 0 && consecutive + n >= CIRCUIT_BREAKER_THRESHOLD)),
    decreases n,
{
    if n > 0 {
        lemma_streak(consecutive, open, (n - 1) as nat);
    }
}

/// Fewer errors in a row than the threshold leave a closed circuit closed.
pub proof fn law_breaker_tolerates_few_errors(n: nat)
    requires
        n < CIRCUIT_BREAKER_THRESHOLD,
    ensures
        !errors_in_a_row(0, false, n).1,
        breaker_healthy(errors_in_a_row(0, false, n).0, errors_in_a_row(0, false, n).1, false),
{
    lemma_streak(0, false, n);
}

/// After a request under `key` is recorded, the key's window ends with it
/// and holds at most `cap` requests.
pub proof fn law_recorded_request_is_latest(idx: Seq<(Seq<char>, IndexView)>, key: Seq<char>, r: RecordView, cap: nat)
    requires
        keys_distinct(idx),
        cap > 0,
        forall|i: int| 0 <= i < idx.len() ==> (#[trigger] idx[i]).1.0.len() <= cap,
    ensures
        ({
            let n = index_record(idx, key, r, cap);
            &&& key_pos(n, key) is Some
            &&& n[key_pos(n, key)->0].1.0.last() == r
            &&& n[key_pos(n, key)->0].1.0.len() <= cap
        }),
{
    let n = index_record(idx, key, r, cap);
    match key_pos(idx, key) {
        Some(i) => {
            assert(n[i].0 == key);
            lemma_distinct_pos(n, idx, i, key);
        },
        None => {
            let p = idx.len() as int;
            assert(n[p].0 == key);
            assert forall|j: int| 0 <= j < n.len() && n[j].0 == key implies j == p by {
                if j < p {
                    assert(n[j] == idx[j]);
                }
            }
        },
    }
}

proof fn lemma_distinct_pos(n: Seq<(Seq<char>, IndexView)>, idx: Seq<(Seq<char>, IndexView)>, i: int, key: Seq<char>)
    requires
        keys_distinct(idx),
        0 <= i < idx.len(),
        n.len() == idx.len(),
        n[i].0 == key,
        idx[i].0 == key,
        forall|j: int| 0 <= j < n.len() && j != i ==> n[j] == idx[j],
    ensures
        key_pos(n, key) == Some(i),
{
    let c = choose|c: int| 0 <= c < n.len() && n[c].0 == key;
    if c != i {
        assert(n[c] == idx[c]);
        if c < i {
            assert(idx[c].0 != idx[i].0);
        } else {
            assert(idx[i].0 != idx[c].0);
        }
    }
}

/// Recording never lets the global list grow past its capacity.
pub proof fn law_log_stays_bounded<T>(l: Seq<T>, x: T, cap: nat)
    requires
        l.len() <= cap,
        cap > 0,
    ensures
        push_window(l, x, cap).len() <= cap,
        push_window(l, x, cap).last() == x,
{
}

/// The queue holds exactly as many requests as it keeps beside it.
pub proof fn law_queue_size(m: Map<Seq<char>, u8>, es: EntryView)
    requires
        entry_keys_distinct(es),
        heap_matches(m, es),
    ensures
        m.dom().finite(),
        m.len() == es.len(),
{
    let keys = es.map_values(|e: (Seq<char>, crate::request_queue::NPCRequest)| e.0);
    assert forall|a: int, b: int| 0 <= a < keys.len() && 0 <= b < keys.len() && a != b implies keys[a] != keys[b] by {
        assert(keys[a] == es[a].0);
        assert(keys[b] == es[b].0);
        if a < b {
            assert(es[a].0 != es[b].0);
        } else {
            assert(es[b].0 != es[a].0);
        }
    }
    assert(keys.no_duplicates());
    assert forall|k: Seq<char>| m.dom().contains(k) <==> keys.to_set().contains(k) by {
        if m.dom().contains(k) {
            assert(m.contains_key(k));
            assert(entry_pos(es, k) is Some);
            let i = choose|i: int| 0 <= i < es.len() && es[i].0 == k;
            assert(keys[i] == k);
        }
        if keys.to_set().contains(k) {
            let i = choose|i: int| 0 <= i < keys.len() && keys[i] == k;
            assert(es[i].0 == k);
            assert(m.contains_key(es[i].0));
        }
    }
    assert(m.dom() =~= keys.to_set());
    keys.unique_seq_to_set();
    vstd::seq_lib::seq_to_set_is_finite(keys);
}

/// A provider just registered is found under its name, as registered.
pub proof fn law_registered_provider_is_found(s: Seq<SlotView>, v: SlotView)
    requires
        names_distinct(s),
    ensures
        slot_pos(slots_put(s, v), v.0) is Some,
        slots_put(s, v)[slot_pos(slots_put(s, v), v.0)->0] == v,
        names_distinct(slots_put(s, v)),
{
    let n = slots_put(s, v);
    match slot_pos(s, v.0) {
        Some(i) => {
            assert(n[i] == v);
            assert forall|a: int, b: int| 0 <= a < b < n.len() implies n[a].0 != n[b].0 by {
                if a != i { assert(n[a] == s[a]); }
                if b != i { assert(n[b] == s[b]); }
                if a == i { assert(s[i].0 == v.0); }
                if b == i { assert(s[i].0 == v.0); }
            }
            let c = choose|c: int| 0 <= c < n.len() && n[c].0 == v.0;
            if c != i {
                assert(n[c].0 != n[i].0);
            }
        },
        None => {
            let p = s.len() as int;
            assert(n[p] == v);
            assert forall|a: int, b: int| 0 <= a < b < n.len() implies n[a].0 != n[b].0 by {
                if b == p {
                    assert(n[a] == s[a]);
                } else {
                    assert(n[a] == s[a]);
                    assert(n[b] == s[b]);
                }
            }
            let c = choose|c: int| 0 <= c < n.len() && n[c].0 == v.0;
            if c != p {
                assert(n[c].0 != n[p].0);
            }
        },
    }
}

/// A provider just removed is no longer found.
pub proof fn law_unregistered_provider_is_gone(s: Seq<SlotView>, name: Seq<char>)
    requires
        names_distinct(s),
        slot_pos(s, name) is Some,
    ensures
        slot_pos(s.remove(slot_pos(s, name)->0), name) is None,
{
    let i = slot_pos(s, name)->0;
    let n = s.remove(i);
    if exists|j: int| 0 <= j < n.len() && n[j].0 == name {
        let j = choose|j: int| 0 <= j < n.len() && n[j].0 == name;
        let j0 = if j < i { j } else { j + 1 };
        assert(n[j] == s[j0]);
        assert(j0 != i);
        if j0 < i {
            assert(s[j0].0 != s[i].0);
        } else {
            assert(s[i].0 != s[j0].0);
        }
    }
}

/// After a value is stored in the memory cache, looking its key up gives
/// it back; the keys stay distinct and the cache within its capacity.
pub proof fn law_cache_read_after_write(s: Seq<(Seq<char>, Seq<char>)>, key: Seq<char>, value: Seq<char>, cap: nat)
    requires
        keys_unique(s),
        s.len() <= cap,
        cap > 0,
    ensures
        key_at(lru_put(s, key, value, cap), key) is Some,
        lru_put(s, key, value, cap)[key_at(lru_put(s, key, value, cap), key)->0].1 == value,
        keys_unique(lru_put(s, key, value, cap)),
        lru_put(s, key, value, cap).len() <= cap,
{
    let n = lru_put(s, key, value, cap);
    let p = n.len() - 1;
    assert(n[p] == (key, value));
    let base = match key_at(s, key) {
        Some(i) => s.remove(i),
        None => if s.len() >= cap { s.drop_first() } else { s },
    };
    assert(n == base.push((key, value)));
    assert forall|j: int| 0 <= j < base.len() implies base[j].0 != key by {
        match key_at(s, key) {
            Some(i) => {
                let j0 = if j < i { j } else { j + 1 };
                assert(base[j] == s[j0]);
                if j0 < i { assert(s[j0].0 != s[i].0); } else { assert(s[i].0 != s[j0].0); }
            },
            None => {
                if s.len() >= cap {
                    assert(base[j] == s[j + 1]);
                } else {
                    assert(base[j] == s[j]);
                }
            },
        }
    }
    assert forall|a: int, b: int| 0 <= a < b < n.len() implies n[a].0 != n[b].0 by {
        if b < p {
            match key_at(s, key) {
                Some(i) => {
                    let a0 = if a < i { a } else { a + 1 };
                    let b0 = if b < i { b } else { b + 1 };
                    assert(n[a] == s[a0]);
                    assert(n[b] == s[b0]);
                },
                None => {
                    if s.len() >= cap {
                        assert(n[a] == s[a + 1]);
                        assert(n[b] == s[b + 1]);
                    } else {
                        assert(n[a] == s[a]);
                        assert(n[b] == s[b]);
                    }
                },
            }
        } else {
            assert(n[a] == base[a]);
        }
    }
    let c = choose|c: int| 0 <= c < n.len() && n[c].0 == key;
    if c != p {
        assert(n[c].0 != n[p].0);
    }
}

/// A chat reply is cached under its `chat:` key for the time given to
/// simple chat replies.
pub proof fn law_chat_key_lifetime(agent_id: Seq<char>, message: Seq<char>)
    ensures
        ttl_for_key_spec("chat:"@ + agent_id + ":"@ + lowercase(message)) == CacheStrategy::SIMPLE_CHAT_TTL,
{
    let key = "chat:"@ + agent_id + ":"@ + lowercase(message);
    reveal_strlit("chat:");
    reveal_strlit("npc:state:");
    reveal_strlit("npc:position:");
    reveal_strlit("npc:emotions:");
    reveal_strlit("path:");
    assert(key[0] == 'c');
    assert(occurs_at(key, "chat:"@, 0)) by {
        assert(key.subrange(0, 5) =~= "chat:"@);
    }
    assert(!seq_starts_with(key, "npc:state:"@)) by {
        if seq_starts_with(key, "npc:state:"@) {
            assert(key.subrange(0, 10)[0] == 'n');
        }
    }
    assert(!seq_starts_with(key, "npc:position:"@)) by {
        if seq_starts_with(key, "npc:position:"@) {
            assert(key.subrange(0, 13)[0] == 'n');
        }
    }
    assert(!seq_starts_with(key, "npc:emotions:"@)) by {
        if seq_starts_with(key, "npc:emotions:"@) {
            assert(key.subrange(0, 13)[0] == 'n');
        }
    }
    assert(!seq_starts_with(key, "path:"@)) by {
        if seq_starts_with(key, "path:"@) {
            assert(key.subrange(0, 5)[0] == 'p');
        }
    }
}

/// Recording a request for agent `key` adds one to its request count and
/// leaves every other agent as it was.
pub proof fn law_usage_counts_one_request(t: TableView<AgentView>, key: Seq<char>, success: bool, latency_ms: u64, cached: bool, provider: Seq<char>)
    requires
        table_distinct(t),
    ensures
        ({
            let n = agents_after(t, key, success, latency_ms, cached, provider);
            &&& table_pos(n, key) is Some
            &&& n[table_pos(n, key)->0].1.0 == match table_pos(t, key) {
                Some(i) => t[i].1.0.wrapping_add(1),
                None => 1u64,
            }
            &&& forall|j: int| 0 <= j < t.len() && t[j].0 != key ==> #[trigger] n[j] == t[j]
        }),
{
    let n = agents_after(t, key, success, latency_ms, cached, provider);
    match table_pos(t, key) {
        Some(i) => {
            assert(n[i].0 == key);
            let c = choose|c: int| 0 <= c < n.len() && n[c].0 == key;
            if c != i {
                assert(n[c] == t[c]);
                if c < i { assert(t[c].0 != t[i].0); } else { assert(t[i].0 != t[c].0); }
            }
        },
        None => {
            let p = t.len() as int;
            assert(n[p].0 == key);
            assert(agent_zero().0 == 0u64);
            let c = choose|c: int| 0 <= c < n.len() && n[c].0 == key;
            if c != p {
                assert(n[c] == t[c]);
            }
        },
    }
}

/// With no administrator named, anyone may manage providers.
pub proof fn law_open_administration(setting: Seq<char>, user_id: Seq<char>)
    requires
        admin_ids(setting).len() == 0,
    ensures
        may_administer(setting, user_id),
{
}

/// How many times a request is sent when every attempt fails with `e`:
/// the first try, then one more for each retry that the policy grants.
pub open spec fn sends(attempt: u32, e: LLMError) -> nat
    decreases MAX_RETRIES - attempt,
{
    if attempt >= MAX_RETRIES {
        1
    } else {
        match retry_decision(attempt, e) {
            RetryStep::GiveUp => 1,
            _ => 1 + sends((attempt + 1) as u32, e),
        }
    }
}

/// However a provider keeps failing, a request is sent at most
/// `MAX_RETRIES + 1` times; errors that retrying cannot mend (an answer
/// that cannot be read, a disabled or failing provider, a rate limit with
/// no wait given) are never retried, and after the last retry nothing is
/// tried again.
pub proof fn law_retries_are_bounded(e: LLMError)
    ensures
        1 <= sends(0, e) <= MAX_RETRIES + 1,
        (e is InvalidResponse || e is Unhealthy || e == LLMError::RateLimited(None)) ==> sends(0, e) == 1,
        !(e is InvalidResponse || e is Unhealthy || e is RateLimited) ==> sends(0, e) == MAX_RETRIES + 1,
        retry_decision(MAX_RETRIES, e) == RetryStep::GiveUp,
{
    assert(sends(3, e) == 1);
    assert(sends(2, e) <= 2);
    assert(sends(1, e) <= 3);
}

/// The wait between attempts starts at `INITIAL_BACKOFF_MS`, doubles after
/// each retry and never exceeds `MAX_BACKOFF_MS`.
pub proof fn law_backoff_doubles_to_a_cap(ms: u64)
    requires
        INITIAL_BACKOFF_MS <= ms <= MAX_BACKOFF_MS,
    ensures
        INITIAL_BACKOFF_MS <= next_backoff(ms) <= MAX_BACKOFF_MS,
        next_backoff(ms) >= ms,
        2 * ms < MAX_BACKOFF_MS ==> next_backoff(ms) == 2 * ms,
        next_backoff(INITIAL_BACKOFF_MS) == 200 && next_backoff(200) == 400 && next_backoff(400) == 800,
{
}

/// How many of the values configure their preset.
pub open spec fn keyed(vals: Seq<EnvValues>) -> nat
    decreases vals.len(),
{
    if vals.len() == 0 {
        0
    } else {
        keyed(vals.drop_last()) + if configures(vals.len() - 1, vals.last()) { 1nat } else { 0nat }
    }
}

/// The environment configures one provider for each preset that its values
/// configure (a non-empty API key, and a model where the preset has no
/// default one), in the order of the presets, each named by its prefix in
/// lower case; the `k`-th configured provider has priority `k` unless its
/// own variable sets another.
pub proof fn law_env_configures_keyed_providers(vals: Seq<EnvValues>)
    requires
        vals.len() <= ENV_PRESET_COUNT,
    ensures
        env_list(vals).len() == keyed(vals),
        forall|k: int| 0 <= k < env_list(vals).len() ==> {
            let e = #[trigger] env_list(vals)[k];
            &&& e.0 < vals.len()
            &&& vals[e.0 as int].api_key matches Some(key) && key@.len() > 0 && e.4 == key@
            &&& e.1 == lowercase(preset(e.0 as int).0)
            &&& e.8 == u32_or(vals[e.0 as int].priority, k as u32)
        },
        forall|k: int, l: int| 0 <= k < l < env_list(vals).len() ==> env_list(vals)[k].0 < env_list(vals)[l].0,
    decreases vals.len(),
{
    if vals.len() > 0 {
        let init = vals.drop_last();
        law_env_configures_keyed_providers(init);
        let before = env_list(init);
        assert forall|k: int| 0 <= k < before.len() implies #[trigger] init[before[k].0 as int] == vals[before[k].0 as int] by {
        }
    }
}

/// Cutting the movement tags out of a reply leaves none behind, and cutting
/// them out again changes nothing.
pub proof fn law_strip_leaves_no_command_tag(s: Seq<char>)
    ensures
        no_command_tags(strip_commands_spec(s)),
        strip_commands_spec(strip_commands_spec(s)) == strip_commands_spec(s),
{
    assert(settled_from(Seq::<char>::empty(), 0));
    assert(settled_from(s.subrange(0, 0), 0));
    strip_from_clean(s, 0, 0, Seq::empty());
    let k = strip_from(s, 0, 0, Seq::empty());
    trim_clean(k);
    let r = trim(k);
    strip_from_clean_text(r, 0, 0, Seq::empty());
    assert(Seq::<char>::empty() + r.subrange(0, r.len() as int) =~= r);
    trim_twice(k);
}

/// A rank for each distance band, nearest first.
pub open spec fn band_order(d: DistanceBand) -> int {
    match d {
        DistanceBand::Under5 => 0,
        DistanceBand::Under10 => 1,
        DistanceBand::Under30 => 2,
        DistanceBand::Under100 => 3,
        DistanceBand::Far => 4,
    }
}

/// A player nearer to the NPC never makes a request less urgent, all else
/// equal.
pub proof fn law_nearer_is_never_less_urgent(near: DistanceBand, far: DistanceBand, active: bool, importance: u8, depth: usize)
    requires
        band_order(near) <= band_order(far),
    ensures
        rank_of(priority_for(near, active, importance, depth)) >= rank_of(priority_for(far, active, importance, depth)),
{
}

/// Only a request from a player more than 100 blocks away, outside an
/// ongoing conversation, to an NPC of importance below 8, is background
/// work; the same request from a player within 100 blocks (and 30 or
/// more) is of low priority, one step above.
pub proof fn law_background_only_when_far(distance: DistanceBand, active: bool, importance: u8, depth: usize)
    ensures
        (priority_for(distance, active, importance, depth) == Priority::Background)
            <==> (!(active && depth > 0) && importance < 8 && distance == DistanceBand::Far),
        !(active && depth > 0) && importance < 8 && distance == DistanceBand::Under100
            ==> priority_for(distance, active, importance, depth) == Priority::Low
                && rank_of(priority_for(distance, active, importance, depth))
                    == rank_of(priority_for(DistanceBand::Far, active, importance, depth)) + 1,
{
}

/// A refill after `e` milliseconds, at least one interval `d`, gives back
/// one token for each whole interval, up to the bucket's size, and
/// restarts the clock (while the count of intervals fits in 32 bits).
pub proof fn law_refill_counts_whole_intervals(b: BucketState, now: i64)
    requires
        b.refill_interval_ms > 0,
        b.tokens <= b.max_tokens,
        now - b.last_refill >= b.refill_interval_ms,
        (now - b.last_refill) / (b.refill_interval_ms as int) < 0x1_0000_0000,
    ensures
        refill_spec(b, now).tokens == if b.tokens + (now - b.last_refill) / (b.refill_interval_ms as int) < b.max_tokens {
            b.tokens + (now - b.last_refill) / (b.refill_interval_ms as int)
        } else {
            b.max_tokens as int
        },
        refill_spec(b, now).last_refill == now,
{
    let e = now - b.last_refill;
    let d = b.refill_interval_ms as int;
    assert(e / d >= 1) by (nonlinear_arith)
        requires
            e >= d,
            d > 0,
    ;
}

/// A drained bucket lets through `k` requests made together after `k`
/// whole refill intervals, for any `k` up to its size.
pub proof fn law_drained_bucket_regains_tokens(b: BucketState, now: i64, k: nat)
    requires
        b.max_tokens > 0,
        b.refill_interval_ms > 0,
        b.tokens == 0,
        1 <= k <= b.max_tokens,
        now - b.last_refill >= k * b.refill_interval_ms,
        (now - b.last_refill) / (b.refill_interval_ms as int) < 0x1_0000_0000,
    ensures
        grants(b, now, k) == k,
{
    let e = now - b.last_refill;
    let d = b.refill_interval_ms as int;
    assert(e / d >= k) by (nonlinear_arith)
        requires
            e >= k * d,
            d > 0,
            k >= 1,
    {
        vstd::arithmetic::div_mod::lemma_div_is_ordered(k * d, e, d);
        vstd::arithmetic::div_mod::lemma_div_multiples_vanish(k as int, d);
    }
    assert(k * d >= d) by (nonlinear_arith)
        requires
            k >= 1,
            d > 0,
    ;
    law_refill_counts_whole_intervals(b, now);
    let r = refill_spec(b, now);
    assert(r.tokens >= k);
    let (next, ok) = acquire_spec(b, now);
    assert(ok);
    assert(next.last_refill == now && next.max_tokens == b.max_tokens && next.refill_interval_ms == b.refill_interval_ms);
    assert(next.tokens == r.tokens - 1);
    law_bucket_grants_its_tokens(next, now, (k - 1) as nat);
}

/// A normalized message that says "see you" is small talk: a farewell,
/// unless it reads as a greeting.
pub proof fn law_see_you_is_a_farewell(m: Seq<char>)
    requires
        seq_contains(m, "see you"@),
    ensures
        classify_spec(m) == Some(SmallTalk::Farewell) || classify_spec(m) == Some(SmallTalk::Greeting),
        !is_greeting_spec(m) ==> classify_spec(m) == Some(SmallTalk::Farewell),
{
}

/// No blocked cell is walkable, whatever its height and the options.
pub proof fn law_blocked_cells_are_never_walkable(m: NavigationMesh, x: i64, y: i64, z: i64, options: PathfindOptions)
    requires
        m.blocked_set().contains((x, y, z)),
    ensures
        !m.walkable(x, y, z, options),
{
}

/// `c` is the first `:` of `s`.
proof fn first_colon(s: Seq<char>, k: int)
    requires
        0 <= k < s.len(),
        s[k] == ':',
        forall|j: int| 0 <= j < k ==> s[j] != ':',
    ensures
        index_of(s, ':') == Some(k),
{
    lemma_index_of(s, ':');
}

/// A `navigate:` or `location:` tag whose text (with no further colon)
/// holds a comma and at least three comma-separated fields is a coordinate
/// command with those fields, trimmed, and never a place to go to by name.
pub proof fn law_navigate_with_commas_is_coordinates(inner: Seq<char>, location: bool)
    requires
        forall|i: int| 0 <= i < inner.len() ==> inner[i] != ':',
        seq_contains(trim(inner), ","@),
        trimmed_fields(trim(inner), ',').len() >= 3,
    ensures
        classify_tag((if location { "location:"@ } else { "navigate:"@ }) + inner)
            == Some(BracketView::Coordinates(trimmed_fields(trim(inner), ','))),
{
    reveal_strlit("location:");
    reveal_strlit("navigate:");
    let p = if location { "location:"@ } else { "navigate:"@ };
    let re = p + inner;
    assert(p.len() == 9);
    assert(re.subrange(0, 9) =~= p);
    assert(seq_starts_with(re, p));
    first_colon(re, 8);
    assert(re.subrange(0, 8) =~= p.subrange(0, 8));
    assert(re.subrange(9, re.len() as int) =~= inner);
    lemma_index_of(inner, ':');
    assert(index_of(inner, ':') is None);
    assert(split_on(inner, ':') == seq![inner]);
    assert(split_on(re, ':') =~= seq![re.subrange(0, 8)] + seq![inner]);
    assert(field_after_colon(re) == trim(inner));
}

/// The priority levels: critical exactly for an ongoing conversation past
/// its first exchange; otherwise high within 10 blocks, medium within 30
/// blocks or for an NPC of importance 8 or more, low within 100 blocks and
/// background beyond.
pub proof fn law_priority_levels(distance: DistanceBand, active: bool, importance: u8, depth: usize)
    ensures
        (priority_for(distance, active, importance, depth) == Priority::Critical) <==> (active && depth > 0),
        !(active && depth > 0) ==> {
            let p = priority_for(distance, active, importance, depth);
            &&& (p == Priority::High) <==> band_order(distance) <= 1
            &&& (p == Priority::Medium) <==> (band_order(distance) == 2 || (band_order(distance) >= 3 && importance >= 8))
            &&& (p == Priority::Low) <==> (band_order(distance) == 3 && importance < 8)
        },
{
}

/// A normalized message that says goodbye in any of the listed ways is
/// small talk: a farewell, unless it reads as a greeting.
pub proof fn law_farewells(m: Seq<char>)
    requires
        seq_contains(m, "goodbye"@) || seq_contains(m, "bye"@) || seq_contains(m, "see you"@)
            || seq_contains(m, "farewell"@) || seq_contains(m, "later"@),
    ensures
        !is_greeting_spec(m) ==> classify_spec(m) == Some(SmallTalk::Farewell),
        classify_spec(m) is Some,
{
}

/// A normalized message asking how the NPC is, and neither a greeting nor
/// a farewell, is answered as such.
pub proof fn law_wellbeing_question(m: Seq<char>)
    requires
        seq_contains(m, "how are you"@) || seq_contains(m, "how's it going"@),
    ensures
        classify_spec(m) is Some,
        classify_spec(m) == Some(SmallTalk::Wellbeing) || classify_spec(m) == Some(SmallTalk::Greeting)
            || classify_spec(m) == Some(SmallTalk::Farewell),
{
}

/// A walkable cell lies within the mesh's square, in the band from 20
/// below to 10 above the ground, and is not blocked, nor water or lava
/// when those are avoided.
pub proof fn law_walkable_cells_are_open_ground(m: NavigationMesh, x: i64, y: i64, z: i64, options: PathfindOptions)
    requires
        m.walkable(x, y, z, options),
    ensures
        -m.half_width() <= x <= m.half_width(),
        -m.half_width() <= z <= m.half_width(),
        m.ground() - 20 <= y <= m.ground() + 10,
        !m.blocked_set().contains((x, y, z)),
        options.avoid_water ==> !m.water_set().contains((x, y, z)),
        options.avoid_lava ==> !m.lava_set().contains((x, y, z)),
        y < m.ground() ==> m.ground() - y <= options.max_fall_distance,
{
}

/// A cell on the ground level inside the mesh's square that is not
/// blocked, water or lava is walkable.
pub proof fn law_open_ground_is_walkable(m: NavigationMesh, x: i64, z: i64, options: PathfindOptions)
    requires
        -m.half_width() <= x <= m.half_width(),
        -m.half_width() <= z <= m.half_width(),
        !m.blocked_set().contains((x, m.ground(), z)),
        !m.water_set().contains((x, m.ground(), z)),
        !m.lava_set().contains((x, m.ground(), z)),
    ensures
        m.walkable(x, m.ground(), z, options),
{
}

/// A `navigate:` tag whose text (with no further colon) holds no comma
/// names a place: the text before any `|`, trimmed.
pub proof fn law_navigate_without_commas_is_a_place(inner: Seq<char>)
    requires
        forall|i: int| 0 <= i < inner.len() ==> inner[i] != ':' && inner[i] != ',' && inner[i] != '|',
    ensures
        classify_tag("navigate:"@ + inner) == Some(BracketView::Target(trim(inner), None)),
{
    reveal_strlit("navigate:");
    reveal_strlit(",");
    let p = "navigate:"@;
    let re = p + inner;
    assert(re.subrange(0, 9) =~= p);
    first_colon(re, 8);
    assert(re.subrange(9, re.len() as int) =~= inner);
    lemma_index_of(inner, ':');
    assert(index_of(inner, ':') is None);
    assert(split_on(inner, ':') == seq![inner]);
    assert(re.subrange(0, 8) =~= p.subrange(0, 8));
    assert(split_on(re, ':') =~= seq![re.subrange(0, 8)] + seq![inner]);
    let t = trim(inner);
    assert(field_after_colon(re) == t);
    assert forall|i: int| 0 <= i < t.len() implies t[i] != ',' && t[i] != '|' by {
        crate::command_parser::lemma_trim_inside(inner, i);
    }
    if seq_contains(t, ","@) {
        let i = choose|i: int| occurs_at(t, ","@, i);
        assert(t.subrange(i, i + 1)[0] == t[i]);
    }
    lemma_index_of(t, '|');
    assert(split_on(t, '|') == seq![t]);
    trim_twice(inner);
}

/// The text of a tag that opens with `p` (a name and one colon) and goes
/// on with `inner` (no further colon) is `inner`, trimmed.
proof fn field_after_prefix(p: Seq<char>, inner: Seq<char>)
    requires
        p.len() >= 1,
        p.last() == ':',
        forall|i: int| 0 <= i < p.len() - 1 ==> p[i] != ':',
        forall|i: int| 0 <= i < inner.len() ==> inner[i] != ':',
    ensures
        seq_starts_with(p + inner, p),
        field_after_colon(p + inner) == trim(inner),
{
    let re = p + inner;
    let k = p.len() - 1;
    assert(re.subrange(0, p.len() as int) =~= p);
    first_colon(re, k);
    assert(re.subrange(k + 1, re.len() as int) =~= inner);
    lemma_index_of(inner, ':');
    assert(index_of(inner, ':') is None);
    assert(split_on(inner, ':') == seq![inner]);
    assert(split_on(re, ':') =~= seq![re.subrange(0, k)] + seq![inner]);
}

/// A `coords:` or `coordinates:` tag is a coordinate command with its
/// comma-separated fields, trimmed, when there are at least three of them,
/// and no command otherwise.
pub proof fn law_coords_tag(inner: Seq<char>, long_name: bool)
    requires
        forall|i: int| 0 <= i < inner.len() ==> inner[i] != ':',
    ensures
        ({
            let re = (if long_name { "coordinates:"@ } else { "coords:"@ }) + inner;
            let f = trimmed_fields(trim(inner), ',');
            &&& f.len() >= 3 ==> classify_tag(re) == Some(BracketView::Coordinates(f))
            &&& f.len() < 3 ==> classify_tag(re) is None
        }),
{
    reveal_strlit("coordinates:");
    reveal_strlit("coords:");
    reveal_strlit("navigate:");
    reveal_strlit("location:");
    let p = if long_name { "coordinates:"@ } else { "coords:"@ };
    field_after_prefix(p, inner);
    let re = p + inner;
    assert(re[0] == 'c');
    assert(!seq_starts_with(re, "navigate:"@)) by {
        if seq_starts_with(re, "navigate:"@) {
            assert(re.subrange(0, 9)[0] == re[0]);
        }
    }
    assert(!seq_starts_with(re, "location:"@)) by {
        if seq_starts_with(re, "location:"@) {
            assert(re.subrange(0, 9)[0] == re[0]);
        }
    }
}

/// A `move:` tag is a move by offsets with its comma-separated fields,
/// trimmed, when there are at least three of them, and no command
/// otherwise.
pub proof fn law_move_tag(inner: Seq<char>)
    requires
        forall|i: int| 0 <= i < inner.len() ==> inner[i] != ':',
    ensures
        ({
            let re = "move:"@ + inner;
            let f = trimmed_fields(trim(inner), ',');
            &&& f.len() >= 3 ==> classify_tag(re) == Some(BracketView::Relative(f))
            &&& f.len() < 3 ==> classify_tag(re) is None
        }),
{
    reveal_strlit("move:");
    reveal_strlit("coordinates:");
    reveal_strlit("coords:");
    reveal_strlit("navigate:");
    reveal_strlit("location:");
    let p = "move:"@;
    field_after_prefix(p, inner);
    let re = p + inner;
    assert(re[0] == 'm');
    assert forall|q: Seq<char>| q.len() > 0 && q[0] != 'm' implies !seq_starts_with(re, q) by {
        if seq_starts_with(re, q) {
            assert(re.subrange(0, q.len() as int)[0] == re[0]);
        }
    }
    assert("navigate:"@[0] != 'm');
    assert("location:"@[0] != 'm');
    assert("coords:"@[0] != 'm');
    assert("coordinates:"@[0] != 'm');
}

/// A `navigate:` tag `place|speed` (no colon, comma or further bar, and no
/// blank at either end) names the place and the speed, each trimmed.
pub proof fn law_navigate_with_speed(place: Seq<char>, speed: Seq<char>)
    requires
        forall|i: int| 0 <= i < place.len() ==> place[i] != ':' && place[i] != ',' && place[i] != '|',
        forall|i: int| 0 <= i < speed.len() ==> speed[i] != ':' && speed[i] != ',' && speed[i] != '|',
        place.len() > 0 && !is_space(place[0]),
        speed.len() > 0 && !is_space(speed.last()),
    ensures
        classify_tag("navigate:"@ + place + "|"@ + speed)
            == Some(BracketView::Target(trim(place), Some(trim(speed)))),
{
    reveal_strlit("navigate:");
    reveal_strlit("|");
    reveal_strlit(",");
    let inner = place + "|"@ + speed;
    assert(forall|i: int| 0 <= i < inner.len() ==> inner[i] != ':' && inner[i] != ',') by {
        assert forall|i: int| 0 <= i < inner.len() implies inner[i] != ':' && inner[i] != ',' by {
            if i < place.len() {
                assert(inner[i] == place[i]);
            } else if i > place.len() {
                assert(inner[i] == speed[i - place.len() - 1]);
            }
        }
    }
    assert("navigate:"@ + place + "|"@ + speed =~= "navigate:"@ + inner);
    field_after_prefix("navigate:"@, inner);
    assert(leading_space(inner) == 0);
    assert(trailing_space(inner) == 0);
    assert(trim(inner) =~= inner);
    if seq_contains(inner, ","@) {
        let i = choose|i: int| occurs_at(inner, ","@, i);
        assert(inner.subrange(i, i + 1)[0] == inner[i]);
    }
    let k = place.len() as int;
    assert(inner[k] == '|');
    lemma_index_of(inner, '|');
    assert(index_of(inner, '|') == Some(k));
    assert(inner.subrange(0, k) =~= place);
    assert(inner.subrange(k + 1, inner.len() as int) =~= speed);
    lemma_index_of(speed, '|');
    assert(split_on(speed, '|') == seq![speed]);
    assert(split_on(inner, '|') =~= seq![place] + seq![speed]);
}

/// Characters that are not `[` start no tag, so the scan passes over them.
proof fn scan_skips(s: Seq<char>, k: int, m: int)
    requires
        0 <= k <= m <= s.len(),
        forall|i: int| k <= i < m ==> s[i] != '[',
    ensures
        next_tag(s, k) == next_tag(s, m),
    decreases m - k,
{
    if k < m {
        assert(tag_at(s, k) is None);
        scan_skips(s, k + 1, m);
    }
}

/// The first tag of a reply is the first `[`, some text without `]`, and
/// the `]` after it: its content is that text.
pub proof fn law_first_tag(pre: Seq<char>, content: Seq<char>, post: Seq<char>)
    requires
        forall|i: int| 0 <= i < pre.len() ==> pre[i] != '[',
        content.len() > 0,
        forall|i: int| 0 <= i < content.len() ==> content[i] != ']',
    ensures
        first_tag_content(pre + "["@ + content + "]"@ + post) == Some(content),
{
    reveal_strlit("[");
    reveal_strlit("]");
    let s = pre + "["@ + content + "]"@ + post;
    let a = pre.len() as int;
    let b = a + content.len() + 2;
    assert forall|i: int| 0 <= i < a implies s[i] != '[' by {
        assert(s[i] == pre[i]);
    }
    scan_skips(s, 0, a);
    assert(s[a] == '[');
    assert(s[b - 1] == ']');
    assert forall|t: int| a + 1 <= t < b - 1 implies s[t] != ']' by {
        assert(s[t] == content[t - a - 1]);
    }
    close_found(s, a + 1, b - 1);
    assert(tag_at(s, a) == Some(b));
    assert(s.subrange(a + 1, b - 1) =~= content);
}

/// Before a whole refill interval has passed, a refill changes nothing.
pub proof fn law_no_refill_within_an_interval(b: BucketState, now: i64)
    requires
        now - b.last_refill < b.refill_interval_ms,
    ensures
        refill_spec(b, now) == b,
{
}

/// A message that is, once trimmed, a bare greeting word, or that opens
/// with "hello" or "good morning" followed by a space or comma, is a
/// greeting.
pub proof fn law_greetings(m: Seq<char>)
    requires
        trim(m) == "hello"@ || trim(m) == "hi"@ || trim(m) == "hey"@ || trim(m) == "greetings"@
            || seq_starts_with(trim(m), "hello "@) || seq_starts_with(trim(m), "hello,"@)
            || seq_starts_with(trim(m), "good morning "@) || seq_starts_with(trim(m), "good morning,"@),
    ensures
        classify_spec(m) == Some(SmallTalk::Greeting),
{
}

/// A bare acknowledgment is small talk.
pub proof fn law_acknowledgments(m: Seq<char>)
    requires
        m == "ok"@ || m == "okay"@ || m == "yes"@ || m == "sure"@ || m == "alright"@,
    ensures
        classify_spec(m) is Some,
{
}

} // verus!
